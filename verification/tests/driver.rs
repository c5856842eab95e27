use sidewinder_wheel::driver::{Action, Driver, READ_TIMEOUT_MS, REPORT_BUF_SIZE};
use sidewinder_wheel::forward::Output;
use sidewinder_wheel::parser::WheelState;

fn buffer(report: &[u8]) -> [u8; REPORT_BUF_SIZE] {
    let mut buf = [0xeeu8; REPORT_BUF_SIZE];
    buf[..report.len()].copy_from_slice(report);
    buf
}

fn read(d: &mut Driver, report: &[u8], debug: bool) -> Action {
    d.step(Ok(report.len()), &buffer(report), debug)
}

const RIGHT: [u8; 8] = [0x01, 0x01, 0x02, 0x00, 0x00, 0x01, 0x00, 0x00];

#[test]
fn driver_starts_at_rest() {
    let d = Driver::new();
    assert_eq!(d.prev_state, WheelState::default());
    assert_eq!(d.consecutive_errors, 0);
    assert_eq!(READ_TIMEOUT_MS, 50);
}

#[test]
fn a_timeout_changes_nothing() {
    let mut d = Driver::new();
    d.step(Err(()), &[], false);
    let before = d;
    assert_eq!(read(&mut d, &[], true), Action::Continue);
    assert_eq!(d, before);
    assert_eq!(d.consecutive_errors, 1);
}

#[test]
fn a_report_is_forwarded_once() {
    let mut d = Driver::new();
    assert_eq!(
        read(&mut d, &RIGHT, false),
        Action::Forward(vec![
            Output::Event { type_: 3, code: 0, value: 64 },
            Output::Event { type_: 1, code: 0x120, value: 1 },
            Output::Event { type_: 0, code: 0, value: 0 },
        ])
    );
    assert_eq!(Some(d.prev_state), WheelState::parse(&RIGHT));
    assert_eq!(read(&mut d, &RIGHT, false), Action::Forward(vec![]));
}

#[test]
fn only_the_bytes_that_were_read_count() {
    let mut d = Driver::new();
    read(&mut d, &[0x01, 0x00, 0x02, 0, 0, 0], false);
    assert_eq!(d.prev_state.buttons2, 0);
}

#[test]
fn debugging_shows_the_dump_first() {
    let mut d = Driver::new();
    assert_eq!(
        read(&mut d, &RIGHT, true),
        Action::Forward(vec![
            Output::Line("[RAW  8 bytes] 01 01 02 00 00 01 00 00".to_string()),
            Output::Line(
                "  steer=    64  throttle=  0  brake=  0  buttons=0b00000001 0b00000000".to_string()
            ),
            Output::Event { type_: 3, code: 0, value: 64 },
            Output::Line("  ABS_X (steering)  = 64".to_string()),
            Output::Event { type_: 1, code: 0x120, value: 1 },
            Output::Line("  BTN 0 (bit 0) = PRESSED".to_string()),
            Output::Event { type_: 0, code: 0, value: 0 },
        ])
    );
}

#[test]
fn an_unparsed_report_keeps_the_state_and_clears_the_errors() {
    let mut d = Driver::new();
    read(&mut d, &RIGHT, false);
    let state = d.prev_state;
    d.step(Err(()), &[], false);
    d.step(Err(()), &[], false);
    assert_eq!(read(&mut d, &[0x02, 0, 0], false), Action::Forward(vec![]));
    assert_eq!(d.prev_state, state);
    assert_eq!(d.consecutive_errors, 0);
    assert_eq!(
        read(&mut d, &[0x02], true),
        Action::Forward(vec![
            Output::Line("[RAW  1 bytes] 02".to_string()),
            Output::Line(
                "  (could not parse this report — check byte layout assumptions)".to_string()
            ),
        ])
    );
}

#[test]
fn the_fifth_error_in_a_row_stops_the_driver() {
    let mut d = Driver::new();
    for errors in 1u32..5 {
        assert_eq!(d.step(Err(()), &[], false), Action::Retry { errors, pause_ms: 200 });
        assert_eq!(read(&mut d, &[], false), Action::Continue);
    }
    assert_eq!(
        d.step(Err(()), &[], false),
        Action::Stop {
            errors: 5,
            message: "Too many consecutive HID read errors (5). Device disconnected? Exiting."
                .to_string(),
        }
    );
}

#[test]
fn a_report_between_errors_starts_the_count_anew() {
    let mut d = Driver::new();
    for _ in 0..100 {
        for errors in 1u32..5 {
            assert_eq!(d.step(Err(()), &[], false), Action::Retry { errors, pause_ms: 200 });
        }
        read(&mut d, &RIGHT, false);
    }
    assert_eq!(d.step(Err(()), &[], false), Action::Retry { errors: 1, pause_ms: 200 });
}

#[test]
fn the_device_follows_the_wheel() {
    let mut d = Driver::new();
    let mut axes = [0i32; 6];
    let mut keys = [0i32; 8];
    let mut x: u32 = 3;
    for _ in 0..5000 {
        x = x.wrapping_mul(1664525).wrapping_add(1013904223);
        let report = [
            if x % 7 == 0 { 2 } else { 1 },
            (x >> 3) as u8,
            (x >> 11) as u8,
            (x >> 24) as u8,
            (x >> 19) as u8,
            (x >> 7) as u8,
        ];
        if let Action::Forward(outputs) = read(&mut d, &report[..(x >> 28) as usize % 7], x % 2 == 0) {
            for o in outputs {
                match o {
                    Output::Event { type_: 3, code, value } => axes[code as usize] = value,
                    Output::Event { type_: 1, code, value } => keys[code as usize - 0x120] = value,
                    _ => {}
                }
            }
        }
        let s = d.prev_state;
        assert_eq!(axes[0], s.steering as i32);
        assert_eq!(axes[2], s.throttle as i32);
        assert_eq!(axes[5], s.brake as i32);
        for i in 0..8u8 {
            assert_eq!(keys[i as usize] == 1, s.button(i));
        }
    }
    assert!(d.prev_state != WheelState::default());
}
