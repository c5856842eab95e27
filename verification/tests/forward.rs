use sidewinder_wheel::forward::{forward_state, Output};
use sidewinder_wheel::parser::WheelState;
use sidewinder_wheel::uinput::{device_setup, SetupStep};

fn event(type_: u16, code: u16, value: i32) -> Output {
    Output::Event { type_, code, value }
}

fn line(s: &str) -> Output {
    Output::Line(s.to_string())
}

fn state(steering: i16, throttle: u8, brake: u8, buttons: u8, buttons2: u8) -> WheelState {
    WheelState { steering, throttle, brake, buttons, buttons2 }
}

#[test]
fn nothing_changed() {
    let s = state(64, 1, 2, 3, 4);
    assert_eq!(forward_state(&s, &s, false), vec![]);
    assert_eq!(forward_state(&s, &s, true), vec![]);
}

#[test]
fn second_button_byte_is_not_forwarded() {
    assert_eq!(forward_state(&state(0, 0, 0, 0, 0), &state(0, 0, 0, 0, 0xff), true), vec![]);
}

#[test]
fn everything_changed() {
    assert_eq!(
        forward_state(&WheelState::default(), &state(-32768, 255, 7, 0b1000_0001, 9), false),
        vec![
            event(3, 0, -32768),
            event(3, 2, 255),
            event(3, 5, 7),
            event(1, 0x120, 1),
            event(1, 0x127, 1),
            event(0, 0, 0),
        ]
    );
}

#[test]
fn changes_with_debug_lines() {
    assert_eq!(
        forward_state(&state(0, 9, 0, 0b0000_0110, 0), &state(-128, 9, 40, 0b0000_0101, 0), true),
        vec![
            event(3, 0, -128),
            line("  ABS_X (steering)  = -128"),
            event(3, 5, 40),
            line("  ABS_RZ (brake)    = 40"),
            event(1, 0x120, 1),
            line("  BTN 0 (bit 0) = PRESSED"),
            event(1, 0x121, 0),
            line("  BTN 1 (bit 1) = released"),
            event(0, 0, 0),
        ]
    );
    assert_eq!(
        forward_state(&state(0, 9, 0, 0, 0), &state(0, 10, 0, 0, 0), true),
        vec![event(3, 2, 10), line("  ABS_Z (throttle)  = 10"), event(0, 0, 0)]
    );
}

#[test]
fn every_button_change_mirrors_the_bits() {
    for prev in 0u8..=255 {
        for next in 0u8..=255 {
            let p = state(0, 0, 0, prev, 0);
            let n = state(0, 0, 0, next, 0);
            let outputs = forward_state(&p, &n, false);
            let mut shown = prev;
            for o in &outputs {
                if let Output::Event { type_: 1, code, value } = o {
                    let bit = 1u8 << (code - 0x120);
                    assert!(n.button((code - 0x120) as u8) == (*value == 1));
                    shown = if *value == 1 { shown | bit } else { shown & !bit };
                }
            }
            assert_eq!(shown, next);
            let changed = (prev ^ next).count_ones() as usize;
            assert_eq!(outputs.len(), if changed > 0 { changed + 1 } else { 0 });
            if changed > 0 {
                assert_eq!(outputs[changed], event(0, 0, 0));
            }
        }
    }
}

#[test]
fn forwarded_events_were_declared() {
    let steps = device_setup();
    let outputs =
        forward_state(&WheelState::default(), &state(32704, 255, 255, 0xff, 0), false);
    assert_eq!(outputs.len(), 12);
    for o in outputs {
        if let Output::Event { type_, code, value } = o {
            assert!(steps.contains(&SetupStep::SetEvbit(type_ as i32)));
            if type_ == 1 {
                assert!(steps.contains(&SetupStep::SetKeybit(code as i32)));
            }
            if type_ == 3 {
                assert!(steps.contains(&SetupStep::SetAbsbit(code as i32)));
                assert!(steps.iter().any(|s| match s {
                    SetupStep::AbsSetup(a) =>
                        a.code == code && a.info.minimum <= value && value <= a.info.maximum,
                    _ => false,
                }));
            }
        }
    }
}
