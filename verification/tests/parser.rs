use sidewinder_wheel::parser::{dump_report, rejection, Rejection, WheelState};

fn steering(lo: u8, hi: u8) -> i16 {
    WheelState::parse(&[0x01, lo, hi, 0, 0, 0, 0, 0]).unwrap().steering
}

#[test]
fn default_state_is_at_rest() {
    let s = WheelState::default();
    assert_eq!(
        s,
        WheelState { steering: 0, throttle: 0, brake: 0, buttons: 0, buttons2: 0 }
    );
}

#[test]
fn parses_every_field() {
    let s = WheelState::parse(&[0x01, 0x34, 0x01, 0x56, 0x78, 0x9a, 0xbc, 0xde]).unwrap();
    assert_eq!(
        s,
        WheelState {
            steering: (0x134 - 512) * 64,
            throttle: 0x56,
            brake: 0x78,
            buttons: 0x9a,
            buttons2: 0xbc,
        }
    );
}

#[test]
fn steering_extremes_and_centre() {
    assert_eq!(steering(0x00, 0x00), -32768);
    assert_eq!(steering(0x00, 0x02), 0);
    assert_eq!(steering(0xff, 0x03), 32704);
    assert_eq!(steering(0xff, 0x01), -64);
    assert_eq!(steering(0x01, 0x02), 64);
    assert_eq!(steering(0xfe, 0x01), -128);
}

#[test]
fn steering_follows_the_formula_and_increases() {
    let mut last: i32 = -32769;
    for raw in 0u16..1024 {
        let b = raw.to_le_bytes();
        let got = steering(b[0], b[1]) as i32;
        assert_eq!(got, ((raw as i32 - 512) * 64).clamp(-32768, 32767));
        assert!(got > last);
        last = got;
    }
}

#[test]
fn steering_ignores_the_upper_six_bits() {
    for hi in 0u8..=255 {
        assert_eq!(steering(0x80, hi), steering(0x80, hi & 0x03));
    }
}

#[test]
fn short_reports_are_rejected() {
    for len in 0..6usize {
        let report = vec![0x01u8; len];
        assert_eq!(WheelState::parse(&report), None);
        assert_eq!(rejection(&report), Some(Rejection::TooShort { len }));
    }
}

#[test]
fn other_report_ids_are_rejected() {
    for id in 0u8..=255 {
        let report = [id, 0, 2, 0, 0, 0, 0, 0];
        assert_eq!(WheelState::parse(&report).is_some(), id == 1);
        if id == 1 {
            assert_eq!(rejection(&report), None);
        } else {
            assert_eq!(rejection(&report), Some(Rejection::UnexpectedId { id }));
        }
    }
}

#[test]
fn six_bytes_have_no_second_button_byte() {
    let s = WheelState::parse(&[0x01, 0, 2, 1, 2, 3]).unwrap();
    assert_eq!(s.buttons, 3);
    assert_eq!(s.buttons2, 0);
    assert_eq!(WheelState::parse(&[0x01, 0, 2, 1, 2, 3, 0]), Some(s));
}

#[test]
fn bytes_after_the_seventh_do_not_matter() {
    let a = WheelState::parse(&[0x01, 9, 8, 7, 6, 5, 4]);
    let b = WheelState::parse(&[0x01, 9, 8, 7, 6, 5, 4, 3, 2, 1]);
    assert!(a.is_some());
    assert_eq!(a, b);
}

#[test]
fn rejection_messages() {
    assert_eq!(
        Rejection::TooShort { len: 4 }.message(),
        "Report too short: 4 bytes (expected ≥ 6). Check --debug output to see the real report length."
    );
    assert_eq!(
        Rejection::UnexpectedId { id: 0x0a }.message(),
        "Ignoring report with ID 0x0a"
    );
}

#[test]
fn button_reads_both_bytes() {
    let s = WheelState { buttons: 0b1000_0001, buttons2: 0b0100_0010, ..WheelState::default() };
    let pressed: Vec<u8> = (0u8..=255).filter(|n| s.button(*n)).collect();
    assert_eq!(pressed, vec![0, 7, 9, 14]);
}

#[test]
fn dump_of_a_parsed_report() {
    assert_eq!(
        dump_report(&[0x01, 0xfe, 0x01, 0xff, 0x00, 0x01, 0x00, 0x00]),
        vec![
            "[RAW  8 bytes] 01 fe 01 ff 00 01 00 00",
            "  steer=  -128  throttle=255  brake=  0  buttons=0b00000001 0b00000000",
        ]
    );
    assert_eq!(
        dump_report(&[0x01, 0x00, 0x02, 0xff, 0x00, 0x01, 0x00, 0x00]),
        vec![
            "[RAW  8 bytes] 01 00 02 ff 00 01 00 00",
            "  steer=     0  throttle=255  brake=  0  buttons=0b00000001 0b00000000",
        ]
    );
}

#[test]
fn dump_of_other_reports() {
    let unparsed = "  (could not parse this report — check byte layout assumptions)";
    assert_eq!(dump_report(&[]), vec!["[RAW  0 bytes] ", unparsed]);
    assert_eq!(dump_report(&[0xab]), vec!["[RAW  1 bytes] ab", unparsed]);
    assert_eq!(
        dump_report(&[0x02, 0, 0, 0, 0, 0]),
        vec!["[RAW  6 bytes] 02 00 00 00 00 00", unparsed]
    );
}

#[test]
fn dump_agrees_with_std_formatting() {
    for k in 0u32..2000 {
        let mut x = k.wrapping_mul(2654435761).wrapping_add(12345);
        let mut report: Vec<u8> = vec![0x01];
        for _ in 0..(6 + k % 100) {
            x = x.wrapping_mul(1664525).wrapping_add(1013904223);
            report.push((x >> 24) as u8);
        }
        let hex: Vec<String> = report.iter().map(|b| format!("{:02x}", b)).collect();
        let s = WheelState::parse(&report).unwrap();
        let lines = dump_report(&report);
        assert_eq!(lines.len(), 2);
        assert_eq!(lines[0], format!("[RAW {:2} bytes] {}", report.len(), hex.join(" ")));
        assert_eq!(
            lines[1],
            format!(
                "  steer={:6}  throttle={:3}  brake={:3}  buttons=0b{:08b} 0b{:08b}",
                s.steering, s.throttle, s.brake, s.buttons, s.buttons2
            )
        );
        for (i, b) in report.iter().enumerate() {
            let at = lines[0].len() - hex.join(" ").len() + 3 * i;
            assert_eq!(&lines[0][at..at + 2], format!("{:02x}", b));
        }
    }
}
