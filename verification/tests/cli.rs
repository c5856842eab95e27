use sidewinder_wheel::cli::{parse_hex_u16, DEFAULT_PID, DEFAULT_VID};

/// The same reading with the operations of the standard library.
fn std_reading(s: &str) -> Result<u16, String> {
    let s = s.trim_start_matches("0x").trim_start_matches("0X");
    u16::from_str_radix(s, 16).map_err(|e| e.to_string())
}

#[test]
fn default_ids_read_as_themselves() {
    assert_eq!(parse_hex_u16("0x045e"), Ok(DEFAULT_VID));
    assert_eq!(parse_hex_u16("0x001b"), Ok(DEFAULT_PID));
    assert_eq!(DEFAULT_VID, 0x045e);
    assert_eq!(DEFAULT_PID, 0x001b);
}

#[test]
fn ids_with_and_without_marks() {
    assert_eq!(parse_hex_u16("0x001c"), Ok(0x1c));
    assert_eq!(parse_hex_u16("001c"), Ok(0x1c));
    assert_eq!(parse_hex_u16("0X001C"), Ok(0x1c));
    assert_eq!(parse_hex_u16("0x0x0X1c"), Ok(0x1c));
    assert_eq!(parse_hex_u16("+1c"), Ok(0x1c));
    assert_eq!(parse_hex_u16("ffff"), Ok(0xffff));
    assert_eq!(parse_hex_u16("000000ffff"), Ok(0xffff));
}

#[test]
fn empty_ids() {
    let e = Err("cannot parse integer from empty string".to_string());
    assert_eq!(parse_hex_u16(""), e);
    assert_eq!(parse_hex_u16("0x"), e);
    assert_eq!(parse_hex_u16("0x0X"), e);
}

#[test]
fn invalid_digits() {
    let e = Err("invalid digit found in string".to_string());
    for s in ["+", "-", "-1", "0X0x1", "1 ", " 1", "g", "12é", "+0x1", "++1", "1234g"] {
        assert_eq!(parse_hex_u16(s), e, "{}", s);
    }
}

#[test]
fn too_large_ids() {
    let e = Err("number too large to fit in target type".to_string());
    for s in ["10000", "0xfffff", "12345g"] {
        assert_eq!(parse_hex_u16(s), e, "{}", s);
    }
}

#[test]
fn every_listed_id_reads_back() {
    for id in 0u16..=0xffff {
        assert_eq!(parse_hex_u16(&format!("0x{:04x}", id)), Ok(id));
        assert_eq!(parse_hex_u16(&format!("{:04x}", id)), Ok(id));
        assert_eq!(parse_hex_u16(&format!("0X{:X}", id)), Ok(id));
    }
}

#[test]
fn readings_agree_with_std() {
    let alphabet = ['0', 'x', 'X', '+', '-', '1', 'f', 'F', 'g', 'é'];
    let mut words: Vec<String> = vec![String::new()];
    let mut start = 0usize;
    for _ in 0..5 {
        let end = words.len();
        for i in start..end {
            for c in alphabet {
                let mut w = words[i].clone();
                w.push(c);
                words.push(w);
            }
        }
        start = end;
    }
    for w in &words {
        assert_eq!(parse_hex_u16(w), std_reading(w), "{}", w);
    }
}

#[test]
fn long_readings_agree_with_std() {
    let alphabet = ['0', '1', '9', 'a', 'F', 'g'];
    let mut x: u32 = 7;
    for _ in 0..20000 {
        let mut w = String::new();
        x = x.wrapping_mul(1664525).wrapping_add(1013904223);
        for _ in 0..(3 + (x >> 16) % 6) {
            x = x.wrapping_mul(1664525).wrapping_add(1013904223);
            w.push(alphabet[((x >> 20) % 6) as usize]);
        }
        assert_eq!(parse_hex_u16(&w), std_reading(&w), "{}", w);
    }
}
