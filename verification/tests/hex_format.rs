use dbg_expy::common::format::{format_dec, format_hex};
use dbg_expy::common::{from_hex, HexError};

#[test]
fn from_hex_plain() {
    assert_eq!(from_hex("1f"), Ok(0x1f));
    assert_eq!(from_hex("DEADbeef"), Ok(0xdeadbeef));
}

#[test]
fn from_hex_strips_every_prefix() {
    assert_eq!(from_hex("0x10"), Ok(0x10));
    assert_eq!(from_hex("0x0x10"), Ok(0x10));
    assert_eq!(from_hex("0x"), Err(HexError::Empty));
    assert_eq!(from_hex("0X10"), Err(HexError::InvalidDigit));
}

#[test]
fn from_hex_errors() {
    assert_eq!(from_hex(""), Err(HexError::Empty));
    assert_eq!(from_hex("+"), Err(HexError::InvalidDigit));
    assert_eq!(from_hex("+a"), Ok(10));
    assert_eq!(from_hex("-a"), Err(HexError::InvalidDigit));
    assert_eq!(from_hex("12g"), Err(HexError::InvalidDigit));
    assert_eq!(from_hex("rsp"), Err(HexError::InvalidDigit));
    assert_eq!(from_hex("10000000000000000"), Err(HexError::PosOverflow));
    assert_eq!(from_hex("ffffffffffffffff"), Ok(usize::MAX));
    assert_eq!(from_hex("000000000000000000001"), Ok(1));
    // the overflow comes before the bad digit
    assert_eq!(from_hex("10000000000000000z"), Err(HexError::PosOverflow));
}

#[test]
fn from_hex_agrees_with_std() {
    for s in ["", "+", "+0", "0", "abc", "ABC", "12345678", "ffffffffffffffff", "1ffffffffffffffff", "g", "1 2", "é"] {
        let std = usize::from_str_radix(s, 16).map_err(|e| format!("{:?}", e.kind()));
        let ours = from_hex(s).map_err(|e| format!("{:?}", e));
        assert_eq!(std, ours, "input {:?}", s);
    }
}

#[test]
fn format_hex_widths() {
    assert_eq!(format_hex(0x1234, 16, false), "0000000000001234");
    assert_eq!(format_hex(0xabc, 16, true), "0000000000000ABC");
    assert_eq!(format_hex(0x5, 3, false), "005");
    assert_eq!(format_hex(0x12345, 3, false), "12345");
    assert_eq!(format_hex(0, 0, false), "0");
    assert_eq!(format_hex(u64::MAX, 0, false), "ffffffffffffffff");
}

#[test]
fn format_dec_values() {
    assert_eq!(format_dec(0), "0");
    assert_eq!(format_dec(14), "14");
    assert_eq!(format_dec(u64::MAX), u64::MAX.to_string());
}

#[test]
fn hex_round_trip() {
    for v in [0u64, 1, 0xf, 0x10, 0x7fff_ffff_ffff, u64::MAX] {
        for w in [0usize, 3, 16, 20] {
            assert_eq!(from_hex(&format_hex(v, w, false)), Ok(v as usize));
            assert_eq!(from_hex(&format_hex(v, w, true)), Ok(v as usize));
        }
    }
}
