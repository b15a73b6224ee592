use progrs::flags::{parse_flag_field, Flags, HasFlag};

#[test]
fn various() {
    let f = 0x514;
    let f2 = 0x100;
    let f3 = 0x400;

    assert!(f.has_flag(Flags::ControlPlayer));
    assert!(f.has_flag(Flags::TypePlayer));
    assert!(f2.has_flag(Flags::ControlPlayer));
    assert!(!f2.has_flag(Flags::TypePlayer));
    assert!(!f3.has_flag(Flags::ControlPlayer));
    assert!(f3.has_flag(Flags::TypePlayer));
}

#[test]
fn with_parse() {
    let f = "0x514";
    let f = f.strip_prefix("0x").unwrap();
    let f = i32::from_str_radix(f, 16).unwrap();

    assert!(f == 1300);

    assert!(f.has_flag(Flags::ControlPlayer));
    assert!(f.has_flag(Flags::TypePlayer));
}

#[test]
fn flag_field_reads_hex() {
    assert_eq!(parse_flag_field(b"0x514"), Some(0x514));
    assert_eq!(parse_flag_field(b"0x0"), Some(0));
    assert_eq!(parse_flag_field(b"0xAbC"), Some(0xabc));
    assert_eq!(parse_flag_field(b"0x7fffffff"), Some(i32::MAX));
}

#[test]
fn flag_field_rejects_malformed() {
    assert_eq!(parse_flag_field(b"0x"), None);
    assert_eq!(parse_flag_field(b"514"), None);
    assert_eq!(parse_flag_field(b"0y514"), None);
    assert_eq!(parse_flag_field(b"0x51g"), None);
    assert_eq!(parse_flag_field(b"0x80000000"), None);
    assert_eq!(parse_flag_field(b""), None);
}

#[test]
fn flag_bits() {
    assert_eq!(Flags::ControlPlayer.bits(), 0x100);
    assert_eq!(Flags::TypePlayer.bits(), 0x400);
}
