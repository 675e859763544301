use mtui::custom::{parse_bit, word_addresses, BitEntry, CustomRepr};

fn bit(bit: u8, name: &str) -> BitEntry {
    BitEntry { bit, name: name.to_string() }
}

#[test]
fn parse_bit_helpers() {
    assert_eq!(parse_bit("0=run").unwrap(), bit(0, "run"));
    assert_eq!(parse_bit(" 15 = heartbeat ").unwrap(), bit(15, "heartbeat"));
    assert!(parse_bit("run").is_err());
    assert!(parse_bit("64=x").is_err());
    assert!(parse_bit("a=x").is_err());
    assert!(parse_bit("3=").is_err());
}

#[test]
fn word_addresses_default_contiguous() {
    assert_eq!(word_addresses(100, CustomRepr::F64, &[]), vec![100, 101, 102, 103]);
}

#[test]
fn word_addresses_jump_then_contiguous() {
    assert_eq!(word_addresses(520, CustomRepr::U32, &[524]), vec![520, 524]);
    assert_eq!(word_addresses(520, CustomRepr::F64, &[524]), vec![520, 524, 525, 526]);
    assert_eq!(word_addresses(520, CustomRepr::F64, &[524, 530]), vec![520, 524, 530, 531]);
}

#[test]
fn word_addresses_single_register() {
    assert_eq!(word_addresses(7, CustomRepr::U16, &[99]), vec![7]);
}

#[test]
fn max_registers_covers_all_reprs() {
    let widest = CustomRepr::ALL.iter().map(|r| r.register_count()).max().unwrap();
    assert_eq!(widest, CustomRepr::MAX_REGISTERS);
}
