use mtui::app::custom::{build_custom_rule, preview_words, remove_rule};
use mtui::custom::{CustomRepr, CustomRule};
use mtui::modbus::WordOrder;
use mtui::register::RegisterType::{Holding, Input};
use mtui::state::CustomParams;

fn rule(address: u16, decimals: Option<u8>) -> CustomRule {
    CustomRule {
        address,
        repr: CustomRepr::U32,
        ops: Vec::new(),
        enum_map: Vec::new(),
        bits: Vec::new(),
        next: vec![address + 5],
        decimals,
        prefix: "~".to_string(),
        suffix: " kWh".to_string(),
        word_order: Some(WordOrder::CDAB),
    }
}

#[test]
fn the_editor_opens_on_the_rule_of_the_register() {
    let rules = vec![((Holding, 4), rule(4, Some(2)))];
    let p = CustomParams::open(&rules, (Holding, 4));
    assert!(p.existed);
    assert_eq!((p.repr, p.word_order, p.decimals.as_str()), (CustomRepr::U32, Some(WordOrder::CDAB), "2"));
    assert_eq!(p.next, vec![9]);
    assert_eq!((p.prefix.as_str(), p.suffix.as_str()), ("~", " kWh"));
    let blank = CustomParams::open(&rules, (Input, 4));
    assert!(!blank.existed);
    assert_eq!((blank.register_type, blank.address, blank.repr), (Input, 4, CustomRepr::U16));
    assert_eq!(blank.decimals, "");
}

#[test]
fn a_rule_is_built_from_the_editor() {
    let rules = vec![((Holding, 4), rule(4, Some(2)))];
    let mut p = CustomParams::open(&rules, (Holding, 4));
    p.decimals = " 17 ".to_string();
    let (cell, built) = build_custom_rule(&p).unwrap();
    assert_eq!(cell, (Holding, 4));
    assert_eq!(built.decimals, Some(10), "at most ten decimals");
    assert_eq!(built.next, vec![9]);
    p.decimals = "x".to_string();
    assert_eq!(build_custom_rule(&p).unwrap_err(), "decimals: invalid");
    p.decimals = "  ".to_string();
    assert_eq!(build_custom_rule(&p).unwrap().1.decimals, None);
}

#[test]
fn committing_saves_the_rule_in_register_order() {
    let mut rules = vec![((Input, 1), rule(1, None))];
    let mut p = CustomParams::open(&rules, (Holding, 8));
    p.decimals = "1".to_string();
    assert!(p.commit_to(&mut rules));
    assert_eq!(rules.len(), 2);
    assert_eq!(rules[0].0, (Holding, 8));
    assert_eq!(rules[0].1.decimals, Some(1));
    p.decimals = "one".to_string();
    assert!(!p.commit_to(&mut rules));
    assert_eq!(p.error.as_deref(), Some("decimals: invalid"));
    assert!(remove_rule(&mut rules, (Holding, 8)));
    assert!(!remove_rule(&mut rules, (Holding, 8)));
    assert_eq!(rules.len(), 1);
}

#[test]
fn a_preview_lists_the_words_it_reads() {
    let (words, text) = preview_words(&[10, 15], &[Some(1), Some(65535)]).unwrap();
    assert_eq!(words, vec![1, 65535]);
    assert_eq!(text, "10:1  15:65535");
    assert_eq!(preview_words(&[10, 15], &[Some(1), None]).unwrap_err(), "waiting for register 15");
    assert_eq!(preview_words(&[], &[]).unwrap(), (vec![], String::new()));
}
