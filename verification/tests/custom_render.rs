use mtui::app::custom::{collect_words, continuation_of};
use mtui::custom::{BitEntry, CustomRepr, CustomRule, EnumEntry};
use mtui::modbus::WordOrder;
use mtui::register::RegisterType::{Holding, Input};

fn rule(address: u16, repr: CustomRepr) -> CustomRule {
    CustomRule {
        address,
        repr,
        ops: Vec::new(),
        enum_map: Vec::new(),
        bits: Vec::new(),
        next: Vec::new(),
        decimals: None,
        prefix: String::new(),
        suffix: String::new(),
        word_order: None,
    }
}

#[test]
fn too_few_words_show_nothing() {
    let r = rule(0, CustomRepr::U32);
    assert_eq!(r.render(&[1], WordOrder::ABCD, Some(1), "1"), "");
}

#[test]
fn an_enumeration_entry_comes_before_bits_and_number() {
    let mut r = rule(0, CustomRepr::U16);
    r.enum_map = vec![EnumEntry { value: 1, text: "on".to_string() }, EnumEntry { value: 1, text: "late".to_string() }];
    r.bits = vec![BitEntry { bit: 0, name: "run".to_string() }];
    r.prefix = "<".to_string();
    r.suffix = ">".to_string();
    assert_eq!(r.render(&[1], WordOrder::ABCD, Some(1), "1"), "<on>");
    assert!(!r.gives_number(Some(1)));
    assert_eq!(r.render(&[3], WordOrder::ABCD, Some(3), "3"), "<run>");
    assert_eq!(r.render(&[2], WordOrder::ABCD, None, "2"), "<(none)>");
}

#[test]
fn bit_names_read_all_words_in_order() {
    let mut r = rule(0, CustomRepr::U32);
    r.bits = vec![BitEntry { bit: 0, name: "lo".to_string() }, BitEntry { bit: 16, name: "hi".to_string() }];
    assert_eq!(r.render(&[1, 1], WordOrder::ABCD, Some(65537), "x"), "lo\u{b7}hi");
    assert_eq!(r.render(&[0, 1], WordOrder::ABCD, Some(1), "x"), "lo");
}

#[test]
fn without_entries_the_number_is_shown() {
    let mut r = rule(0, CustomRepr::I16);
    r.suffix = " V".to_string();
    assert_eq!(r.render(&[40000], WordOrder::ABCD, Some(-25536), "-2553.6"), "-2553.6 V");
    assert!(r.gives_number(Some(-25536)));
    assert!(r.gives_number(None));
}

#[test]
fn further_registers_show_whose_part_they_are() {
    let mut far = rule(10, CustomRepr::U32);
    far.next = vec![20];
    let rules = vec![((Holding, 5), rule(5, CustomRepr::U32)), ((Holding, 10), far), ((Input, 5), rule(5, CustomRepr::U64))];
    assert_eq!(continuation_of(&rules, (Holding, 6)), Some("part of \u{2191}".to_string()));
    assert_eq!(continuation_of(&rules, (Holding, 20)), Some("part of 10".to_string()));
    assert_eq!(continuation_of(&rules, (Input, 8)), Some("part of \u{2191}".to_string()));
    assert_eq!(continuation_of(&rules, (Holding, 7)), None);
    assert_eq!(continuation_of(&rules, (Holding, 5)), None);
}

#[test]
fn words_stop_at_the_first_register_not_read() {
    assert_eq!(collect_words(7, &[Some(1), Some(2)]), vec![7, 1, 2]);
    assert_eq!(collect_words(7, &[Some(1), None, Some(3)]), vec![7, 1]);
    assert_eq!(collect_words(7, &[]), vec![7]);
}
