use mtui::config::{RegisterEntry, Registers};
use mtui::custom::{CustomRepr, CustomRule};
use mtui::register::RegisterType;

fn rule(address: u16, repr: CustomRepr) -> CustomRule {
    CustomRule {
        address,
        repr,
        ops: Vec::new(),
        enum_map: Vec::new(),
        bits: Vec::new(),
        next: Vec::new(),
        decimals: Some(1),
        prefix: String::new(),
        suffix: " V".to_string(),
        word_order: None,
    }
}

#[test]
fn views_round_trip_in_register_order() {
    let pins = vec![(RegisterType::Holding, 3), (RegisterType::Coil, 1)];
    let labels = vec![
        ((RegisterType::Holding, 3), "Setpoint".to_string()),
        ((RegisterType::Input, 7), "Voltage".to_string()),
    ];
    let rules = vec![((RegisterType::Input, 7), rule(7, CustomRepr::U32))];
    let regs = Registers::from_views(&pins, &labels, &rules);
    assert_eq!(regs.holdings.len(), 1);
    assert_eq!(regs.inputs.len(), 1);
    assert_eq!(regs.coils.len(), 1);
    assert_eq!(regs.discretes.len(), 0);
    assert_eq!(regs.pins(), 2);
    assert_eq!(regs.labels(), 2);
    assert_eq!(regs.rules(), 1);
    let (p, l, r) = regs.into_views();
    assert_eq!(p, pins);
    assert_eq!(l, labels);
    assert_eq!(r, rules);
}

#[test]
fn views_are_sorted_by_type_then_address() {
    let pins = vec![(RegisterType::Discrete, 2), (RegisterType::Holding, 9), (RegisterType::Holding, 1)];
    let regs = Registers::from_views(&pins, &[], &[]);
    let (p, l, r) = regs.into_views();
    assert_eq!(
        p,
        vec![(RegisterType::Holding, 1), (RegisterType::Holding, 9), (RegisterType::Discrete, 2)]
    );
    assert!(l.is_empty());
    assert!(r.is_empty());
}

#[test]
fn last_label_given_a_register_wins() {
    let labels = vec![
        ((RegisterType::Coil, 4), "first".to_string()),
        ((RegisterType::Coil, 4), "second".to_string()),
    ];
    let regs = Registers::from_views(&[], &labels, &[]);
    assert_eq!(regs.coils.len(), 1);
    assert_eq!(
        regs.coils[0],
        RegisterEntry { address: 4, label: Some("second".to_string()), pinned: false, custom: None }
    );
}

#[test]
fn rules_are_placed_at_their_register() {
    let mut regs = Registers::new();
    regs.holdings.push(RegisterEntry {
        address: 20,
        label: None,
        pinned: false,
        custom: Some(rule(0, CustomRepr::I16)),
    });
    let (_, _, r) = regs.into_views();
    assert_eq!(r.len(), 1);
    assert_eq!(r[0].0, (RegisterType::Holding, 20));
    assert_eq!(r[0].1.address, 20);
    assert_eq!(r[0].1.repr, CustomRepr::I16);
}
