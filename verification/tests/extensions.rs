use cooklang_bindings::extensions::{
    extensions_all, extensions_compat, extensions_custom, extensions_empty, Extensions,
};

fn all_true() -> Extensions {
    Extensions {
        component_modifiers: true,
        component_alias: true,
        advanced_units: true,
        modes: true,
        inline_quantities: true,
        range_values: true,
        timer_requires_time: true,
        intermediate_preparations: true,
    }
}

#[test]
fn all_enables_every_extension() {
    assert_eq!(extensions_all(), all_true());
}

#[test]
fn empty_enables_nothing() {
    let e = extensions_empty();
    assert_eq!(e, extensions_custom(false, false, false, false, false, false, false, false));
}

#[test]
fn compat_is_all_but_timer_requires_time() {
    let e = extensions_compat();
    assert_eq!(e, Extensions { timer_requires_time: false, ..all_true() });
}

#[test]
fn custom_sets_each_field_in_order() {
    let e = extensions_custom(true, false, true, false, true, false, true, false);
    assert!(e.component_modifiers);
    assert!(!e.component_alias);
    assert!(e.advanced_units);
    assert!(!e.modes);
    assert!(e.inline_quantities);
    assert!(!e.range_values);
    assert!(e.timer_requires_time);
    assert!(!e.intermediate_preparations);
}

#[test]
fn named_configurations_match_the_parser_constants() {
    assert_eq!(extensions_all().to_parser(), cooklang::Extensions::all());
    assert_eq!(extensions_empty().to_parser(), cooklang::Extensions::empty());
    assert_eq!(extensions_compat().to_parser(), cooklang::Extensions::COMPAT);
}

#[test]
fn each_switch_sets_its_own_flag() {
    let one = |f: fn(&mut Extensions)| {
        let mut e = extensions_empty();
        f(&mut e);
        e.to_parser()
    };
    assert_eq!(one(|e| e.component_modifiers = true), cooklang::Extensions::COMPONENT_MODIFIERS);
    assert_eq!(one(|e| e.component_alias = true), cooklang::Extensions::COMPONENT_ALIAS);
    assert_eq!(one(|e| e.advanced_units = true), cooklang::Extensions::ADVANCED_UNITS);
    assert_eq!(one(|e| e.modes = true), cooklang::Extensions::MODES);
    assert_eq!(one(|e| e.inline_quantities = true), cooklang::Extensions::INLINE_QUANTITIES);
    assert_eq!(one(|e| e.range_values = true), cooklang::Extensions::RANGE_VALUES);
    assert_eq!(one(|e| e.timer_requires_time = true), cooklang::Extensions::TIMER_REQUIRES_TIME);
    assert_eq!(
        one(|e| e.intermediate_preparations = true),
        cooklang::Extensions::INTERMEDIATE_PREPARATIONS
    );
    assert_eq!(one(|e| e.intermediate_preparations = true).bits(), (1 << 11) | (1 << 1));
}

#[test]
fn reading_flags_back_gives_the_switches() {
    let flags = cooklang::Extensions::MODES | cooklang::Extensions::RANGE_VALUES;
    let e = Extensions::from_parser(&flags);
    assert_eq!(
        e,
        extensions_custom(false, false, false, true, false, true, false, false)
    );
    assert_eq!(e.to_parser(), flags);
}

#[test]
fn intermediate_preparations_turns_component_modifiers_on() {
    let e = extensions_custom(false, false, false, false, false, false, false, true);
    let back = Extensions::from_parser(&e.to_parser());
    assert_eq!(back, Extensions { component_modifiers: true, ..e });
}

#[test]
fn intermediate_bit_alone_does_not_read_as_intermediate_preparations() {
    let flags = cooklang::Extensions::from_bits_retain(1 << 11);
    let e = Extensions::from_parser(&flags);
    assert!(!e.intermediate_preparations);
    assert!(!e.component_modifiers);
}

#[test]
fn round_trip_of_every_named_flag_set() {
    for flags in [
        cooklang::Extensions::all(),
        cooklang::Extensions::empty(),
        cooklang::Extensions::COMPAT,
        cooklang::Extensions::INTERMEDIATE_PREPARATIONS | cooklang::Extensions::ADVANCED_UNITS,
    ] {
        assert_eq!(Extensions::from_parser(&flags).to_parser(), flags);
    }
}
