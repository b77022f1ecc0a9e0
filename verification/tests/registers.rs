use mips_core::registers::{is_digit_char, is_letter_char, register, same_text, RegisterSlot};

const NAMES: [&str; 32] = [
    "$zero", "$at", "$v0", "$v1", "$a0", "$a1", "$a2", "$a3", "$t0", "$t1", "$t2", "$t3", "$t4",
    "$t5", "$t6", "$t7", "$s0", "$s1", "$s2", "$s3", "$s4", "$s5", "$s6", "$s7", "$t8", "$t9",
    "$k0", "$k1", "$gp", "$sp", "$fp", "$ra",
];

#[test]
fn every_index_has_its_slot_and_name() {
    for index in 0u32..32 {
        let slot = RegisterSlot::from_index(index).unwrap();
        assert_eq!(slot.index() as u32, index);
        assert_eq!(slot.name(), NAMES[index as usize]);
    }
}

#[test]
fn indices_past_the_register_file_have_no_slot() {
    assert_eq!(RegisterSlot::from_index(32), None);
    assert_eq!(RegisterSlot::from_index(33), None);
    assert_eq!(RegisterSlot::from_index(u32::MAX), None);
}

#[test]
fn named_slots_have_the_conventional_indices() {
    assert_eq!(RegisterSlot::Zero.index(), 0);
    assert_eq!(RegisterSlot::AssemblerTemporary.index(), 1);
    assert_eq!(RegisterSlot::Temporary0.index(), 8);
    assert_eq!(RegisterSlot::Temporary7.index(), 15);
    assert_eq!(RegisterSlot::Saved0.index(), 16);
    assert_eq!(RegisterSlot::Temporary8.index(), 24);
    assert_eq!(RegisterSlot::Temporary9.index(), 25);
    assert_eq!(RegisterSlot::Kernel0.index(), 26);
    assert_eq!(RegisterSlot::GeneralPointer.index(), 28);
    assert_eq!(RegisterSlot::StackPointer.index(), 29);
    assert_eq!(RegisterSlot::FramePointer.index(), 30);
    assert_eq!(RegisterSlot::ReturnAddress.index(), 31);
}

#[test]
fn from_string_resolves_every_canonical_name() {
    for index in 0u32..32 {
        let slot = RegisterSlot::from_string(NAMES[index as usize]);
        assert_eq!(slot, RegisterSlot::from_index(index));
    }
}

#[test]
fn from_string_matches_exactly() {
    assert_eq!(RegisterSlot::from_string("$sp"), Some(RegisterSlot::StackPointer));
    assert_eq!(RegisterSlot::from_string("sp"), None);
    assert_eq!(RegisterSlot::from_string("$SP"), None);
    assert_eq!(RegisterSlot::from_string("$sp "), None);
    assert_eq!(RegisterSlot::from_string("$s"), None);
    assert_eq!(RegisterSlot::from_string("$t10"), None);
    assert_eq!(RegisterSlot::from_string("$29"), None);
    assert_eq!(RegisterSlot::from_string("$"), None);
    assert_eq!(RegisterSlot::from_string(""), None);
    assert_eq!(RegisterSlot::from_string("$zer\u{f6}"), None);
}

#[test]
fn same_text_compares_characters() {
    assert!(same_text("", ""));
    assert!(same_text("$sp", "$sp"));
    assert!(!same_text("$sp", "$fp"));
    assert!(!same_text("$sp", "$sp1"));
    assert!(!same_text("$sp1", "$sp"));
    assert!(same_text("\u{e9}t\u{e9}", "\u{e9}t\u{e9}"));
    assert!(!same_text("\u{e9}", "e"));
}

#[test]
fn character_classes_are_ascii() {
    assert!(is_letter_char('a') && is_letter_char('z') && is_letter_char('A') && is_letter_char('Z'));
    assert!(!is_letter_char('0') && !is_letter_char('$') && !is_letter_char('_'));
    assert!(!is_letter_char('\u{e9}') && !is_letter_char('[') && !is_letter_char('`'));
    assert!(is_digit_char('0') && is_digit_char('9'));
    assert!(!is_digit_char('/') && !is_digit_char(':') && !is_digit_char('a'));
    assert!(!is_digit_char('\u{663}'));
}

#[test]
fn register_parses_every_decimal_index() {
    for index in 0u32..32 {
        let text = format!("${}", index);
        let (rest, slot) = register(&text).unwrap();
        assert_eq!(rest, "");
        assert_eq!(slot.index() as u32, index);
    }
}

#[test]
fn register_parses_the_names_made_of_letters() {
    assert_eq!(register("$zero"), Some(("", RegisterSlot::Zero)));
    assert_eq!(register("$at"), Some(("", RegisterSlot::AssemblerTemporary)));
    assert_eq!(register("$gp"), Some(("", RegisterSlot::GeneralPointer)));
    assert_eq!(register("$sp"), Some(("", RegisterSlot::StackPointer)));
    assert_eq!(register("$fp"), Some(("", RegisterSlot::FramePointer)));
    assert_eq!(register("$ra"), Some(("", RegisterSlot::ReturnAddress)));
}

#[test]
fn name_and_index_resolve_to_the_same_slot() {
    for name in ["$zero", "$at", "$gp", "$sp", "$fp", "$ra"] {
        let (_, by_name) = register(name).unwrap();
        let (_, by_index) = register(&format!("${}", by_name.index())).unwrap();
        assert_eq!(by_name, by_index);
        assert_eq!(by_name.name(), name);
    }
}

#[test]
fn a_symbolic_token_is_a_run_of_letters() {
    // The token of "$v0" is "v": a name that holds a digit is not matched.
    for index in 0u32..32 {
        let name = NAMES[index as usize];
        let letters_only = name[1..].chars().all(|c| c.is_ascii_alphabetic());
        assert_eq!(register(name).is_some(), letters_only, "{}", name);
    }
    assert_eq!(register("$v0"), None);
    assert_eq!(register("$t9"), None);
}

#[test]
fn register_returns_the_remainder() {
    assert_eq!(register("$sp, $fp"), Some((", $fp", RegisterSlot::StackPointer)));
    assert_eq!(register("$29)"), Some((")", RegisterSlot::StackPointer)));
    assert_eq!(register("$4$5"), Some(("$5", RegisterSlot::Parameter0)));
    assert_eq!(register("$ra\n"), Some(("\n", RegisterSlot::ReturnAddress)));
    assert_eq!(register("$8abc"), Some(("abc", RegisterSlot::Temporary0)));
    assert_eq!(register("$sp\u{e9}"), Some(("\u{e9}", RegisterSlot::StackPointer)));
    assert_eq!(register("$zero0"), Some(("0", RegisterSlot::Zero)));
}

#[test]
fn register_accepts_leading_zeros() {
    assert_eq!(register("$007"), Some(("", RegisterSlot::Parameter3)));
    assert_eq!(register("$00"), Some(("", RegisterSlot::Zero)));
    assert_eq!(register("$0000000000000000000000000000031"), Some(("", RegisterSlot::ReturnAddress)));
}

#[test]
fn register_rejects_numbers_past_the_register_file() {
    assert_eq!(register("$32"), None);
    assert_eq!(register("$100"), None);
    assert_eq!(register("$4294967295"), None);
    assert_eq!(register("$4294967296"), None);
    assert_eq!(register("$4294967297"), None);
    assert_eq!(register("$99999999999999999999999999"), None);
    assert_eq!(register("$320"), None);
    assert_eq!(register("$0032"), None);
}

#[test]
fn register_rejects_what_is_no_operand() {
    assert_eq!(register(""), None);
    assert_eq!(register("$"), None);
    assert_eq!(register("sp"), None);
    assert_eq!(register("29"), None);
    assert_eq!(register(" $sp"), None);
    assert_eq!(register("$ sp"), None);
    assert_eq!(register("$foo"), None);
    assert_eq!(register("$spx"), None);
    assert_eq!(register("$SP"), None);
    assert_eq!(register("$-1"), None);
    assert_eq!(register("$+1"), None);
    assert_eq!(register("$$sp"), None);
    assert_eq!(register("$x29"), None);
    assert_eq!(register("$\u{e9}"), None);
}

#[test]
fn a_failed_parse_leaves_the_input_as_it_was() {
    let text = String::from("$nothing here");
    assert_eq!(register(&text), None);
    assert_eq!(text, "$nothing here");
}
