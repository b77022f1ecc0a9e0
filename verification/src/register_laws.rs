//! What holds of register names, indices and operands for every input.

use vstd::prelude::*;
use crate::registers::{
    RegisterSlot, decimal_value, digits_from, is_digit, is_letter, letters_from, named_at,
    numbered_at, operand_at,
};

verus! {

/// Makes the characters of the 32 canonical names known.
pub proof fn lemma_name_table()
    ensures
        forall|slot: RegisterSlot|
            #[trigger] slot.spec_name().len() == (if slot == RegisterSlot::Zero {
                5int
            } else {
                3int
            }),
        forall|slot: RegisterSlot| (#[trigger] slot.spec_name())[0] == '$',
        forall|slot: RegisterSlot|
            (#[trigger] name_key(slot)).0 == slot.spec_name()[1] && name_key(slot).1 == slot.spec_name()[2],
        "$zero"@ == seq!['$', 'z', 'e', 'r', 'o'],
{
    reveal_strlit("$zero");
    reveal_strlit("$at");
    reveal_strlit("$v0");
    reveal_strlit("$v1");
    reveal_strlit("$a0");
    reveal_strlit("$a1");
    reveal_strlit("$a2");
    reveal_strlit("$a3");
    reveal_strlit("$t0");
    reveal_strlit("$t1");
    reveal_strlit("$t2");
    reveal_strlit("$t3");
    reveal_strlit("$t4");
    reveal_strlit("$t5");
    reveal_strlit("$t6");
    reveal_strlit("$t7");
    reveal_strlit("$s0");
    reveal_strlit("$s1");
    reveal_strlit("$s2");
    reveal_strlit("$s3");
    reveal_strlit("$s4");
    reveal_strlit("$s5");
    reveal_strlit("$s6");
    reveal_strlit("$s7");
    reveal_strlit("$t8");
    reveal_strlit("$t9");
    reveal_strlit("$k0");
    reveal_strlit("$k1");
    reveal_strlit("$gp");
    reveal_strlit("$sp");
    reveal_strlit("$fp");
    reveal_strlit("$ra");
    assert("$zero"@ =~= seq!['$', 'z', 'e', 'r', 'o']);
}

/// The two characters that follow the sigil in the canonical name of a slot.
pub open spec fn name_key(slot: RegisterSlot) -> (char, char) {
    match slot {
        RegisterSlot::Zero => ('z', 'e'),
        RegisterSlot::AssemblerTemporary => ('a', 't'),
        RegisterSlot::Value0 => ('v', '0'),
        RegisterSlot::Value1 => ('v', '1'),
        RegisterSlot::Parameter0 => ('a', '0'),
        RegisterSlot::Parameter1 => ('a', '1'),
        RegisterSlot::Parameter2 => ('a', '2'),
        RegisterSlot::Parameter3 => ('a', '3'),
        RegisterSlot::Temporary0 => ('t', '0'),
        RegisterSlot::Temporary1 => ('t', '1'),
        RegisterSlot::Temporary2 => ('t', '2'),
        RegisterSlot::Temporary3 => ('t', '3'),
        RegisterSlot::Temporary4 => ('t', '4'),
        RegisterSlot::Temporary5 => ('t', '5'),
        RegisterSlot::Temporary6 => ('t', '6'),
        RegisterSlot::Temporary7 => ('t', '7'),
        RegisterSlot::Saved0 => ('s', '0'),
        RegisterSlot::Saved1 => ('s', '1'),
        RegisterSlot::Saved2 => ('s', '2'),
        RegisterSlot::Saved3 => ('s', '3'),
        RegisterSlot::Saved4 => ('s', '4'),
        RegisterSlot::Saved5 => ('s', '5'),
        RegisterSlot::Saved6 => ('s', '6'),
        RegisterSlot::Saved7 => ('s', '7'),
        RegisterSlot::Temporary8 => ('t', '8'),
        RegisterSlot::Temporary9 => ('t', '9'),
        RegisterSlot::Kernel0 => ('k', '0'),
        RegisterSlot::Kernel1 => ('k', '1'),
        RegisterSlot::GeneralPointer => ('g', 'p'),
        RegisterSlot::StackPointer => ('s', 'p'),
        RegisterSlot::FramePointer => ('f', 'p'),
        RegisterSlot::ReturnAddress => ('r', 'a'),
    }
}

/// The slots whose name is, after the sigil, made of letters alone. These are
/// the slots that the operand grammar can reach by name: a symbolic token is
/// a run of letters, so a name that holds a digit is never matched whole.
pub open spec fn has_letter_name(slot: RegisterSlot) -> bool {
    forall|k: int| 1 <= k < slot.spec_name().len() ==> is_letter(#[trigger] slot.spec_name()[k])
}

/// The decimal digit that stands for `d`, for `d` below ten.
pub open spec fn digit_char(d: nat) -> char {
    ((48 + d) as u8) as char
}

/// The decimal numeral of `n`, without leading zeros.
pub open spec fn decimal_text(n: nat) -> Seq<char>
    decreases n,
{
    if n < 10 {
        seq![digit_char(n)]
    } else {
        decimal_text(n / 10).push(digit_char(n % 10))
    }
}

/// The position in the register file identifies the slot, and every slot
/// is found again at its own position.
pub proof fn lemma_index_bijective(slot: RegisterSlot, index: nat)
    ensures
        slot.spec_index() < 32,
        RegisterSlot::spec_at(slot.spec_index()) == slot,
        index < 32 ==> RegisterSlot::spec_at(index).spec_index() == index,
{
}

/// No two slots share a canonical name.
pub proof fn lemma_names_distinct(first: RegisterSlot, second: RegisterSlot)
    requires
        first.spec_name() == second.spec_name(),
    ensures
        first == second,
{
    lemma_name_table();
    assert(name_key(first).0 == name_key(second).0);
    assert(name_key(first).1 == name_key(second).1);
}

/// A text begins with at most one operand: the slot and the number of
/// characters taken are determined by the text.
pub proof fn lemma_operand_unique(
    s: Seq<char>,
    first: RegisterSlot,
    first_consumed: int,
    second: RegisterSlot,
    second_consumed: int,
)
    requires
        operand_at(s, first, first_consumed),
        operand_at(s, second, second_consumed),
    ensures
        first == second,
        first_consumed == second_consumed,
{
    let t = s.subrange(1, s.len() as int);
    if letters_from(t, 0) > 0 {
        assert(!is_digit(t[0]));
        assert(digits_from(t, 0) == 0);
        lemma_names_distinct(first, second);
    } else {
        lemma_index_bijective(first, 0);
        lemma_index_bijective(second, 0);
    }
}

/// A run of letters that reaches the end of the text is counted whole.
pub proof fn lemma_letters_to_end(s: Seq<char>, from: int)
    requires
        0 <= from <= s.len(),
        forall|k: int| from <= k < s.len() ==> is_letter(#[trigger] s[k]),
    ensures
        letters_from(s, from) == s.len() - from,
    decreases s.len() - from,
{
    if from < s.len() {
        lemma_letters_to_end(s, from + 1);
    }
}

/// A run of digits that reaches the end of the text is counted whole.
pub proof fn lemma_digits_to_end(s: Seq<char>, from: int)
    requires
        0 <= from <= s.len(),
        forall|k: int| from <= k < s.len() ==> is_digit(#[trigger] s[k]),
    ensures
        digits_from(s, from) == s.len() - from,
    decreases s.len() - from,
{
    if from < s.len() {
        lemma_digits_to_end(s, from + 1);
    }
}

/// The decimal numeral of a number is made of digits and denotes that number.
pub proof fn lemma_decimal_text(n: nat)
    ensures
        decimal_text(n).len() > 0,
        forall|k: int| 0 <= k < decimal_text(n).len() ==> is_digit(#[trigger] decimal_text(n)[k]),
        decimal_value(decimal_text(n)) == n,
    decreases n,
{
    let text = decimal_text(n);
    assert(digit_char(n % 10) as u32 - '0' as u32 == n % 10);
    if n < 10 {
        assert(text.drop_last() =~= Seq::<char>::empty());
        assert(text.last() == digit_char(n % 10));
        assert(decimal_value(text.drop_last()) == 0);
    } else {
        lemma_decimal_text(n / 10);
        assert(text.drop_last() =~= decimal_text(n / 10));
        assert(text.last() == digit_char(n % 10));
    }
}

/// A slot's name is made of letters after the sigil exactly for these six.
pub proof fn lemma_letter_names(slot: RegisterSlot)
    ensures
        has_letter_name(slot) <==> (slot == RegisterSlot::Zero || slot == RegisterSlot::AssemblerTemporary
            || slot == RegisterSlot::GeneralPointer || slot == RegisterSlot::StackPointer
            || slot == RegisterSlot::FramePointer || slot == RegisterSlot::ReturnAddress),
{
    lemma_name_table();
    let name = slot.spec_name();
    assert(name[1] == name_key(slot).0 && name[2] == name_key(slot).1);
    assert(is_letter(name[1]));
    if slot == RegisterSlot::Zero {
        assert(has_letter_name(slot));
    } else if is_letter(name[2]) {
        assert(has_letter_name(slot));
    } else {
        assert(!is_letter(name[2]));
    }
}

/// The decimal index of a slot, written after the sigil, is an operand that
/// resolves to the slot and takes up the whole text.
pub proof fn lemma_index_resolves(slot: RegisterSlot)
    ensures
        operand_at(
            seq!['$'] + decimal_text(slot.spec_index()),
            slot,
            (1 + decimal_text(slot.spec_index()).len()) as int,
        ),
{
    let digits = decimal_text(slot.spec_index());
    let s = seq!['$'] + digits;
    lemma_decimal_text(slot.spec_index());
    lemma_digits_to_end(digits, 0);
    assert(s.subrange(1, s.len() as int) =~= digits);
    assert(digits.subrange(0, digits.len() as int) =~= digits);
    assert(numbered_at(digits, slot, digits.len() as int));
}

/// The canonical name of a slot is an operand that resolves to the slot and
/// takes up the whole text, where the name is made of letters after the
/// sigil.
pub proof fn lemma_name_resolves(slot: RegisterSlot)
    requires
        has_letter_name(slot),
    ensures
        operand_at(slot.spec_name(), slot, slot.spec_name().len() as int),
{
    lemma_name_table();
    let s = slot.spec_name();
    let t = s.subrange(1, s.len() as int);
    assert forall|k: int| 0 <= k < t.len() implies is_letter(#[trigger] t[k]) by {
        assert(t[k] == s[k + 1]);
    }
    lemma_letters_to_end(t, 0);
    assert(seq!['$'] + t.subrange(0, t.len() as int) =~= s);
    assert(named_at(t, slot, t.len() as int));
}

/// The canonical name of a slot is no operand where the name holds a digit:
/// the run of letters stops before the digit, and what it covers names no
/// slot.
pub proof fn lemma_name_with_digit_rejected(slot: RegisterSlot)
    requires
        !has_letter_name(slot),
    ensures
        forall|other: RegisterSlot, consumed: int| !operand_at(slot.spec_name(), other, consumed),
{
    lemma_name_table();
    lemma_letter_names(slot);
    let s = slot.spec_name();
    assert(s[1] == name_key(slot).0 && s[2] == name_key(slot).1);
    let t = s.subrange(1, s.len() as int);
    assert(is_letter(t[0]));
    assert(!is_letter(t[1]));
    assert(letters_from(t, 1) == 0);
    assert(letters_from(t, 0) == 1);
    assert(digits_from(t, 0) == 0);
    assert forall|other: RegisterSlot, consumed: int| !operand_at(s, other, consumed) by {
        if operand_at(s, other, consumed) {
            assert((seq!['$'] + t.subrange(0, 1)).len() == 2);
        }
    }
}

/// Symbolic and numeric addressing agree: for a slot whose name the grammar
/// can reach, its canonical name and its decimal index are both operands
/// that resolve to that same slot, and to no other.
pub proof fn lemma_name_and_index_agree(
    slot: RegisterSlot,
    by_name: RegisterSlot,
    by_index: RegisterSlot,
    name_consumed: int,
    index_consumed: int,
)
    requires
        has_letter_name(slot),
        operand_at(slot.spec_name(), by_name, name_consumed),
        operand_at(seq!['$'] + decimal_text(slot.spec_index()), by_index, index_consumed),
    ensures
        by_name == slot,
        by_index == slot,
{
    lemma_name_resolves(slot);
    lemma_index_resolves(slot);
    lemma_operand_unique(slot.spec_name(), slot, slot.spec_name().len() as int, by_name, name_consumed);
    lemma_operand_unique(
        seq!['$'] + decimal_text(slot.spec_index()),
        slot,
        (1 + decimal_text(slot.spec_index()).len()) as int,
        by_index,
        index_consumed,
    );
}

/// A token that is no register name and no decimal in `[0, 31]` is rejected:
/// the sigil followed by `token` begins with no operand. The text as a whole
/// is what is judged here, so texts of which a shorter beginning is already
/// an operand, such as a name followed by a comma, are left out.
pub proof fn lemma_unknown_token_rejected(token: Seq<char>)
    requires
        forall|slot: RegisterSlot| seq!['$'] + token != #[trigger] slot.spec_name(),
        !(token.len() > 0 && (forall|k: int| 0 <= k < token.len() ==> is_digit(#[trigger] token[k]))
            && decimal_value(token) < 32),
        forall|slot: RegisterSlot, consumed: int|
            consumed < 1 + token.len() ==> !operand_at(seq!['$'] + token, slot, consumed),
    ensures
        forall|slot: RegisterSlot, consumed: int| !operand_at(seq!['$'] + token, slot, consumed),
{
    let s = seq!['$'] + token;
    assert forall|slot: RegisterSlot, consumed: int| !operand_at(s, slot, consumed) by {
        if operand_at(s, slot, consumed) {
            assert(s.subrange(1, s.len() as int) =~= token);
            lemma_run_bounds(token, 0);
            assert(consumed == s.len());
            assert(token.subrange(0, token.len() as int) =~= token);
            if !named_at(token, slot, consumed - 1) {
                lemma_run_digits(token, 0);
                lemma_index_bijective(slot, 0);
            }
        }
    }
}

/// A run ends within the text.
pub proof fn lemma_run_bounds(s: Seq<char>, from: int)
    requires
        0 <= from <= s.len(),
    ensures
        from + letters_from(s, from) <= s.len(),
        from + digits_from(s, from) <= s.len(),
    decreases s.len() - from,
{
    if from < s.len() {
        lemma_run_bounds(s, from + 1);
    }
}

/// Every character that a run of digits covers is a digit.
pub proof fn lemma_run_digits(s: Seq<char>, from: int)
    requires
        0 <= from <= s.len(),
    ensures
        forall|k: int| from <= k < from + digits_from(s, from) ==> is_digit(#[trigger] s[k]),
    decreases s.len() - from,
{
    if from < s.len() && is_digit(s[from]) {
        lemma_run_digits(s, from + 1);
    }
}

} // verus!
