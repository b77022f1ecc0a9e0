//! The 32 general-purpose register slots, their assembly names and indices,
//! and the parser for register operands in assembly text.

use vstd::prelude::*;
use vstd::string::{StrSliceExecFns, StringExecFns};

verus! {

/// One of the 32 general-purpose registers of the MIPS32 register file.
///
/// The variants are declared in index order: `Zero` is register 0 and
/// `ReturnAddress` is register 31.
#[derive(Clone, Copy, Debug, PartialEq, Eq, Structural)]
pub enum RegisterSlot {
    Zero,
    AssemblerTemporary,
    Value0,
    Value1,
    Parameter0,
    Parameter1,
    Parameter2,
    Parameter3,
    Temporary0,
    Temporary1,
    Temporary2,
    Temporary3,
    Temporary4,
    Temporary5,
    Temporary6,
    Temporary7,
    Saved0,
    Saved1,
    Saved2,
    Saved3,
    Saved4,
    Saved5,
    Saved6,
    Saved7,
    Temporary8,
    Temporary9,
    Kernel0,
    Kernel1,
    GeneralPointer,
    StackPointer,
    FramePointer,
    ReturnAddress,
}

impl RegisterSlot {
    /// The position of the slot in the register file, in `[0, 31]`.
    pub open spec fn spec_index(self) -> nat {
        match self {
            RegisterSlot::Zero => 0,
            RegisterSlot::AssemblerTemporary => 1,
            RegisterSlot::Value0 => 2,
            RegisterSlot::Value1 => 3,
            RegisterSlot::Parameter0 => 4,
            RegisterSlot::Parameter1 => 5,
            RegisterSlot::Parameter2 => 6,
            RegisterSlot::Parameter3 => 7,
            RegisterSlot::Temporary0 => 8,
            RegisterSlot::Temporary1 => 9,
            RegisterSlot::Temporary2 => 10,
            RegisterSlot::Temporary3 => 11,
            RegisterSlot::Temporary4 => 12,
            RegisterSlot::Temporary5 => 13,
            RegisterSlot::Temporary6 => 14,
            RegisterSlot::Temporary7 => 15,
            RegisterSlot::Saved0 => 16,
            RegisterSlot::Saved1 => 17,
            RegisterSlot::Saved2 => 18,
            RegisterSlot::Saved3 => 19,
            RegisterSlot::Saved4 => 20,
            RegisterSlot::Saved5 => 21,
            RegisterSlot::Saved6 => 22,
            RegisterSlot::Saved7 => 23,
            RegisterSlot::Temporary8 => 24,
            RegisterSlot::Temporary9 => 25,
            RegisterSlot::Kernel0 => 26,
            RegisterSlot::Kernel1 => 27,
            RegisterSlot::GeneralPointer => 28,
            RegisterSlot::StackPointer => 29,
            RegisterSlot::FramePointer => 30,
            RegisterSlot::ReturnAddress => 31,
        }
    }

    /// The slot at a position of the register file; positions past 31 hold
    /// no slot and are mapped to `ReturnAddress` only to keep this total.
    pub open spec fn spec_at(index: nat) -> RegisterSlot {
        if index == 0 {
            RegisterSlot::Zero
        } else if index == 1 {
            RegisterSlot::AssemblerTemporary
        } else if index == 2 {
            RegisterSlot::Value0
        } else if index == 3 {
            RegisterSlot::Value1
        } else if index == 4 {
            RegisterSlot::Parameter0
        } else if index == 5 {
            RegisterSlot::Parameter1
        } else if index == 6 {
            RegisterSlot::Parameter2
        } else if index == 7 {
            RegisterSlot::Parameter3
        } else if index == 8 {
            RegisterSlot::Temporary0
        } else if index == 9 {
            RegisterSlot::Temporary1
        } else if index == 10 {
            RegisterSlot::Temporary2
        } else if index == 11 {
            RegisterSlot::Temporary3
        } else if index == 12 {
            RegisterSlot::Temporary4
        } else if index == 13 {
            RegisterSlot::Temporary5
        } else if index == 14 {
            RegisterSlot::Temporary6
        } else if index == 15 {
            RegisterSlot::Temporary7
        } else if index == 16 {
            RegisterSlot::Saved0
        } else if index == 17 {
            RegisterSlot::Saved1
        } else if index == 18 {
            RegisterSlot::Saved2
        } else if index == 19 {
            RegisterSlot::Saved3
        } else if index == 20 {
            RegisterSlot::Saved4
        } else if index == 21 {
            RegisterSlot::Saved5
        } else if index == 22 {
            RegisterSlot::Saved6
        } else if index == 23 {
            RegisterSlot::Saved7
        } else if index == 24 {
            RegisterSlot::Temporary8
        } else if index == 25 {
            RegisterSlot::Temporary9
        } else if index == 26 {
            RegisterSlot::Kernel0
        } else if index == 27 {
            RegisterSlot::Kernel1
        } else if index == 28 {
            RegisterSlot::GeneralPointer
        } else if index == 29 {
            RegisterSlot::StackPointer
        } else if index == 30 {
            RegisterSlot::FramePointer
        } else {
            RegisterSlot::ReturnAddress
        }
    }

    /// The canonical assembly name of the slot, sigil included.
    pub open spec fn spec_name(self) -> Seq<char> {
        match self {
            RegisterSlot::Zero => "$zero"@,
            RegisterSlot::AssemblerTemporary => "$at"@,
            RegisterSlot::Value0 => "$v0"@,
            RegisterSlot::Value1 => "$v1"@,
            RegisterSlot::Parameter0 => "$a0"@,
            RegisterSlot::Parameter1 => "$a1"@,
            RegisterSlot::Parameter2 => "$a2"@,
            RegisterSlot::Parameter3 => "$a3"@,
            RegisterSlot::Temporary0 => "$t0"@,
            RegisterSlot::Temporary1 => "$t1"@,
            RegisterSlot::Temporary2 => "$t2"@,
            RegisterSlot::Temporary3 => "$t3"@,
            RegisterSlot::Temporary4 => "$t4"@,
            RegisterSlot::Temporary5 => "$t5"@,
            RegisterSlot::Temporary6 => "$t6"@,
            RegisterSlot::Temporary7 => "$t7"@,
            RegisterSlot::Saved0 => "$s0"@,
            RegisterSlot::Saved1 => "$s1"@,
            RegisterSlot::Saved2 => "$s2"@,
            RegisterSlot::Saved3 => "$s3"@,
            RegisterSlot::Saved4 => "$s4"@,
            RegisterSlot::Saved5 => "$s5"@,
            RegisterSlot::Saved6 => "$s6"@,
            RegisterSlot::Saved7 => "$s7"@,
            RegisterSlot::Temporary8 => "$t8"@,
            RegisterSlot::Temporary9 => "$t9"@,
            RegisterSlot::Kernel0 => "$k0"@,
            RegisterSlot::Kernel1 => "$k1"@,
            RegisterSlot::GeneralPointer => "$gp"@,
            RegisterSlot::StackPointer => "$sp"@,
            RegisterSlot::FramePointer => "$fp"@,
            RegisterSlot::ReturnAddress => "$ra"@,
        }
    }

    /// The position of the slot in the register file.
    pub fn index(&self) -> (result: u8)
        ensures
            result as nat == self.spec_index(),
            result < 32,
    {
        match self {
            RegisterSlot::Zero => 0,
            RegisterSlot::AssemblerTemporary => 1,
            RegisterSlot::Value0 => 2,
            RegisterSlot::Value1 => 3,
            RegisterSlot::Parameter0 => 4,
            RegisterSlot::Parameter1 => 5,
            RegisterSlot::Parameter2 => 6,
            RegisterSlot::Parameter3 => 7,
            RegisterSlot::Temporary0 => 8,
            RegisterSlot::Temporary1 => 9,
            RegisterSlot::Temporary2 => 10,
            RegisterSlot::Temporary3 => 11,
            RegisterSlot::Temporary4 => 12,
            RegisterSlot::Temporary5 => 13,
            RegisterSlot::Temporary6 => 14,
            RegisterSlot::Temporary7 => 15,
            RegisterSlot::Saved0 => 16,
            RegisterSlot::Saved1 => 17,
            RegisterSlot::Saved2 => 18,
            RegisterSlot::Saved3 => 19,
            RegisterSlot::Saved4 => 20,
            RegisterSlot::Saved5 => 21,
            RegisterSlot::Saved6 => 22,
            RegisterSlot::Saved7 => 23,
            RegisterSlot::Temporary8 => 24,
            RegisterSlot::Temporary9 => 25,
            RegisterSlot::Kernel0 => 26,
            RegisterSlot::Kernel1 => 27,
            RegisterSlot::GeneralPointer => 28,
            RegisterSlot::StackPointer => 29,
            RegisterSlot::FramePointer => 30,
            RegisterSlot::ReturnAddress => 31,
        }
    }

    /// The slot at `index`, or `None` where `index` is past the register file.
    pub fn from_index(index: u32) -> (result: Option<RegisterSlot>)
        ensures
            index < 32 ==> result == Some(RegisterSlot::spec_at(index as nat)),
            index >= 32 ==> result.is_none(),
    {
        match index {
            0 => Some(RegisterSlot::Zero),
            1 => Some(RegisterSlot::AssemblerTemporary),
            2 => Some(RegisterSlot::Value0),
            3 => Some(RegisterSlot::Value1),
            4 => Some(RegisterSlot::Parameter0),
            5 => Some(RegisterSlot::Parameter1),
            6 => Some(RegisterSlot::Parameter2),
            7 => Some(RegisterSlot::Parameter3),
            8 => Some(RegisterSlot::Temporary0),
            9 => Some(RegisterSlot::Temporary1),
            10 => Some(RegisterSlot::Temporary2),
            11 => Some(RegisterSlot::Temporary3),
            12 => Some(RegisterSlot::Temporary4),
            13 => Some(RegisterSlot::Temporary5),
            14 => Some(RegisterSlot::Temporary6),
            15 => Some(RegisterSlot::Temporary7),
            16 => Some(RegisterSlot::Saved0),
            17 => Some(RegisterSlot::Saved1),
            18 => Some(RegisterSlot::Saved2),
            19 => Some(RegisterSlot::Saved3),
            20 => Some(RegisterSlot::Saved4),
            21 => Some(RegisterSlot::Saved5),
            22 => Some(RegisterSlot::Saved6),
            23 => Some(RegisterSlot::Saved7),
            24 => Some(RegisterSlot::Temporary8),
            25 => Some(RegisterSlot::Temporary9),
            26 => Some(RegisterSlot::Kernel0),
            27 => Some(RegisterSlot::Kernel1),
            28 => Some(RegisterSlot::GeneralPointer),
            29 => Some(RegisterSlot::StackPointer),
            30 => Some(RegisterSlot::FramePointer),
            31 => Some(RegisterSlot::ReturnAddress),
            _ => None,
        }
    }

    /// The canonical assembly name of the slot, sigil included.
    pub fn name(&self) -> (result: &'static str)
        ensures
            result@ == self.spec_name(),
    {
        match self {
            RegisterSlot::Zero => "$zero",
            RegisterSlot::AssemblerTemporary => "$at",
            RegisterSlot::Value0 => "$v0",
            RegisterSlot::Value1 => "$v1",
            RegisterSlot::Parameter0 => "$a0",
            RegisterSlot::Parameter1 => "$a1",
            RegisterSlot::Parameter2 => "$a2",
            RegisterSlot::Parameter3 => "$a3",
            RegisterSlot::Temporary0 => "$t0",
            RegisterSlot::Temporary1 => "$t1",
            RegisterSlot::Temporary2 => "$t2",
            RegisterSlot::Temporary3 => "$t3",
            RegisterSlot::Temporary4 => "$t4",
            RegisterSlot::Temporary5 => "$t5",
            RegisterSlot::Temporary6 => "$t6",
            RegisterSlot::Temporary7 => "$t7",
            RegisterSlot::Saved0 => "$s0",
            RegisterSlot::Saved1 => "$s1",
            RegisterSlot::Saved2 => "$s2",
            RegisterSlot::Saved3 => "$s3",
            RegisterSlot::Saved4 => "$s4",
            RegisterSlot::Saved5 => "$s5",
            RegisterSlot::Saved6 => "$s6",
            RegisterSlot::Saved7 => "$s7",
            RegisterSlot::Temporary8 => "$t8",
            RegisterSlot::Temporary9 => "$t9",
            RegisterSlot::Kernel0 => "$k0",
            RegisterSlot::Kernel1 => "$k1",
            RegisterSlot::GeneralPointer => "$gp",
            RegisterSlot::StackPointer => "$sp",
            RegisterSlot::FramePointer => "$fp",
            RegisterSlot::ReturnAddress => "$ra",
        }
    }
}

/// Whether `c` is an ASCII letter, the character class of symbolic names.
pub open spec fn is_letter(c: char) -> bool {
    ('a' <= c && c <= 'z') || ('A' <= c && c <= 'Z')
}

/// Whether `c` is an ASCII decimal digit.
pub open spec fn is_digit(c: char) -> bool {
    '0' <= c && c <= '9'
}

/// The length of the maximal run of letters in `s` that starts at `from`.
pub open spec fn letters_from(s: Seq<char>, from: int) -> nat
    decreases s.len() - from,
{
    if 0 <= from < s.len() && is_letter(s[from]) {
        1 + letters_from(s, from + 1)
    } else {
        0
    }
}

/// The length of the maximal run of decimal digits in `s` that starts at `from`.
pub open spec fn digits_from(s: Seq<char>, from: int) -> nat
    decreases s.len() - from,
{
    if 0 <= from < s.len() && is_digit(s[from]) {
        1 + digits_from(s, from + 1)
    } else {
        0
    }
}

/// The number that a sequence of decimal digits denotes; leading zeros are
/// allowed and the empty sequence denotes 0.
pub open spec fn decimal_value(digits: Seq<char>) -> nat
    decreases digits.len(),
{
    if digits.len() == 0 {
        0
    } else {
        10 * decimal_value(digits.drop_last()) + (digits.last() as u32 - '0' as u32) as nat
    }
}

/// Whether the text `t` begins with a symbolic token that resolves to
/// `slot` and takes up the first `consumed` characters: the token is the
/// maximal run of letters at the start of `t`, it is not empty, and the
/// sigil followed by the token is the canonical name of `slot`.
pub open spec fn named_at(t: Seq<char>, slot: RegisterSlot, consumed: int) -> bool {
    &&& letters_from(t, 0) > 0
    &&& consumed == letters_from(t, 0)
    &&& seq!['$'] + t.subrange(0, consumed) == slot.spec_name()
}

/// Whether the text `t` begins with a numeric token that resolves to `slot`
/// and takes up the first `consumed` characters: the token is the maximal
/// run of digits at the start of `t`, it is not empty, and the number it
/// denotes is the index of `slot`.
pub open spec fn numbered_at(t: Seq<char>, slot: RegisterSlot, consumed: int) -> bool {
    &&& digits_from(t, 0) > 0
    &&& consumed == digits_from(t, 0)
    &&& decimal_value(t.subrange(0, consumed)) == slot.spec_index()
}

/// Whether the text `s` begins with a register operand that resolves to
/// `slot` and takes up the first `consumed` characters: the sigil `$`, then
/// a symbolic or a numeric token.
pub open spec fn operand_at(s: Seq<char>, slot: RegisterSlot, consumed: int) -> bool {
    &&& s.len() > 0
    &&& s[0] == '$'
    &&& (named_at(s.subrange(1, s.len() as int), slot, consumed - 1) || numbered_at(
        s.subrange(1, s.len() as int),
        slot,
        consumed - 1,
    ))
}

/// Whether two texts hold the same characters.
pub fn same_text(left: &str, right: &str) -> (result: bool)
    ensures
        result == (left@ == right@),
{
    let length: usize = left.unicode_len();
    if right.unicode_len() != length {
        return false;
    }
    let mut at: usize = 0;
    while at < length
        invariant
            at <= length,
            length == left@.len(),
            length == right@.len(),
            forall|k: int| 0 <= k < at ==> left@[k] == right@[k],
        decreases length - at,
    {
        if left.get_char(at) != right.get_char(at) {
            return false;
        }
        at += 1;
    }
    assert(left@ =~= right@);
    true
}

impl RegisterSlot {
    /// Resolves a canonical register name, sigil included, by exact match
    /// against the table of the 32 names.
    pub fn from_string(input: &str) -> (result: Option<RegisterSlot>)
        ensures
            match result {
                Some(slot) => slot.spec_name() == input@,
                None => forall|slot: RegisterSlot| #[trigger] slot.spec_name() != input@,
            },
    {
        let mut index: u32 = 0;
        while index < 32
            invariant
                index <= 32,
                forall|k: nat| k < index ==> (#[trigger] RegisterSlot::spec_at(k)).spec_name() != input@,
            decreases 32 - index,
        {
            if let Some(slot) = RegisterSlot::from_index(index) {
                if same_text(slot.name(), input) {
                    return Some(slot);
                }
            }
            index += 1;
        }
        assert forall|slot: RegisterSlot| #[trigger] slot.spec_name() != input@ by {
            assert(RegisterSlot::spec_at(slot.spec_index()) == slot);
        }
        None
    }
}

/// Parses a symbolic token at the start of `input`, which stands behind the
/// sigil: the maximal run of letters, resolved with the sigil before it
/// against the table of names.
///
/// On success the result holds the unconsumed remainder of `input` and the
/// slot.
pub fn register_named(input: &str) -> (result: Option<(&str, RegisterSlot)>)
    ensures
        match result {
            Some((rest, slot)) => {
                &&& rest@.len() <= input@.len()
                &&& named_at(input@, slot, input@.len() - rest@.len())
                &&& rest@ == input@.subrange(input@.len() - rest@.len(), input@.len() as int)
            },
            None => forall|slot: RegisterSlot, consumed: int| !named_at(input@, slot, consumed),
        },
{
    let length: usize = input.unicode_len();
    let mut end: usize = 0;
    while end < length && is_letter_char(input.get_char(end))
        invariant
            end <= length,
            length == input@.len(),
            letters_from(input@, 0) == end + letters_from(input@, end as int),
        decreases length - end,
    {
        end += 1;
    }
    if end == 0 {
        return None;
    }
    let mut name: String = String::from_str("$");
    name.append(input.substring_char(0, end));
    proof {
        reveal_strlit("$");
        assert(name@ =~= seq!['$'] + input@.subrange(0, end as int));
    }
    match RegisterSlot::from_string(name.as_str()) {
        Some(slot) => Some((input.substring_char(end, length), slot)),
        None => None,
    }
}

/// Parses a numeric token at the start of `input`, which stands behind the
/// sigil: the maximal run of decimal digits, resolved as an index of the
/// register file.
///
/// On success the result holds the unconsumed remainder of `input` and the
/// slot.
pub fn register_numbered(input: &str) -> (result: Option<(&str, RegisterSlot)>)
    ensures
        match result {
            Some((rest, slot)) => {
                &&& rest@.len() <= input@.len()
                &&& numbered_at(input@, slot, input@.len() - rest@.len())
                &&& rest@ == input@.subrange(input@.len() - rest@.len(), input@.len() as int)
            },
            None => forall|slot: RegisterSlot, consumed: int| !numbered_at(input@, slot, consumed),
        },
{
    let length: usize = input.unicode_len();
    let mut end: usize = 0;
    let mut value: u32 = 0;
    while end < length && is_digit_char(input.get_char(end))
        invariant
            end <= length,
            length == input@.len(),
            digits_from(input@, 0) == end + digits_from(input@, end as int),
            value <= 32,
            value < 32 ==> value == decimal_value(input@.subrange(0, end as int)),
            value == 32 ==> decimal_value(input@.subrange(0, end as int)) >= 32,
        decreases length - end,
    {
        let digit: u32 = input.get_char(end) as u32 - '0' as u32;
        proof {
            assert(input@.subrange(0, end + 1).drop_last() =~= input@.subrange(0, end as int));
        }
        value = if value >= 32 || 10 * value + digit >= 32 {
            32
        } else {
            10 * value + digit
        };
        end += 1;
    }
    if end == 0 {
        return None;
    }
    match RegisterSlot::from_index(value) {
        Some(slot) => {
            assert(RegisterSlot::spec_at(value as nat).spec_index() == value);
            Some((input.substring_char(end, length), slot))
        },
        None => None,
    }
}

/// Parses one register operand at the start of `input`: the sigil `$`, then
/// a symbolic name or, where no name is found, a decimal register number.
///
/// On success the result holds the unconsumed remainder of `input` and the
/// slot. Nothing is returned, and nothing else happens, where `input` does
/// not begin with an operand that resolves to a slot.
pub fn register(input: &str) -> (result: Option<(&str, RegisterSlot)>)
    ensures
        match result {
            Some((rest, slot)) => {
                &&& rest@.len() <= input@.len()
                &&& operand_at(input@, slot, input@.len() - rest@.len())
                &&& rest@ == input@.subrange(input@.len() - rest@.len(), input@.len() as int)
            },
            None => forall|slot: RegisterSlot, consumed: int| !operand_at(input@, slot, consumed),
        },
{
    let length: usize = input.unicode_len();
    if length == 0 {
        return None;
    }
    if input.get_char(0) != '$' {
        return None;
    }
    let operand: &str = input.substring_char(1, length);
    let result = match register_named(operand) {
        Some(found) => Some(found),
        None => register_numbered(operand),
    };
    proof {
        if let Some((rest, slot)) = result {
            assert(rest@ =~= input@.subrange(input@.len() - rest@.len(), input@.len() as int));
        }
    }
    result
}

/// Whether `c` is an ASCII letter.
pub fn is_letter_char(c: char) -> (result: bool)
    ensures
        result == is_letter(c),
{
    ('a' <= c && c <= 'z') || ('A' <= c && c <= 'Z')
}

/// Whether `c` is an ASCII decimal digit.
pub fn is_digit_char(c: char) -> (result: bool)
    ensures
        result == is_digit(c),
{
    '0' <= c && c <= '9'
}

} // verus!
