//! The faults that the address space and the execution core raise.

use vstd::prelude::*;
use vstd::string::StringExecFns;

verus! {

/// A condition that ends the instruction being executed. Every fault is
/// handed back to the caller as a value.
#[derive(Copy, Clone, Debug, PartialEq, Eq, Structural)]
pub enum Error {
    /// The address of an access is no multiple of the access width.
    MemoryAlign(u32),
    /// No mounted region holds the whole of an access at this address.
    MemoryUnmapped(u32),
    /// The fetched word decodes to no known instruction.
    CpuInvalid(u32),
    /// A trap instruction was executed.
    CpuTrap,
    /// A syscall instruction was executed. The host is expected to catch this
    /// fault and to service the call.
    CpuSyscall,
}

/// The lower-case hexadecimal digit that stands for `d`, for `d` below 16.
pub open spec fn hex_char(d: int) -> char {
    if d < 10 {
        ((48 + d) as u8) as char
    } else {
        ((87 + d) as u8) as char
    }
}

/// The hexadecimal digit of `value` at `position`, counted from the most
/// significant of its eight digits.
pub open spec fn hex_digit(value: u32, position: int) -> int {
    ((value >> ((4 * (7 - position)) as u32)) & 0xf) as int
}

/// The eight lower-case hexadecimal digits of `value`, zero-padded.
pub open spec fn hex_text(value: u32) -> Seq<char> {
    Seq::new(8, |position: int| hex_char(hex_digit(value, position)))
}

impl Error {
    /// The text that reports the fault.
    pub open spec fn spec_message(self) -> Seq<char> {
        match self {
            Error::MemoryAlign(address) => "Invalid memory alignment for address 0x"@ + hex_text(address),
            Error::MemoryUnmapped(address) => "Unmapped memory region for address 0x"@ + hex_text(address),
            Error::CpuInvalid(instruction) => "Invalid CPU instruction 0x"@ + hex_text(instruction),
            Error::CpuTrap => "CPU Trap was thrown"@,
            Error::CpuSyscall => "CPU Syscall was not handled"@,
        }
    }

    /// The text that reports the fault, with the address or instruction word
    /// as eight hexadecimal digits.
    pub fn message(&self) -> (result: String)
        ensures
            result@ == self.spec_message(),
    {
        match self {
            Error::MemoryAlign(address) => with_hex("Invalid memory alignment for address 0x", *address),
            Error::MemoryUnmapped(address) => with_hex("Unmapped memory region for address 0x", *address),
            Error::CpuInvalid(instruction) => with_hex("Invalid CPU instruction 0x", *instruction),
            Error::CpuTrap => String::from_str("CPU Trap was thrown"),
            Error::CpuSyscall => String::from_str("CPU Syscall was not handled"),
        }
    }
}

/// The one-character text of a hexadecimal digit.
fn hex_digit_text(d: u32) -> (result: &'static str)
    requires
        d < 16,
    ensures
        result@ == seq![hex_char(d as int)],
{
    proof {
        reveal_strlit("0");
        reveal_strlit("1");
        reveal_strlit("2");
        reveal_strlit("3");
        reveal_strlit("4");
        reveal_strlit("5");
        reveal_strlit("6");
        reveal_strlit("7");
        reveal_strlit("8");
        reveal_strlit("9");
        reveal_strlit("a");
        reveal_strlit("b");
        reveal_strlit("c");
        reveal_strlit("d");
        reveal_strlit("e");
        reveal_strlit("f");
    }
    let result: &'static str = match d {
        0 => "0",
        1 => "1",
        2 => "2",
        3 => "3",
        4 => "4",
        5 => "5",
        6 => "6",
        7 => "7",
        8 => "8",
        9 => "9",
        10 => "a",
        11 => "b",
        12 => "c",
        13 => "d",
        14 => "e",
        _ => "f",
    };
    assert(result@ =~= seq![hex_char(d as int)]);
    result
}

/// `prefix` followed by the eight hexadecimal digits of `value`.
fn with_hex(prefix: &str, value: u32) -> (result: String)
    ensures
        result@ == prefix@ + hex_text(value),
{
    let mut text: String = String::from_str(prefix);
    let mut position: u32 = 0;
    while position < 8
        invariant
            position <= 8,
            text@ == prefix@ + hex_text(value).subrange(0, position as int),
        decreases 8 - position,
    {
        let shift: u32 = 4 * (7 - position);
        let d: u32 = (value >> shift) & 0xf;
        assert(d < 16) by (bit_vector)
            requires
                d == (value >> shift) & 0xf,
        ;
        text.append(hex_digit_text(d));
        proof {
            assert(hex_text(value).subrange(0, position + 1) =~= hex_text(value).subrange(
                0,
                position as int,
            ).push(hex_char(hex_digit(value, position as int))));
            assert(text@ =~= prefix@ + hex_text(value).subrange(0, position + 1));
        }
        position += 1;
    }
    assert(hex_text(value).subrange(0, 8) =~= hex_text(value));
    text
}

} // verus!
