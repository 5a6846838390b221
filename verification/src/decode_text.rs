//! The text of the instruction-inspection report: given an instruction
//! word, its disassembled form and the instruction set that claimed it,
//! lay out the aligned report lines, rendering the word in binary and
//! hexadecimal at the width of that instruction set.

use crate::tags::digit_char;
use vstd::prelude::*;

verus! {

/// The binary rendering of `n`, zero-padded on the left to `width`
/// digits, wider only if the value needs more.
pub open spec fn bin_chars(n: nat, width: nat) -> Seq<char>
    decreases n + width,
{
    if n <= 1 && width <= 1 {
        seq![digit_char(n as int)]
    } else {
        let rest: nat = if width == 0 {
            0
        } else {
            (width - 1) as nat
        };
        bin_chars(n / 2, rest).push(digit_char((n % 2) as int))
    }
}

/// The hexadecimal rendering of `n`, zero-padded on the left to `width`
/// digits, wider only if the value needs more.
pub open spec fn hex_chars_padded(n: nat, width: nat) -> Seq<char>
    decreases n + width,
{
    if n <= 15 && width <= 1 {
        seq![digit_char(n as int)]
    } else {
        let rest: nat = if width == 0 {
            0
        } else {
            (width - 1) as nat
        };
        hex_chars_padded(n / 16, rest).push(digit_char((n % 16) as int))
    }
}

/// Render `n` in binary, zero-padded to `width` digits.
pub fn u32_to_binary(n: u32, width: usize) -> (r: String)
    ensures
        r@ == bin_chars(n as nat, width as nat),
    decreases n + width,
{
    if n <= 1 && width <= 1 {
        let r = String::from_str(crate::tags::digit_str(n as u8));
        proof {
            assert(r@ =~= bin_chars(n as nat, width as nat));
        }
        r
    } else {
        let rest = if width == 0 {
            0
        } else {
            width - 1
        };
        let mut s = u32_to_binary(n / 2, rest);
        s.append(crate::tags::digit_str((n % 2) as u8));
        proof {
            assert(s@ =~= bin_chars(n as nat, width as nat));
        }
        s
    }
}

/// Render `n` in hexadecimal, zero-padded to `width` digits.
pub fn u32_to_hex_padded(n: u32, width: usize) -> (r: String)
    ensures
        r@ == hex_chars_padded(n as nat, width as nat),
    decreases n + width,
{
    if n <= 15 && width <= 1 {
        let r = String::from_str(crate::tags::digit_str(n as u8));
        proof {
            assert(r@ =~= hex_chars_padded(n as nat, width as nat));
        }
        r
    } else {
        let rest = if width == 0 {
            0
        } else {
            width - 1
        };
        let mut s = u32_to_hex_padded(n / 16, rest);
        s.append(crate::tags::digit_str((n % 16) as u8));
        proof {
            assert(s@ =~= hex_chars_padded(n as nat, width as nat));
        }
        s
    }
}

/// The four aligned lines of the inspection report for one instruction:
/// its disassembly, its binary and hexadecimal renderings — sixteen binary
/// and four hexadecimal digits for the compressed instruction set, else
/// thirty-two and eight — and the instruction set's name.
pub open spec fn decode_report(tag: Seq<char>, isa: Seq<char>, inst: u32) -> Seq<Seq<char>> {
    let compact = isa == "C"@;
    let bin_width: nat = if compact {
        16
    } else {
        32
    };
    let hex_width: nat = if compact {
        4
    } else {
        8
    };
    seq![
        "       Assembly = "@ + tag,
        "         Binary = "@ + bin_chars(inst as nat, bin_width),
        "    Hexadecimal = "@ + hex_chars_padded(inst as nat, hex_width),
        "Instruction set = "@ + isa,
    ]
}

/// Lay the inspection report out, one string per line.
pub fn instruction_decode_text(tag: &str, isa: &str, inst: u32) -> (r: Vec<String>)
    ensures
        r@.len() == 4,
        forall|i: int| 0 <= i < 4 ==> r@[i]@ == decode_report(tag@, isa@, inst)[i],
{
    let compact_marker = String::from_str("C");
    let compact = String::from_str(isa) == compact_marker;
    proof {
        reveal_strlit("C");
        assert(compact == (isa@ == "C"@));
    }
    let bin_width: usize = if compact {
        16
    } else {
        32
    };
    let hex_width: usize = if compact {
        4
    } else {
        8
    };
    let mut lines: Vec<String> = Vec::new();
    let mut assembly = String::from_str("       Assembly = ");
    assembly.append(tag);
    lines.push(assembly);
    let mut binary = String::from_str("         Binary = ");
    let bin_text = u32_to_binary(inst, bin_width);
    binary.append(bin_text.as_str());
    lines.push(binary);
    let mut hexadecimal = String::from_str("    Hexadecimal = ");
    let hex_text = u32_to_hex_padded(inst, hex_width);
    hexadecimal.append(hex_text.as_str());
    lines.push(hexadecimal);
    let mut set_line = String::from_str("Instruction set = ");
    set_line.append(isa);
    lines.push(set_line);
    lines
}

} // verus!
