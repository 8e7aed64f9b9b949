//! The instruction word format and its decoder.
//!
//! Bits 31..28 of a word select the opcode class; the remaining fields depend
//! on the class. Every signed offset is sign-extended from its field width and
//! then scaled by four, so the decoded offsets are byte offsets.

use crate::field::{extract, field, sext, sign_extend};
use vstd::arithmetic::power2::lemma2_to64;
use vstd::prelude::*;

verus! {

/// Operators of the binary arithmetic/logic class.
#[derive(Clone, Copy, Debug, PartialEq, Eq, Structural)]
pub enum ArithOp {
    Add,
    Sub,
    Mul,
    Div,
    Rem,
    And,
    Or,
    Xor,
    Lsl,
    Lsr,
    Asr,
    /// A sub-operation with no meaning: the result is zero.
    Unknown,
}

/// Operators of the unary arithmetic/logic class.
#[derive(Clone, Copy, Debug, PartialEq, Eq, Structural)]
pub enum UnaryOp {
    Neg,
    Not,
    /// A sub-operation with no meaning: the result is zero.
    Unknown,
}

/// Conditions of the binary branch, comparing the second word (left) with
/// the top word (right) as signed integers.
#[derive(Clone, Copy, Debug, PartialEq, Eq, Structural)]
pub enum Comparison {
    Eq,
    Ne,
    Lt,
    Gt,
    Le,
    Ge,
    /// A condition code with no meaning: the branch is never taken.
    Never,
}

/// Conditions of the unary branch on the top word, read as a signed integer.
#[derive(Clone, Copy, Debug, PartialEq, Eq, Structural)]
pub enum Test {
    Zero,
    NonZero,
    Negative,
    NonNegative,
}

/// Display radix of the formatted print.
#[derive(Clone, Copy, Debug, PartialEq, Eq, Structural)]
pub enum Radix {
    Decimal,
    Hex,
    Binary,
    Octal,
}

/// A decoded instruction word. Offsets are in bytes.
#[derive(Clone, Copy, Debug, PartialEq, Eq, Structural)]
pub enum Instruction {
    /// Stops the machine with the given exit code (0 to 4095).
    Exit { code: u32 },
    /// Swaps the words at `sp + from` and `sp + to`.
    Swap { from: i32, to: i32 },
    /// Does nothing; also the meaning of the unused sub-operations of class 0.
    Nop,
    /// Reads a line and pushes the number it holds.
    Input,
    /// Reads a line and pushes it as packed three-byte chunks.
    StringInput { max_chars: u32 },
    /// Discards `words` stack words without reading them.
    Pop { words: u32 },
    Binary { op: ArithOp },
    Unary { kind: UnaryOp },
    /// Prints the zero-terminated bytes that start at `sp + offset`.
    StPrint { offset: i32 },
    Call { offset: i32 },
    /// Discards `offset` bytes of stack when positive, then returns.
    Return { offset: i32 },
    Goto { offset: i32 },
    BranchCompare { cond: Comparison, offset: i32 },
    BranchTest { test: Test, offset: i32 },
    /// Pushes a copy of the word at `sp + offset`.
    Dup { offset: i32 },
    /// Prints the word at `sp + offset` in the given radix.
    Print { offset: i32, radix: Radix },
    Dump,
    Push { value: i32 },
    /// An opcode class with no meaning: it is ignored.
    Unknown,
}

impl Instruction {
    /// Whether the fields hold values that a word can encode: an exit code
    /// fits in 12 bits.
    pub open spec fn well_formed(self) -> bool {
        match self {
            Instruction::Exit { code } => code < 4096,
            _ => true,
        }
    }
}

/// The signed `n`-bit field of `w` at bit `lo`, scaled to bytes.
pub open spec fn byte_offset(w: u32, lo: nat, n: nat) -> i32 {
    (4 * sext(field(w, lo, n), n)) as i32
}

pub open spec fn arith_op_of(sub: nat) -> ArithOp {
    if sub == 0 {
        ArithOp::Add
    } else if sub == 1 {
        ArithOp::Sub
    } else if sub == 2 {
        ArithOp::Mul
    } else if sub == 3 {
        ArithOp::Div
    } else if sub == 4 {
        ArithOp::Rem
    } else if sub == 5 {
        ArithOp::And
    } else if sub == 6 {
        ArithOp::Or
    } else if sub == 7 {
        ArithOp::Xor
    } else if sub == 8 {
        ArithOp::Lsl
    } else if sub == 9 {
        ArithOp::Lsr
    } else if sub == 11 {
        ArithOp::Asr
    } else {
        ArithOp::Unknown
    }
}

pub open spec fn comparison_of(code: nat) -> Comparison {
    if code == 0 {
        Comparison::Eq
    } else if code == 1 {
        Comparison::Ne
    } else if code == 2 {
        Comparison::Lt
    } else if code == 3 {
        Comparison::Gt
    } else if code == 4 {
        Comparison::Le
    } else if code == 5 {
        Comparison::Ge
    } else {
        Comparison::Never
    }
}

pub open spec fn test_of(code: nat) -> Test {
    if code == 0 {
        Test::Zero
    } else if code == 1 {
        Test::NonZero
    } else if code == 2 {
        Test::Negative
    } else {
        Test::NonNegative
    }
}

pub open spec fn radix_of(code: nat) -> Radix {
    if code == 0 {
        Radix::Decimal
    } else if code == 1 {
        Radix::Hex
    } else if code == 2 {
        Radix::Binary
    } else {
        Radix::Octal
    }
}

/// What the word `w` means.
pub open spec fn decode_spec(w: u32) -> Instruction {
    let class = field(w, 28, 4);
    if class == 0 {
        let sub = field(w, 24, 4);
        if sub == 0 {
            Instruction::Exit { code: field(w, 0, 12) as u32 }
        } else if sub == 1 {
            Instruction::Swap { from: byte_offset(w, 12, 12), to: byte_offset(w, 0, 12) }
        } else if sub == 4 {
            Instruction::Input
        } else if sub == 5 {
            Instruction::StringInput { max_chars: field(w, 0, 24) as u32 }
        } else {
            Instruction::Nop
        }
    } else if class == 1 {
        Instruction::Pop { words: field(w, 2, 26) as u32 }
    } else if class == 2 {
        Instruction::Binary { op: arith_op_of(field(w, 24, 4)) }
    } else if class == 3 {
        let sub = field(w, 24, 4);
        Instruction::Unary {
            kind: if sub == 0 {
                UnaryOp::Neg
            } else if sub == 1 {
                UnaryOp::Not
            } else {
                UnaryOp::Unknown
            },
        }
    } else if class == 4 {
        Instruction::StPrint { offset: byte_offset(w, 2, 26) }
    } else if class == 5 {
        Instruction::Call { offset: byte_offset(w, 2, 26) }
    } else if class == 6 {
        Instruction::Return { offset: byte_offset(w, 2, 26) }
    } else if class == 7 {
        Instruction::Goto { offset: byte_offset(w, 2, 26) }
    } else if class == 8 {
        Instruction::BranchCompare {
            cond: comparison_of(field(w, 25, 3)),
            offset: byte_offset(w, 2, 23),
        }
    } else if class == 9 {
        Instruction::BranchTest { test: test_of(field(w, 24, 2)), offset: byte_offset(w, 2, 22) }
    } else if class == 12 {
        Instruction::Dup { offset: byte_offset(w, 2, 26) }
    } else if class == 13 {
        Instruction::Print { offset: byte_offset(w, 2, 26), radix: radix_of(field(w, 0, 2)) }
    } else if class == 14 {
        Instruction::Dump
    } else if class == 15 {
        Instruction::Push { value: sext(field(w, 0, 28), 28) as i32 }
    } else {
        Instruction::Unknown
    }
}

/// Reads the signed `n`-bit field at bit `lo` and scales it to bytes.
fn signed_offset(w: u32, lo: u32, n: u32) -> (r: i32)
    requires
        lo + n <= 32,
        12 <= n <= 26,
    ensures
        r == byte_offset(w, lo as nat, n as nat),
        -0x800_0000 <= r < 0x800_0000,
{
    let raw = extract(w, lo, n);
    proof {
        lemma2_to64();
        if n < 26 {
            vstd::arithmetic::power2::lemma_pow2_strictly_increases(n as nat, 26);
            vstd::arithmetic::power2::lemma_pow2_strictly_increases((n - 1) as nat, 25);
        }
        vstd::arithmetic::power2::lemma_pow2_unfold(n as nat);
    }
    let v = sign_extend(raw, n);
    v * 4
}

fn arith_op(sub: u32) -> (r: ArithOp)
    ensures
        r == arith_op_of(sub as nat),
{
    match sub {
        0 => ArithOp::Add,
        1 => ArithOp::Sub,
        2 => ArithOp::Mul,
        3 => ArithOp::Div,
        4 => ArithOp::Rem,
        5 => ArithOp::And,
        6 => ArithOp::Or,
        7 => ArithOp::Xor,
        8 => ArithOp::Lsl,
        9 => ArithOp::Lsr,
        11 => ArithOp::Asr,
        _ => ArithOp::Unknown,
    }
}

impl Instruction {
    /// Decodes one instruction word. Every word decodes: unknown classes and
    /// sub-operations decode to instructions that do nothing or yield zero.
    pub fn decode(w: u32) -> (r: Instruction)
        ensures
            r == decode_spec(w),
            r.well_formed(),
    {
        proof {
            lemma2_to64();
        }
        let class = extract(w, 28, 4);
        match class {
            0 => {
                let sub = extract(w, 24, 4);
                if sub == 0 {
                    Instruction::Exit { code: extract(w, 0, 12) }
                } else if sub == 1 {
                    let from = signed_offset(w, 12, 12);
                    let to = signed_offset(w, 0, 12);
                    Instruction::Swap { from, to }
                } else if sub == 4 {
                    Instruction::Input
                } else if sub == 5 {
                    Instruction::StringInput { max_chars: extract(w, 0, 24) }
                } else {
                    Instruction::Nop
                }
            },
            1 => Instruction::Pop { words: extract(w, 2, 26) },
            2 => Instruction::Binary { op: arith_op(extract(w, 24, 4)) },
            3 => {
                let sub = extract(w, 24, 4);
                let op = if sub == 0 {
                    UnaryOp::Neg
                } else if sub == 1 {
                    UnaryOp::Not
                } else {
                    UnaryOp::Unknown
                };
                Instruction::Unary { kind: op }
            },
            4 => Instruction::StPrint { offset: signed_offset(w, 2, 26) },
            5 => Instruction::Call { offset: signed_offset(w, 2, 26) },
            6 => Instruction::Return { offset: signed_offset(w, 2, 26) },
            7 => Instruction::Goto { offset: signed_offset(w, 2, 26) },
            8 => {
                let code = extract(w, 25, 3);
                let cond = match code {
                    0 => Comparison::Eq,
                    1 => Comparison::Ne,
                    2 => Comparison::Lt,
                    3 => Comparison::Gt,
                    4 => Comparison::Le,
                    5 => Comparison::Ge,
                    _ => Comparison::Never,
                };
                Instruction::BranchCompare { cond, offset: signed_offset(w, 2, 23) }
            },
            9 => {
                let code = extract(w, 24, 2);
                let test = match code {
                    0 => Test::Zero,
                    1 => Test::NonZero,
                    2 => Test::Negative,
                    _ => Test::NonNegative,
                };
                Instruction::BranchTest { test, offset: signed_offset(w, 2, 22) }
            },
            12 => Instruction::Dup { offset: signed_offset(w, 2, 26) },
            13 => {
                let code = extract(w, 0, 2);
                let radix = match code {
                    0 => Radix::Decimal,
                    1 => Radix::Hex,
                    2 => Radix::Binary,
                    _ => Radix::Octal,
                };
                Instruction::Print { offset: signed_offset(w, 2, 26), radix }
            },
            14 => Instruction::Dump,
            15 => {
                let raw = extract(w, 0, 28);
                Instruction::Push { value: sign_extend(raw, 28) }
            },
            _ => Instruction::Unknown,
        }
    }
}

/// Decoding is a function of the word alone: equal words decode to equal
/// instructions, whatever else differs between the two calls.
pub proof fn lemma_decode_deterministic(w1: u32, w2: u32, i1: Instruction, i2: Instruction)
    requires
        w1 == w2,
        i1 == decode_spec(w1),
        i2 == decode_spec(w2),
    ensures
        i1 == i2,
{
}

} // verus!
