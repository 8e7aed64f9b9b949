//! Facts about the machine that relate several operations.

use crate::instruction::{decode_spec, ArithOp, Comparison, Instruction};
use crate::vm::{jump_target, with_word, word_at, Machine};
use crate::word::{binary_spec, lemma_division_by_zero, wrap};
use vstd::prelude::*;

verus! {

/// Storing a word and reading it back at the same address gives the word.
pub proof fn lemma_word_round_trip(mem: Seq<u8>, a: int, v: u32)
    requires
        mem.len() == 4096,
        0 <= a && a + 3 < 4096,
    ensures
        word_at(with_word(mem, a, v), a) == v,
{
    assert(v % 0x100 + 0x100 * ((v / 0x100) % 0x100) + 0x1_0000 * ((v / 0x1_0000) % 0x100)
        + 0x100_0000 * (v / 0x100_0000) == v) by (bit_vector);
}

/// A pop right after a push, with room on the stack for the push, gives
/// back the pushed word and leaves the stack pointer where it was.
pub proof fn lemma_pop_after_push(m: Machine, v: u32)
    requires
        m.wf(),
        m.sp >= 4,
    ensures
        m.push(v).top() == v,
        m.push(v).pop().sp == m.sp,
{
    lemma_word_round_trip(m.memory, m.sp - 4, v);
}

/// Peeking at offset 0 reads the word that a pop would return, and leaves
/// the machine as it is: peeking twice reads the same word twice.
pub proof fn lemma_peek_top(m: Machine)
    requires
        m.wf(),
    ensures
        m.peek(0) == m.top(),
{
}

/// A division or remainder whose divisor on top of the stack is zero leaves
/// zero on top of the stack, and the machine goes on with the next word.
pub proof fn lemma_divide_by_zero_goes_on(m: Machine, op: ArithOp, input: Seq<u8>)
    requires
        m.wf(),
        m.running(),
        decode_spec(m.current_word()) == (Instruction::Binary { op }),
        op == ArithOp::Div || op == ArithOp::Rem,
        m.top() == 0,
    ensures
        m.step(input).0.top() == 0,
        !m.step(input).0.exited,
        m.step(input).0.pc == m.pc + 4,
{
    reveal(Machine::execute);
    lemma_division_by_zero(m.pop().top());
    let n = m.pop().pop();
    lemma_pop_after_push(n, 0);
}

/// The exit instruction stops the machine with its code, whatever code
/// follows it: the machine no longer runs.
pub proof fn lemma_exit_stops(m: Machine, code: u32, input: Seq<u8>)
    requires
        m.wf(),
        m.running(),
        decode_spec(m.current_word()) == (Instruction::Exit { code }),
    ensures
        m.step(input).0.exited,
        m.step(input).0.exit_code == code as i32,
        !m.step(input).0.running(),
{
    reveal(Machine::execute);
}

/// A binary branch on two equal top words jumps to `pc + offset` under the
/// `eq` condition and goes on with the next word under `ne`; either way the
/// words stay on the stack.
pub proof fn lemma_branch_on_equal_words(
    m: Machine,
    cond: Comparison,
    offset: i32,
    input: Seq<u8>,
)
    requires
        m.wf(),
        m.running(),
        decode_spec(m.current_word()) == (Instruction::BranchCompare { cond, offset }),
        m.peek(4) == m.peek(0),
    ensures
        cond == Comparison::Eq ==> m.step(input).0.pc == jump_target(m.pc, offset as int),
        cond == Comparison::Ne ==> m.step(input).0.pc == m.pc + 4,
        m.step(input).0 == (Machine { pc: m.step(input).0.pc, ..m }),
{
    reveal(Machine::execute);
}

/// Storing a word leaves every word that does not overlap it as it was.
pub proof fn lemma_word_frame(mem: Seq<u8>, a: int, v: u32, b: int)
    requires
        mem.len() == 4096,
        a + 4 <= b || b + 4 <= a,
    ensures
        word_at(with_word(mem, a, v), b) == word_at(mem, b),
{
}

/// Pushing `a`, then `b`, then subtracting leaves `a - b` (left minus right,
/// the left operand pushed first) as the one new word on the stack.
pub proof fn lemma_push_push_sub(m: Machine, a: u32, b: u32)
    requires
        m.wf(),
        m.sp >= 8,
    ensures
        ({
            let n = m.push(a).push(b);
            let r = n.pop().pop().push(binary_spec(ArithOp::Sub, n.pop().top(), n.top()));
            &&& r.sp == m.sp - 4
            &&& r.top() == wrap(a - b)
        }),
{
    let p = m.push(a);
    let n = p.push(b);
    lemma_word_round_trip(p.memory, m.sp - 8, b);
    lemma_word_round_trip(m.memory, m.sp - 4, a);
    lemma_word_frame(p.memory, m.sp - 8, b, m.sp - 4);
    assert(n.pop().top() == a);
    let q = n.pop().pop();
    lemma_word_round_trip(q.memory, m.sp - 4, binary_spec(ArithOp::Sub, a, b));
}

} // verus!
