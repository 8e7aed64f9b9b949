//! The machine: one 4096-byte memory holding the program and, growing down
//! from its end, the operand stack; the stack and program pointers; the exit
//! state. Every memory and stack access is total: a read out of range gives
//! zero and a write out of range is dropped.

use crate::instruction::{decode_spec, ArithOp, Comparison, Instruction, Radix, Test, UnaryOp};
use crate::text::{
    dump_text, format_dump_line, format_word, line_bytes, pack_string, parse_input, print_text,
    string_words, input_value, trim_line,
};
use crate::word::{
    apply_binary, apply_unary, binary_spec, compare, compare_spec, test_spec, test_word,
    unary_spec, wrap,
};
use vstd::prelude::*;

verus! {

/// Size of the memory in bytes.
pub const MEMORY_SIZE: usize = 4096;

/// The four bytes that start a program image.
pub const MAGIC: [u8; 4] = [0xde, 0xad, 0xbe, 0xef];

/// The state of a machine, as mathematics.
pub ghost struct Machine {
    pub memory: Seq<u8>,
    pub pc: int,
    pub sp: int,
    pub exited: bool,
    pub exit_code: i32,
    pub code_size: int,
}

/// Whether a word at `a` lies wholly inside the memory.
pub open spec fn word_in_range(a: int) -> bool {
    0 <= a && a + 3 < 4096
}

/// The little-endian word at `a`, or zero when it is out of range.
pub open spec fn word_at(mem: Seq<u8>, a: int) -> u32 {
    if word_in_range(a) {
        (mem[a] + 0x100 * mem[a + 1] + 0x1_0000 * mem[a + 2] + 0x100_0000 * mem[a + 3]) as u32
    } else {
        0
    }
}

/// `mem` with the word `v` stored little-endian at `a`; unchanged when `a` is
/// out of range.
pub open spec fn with_word(mem: Seq<u8>, a: int, v: u32) -> Seq<u8> {
    if word_in_range(a) {
        mem.update(a, (v % 0x100) as u8).update(a + 1, ((v / 0x100) % 0x100) as u8).update(
            a + 2,
            ((v / 0x1_0000) % 0x100) as u8,
        ).update(a + 3, (v / 0x100_0000) as u8)
    } else {
        mem
    }
}

/// The address that a relative jump by `offset` from `pc` lands on, as a
/// machine address: a negative target wraps around the address space.
pub open spec fn jump_target(pc: int, offset: int) -> int {
    if pc + offset >= 0 {
        pc + offset
    } else {
        usize::MAX + 1 + pc + offset
    }
}

/// The UTF-8 bytes of the character whose code is the byte `b`.
pub open spec fn char_bytes(b: u8) -> Seq<u8> {
    if b < 0x80 {
        seq![b]
    } else {
        seq![(0xc0 + b / 64) as u8, (0x80 + b % 64) as u8]
    }
}

/// What the string print writes from address `a`: each byte up to the first
/// zero byte or the end of memory, as a character, leaving out bytes equal
/// to 1.
pub open spec fn text_at(mem: Seq<u8>, a: int) -> Seq<u8>
    decreases 4096 - a,
{
    if a < 0 || a >= 4096 || mem[a] == 0 {
        Seq::empty()
    } else {
        (if mem[a] == 1 {
            Seq::empty()
        } else {
            char_bytes(mem[a])
        }) + text_at(mem, a + 1)
    }
}

/// The dump lines of the words from `a` to the end of memory, with offsets
/// counted from `sp`.
pub open spec fn dump_from(mem: Seq<u8>, sp: int, a: int) -> Seq<u8>
    decreases 4100 - a,
{
    if a >= 4096 || a < sp {
        Seq::empty()
    } else {
        dump_text((a - sp) as nat, word_at(mem, a)) + dump_from(mem, sp, a + 4)
    }
}

/// Whether the instruction reads a line of input.
pub open spec fn reads_line(instr: Instruction) -> bool {
    instr is Input || instr is StringInput
}

impl Machine {
    pub open spec fn wf(self) -> bool {
        &&& self.memory.len() == 4096
        &&& 0 <= self.sp <= 4096
        &&& 0 <= self.code_size <= 4096
        &&& 0 <= self.pc <= usize::MAX
    }

    /// Whether the machine goes on: not exited and `pc` inside the code.
    pub open spec fn running(self) -> bool {
        !self.exited && self.pc < self.code_size
    }

    /// The instruction word at `pc`.
    pub open spec fn current_word(self) -> u32 {
        word_at(self.memory, self.pc)
    }

    pub open spec fn peek(self, offset: int) -> u32 {
        word_at(self.memory, self.sp + offset)
    }

    /// The word that a pop returns: the top word, or zero on an empty stack.
    pub open spec fn top(self) -> u32 {
        if self.sp + 4 <= 4096 {
            word_at(self.memory, self.sp)
        } else {
            0
        }
    }

    pub open spec fn push(self, v: u32) -> Machine {
        if self.sp >= 4 {
            Machine { sp: self.sp - 4, memory: with_word(self.memory, self.sp - 4, v), ..self }
        } else {
            self
        }
    }

    pub open spec fn pop(self) -> Machine {
        if self.sp + 4 <= 4096 {
            Machine { sp: self.sp + 4, ..self }
        } else {
            self
        }
    }

    /// Pushes `ws` so that its first word ends on top.
    pub open spec fn push_reversed(self, ws: Seq<u32>) -> Machine
        decreases ws.len(),
    {
        if ws.len() == 0 {
            self
        } else {
            self.push_reversed(ws.drop_first()).push(ws[0])
        }
    }

    pub open spec fn swapped(self, from: int, to: int) -> Machine {
        let a1 = self.sp + from;
        let a2 = self.sp + to;
        if word_in_range(a1) && word_in_range(a2) {
            let v1 = word_at(self.memory, a1);
            let v2 = word_at(self.memory, a2);
            Machine { memory: with_word(with_word(self.memory, a1, v2), a2, v1), ..self }
        } else {
            self
        }
    }

    /// Return: discards `offset` bytes of stack when positive and in range,
    /// then pops the return address unless the stack is empty.
    pub open spec fn returned(self, offset: int) -> (Machine, Option<int>) {
        let m = if offset > 0 && self.sp + offset <= 4096 {
            Machine { sp: self.sp + offset, ..self }
        } else {
            self
        };
        if m.sp < 4096 {
            (m.pop(), Some(m.top() as int))
        } else {
            (m, None)
        }
    }

    /// Executes `instr` with the trimmed input line `input`: the next state,
    /// the new `pc` when the instruction sets it, and the bytes written.
    #[verifier::opaque]
    pub open spec fn execute(self, instr: Instruction, input: Seq<u8>) -> (Machine, Option<int>, Seq<u8>) {
        match instr {
            Instruction::Exit { code } => (
                Machine { exited: true, exit_code: code as i32, ..self },
                None,
                Seq::empty(),
            ),
            Instruction::Swap { from, to } => (self.swapped(from as int, to as int), None, Seq::empty()),
            Instruction::Input => (self.push(input_value(input)), None, Seq::empty()),
            Instruction::StringInput { max_chars } => (
                self.push_reversed(string_words(input, max_chars)),
                None,
                Seq::empty(),
            ),
            Instruction::Pop { words } => (
                Machine {
                    sp: if self.sp + 4 * words <= 4096 {
                        self.sp + 4 * words
                    } else {
                        4096
                    },
                    ..self
                },
                None,
                Seq::empty(),
            ),
            Instruction::Binary { op } => {
                let right = self.top();
                let left = self.pop().top();
                (self.pop().pop().push(binary_spec(op, left, right)), None, Seq::empty())
            },
            Instruction::Unary { kind } => (
                self.pop().push(unary_spec(kind, self.top())),
                None,
                Seq::empty(),
            ),
            Instruction::StPrint { offset } => (self, None, text_at(self.memory, self.sp + offset)),
            Instruction::Call { offset } => (
                self.push((self.pc + 4) as u32),
                Some(jump_target(self.pc, offset as int)),
                Seq::empty(),
            ),
            Instruction::Return { offset } => {
                let (m, jump) = self.returned(offset as int);
                (m, jump, Seq::empty())
            },
            Instruction::Goto { offset } => (self, Some(jump_target(self.pc, offset as int)), Seq::empty()),
            Instruction::BranchCompare { cond, offset } => (
                self,
                if compare_spec(cond, self.peek(4), self.peek(0)) {
                    Some(jump_target(self.pc, offset as int))
                } else {
                    None
                },
                Seq::empty(),
            ),
            Instruction::BranchTest { test, offset } => (
                self,
                if test_spec(test, self.peek(0)) {
                    Some(jump_target(self.pc, offset as int))
                } else {
                    None
                },
                Seq::empty(),
            ),
            Instruction::Dup { offset } => (self.push(self.peek(offset as int)), None, Seq::empty()),
            Instruction::Print { offset, radix } => (
                self,
                None,
                print_text(self.peek(offset as int), radix),
            ),
            Instruction::Dump => (self, None, dump_from(self.memory, self.sp, self.sp)),
            Instruction::Push { value } => (self.push(wrap(value as int)), None, Seq::empty()),
            Instruction::Nop => (self, None, Seq::empty()),
            Instruction::Unknown => (self, None, Seq::empty()),
        }
    }

    /// One fetch-decode-execute cycle with the trimmed input line `input`: the
    /// next state and the bytes written. `pc` moves to the next word unless
    /// the instruction set it or stopped the machine.
    pub open spec fn step(self, input: Seq<u8>) -> (Machine, Seq<u8>) {
        let (m, jump, out) = self.execute(decode_spec(self.current_word()), input);
        let pc = match jump {
            Some(t) => t,
            None => if m.exited {
                self.pc
            } else {
                self.pc + 4
            },
        };
        (Machine { pc, ..m }, out)
    }
}

/// Why a program image cannot be loaded.
#[derive(Clone, Copy, Debug, PartialEq, Eq, Structural)]
pub enum LoadError {
    /// The image is shorter than its four magic bytes.
    Truncated,
    /// The image does not start with the magic bytes.
    BadMagic,
    /// The program after the magic bytes does not fit in memory.
    TooLarge,
}

/// The virtual machine.
pub struct VM {
    pub memory: [u8; 4096],
    pub pc: usize,
    pub sp: usize,
    pub exited: bool,
    pub exit_code: i32,
    pub code_size: usize,
}

impl View for VM {
    type V = Machine;

    open spec fn view(&self) -> Machine {
        Machine {
            memory: self.memory@,
            pc: self.pc as int,
            sp: self.sp as int,
            exited: self.exited,
            exit_code: self.exit_code,
            code_size: self.code_size as int,
        }
    }
}

/// The bytes of the trimmed input line, or none without a line.
pub open spec fn input_of(line: Option<&str>) -> Seq<u8> {
    match line {
        Some(l) => line_bytes(l@),
        None => Seq::empty(),
    }
}

impl VM {
    pub open spec fn wf(&self) -> bool {
        self@.wf()
    }

    /// A machine with the given memory and `code_size` bytes of code, ready
    /// to run from address 0 with an empty stack.
    pub fn new(memory: [u8; 4096], code_size: usize) -> (r: VM)
        requires
            code_size <= 4096,
        ensures
            r.wf(),
            r.memory@ == memory@,
            r.pc == 0,
            r.sp == 4096,
            !r.exited,
            r.exit_code == 0,
            r.code_size == code_size,
    {
        VM { memory, pc: 0, sp: MEMORY_SIZE, exited: false, exit_code: 0, code_size }
    }

    /// Loads a program image: the magic bytes, then at most 4096 bytes of
    /// program, copied to address 0.
    pub fn load(image: &[u8]) -> (r: Result<VM, LoadError>)
        ensures
            image@.len() < 4 ==> r == Err::<VM, LoadError>(LoadError::Truncated),
            image@.len() >= 4 && image@.subrange(0, 4) != MAGIC@ ==> r == Err::<VM, LoadError>(
                LoadError::BadMagic,
            ),
            image@.len() >= 4 && image@.subrange(0, 4) == MAGIC@ && image@.len() > 4100 ==> r
                == Err::<VM, LoadError>(LoadError::TooLarge),
            image@.len() >= 4 && image@.subrange(0, 4) == MAGIC@ && image@.len() <= 4100 ==> r
                is Ok,
            r matches Ok(vm) ==> {
                &&& vm.wf()
                &&& vm.code_size == image@.len() - 4
                &&& vm.memory@ == image@.subrange(4, image@.len() as int) + Seq::new(
                    (4100 - image@.len()) as nat,
                    |i: int| 0u8,
                )
                &&& vm.pc == 0
                &&& vm.sp == 4096
                &&& !vm.exited
                &&& vm.exit_code == 0
            },
    {
        if image.len() < 4 {
            return Err(LoadError::Truncated);
        }
        let magic = MAGIC;
        if image[0] != magic[0] || image[1] != magic[1] || image[2] != magic[2] || image[3]
            != magic[3] {
            assert(image@.subrange(0, 4) != MAGIC@) by {
                if image@.subrange(0, 4) == MAGIC@ {
                    assert(image@.subrange(0, 4)[0] == image@[0]);
                    assert(image@.subrange(0, 4)[1] == image@[1]);
                    assert(image@.subrange(0, 4)[2] == image@[2]);
                    assert(image@.subrange(0, 4)[3] == image@[3]);
                }
            }
            return Err(LoadError::BadMagic);
        }
        assert(image@.subrange(0, 4) =~= MAGIC@);
        let size = image.len() - 4;
        if size > MEMORY_SIZE {
            return Err(LoadError::TooLarge);
        }
        let mut memory = [0u8; 4096];
        let mut i: usize = 0;
        while i < size
            invariant
                size == image@.len() - 4,
                size <= 4096,
                i <= size,
                memory@.len() == 4096,
                forall|k: int| 0 <= k < i ==> memory@[k] == image@[k + 4],
                forall|k: int| i <= k < 4096 ==> memory@[k] == 0,
            decreases size - i,
        {
            memory[i] = image[i + 4];
            i = i + 1;
        }
        assert(memory@ =~= image@.subrange(4, image@.len() as int) + Seq::new(
            (4100 - image@.len()) as nat,
            |i: int| 0u8,
        ));
        Ok(VM::new(memory, size))
    }

    /// Whether the machine goes on: it has not exited and `pc` is inside the
    /// loaded code.
    pub fn running(&self) -> (r: bool)
        ensures
            r == self@.running(),
    {
        !self.exited && self.pc < self.code_size
    }

    /// Reads the little-endian word at `addr`; zero when it is out of range.
    pub fn read_u32(&self, addr: usize) -> (r: u32)
        requires
            self.wf(),
        ensures
            r == word_at(self@.memory, addr as int),
    {
        if addr < MEMORY_SIZE - 3 {
            let b0 = self.memory[addr] as u32;
            let b1 = self.memory[addr + 1] as u32;
            let b2 = self.memory[addr + 2] as u32;
            let b3 = self.memory[addr + 3] as u32;
            b0 + 0x100 * b1 + 0x1_0000 * b2 + 0x100_0000 * b3
        } else {
            0
        }
    }

    /// Stores `value` little-endian at `addr`; nothing when it is out of range.
    pub fn write_u32(&mut self, addr: usize, value: u32)
        requires
            old(self).wf(),
        ensures
            final(self).wf(),
            final(self)@ == (Machine {
                memory: with_word(old(self)@.memory, addr as int, value),
                ..old(self)@
            }),
    {
        if addr < MEMORY_SIZE - 3 {
            self.memory[addr] = (value % 0x100) as u8;
            self.memory[addr + 1] = ((value / 0x100) % 0x100) as u8;
            self.memory[addr + 2] = ((value / 0x1_0000) % 0x100) as u8;
            self.memory[addr + 3] = (value / 0x100_0000) as u8;
            assert(self@.memory =~= with_word(old(self)@.memory, addr as int, value));
        }
    }

    /// Pushes `value`; nothing when the stack has no room.
    pub fn push(&mut self, value: u32)
        requires
            old(self).wf(),
        ensures
            final(self).wf(),
            final(self)@ == old(self)@.push(value),
    {
        if self.sp >= 4 {
            self.sp = self.sp - 4;
            self.write_u32(self.sp, value);
        }
    }

    /// Pops the top word; zero, and no change, on an empty stack.
    pub fn pop(&mut self) -> (r: u32)
        requires
            old(self).wf(),
        ensures
            final(self).wf(),
            r == old(self)@.top(),
            final(self)@ == old(self)@.pop(),
    {
        if self.sp + 4 <= MEMORY_SIZE {
            let value = self.read_u32(self.sp);
            self.sp = self.sp + 4;
            value
        } else {
            0
        }
    }

    /// Reads the word at `sp + offset` without moving `sp`; zero when it is
    /// out of range.
    pub fn peek(&self, offset: i32) -> (r: u32)
        requires
            self.wf(),
        ensures
            r == self@.peek(offset as int),
    {
        let addr: i64 = self.sp as i64 + offset as i64;
        if addr >= 0 && addr < 4093 {
            self.read_u32(addr as usize)
        } else {
            0
        }
    }

    /// Whether the instruction at `pc` reads a line of input.
    pub fn wants_line(&self) -> (r: bool)
        requires
            self.wf(),
        ensures
            r == reads_line(decode_spec(self@.current_word())),
    {
        let instr = Instruction::decode(self.read_u32(self.pc));
        match instr {
            Instruction::Input => true,
            Instruction::StringInput { .. } => true,
            _ => false,
        }
    }

    /// The address that a relative jump by `offset` from `pc` lands on.
    fn target(&self, offset: i32) -> (r: usize)
        requires
            self.wf(),
            self.pc <= 4096,
        ensures
            r == jump_target(self.pc as int, offset as int),
    {
        let t: i64 = self.pc as i64 + offset as i64;
        if t >= 0 {
            t as usize
        } else {
            usize::MAX - ((-t - 1) as usize)
        }
    }

    pub fn exec_exit(&mut self, code: u32)
        requires
            old(self).wf(),
            code < 4096,
        ensures
            final(self).wf(),
            final(self)@ == (Machine { exited: true, exit_code: code as i32, ..old(self)@ }),
    {
        self.exit_code = code as i32;
        self.exited = true;
    }

    pub fn exec_swap(&mut self, from: i32, to: i32)
        requires
            old(self).wf(),
        ensures
            final(self).wf(),
            final(self)@ == old(self)@.swapped(from as int, to as int),
    {
        let a1: i64 = self.sp as i64 + from as i64;
        let a2: i64 = self.sp as i64 + to as i64;
        if a1 >= 0 && a1 < 4093 && a2 >= 0 && a2 < 4093 {
            let v1 = self.read_u32(a1 as usize);
            let v2 = self.read_u32(a2 as usize);
            self.write_u32(a1 as usize, v2);
            self.write_u32(a2 as usize, v1);
        }
    }

    /// Pushes the number that the trimmed input line `line` holds.
    pub fn exec_input(&mut self, line: &[u8])
        requires
            old(self).wf(),
        ensures
            final(self).wf(),
            final(self)@ == old(self)@.push(input_value(line@)),
    {
        let value = parse_input(line);
        self.push(value);
    }

    /// Pushes the trimmed input line `line` as chunk words, last chunk first.
    pub fn exec_string_input(&mut self, line: &[u8], max_chars: u32)
        requires
            old(self).wf(),
        ensures
            final(self).pc == old(self).pc,
            final(self).code_size == old(self).code_size,
            final(self).exited == old(self).exited,
            final(self).wf(),
            final(self)@ == old(self)@.push_reversed(string_words(line@, max_chars)),
    {
        let words = pack_string(line, max_chars);
        let len = words.len();
        let mut i = len;
        while i > 0
            invariant
                i <= len,
                len == words@.len(),
                self.wf(),
                self.pc == old(self).pc,
                self.code_size == old(self).code_size,
                self.exited == old(self).exited,
                self@ == old(self)@.push_reversed(words@.subrange(i as int, len as int)),
            decreases i,
        {
            i = i - 1;
            assert(words@.subrange(i as int, len as int).drop_first() =~= words@.subrange(
                i + 1,
                len as int,
            ));
            self.push(words[i]);
        }
        assert(words@.subrange(0, len as int) =~= words@);
    }

    /// Discards `words` words of stack, stopping at the empty stack.
    pub fn exec_pop(&mut self, words: u32)
        requires
            old(self).wf(),
        ensures
            final(self).wf(),
            final(self)@ == (Machine {
                sp: if old(self)@.sp + 4 * words <= 4096 {
                    old(self)@.sp + 4 * words
                } else {
                    4096
                },
                ..old(self)@
            }),
    {
        let bytes: u64 = words as u64 * 4;
        if self.sp as u64 + bytes <= 4096 {
            self.sp = self.sp + bytes as usize;
        } else {
            self.sp = MEMORY_SIZE;
        }
    }

    /// Pops the right operand, then the left, and pushes `left op right`.
    pub fn exec_binary_arithmetic(&mut self, op: ArithOp)
        requires
            old(self).wf(),
        ensures
            final(self).wf(),
            final(self)@ == old(self)@.pop().pop().push(
                binary_spec(op, old(self)@.pop().top(), old(self)@.top()),
            ),
    {
        let right = self.pop();
        let left = self.pop();
        let result = apply_binary(op, left, right);
        self.push(result);
    }

    pub fn exec_unary_arithmetic(&mut self, op: UnaryOp)
        requires
            old(self).wf(),
        ensures
            final(self).wf(),
            final(self)@ == old(self)@.pop().push(unary_spec(op, old(self)@.top())),
    {
        let value = self.pop();
        let result = apply_unary(op, value);
        self.push(result);
    }

    /// The bytes that the string print writes from `sp + offset`.
    pub fn exec_stprint(&self, offset: i32) -> (r: Vec<u8>)
        requires
            self.wf(),
        ensures
            r@ == text_at(self@.memory, self@.sp + offset),
    {
        let start: i64 = self.sp as i64 + offset as i64;
        let mut out: Vec<u8> = Vec::new();
        if start >= 0 && start < 4096 {
            let mut a: usize = start as usize;
            while a < MEMORY_SIZE && self.memory[a] != 0
                invariant
                    self.wf(),
                    start <= a <= 4096,
                    out@ + text_at(self@.memory, a as int) == text_at(self@.memory, start as int),
                decreases 4096 - a,
            {
                let b = self.memory[a];
                let ghost before = out@;
                if b != 1 {
                    if b < 0x80 {
                        out.push(b);
                    } else {
                        out.push(0xc0 + b / 64);
                        out.push(0x80 + b % 64);
                    }
                }
                assert(out@ =~= before + (if b == 1 {
                    Seq::empty()
                } else {
                    char_bytes(b)
                }));
                assert(before + text_at(self@.memory, a as int) =~= out@ + text_at(
                    self@.memory,
                    a + 1,
                ));
                a = a + 1;
            }
            assert(out@ + text_at(self@.memory, a as int) =~= out@);
        }
        out
    }

    /// Pushes the return address and gives the call target.
    pub fn exec_call(&mut self, offset: i32) -> (r: usize)
        requires
            old(self).wf(),
            old(self).pc < 4096,
        ensures
            final(self).wf(),
            final(self)@ == old(self)@.push((old(self)@.pc + 4) as u32),
            r == jump_target(old(self)@.pc, offset as int),
    {
        let t = self.target(offset);
        let ret = (self.pc + 4) as u32;
        self.push(ret);
        t
    }

    /// Discards `offset` bytes of stack when positive and in range, then pops
    /// the return address when the stack is not empty.
    pub fn exec_return(&mut self, offset: i32) -> (r: Option<usize>)
        requires
            old(self).wf(),
        ensures
            final(self).wf(),
            ({
                let (m, jump) = old(self)@.returned(offset as int);
                final(self)@ == m && jump == (match r {
                    Some(t) => Some(t as int),
                    None => None::<int>,
                })
            }),
    {
        if offset > 0 && self.sp + (offset as usize) <= MEMORY_SIZE {
            self.sp = self.sp + offset as usize;
        }
        if self.sp < MEMORY_SIZE {
            let a = self.pop();
            Some(a as usize)
        } else {
            None
        }
    }

    pub fn exec_goto(&self, offset: i32) -> (r: usize)
        requires
            self.wf(),
            self.pc <= 4096,
        ensures
            r == jump_target(self@.pc, offset as int),
    {
        self.target(offset)
    }

    /// Compares the second word (left) with the top word (right), without
    /// popping them, and gives the branch target when the condition holds.
    pub fn exec_binary_if(&self, cond: Comparison, offset: i32) -> (r: Option<usize>)
        requires
            self.wf(),
            self.pc <= 4096,
        ensures
            r == (if compare_spec(cond, self@.peek(4), self@.peek(0)) {
                Some(jump_target(self@.pc, offset as int) as usize)
            } else {
                None
            }),
    {
        let right = self.peek(0);
        let left = self.peek(4);
        if compare(cond, left, right) {
            Some(self.target(offset))
        } else {
            None
        }
    }

    /// Tests the top word, without popping it, and gives the branch target
    /// when the test holds.
    pub fn exec_unary_if(&self, test: Test, offset: i32) -> (r: Option<usize>)
        requires
            self.wf(),
            self.pc <= 4096,
        ensures
            r == (if test_spec(test, self@.peek(0)) {
                Some(jump_target(self@.pc, offset as int) as usize)
            } else {
                None
            }),
    {
        let value = self.peek(0);
        if test_word(test, value) {
            Some(self.target(offset))
        } else {
            None
        }
    }

    pub fn exec_dup(&mut self, offset: i32)
        requires
            old(self).wf(),
        ensures
            final(self).wf(),
            final(self)@ == old(self)@.push(old(self)@.peek(offset as int)),
    {
        let value = self.peek(offset);
        self.push(value);
    }

    /// The line that the formatted print writes for the word at `sp + offset`.
    pub fn exec_print(&self, offset: i32, radix: Radix) -> (r: Vec<u8>)
        requires
            self.wf(),
        ensures
            r@ == print_text(self@.peek(offset as int), radix),
    {
        let value = self.peek(offset);
        format_word(value, radix)
    }

    /// One dump line per stack word, from the top down.
    pub fn exec_dump(&self) -> (r: Vec<u8>)
        requires
            self.wf(),
        ensures
            r@ == dump_from(self@.memory, self@.sp, self@.sp),
    {
        let mut out: Vec<u8> = Vec::new();
        if self.sp >= MEMORY_SIZE {
            return out;
        }
        let mut a = self.sp;
        while a < MEMORY_SIZE
            invariant
                self.wf(),
                self.sp <= a <= 4099,
                out@ + dump_from(self@.memory, self@.sp, a as int) == dump_from(
                    self@.memory,
                    self@.sp,
                    self@.sp,
                ),
            decreases 4100 - a,
        {
            let ghost before = out@;
            let mut line = format_dump_line((a - self.sp) as u32, self.read_u32(a));
            out.append(&mut line);
            assert(before + dump_from(self@.memory, self@.sp, a as int) =~= out@ + dump_from(
                self@.memory,
                self@.sp,
                a + 4,
            ));
            a = a + 4;
        }
        assert(out@ + dump_from(self@.memory, self@.sp, a as int) =~= out@);
        out
    }

    pub fn exec_push(&mut self, value: i32)
        requires
            old(self).wf(),
        ensures
            final(self).wf(),
            final(self)@ == old(self)@.push(wrap(value as int)),
    {
        proof {
            crate::word::lemma_wrap_small(value as int);
        }
        let word: u32 = if value < 0 {
            (value as i64 + 0x1_0000_0000) as u32
        } else {
            value as u32
        };
        self.push(word);
    }

    /// Executes `instr` with the trimmed input line `line`: the new `pc` when
    /// the instruction sets it, and the bytes it writes.
    pub fn execute_instruction(&mut self, instr: Instruction, line: &[u8]) -> (r: (
        Option<usize>,
        Vec<u8>,
    ))
        requires
            old(self).wf(),
            old(self).pc < 4096,
            instr.well_formed(),
        ensures
            final(self).wf(),
            final(self).pc == old(self).pc,
            final(self).code_size == old(self).code_size,
            ({
                let (m, jump, out) = old(self)@.execute(instr, line@);
                &&& final(self)@ == m
                &&& jump == (match r.0 {
                    Some(t) => Some(t as int),
                    None => None::<int>,
                })
                &&& r.1@ == out
            }),
    {
        proof {
            reveal(Machine::execute);
        }
        let none: Vec<u8> = Vec::new();
        match instr {
            Instruction::Exit { code } => {
                self.exec_exit(code);
                (None, none)
            },
            Instruction::Swap { from, to } => {
                self.exec_swap(from, to);
                (None, none)
            },
            Instruction::Nop => (None, none),
            Instruction::Input => {
                self.exec_input(line);
                (None, none)
            },
            Instruction::StringInput { max_chars } => {
                self.exec_string_input(line, max_chars);
                (None, none)
            },
            Instruction::Pop { words } => {
                self.exec_pop(words);
                (None, none)
            },
            Instruction::Binary { op } => {
                self.exec_binary_arithmetic(op);
                (None, none)
            },
            Instruction::Unary { kind } => {
                self.exec_unary_arithmetic(kind);
                (None, none)
            },
            Instruction::StPrint { offset } => (None, self.exec_stprint(offset)),
            Instruction::Call { offset } => {
                let t = self.exec_call(offset);
                (Some(t), none)
            },
            Instruction::Return { offset } => (self.exec_return(offset), none),
            Instruction::Goto { offset } => (Some(self.exec_goto(offset)), none),
            Instruction::BranchCompare { cond, offset } => (
                self.exec_binary_if(cond, offset),
                none,
            ),
            Instruction::BranchTest { test, offset } => (self.exec_unary_if(test, offset), none),
            Instruction::Dup { offset } => {
                self.exec_dup(offset);
                (None, none)
            },
            Instruction::Print { offset, radix } => (None, self.exec_print(offset, radix)),
            Instruction::Dump => (None, self.exec_dump()),
            Instruction::Push { value } => {
                self.exec_push(value);
                (None, none)
            },
            Instruction::Unknown => (None, none),
        }
    }

    /// Runs one fetch-decode-execute cycle and gives the bytes it writes.
    /// `line` is the next input line, read by the input instructions; they
    /// read an empty line in its place when it is `None`.
    pub fn step(&mut self, line: Option<&str>) -> (out: Vec<u8>)
        requires
            old(self).wf(),
            old(self)@.running(),
        ensures
            final(self).wf(),
            (final(self)@, out@) == old(self)@.step(input_of(line)),
    {
        let word = self.read_u32(self.pc);
        let instr = Instruction::decode(word);
        let (jump, out) = match line {
            Some(l) => {
                let t = trim_line(l);
                self.execute_instruction(instr, t.as_bytes())
            },
            None => {
                let empty: Vec<u8> = Vec::new();
                self.execute_instruction(instr, empty.as_slice())
            },
        };
        match jump {
            Some(t) => {
                self.pc = t;
            },
            None => {
                if !self.exited {
                    self.pc = self.pc + 4;
                }
            },
        }
        out
    }
}

} // verus!
