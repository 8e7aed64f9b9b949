use vmma31::field::sign_extend;
use vmma31::instruction::{ArithOp, Comparison, Instruction, Radix, Test, UnaryOp};
use vmma31::text::{format_dump_line, format_word, pack_string, parse_input};
use vmma31::vm::{LoadError, MEMORY_SIZE, VM};
use vmma31::word::{apply_binary, apply_unary};

fn machine(words: &[u32]) -> VM {
    let mut memory = [0u8; 4096];
    for (i, w) in words.iter().enumerate() {
        memory[4 * i..4 * i + 4].copy_from_slice(&w.to_le_bytes());
    }
    VM::new(memory, 4 * words.len())
}

fn run(vm: &mut VM, lines: &[&str]) -> (i32, Vec<u8>) {
    let mut out = Vec::new();
    let mut next = 0;
    let mut steps = 0;
    while vm.running() && steps < 10_000 {
        let line = if vm.wants_line() {
            next += 1;
            lines.get(next - 1).copied()
        } else {
            None
        };
        out.extend(vm.step(line));
        steps += 1;
    }
    (vm.exit_code, out)
}

fn push(v: i32) -> u32 {
    0xF000_0000 | (v as u32 & 0x0FFF_FFFF)
}

fn binary(op: u32) -> u32 {
    0x2000_0000 | (op << 24)
}

fn rel(class: u32, words: i32) -> u32 {
    (class << 28) | ((words as u32 & 0x03FF_FFFF) << 2)
}

fn branch(cond: u32, words: i32) -> u32 {
    0x8000_0000 | (cond << 25) | ((words as u32 & 0x007F_FFFF) << 2)
}

fn stack(vm: &VM) -> Vec<u32> {
    let mut words = Vec::new();
    let mut a = vm.sp;
    while a + 4 <= MEMORY_SIZE {
        words.push(vm.read_u32(a));
        a += 4;
    }
    words
}

#[test]
fn decode_classes() {
    assert_eq!(Instruction::decode(0x0000_0007), Instruction::Exit { code: 7 });
    assert_eq!(Instruction::decode(0x0100_1FFF), Instruction::Swap { from: 4, to: -4 });
    assert_eq!(Instruction::decode(0x0200_0000), Instruction::Nop);
    assert_eq!(Instruction::decode(0x0300_0000), Instruction::Nop);
    assert_eq!(Instruction::decode(0x0400_0000), Instruction::Input);
    assert_eq!(Instruction::decode(0x05FF_FFFF), Instruction::StringInput { max_chars: 0xFF_FFFF });
    assert_eq!(Instruction::decode(0x1000_0008), Instruction::Pop { words: 2 });
    assert_eq!(Instruction::decode(binary(1)), Instruction::Binary { op: ArithOp::Sub });
    assert_eq!(Instruction::decode(binary(10)), Instruction::Binary { op: ArithOp::Unknown });
    assert_eq!(Instruction::decode(binary(11)), Instruction::Binary { op: ArithOp::Asr });
    assert_eq!(Instruction::decode(0x3100_0000), Instruction::Unary { kind: UnaryOp::Not });
    assert_eq!(Instruction::decode(rel(4, -2)), Instruction::StPrint { offset: -8 });
    assert_eq!(Instruction::decode(rel(5, 3)), Instruction::Call { offset: 12 });
    assert_eq!(Instruction::decode(rel(6, 1)), Instruction::Return { offset: 4 });
    assert_eq!(Instruction::decode(rel(7, -1)), Instruction::Goto { offset: -4 });
    assert_eq!(
        Instruction::decode(branch(4, 5)),
        Instruction::BranchCompare { cond: Comparison::Le, offset: 20 }
    );
    assert_eq!(
        Instruction::decode(branch(7, 5)),
        Instruction::BranchCompare { cond: Comparison::Never, offset: 20 }
    );
    assert_eq!(
        Instruction::decode(0x9200_0010),
        Instruction::BranchTest { test: Test::Negative, offset: 16 }
    );
    assert_eq!(Instruction::decode(rel(12, 1)), Instruction::Dup { offset: 4 });
    assert_eq!(
        Instruction::decode(rel(13, 1) | 3),
        Instruction::Print { offset: 4, radix: Radix::Octal }
    );
    assert_eq!(Instruction::decode(0xE000_0000), Instruction::Dump);
    assert_eq!(Instruction::decode(push(-1)), Instruction::Push { value: -1 });
    assert_eq!(Instruction::decode(0xA000_0000), Instruction::Unknown);
    assert_eq!(Instruction::decode(0xB123_4567), Instruction::Unknown);
}

#[test]
fn decode_is_deterministic() {
    for w in [0u32, 0x0100_1FFF, 0x8BAD_F00D, 0xDEAD_BEEF, 0xFFFF_FFFF, 0x2B00_0000] {
        assert_eq!(Instruction::decode(w), Instruction::decode(w));
    }
}

#[test]
fn sign_extension_extremes() {
    for width in [12u32, 22, 23, 26, 28] {
        let max = (1u32 << (width - 1)) - 1;
        let min = 1u32 << (width - 1);
        assert_eq!(sign_extend(max, width), max as i32);
        assert_eq!(sign_extend(min, width), -(min as i32));
        assert_eq!(sign_extend(0, width), 0);
        assert_eq!(sign_extend((1u32 << width) - 1, width), -1);
    }
    assert_eq!(Instruction::decode(0xF7FF_FFFF), Instruction::Push { value: 134_217_727 });
    assert_eq!(Instruction::decode(0xF800_0000), Instruction::Push { value: -134_217_728 });
    assert_eq!(Instruction::decode(0x77FF_FFFC), Instruction::Goto { offset: 4 * 33_554_431 });
    assert_eq!(Instruction::decode(0x7800_0000), Instruction::Goto { offset: -4 * 33_554_432 });
    assert_eq!(
        Instruction::decode(0x80FF_FFFC),
        Instruction::BranchCompare { cond: Comparison::Eq, offset: 4 * 4_194_303 }
    );
    assert_eq!(
        Instruction::decode(0x8100_0000),
        Instruction::BranchCompare { cond: Comparison::Eq, offset: -4 * 4_194_304 }
    );
    assert_eq!(
        Instruction::decode(0x9000_0000 | (0x1F_FFFF << 2)),
        Instruction::BranchTest { test: Test::Zero, offset: 4 * 2_097_151 }
    );
    assert_eq!(
        Instruction::decode(0x9000_0000 | (0x20_0000 << 2)),
        Instruction::BranchTest { test: Test::Zero, offset: -4 * 2_097_152 }
    );
    assert_eq!(
        Instruction::decode(0x0100_07FF),
        Instruction::Swap { from: 0, to: 4 * 2047 }
    );
    assert_eq!(
        Instruction::decode(0x0180_0800),
        Instruction::Swap { from: -4 * 2048, to: -4 * 2048 }
    );
}

#[test]
fn push_then_pop_returns_value() {
    let mut vm = machine(&[]);
    vm.push(0xDEAD_BEEF);
    assert_eq!(vm.sp, 4092);
    assert_eq!(vm.pop(), 0xDEAD_BEEF);
    assert_eq!(vm.sp, 4096);
    vm.push(1);
    vm.push(2);
    assert_eq!(vm.pop(), 2);
    assert_eq!(vm.pop(), 1);
}

#[test]
fn pop_on_empty_stack_gives_zero() {
    let mut vm = machine(&[]);
    assert_eq!(vm.pop(), 0);
    assert_eq!(vm.sp, 4096);
}

#[test]
fn push_on_full_stack_is_dropped() {
    let mut vm = machine(&[]);
    vm.sp = 2;
    let before = vm.memory;
    vm.push(9);
    assert_eq!(vm.sp, 2);
    assert_eq!(vm.memory, before);
}

#[test]
fn peek_does_not_move_stack_pointer() {
    let mut vm = machine(&[]);
    vm.push(11);
    vm.push(22);
    assert_eq!(vm.peek(0), 22);
    assert_eq!(vm.peek(0), 22);
    assert_eq!(vm.peek(4), 11);
    assert_eq!(vm.sp, 4088);
    assert_eq!(vm.peek(8), 0);
    assert_eq!(vm.peek(-5000), 0);
    assert_eq!(vm.peek(i32::MAX), 0);
}

#[test]
fn memory_access_out_of_range() {
    let mut vm = machine(&[]);
    assert_eq!(vm.read_u32(4093), 0);
    assert_eq!(vm.read_u32(usize::MAX), 0);
    let before = vm.memory;
    vm.write_u32(4093, 0xFFFF_FFFF);
    vm.write_u32(usize::MAX, 0xFFFF_FFFF);
    assert_eq!(vm.memory, before);
    vm.write_u32(4092, 0x0403_0201);
    assert_eq!(&vm.memory[4092..], &[1, 2, 3, 4]);
    assert_eq!(vm.read_u32(4092), 0x0403_0201);
}

#[test]
fn binary_operators() {
    let m = |x: i32| x as u32;
    assert_eq!(apply_binary(ArithOp::Add, m(i32::MAX), 1), m(i32::MIN));
    assert_eq!(apply_binary(ArithOp::Sub, 5, 3), 2);
    assert_eq!(apply_binary(ArithOp::Sub, 3, 5), m(-2));
    assert_eq!(apply_binary(ArithOp::Mul, m(-3), 7), m(-21));
    assert_eq!(apply_binary(ArithOp::Div, m(-7), 2), m(-3));
    assert_eq!(apply_binary(ArithOp::Div, 7, m(-2)), m(-3));
    assert_eq!(apply_binary(ArithOp::Div, m(i32::MIN), m(-1)), m(i32::MIN));
    assert_eq!(apply_binary(ArithOp::Rem, m(-7), 2), m(-1));
    assert_eq!(apply_binary(ArithOp::Rem, 7, m(-2)), 1);
    assert_eq!(apply_binary(ArithOp::Rem, m(i32::MIN), m(-1)), 0);
    assert_eq!(apply_binary(ArithOp::And, 0b1100, 0b1010), 0b1000);
    assert_eq!(apply_binary(ArithOp::Or, 0b1100, 0b1010), 0b1110);
    assert_eq!(apply_binary(ArithOp::Xor, 0b1100, 0b1010), 0b0110);
    assert_eq!(apply_binary(ArithOp::Lsl, 1, 4), 16);
    assert_eq!(apply_binary(ArithOp::Lsl, 1, 33), 2);
    assert_eq!(apply_binary(ArithOp::Lsl, 0x8000_0001, 1), 2);
    assert_eq!(apply_binary(ArithOp::Lsr, m(-8), 1), 0x7FFF_FFFC);
    assert_eq!(apply_binary(ArithOp::Asr, m(-8), 1), m(-4));
    assert_eq!(apply_binary(ArithOp::Asr, m(-7), 1), m(-4));
    assert_eq!(apply_binary(ArithOp::Asr, 64, 3), 8);
    assert_eq!(apply_binary(ArithOp::Unknown, 5, 6), 0);
}

#[test]
fn division_by_zero_gives_zero() {
    assert_eq!(apply_binary(ArithOp::Div, 42, 0), 0);
    assert_eq!(apply_binary(ArithOp::Rem, 42, 0), 0);
    let mut vm = machine(&[push(7), push(0), binary(3), push(9), push(0), binary(4), 0x0000_0003]);
    let (code, _) = run(&mut vm, &[]);
    assert_eq!(code, 3);
    assert_eq!(stack(&vm), vec![0, 0]);
}

#[test]
fn unary_operators() {
    assert_eq!(apply_unary(UnaryOp::Neg, 5), (-5i32) as u32);
    assert_eq!(apply_unary(UnaryOp::Neg, 0x8000_0000), 0x8000_0000);
    assert_eq!(apply_unary(UnaryOp::Not, 0), 0xFFFF_FFFF);
    assert_eq!(apply_unary(UnaryOp::Unknown, 5), 0);
    let mut vm = machine(&[push(5), 0x3000_0000]);
    run(&mut vm, &[]);
    assert_eq!(stack(&vm), vec![(-5i32) as u32]);
}

#[test]
fn exit_code_ends_the_run() {
    let mut vm = machine(&[0x0000_0007, push(1), push(2), 0x0000_0009]);
    let (code, out) = run(&mut vm, &[]);
    assert_eq!(code, 7);
    assert!(out.is_empty());
    assert!(vm.exited);
    assert_eq!(vm.pc, 0);
    assert_eq!(vm.sp, 4096);
}

#[test]
fn running_off_the_code_ends_with_zero() {
    let mut vm = machine(&[push(1), push(2)]);
    let (code, _) = run(&mut vm, &[]);
    assert_eq!(code, 0);
    assert!(!vm.exited);
    assert_eq!(vm.pc, 8);
}

#[test]
fn push_push_sub_leaves_difference() {
    let mut vm = machine(&[push(5), push(3), binary(1)]);
    run(&mut vm, &[]);
    assert_eq!(stack(&vm), vec![2]);
    assert_eq!(vm.sp, 4092);
}

#[test]
fn branch_on_equal_words() {
    let mut vm = machine(&[push(4), push(4), branch(0, 3)]);
    vm.step(None);
    vm.step(None);
    vm.step(None);
    assert_eq!(vm.pc, 8 + 12);
    assert_eq!(stack(&vm), vec![4, 4]);

    let mut vm = machine(&[push(4), push(4), branch(1, 3)]);
    vm.step(None);
    vm.step(None);
    vm.step(None);
    assert_eq!(vm.pc, 12);
    assert_eq!(stack(&vm), vec![4, 4]);
}

#[test]
fn binary_branch_compares_left_with_right() {
    // left = 2 (pushed first), right = 9 (top): 2 < 9.
    let mut vm = machine(&[push(2), push(9), branch(2, -2)]);
    vm.step(None);
    vm.step(None);
    vm.step(None);
    assert_eq!(vm.pc, 0);
    let mut vm = machine(&[push(2), push(9), branch(3, -2)]);
    vm.step(None);
    vm.step(None);
    vm.step(None);
    assert_eq!(vm.pc, 12);
}

#[test]
fn unary_branch_tests_top() {
    let mut vm = machine(&[push(-3), 0x9200_0000 | (2 << 2)]);
    vm.step(None);
    vm.step(None);
    assert_eq!(vm.pc, 12);
    assert_eq!(stack(&vm), vec![(-3i32) as u32]);
    let mut vm = machine(&[push(-3), 0x9000_0000 | (2 << 2)]);
    vm.step(None);
    vm.step(None);
    assert_eq!(vm.pc, 8);
}

#[test]
fn jump_to_own_address_loops() {
    let mut vm = machine(&[rel(7, 0), 0x0000_0001]);
    vm.step(None);
    assert_eq!(vm.pc, 0);
    vm.step(None);
    assert_eq!(vm.pc, 0);
}

#[test]
fn jump_before_address_zero_stops() {
    let mut vm = machine(&[rel(7, -1)]);
    vm.step(None);
    assert!(!vm.running());
    assert_eq!(vm.pc, usize::MAX - 3);
}

#[test]
fn call_and_return() {
    // 0: call +2 -> 8; 4: exit 5; 8: push 1; 12: pop 1; 16: return 0
    let mut vm = machine(&[rel(5, 2), 0x0000_0005, push(1), 0x1000_0004, rel(6, 0)]);
    let (code, _) = run(&mut vm, &[]);
    assert_eq!(code, 5);
    assert_eq!(vm.sp, 4096);
}

#[test]
fn return_discards_callee_words() {
    // 0: call +2 -> 8; 4: exit 6; 8: push 1; 12: push 2; 16: return 2 words
    let mut vm = machine(&[rel(5, 2), 0x0000_0006, push(1), push(2), rel(6, 2)]);
    let (code, _) = run(&mut vm, &[]);
    assert_eq!(code, 6);
    assert_eq!(vm.sp, 4096);
}

#[test]
fn return_on_empty_stack_goes_on() {
    let mut vm = machine(&[rel(6, 0), 0x0000_0002]);
    let (code, _) = run(&mut vm, &[]);
    assert_eq!(code, 2);
}

#[test]
fn pop_instruction_clamps() {
    let mut vm = machine(&[push(1), push(2), push(3), 0x1000_0008]);
    run(&mut vm, &[]);
    assert_eq!(stack(&vm), vec![1]);
    let mut vm = machine(&[push(1), 0x13FF_FFFC]);
    run(&mut vm, &[]);
    assert_eq!(vm.sp, 4096);
}

#[test]
fn swap_and_dup() {
    let mut vm = machine(&[push(1), push(2), 0x0100_1000, rel(12, 1)]);
    run(&mut vm, &[]);
    assert_eq!(stack(&vm), vec![2, 1, 2]);
    let mut vm = machine(&[push(1), 0x0100_1000]);
    run(&mut vm, &[]);
    assert_eq!(stack(&vm), vec![1]);
}

#[test]
fn number_input() {
    assert_eq!(parse_input(b"42"), 42);
    assert_eq!(parse_input(b"-12"), (-12i32) as u32);
    assert_eq!(parse_input(b"+7"), 7);
    assert_eq!(parse_input(b"0x1F"), 31);
    assert_eq!(parse_input(b"0XfF"), 255);
    assert_eq!(parse_input(b"0b101"), 5);
    assert_eq!(parse_input(b"0B11"), 3);
    assert_eq!(parse_input(b"0x-5"), (-5i32) as u32);
    assert_eq!(parse_input(b"2147483647"), 0x7FFF_FFFF);
    assert_eq!(parse_input(b"2147483648"), 0);
    assert_eq!(parse_input(b"-2147483648"), 0x8000_0000);
    assert_eq!(parse_input(b"abc"), 0);
    assert_eq!(parse_input(b""), 0);
    assert_eq!(parse_input(b"-"), 0);
    assert_eq!(parse_input(b"0x"), 0);
    assert_eq!(parse_input(b"0b102"), 0);
    let mut vm = machine(&[0x0400_0000, 0x0400_0000, binary(0)]);
    run(&mut vm, &["  40 \n", "0x2\r\n"]);
    assert_eq!(stack(&vm), vec![42]);
}

#[test]
fn string_input_two_chars() {
    assert_eq!(pack_string(b"ab", 0xFF_FFFF), vec![0x0000_6261]);
    let mut vm = machine(&[0x05FF_FFFF]);
    run(&mut vm, &["ab\n"]);
    assert_eq!(stack(&vm), vec![0x0000_6261]);
    assert_eq!(vm.pop(), 0x0000_6261);
    assert_eq!(vm.sp, 4096);
}

#[test]
fn string_input_chunks() {
    assert_eq!(pack_string(b"abc", 0xFF_FFFF), vec![0x0063_6261]);
    assert_eq!(pack_string(b"abcd", 0xFF_FFFF), vec![0x0163_6261, 0x0000_0064]);
    assert_eq!(pack_string(b"abcdefg", 3), vec![0x0063_6261]);
    assert_eq!(pack_string(b"abcdefg", 4), vec![0x0163_6261, 0x0000_0064]);
    assert_eq!(pack_string(b"", 5), vec![0]);
    assert_eq!(pack_string(b"abc", 0), Vec::<u32>::new());
    let mut vm = machine(&[0x05FF_FFFF]);
    run(&mut vm, &["  abcd  \n"]);
    assert_eq!(stack(&vm), vec![0x0163_6261, 0x0000_0064]);
    let mut vm = machine(&[0x05FF_FFFF]);
    run(&mut vm, &["   \n"]);
    assert_eq!(stack(&vm), vec![0]);
}

#[test]
fn stprint_stops_at_zero() {
    let mut vm = machine(&[rel(4, 0)]);
    vm.push(0x0000_4948);
    let out = vm.step(None);
    assert_eq!(out, b"HI".to_vec());
}

#[test]
fn stprint_skips_continuation_bytes() {
    let mut vm = machine(&[0x05FF_FFFF, rel(4, 0)]);
    let (_, out) = run(&mut vm, &["hello world"]);
    assert_eq!(out, b"hello world".to_vec());
    let mut vm = machine(&[rel(4, 0)]);
    vm.push(0x0000_00E9);
    assert_eq!(vm.step(None), "\u{e9}".as_bytes().to_vec());
}

#[test]
fn formatted_print() {
    assert_eq!(format_word((-5i32) as u32, Radix::Decimal), b"-5\n".to_vec());
    assert_eq!(format_word(0x8000_0000, Radix::Decimal), b"-2147483648\n".to_vec());
    assert_eq!(format_word(0, Radix::Decimal), b"0\n".to_vec());
    assert_eq!(format_word(0xFFFF_FFFF, Radix::Hex), b"0xffffffff\n".to_vec());
    assert_eq!(format_word(255, Radix::Hex), b"0xff\n".to_vec());
    assert_eq!(format_word(5, Radix::Binary), b"0b101\n".to_vec());
    assert_eq!(format_word(8, Radix::Octal), b"0o10\n".to_vec());
    let mut vm = machine(&[push(-17), push(3), rel(13, 1), rel(13, 0) | 1]);
    let (_, out) = run(&mut vm, &[]);
    assert_eq!(out, b"-17\n0x3\n".to_vec());
}

#[test]
fn dump_lists_stack() {
    assert_eq!(format_dump_line(4, 0x2A), b"0004: 0000002a\n".to_vec());
    let mut vm = machine(&[push(7), push(-1), 0xE000_0000]);
    let (_, out) = run(&mut vm, &[]);
    assert_eq!(out, b"0000: ffffffff\n0004: 00000007\n".to_vec());
    let mut vm = machine(&[0xE000_0000]);
    let (_, out) = run(&mut vm, &[]);
    assert!(out.is_empty());
}

#[test]
fn unknown_class_is_ignored() {
    let mut vm = machine(&[0xA123_4567, 0xB000_0000, 0x0300_0000, 0x0000_0004]);
    let (code, _) = run(&mut vm, &[]);
    assert_eq!(code, 4);
    assert_eq!(vm.sp, 4096);
}

#[test]
fn load_image() {
    assert_eq!(VM::load(&[0xde, 0xad]).err(), Some(LoadError::Truncated));
    assert_eq!(VM::load(&[0xde, 0xad, 0xbe, 0xee, 1]).err(), Some(LoadError::BadMagic));
    let mut big = vec![0xde, 0xad, 0xbe, 0xef];
    big.extend(std::iter::repeat(0u8).take(4097));
    assert_eq!(VM::load(&big).err(), Some(LoadError::TooLarge));
    let mut full = vec![0xde, 0xad, 0xbe, 0xef];
    full.extend(std::iter::repeat(7u8).take(4096));
    let vm = VM::load(&full).ok().unwrap();
    assert_eq!(vm.code_size, 4096);
    let image = [0xde, 0xad, 0xbe, 0xef, 0x07, 0x00, 0x00, 0x00];
    let mut vm = VM::load(&image).ok().unwrap();
    assert_eq!(vm.code_size, 4);
    assert_eq!(vm.pc, 0);
    assert_eq!(vm.sp, 4096);
    assert_eq!(vm.memory[0], 7);
    assert_eq!(vm.memory[4], 0);
    let (code, _) = run(&mut vm, &[]);
    assert_eq!(code, 7);
}
