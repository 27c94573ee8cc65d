use rvm::isa::{decode, encode, Instr};
use rvm::machine::{EngineState, Event, Fault, Flags, LoadError, Virtmachine};

fn image(words: &[u32]) -> Vec<u8> {
    let mut bytes = Vec::new();
    for w in words {
        bytes.extend_from_slice(&w.to_be_bytes());
    }
    bytes
}

fn machine_with(capacity: usize, program: &[Instr], data: &[(usize, u32)]) -> Virtmachine {
    let mut words: Vec<u32> = program.iter().map(|i| encode(*i)).collect();
    for &(at, w) in data {
        if words.len() <= at {
            words.resize(at + 1, 0);
        }
        words[at] = w;
    }
    let mut vm = Virtmachine::new(capacity);
    vm.load(&image(&words)).unwrap();
    vm
}

const CLEAR: Flags = Flags { halt: false, zero: false, overflow: false };

#[test]
fn fresh_machine_is_zeroed_and_running() {
    let vm = Virtmachine::new(500);
    assert_eq!(vm.capacity(), 500);
    assert_eq!(vm.ip(), 0);
    assert_eq!(vm.flags(), CLEAR);
    assert_eq!(vm.state(), EngineState::Running);
    assert_eq!(vm.get_mem(0), 0);
    assert_eq!(vm.get_mem(499), 0);
}

#[test]
fn load_fills_prefix_and_leaves_suffix_zero() {
    let mut vm = Virtmachine::new(8);
    let words = [0x0102_0304u32, 0xFFFF_FFFF, 7];
    assert_eq!(vm.load(&image(&words)), Ok(()));
    assert_eq!(vm.get_mem(0), 0x0102_0304);
    assert_eq!(vm.get_mem(1), 0xFFFF_FFFF);
    assert_eq!(vm.get_mem(2), 7);
    for i in 3..8 {
        assert_eq!(vm.get_mem(i), 0);
    }
}

#[test]
fn load_exactly_capacity_words() {
    let mut vm = Virtmachine::new(2);
    assert_eq!(vm.load(&image(&[5, 6])), Ok(()));
    assert_eq!(vm.print_mem(0, 1), vec![5, 6]);
}

#[test]
fn load_too_many_words_fails() {
    let mut vm = Virtmachine::new(2);
    assert_eq!(
        vm.load(&image(&[1, 2, 3])),
        Err(LoadError::TooLarge { words: 3, capacity: 2 })
    );
    assert_eq!(vm.print_mem(0, 1), vec![0, 0]);
}

#[test]
fn load_partial_word_fails() {
    let mut vm = Virtmachine::new(4);
    assert_eq!(vm.load(&[1, 2, 3, 4, 5]), Err(LoadError::PartialWord { len: 5 }));
    assert_eq!(vm.get_mem(0), 0);
}

#[test]
fn load_empty_image() {
    let mut vm = Virtmachine::new(3);
    assert_eq!(vm.load(&[]), Ok(()));
    assert_eq!(vm.print_mem(0, 2), vec![0, 0, 0]);
}

#[test]
fn str_stores_immediate_and_keeps_flags() {
    let mut vm = machine_with(16, &[Instr::Str { dst: 9, imm: 0x000A }, Instr::Eof], &[]);
    assert_eq!(vm.cycle(), Event::Continue);
    assert_eq!(vm.get_mem(9), 10);
    assert_eq!(vm.flags(), CLEAR);
    assert_eq!(vm.ip(), 1);
}

#[test]
fn str_then_adi_then_halt() {
    let mut vm = machine_with(
        16,
        &[Instr::Str { dst: 0, imm: 10 }, Instr::Adi { dst: 0, imm: 5 }, Instr::Eof],
        &[],
    );
    let out = vm.run(100);
    assert!(out.is_empty());
    assert_eq!(vm.get_mem(0), 15);
    assert!(!vm.flags().overflow);
    assert!(vm.flags().halt);
    assert_eq!(vm.state(), EngineState::Halted);
}

#[test]
fn adi_overflow_keeps_word_and_sets_flag() {
    let mut vm = machine_with(
        16,
        &[Instr::Mov { dst: 0, src: 5 }, Instr::Adi { dst: 0, imm: 1 }, Instr::Eof],
        &[(5, u32::MAX)],
    );
    vm.run(100);
    assert_eq!(vm.get_mem(0), u32::MAX);
    assert!(vm.flags().overflow);
    assert_eq!(vm.state(), EngineState::Halted);
}

#[test]
fn sui_to_zero_sets_zero_flag() {
    let mut vm = machine_with(
        16,
        &[Instr::Str { dst: 10, imm: 3 }, Instr::Sui { dst: 10, imm: 3 }, Instr::Eof],
        &[],
    );
    vm.run(100);
    assert_eq!(vm.get_mem(10), 0);
    assert!(vm.flags().zero);
    assert!(!vm.flags().overflow);
}

#[test]
fn sui_underflow_sets_overflow() {
    let mut vm = machine_with(
        16,
        &[Instr::Str { dst: 10, imm: 3 }, Instr::Sui { dst: 10, imm: 4 }, Instr::Eof],
        &[],
    );
    vm.run(100);
    assert_eq!(vm.get_mem(10), 3);
    assert!(vm.flags().overflow);
    assert!(!vm.flags().zero);
}

fn compare_program(x: u16, y: u16) -> Virtmachine {
    machine_with(
        16,
        &[
            Instr::Str { dst: 10, imm: x },
            Instr::Str { dst: 11, imm: y },
            Instr::Cmp { a: 10, b: 11 },
            Instr::Jz { target: 6 },
            Instr::Str { dst: 12, imm: 1 },
            Instr::Eof,
            Instr::Str { dst: 12, imm: 2 },
            Instr::Eof,
        ],
        &[],
    )
}

#[test]
fn cmp_equal_sets_zero_and_jz_jumps() {
    let mut vm = compare_program(7, 7);
    vm.run(100);
    assert!(vm.flags().zero);
    assert_eq!(vm.get_mem(12), 2);
    assert_eq!(vm.ip(), 7);
}

#[test]
fn cmp_unequal_clears_zero_and_jz_falls_through() {
    let mut vm = compare_program(7, 8);
    vm.run(100);
    assert!(!vm.flags().zero);
    assert_eq!(vm.get_mem(12), 1);
    assert_eq!(vm.ip(), 5);
}

#[test]
fn cmp_compares_op2_hi_operand() {
    let mut vm = Virtmachine::new(8);
    // cmp 1 2 with a stray low byte of 3: the second address is byte op2_hi,
    // so mem[1] == mem[2] is compared, not mem[1] == mem[3].
    vm.load(&image(&[0x0701_0203, 5, 5, 6])).unwrap();
    assert_eq!(vm.cycle(), Event::Continue);
    assert!(vm.flags().zero);
}

#[test]
fn jmp_sets_ip_to_target() {
    let mut vm = machine_with(16, &[Instr::Jmp { target: 3 }], &[]);
    vm.cycle();
    assert_eq!(vm.ip(), 3);
}

#[test]
fn prints_hi_in_order_and_halts() {
    let mut vm = machine_with(
        16,
        &[
            Instr::Str { dst: 0, imm: 'H' as u16 },
            Instr::Prn { addr: 0 },
            Instr::Str { dst: 0, imm: 'i' as u16 },
            Instr::Prn { addr: 0 },
            Instr::Eof,
        ],
        &[],
    );
    let out = vm.run(100);
    assert_eq!(out.iter().collect::<String>(), "Hi");
    assert_eq!(vm.state(), EngineState::Halted);
    assert_eq!(vm.cycle(), Event::Stopped);
}

#[test]
fn prn_emits_low_byte() {
    let mut vm = machine_with(16, &[Instr::Prn { addr: 5 }], &[(5, 0x1234_5641)]);
    assert_eq!(vm.cycle(), Event::Print('A'));
}

#[test]
fn div_by_zero_faults_without_touching_memory() {
    let mut vm = machine_with(
        16,
        &[
            Instr::Str { dst: 10, imm: 5 },
            Instr::Div { dst: 10, src: 11 },
            Instr::Str { dst: 12, imm: 9 },
            Instr::Eof,
        ],
        &[],
    );
    let before = vm.print_mem(0, 15);
    assert_eq!(vm.cycle(), Event::Continue);
    let e = vm.cycle();
    assert_eq!(e, Event::Fault(Fault::Arithmetic { ip: 1 }));
    assert_eq!(vm.state(), EngineState::Faulted(Fault::Arithmetic { ip: 1 }));
    assert!(vm.flags().halt);
    let after = vm.print_mem(0, 15);
    assert_eq!(after[10], 5);
    assert_eq!(after[12], 0);
    assert_eq!(&after[11..], &before[11..]);
    assert_eq!(vm.run(10), Vec::<char>::new());
    assert_eq!(vm.get_mem(12), 0);
}

#[test]
fn div_and_mul_compute() {
    let mut vm = machine_with(
        16,
        &[
            Instr::Str { dst: 10, imm: 84 },
            Instr::Str { dst: 11, imm: 4 },
            Instr::Div { dst: 10, src: 11 },
            Instr::Mul { dst: 10, src: 11 },
            Instr::Mul { dst: 11, src: 11 },
            Instr::Eof,
        ],
        &[],
    );
    vm.run(100);
    assert_eq!(vm.get_mem(10), 84);
    assert_eq!(vm.get_mem(11), 16);
    assert!(!vm.flags().overflow);
}

#[test]
fn mul_overflow_keeps_word() {
    let mut vm = machine_with(
        16,
        &[Instr::Mul { dst: 10, src: 11 }, Instr::Eof],
        &[(10, 0x10000), (11, 0x10000)],
    );
    vm.run(100);
    assert_eq!(vm.get_mem(10), 0x10000);
    assert!(vm.flags().overflow);
}

#[test]
fn mov_and_mop_copy_words() {
    let mut vm = machine_with(
        16,
        &[Instr::Mov { dst: 12, src: 10 }, Instr::Mop { dst: 13, src: 11 }, Instr::Eof],
        &[(10, 77), (11, 14), (14, 99)],
    );
    vm.run(100);
    assert_eq!(vm.get_mem(12), 77);
    assert_eq!(vm.get_mem(13), 99);
}

#[test]
fn address_beyond_capacity_faults() {
    let mut vm = machine_with(8, &[Instr::Str { dst: 200, imm: 1 }], &[]);
    assert_eq!(vm.cycle(), Event::Fault(Fault::Address { ip: 0, addr: 200 }));
    assert_eq!(vm.state(), EngineState::Faulted(Fault::Address { ip: 0, addr: 200 }));
}

#[test]
fn mop_pointer_beyond_capacity_faults() {
    let mut vm = machine_with(8, &[Instr::Mop { dst: 5, src: 6 }], &[(6, 1000)]);
    assert_eq!(vm.cycle(), Event::Fault(Fault::Address { ip: 0, addr: 1000 }));
}

#[test]
fn fetch_beyond_capacity_faults() {
    let mut vm = machine_with(4, &[Instr::Jmp { target: 50 }], &[]);
    assert_eq!(vm.cycle(), Event::Continue);
    assert_eq!(vm.cycle(), Event::Fault(Fault::Address { ip: 50, addr: 50 }));
}

#[test]
fn unknown_opcode_is_skipped() {
    let mut vm = Virtmachine::new(4);
    vm.load(&image(&[0x4200_0000, encode(Instr::Eof)])).unwrap();
    assert_eq!(vm.cycle(), Event::Continue);
    assert_eq!(vm.ip(), 1);
    assert_eq!(vm.cycle(), Event::Halt);
    assert_eq!(vm.state(), EngineState::Halted);
}

#[test]
fn run_stops_after_cycle_budget() {
    let mut vm = machine_with(4, &[Instr::Jmp { target: 0 }], &[]);
    assert!(vm.run(10).is_empty());
    assert_eq!(vm.state(), EngineState::Running);
    assert_eq!(vm.ip(), 0);
}

#[test]
fn encodings_have_canonical_layout() {
    assert_eq!(encode(Instr::Eof), 0xFF00_0000);
    assert_eq!(encode(Instr::Mov { dst: 1, src: 2 }), 0x0101_0002);
    assert_eq!(encode(Instr::Str { dst: 1, imm: 0x0203 }), 0x0201_0203);
    assert_eq!(encode(Instr::Cmp { a: 1, b: 2 }), 0x0701_0200);
    assert_eq!(encode(Instr::Jz { target: 9 }), 0x0609_0000);
    assert_eq!(encode(Instr::Div { dst: 3, src: 4 }), 0x0A03_0004);
    assert_eq!(decode(0x0B05_0006), Instr::Mop { dst: 5, src: 6 });
    assert_eq!(decode(0x0401_FFFF), Instr::Sui { dst: 1, imm: 0xFFFF });
    assert_eq!(decode(0x4212_3456), Instr::Unknown { opcode: 0x42 });
}

#[test]
fn every_opcode_round_trips() {
    let all = [
        Instr::Eof,
        Instr::Mov { dst: 1, src: 2 },
        Instr::Mop { dst: 3, src: 4 },
        Instr::Str { dst: 5, imm: 0xBEEF },
        Instr::Adi { dst: 6, imm: 7 },
        Instr::Sui { dst: 8, imm: 9 },
        Instr::Jmp { target: 10 },
        Instr::Jz { target: 11 },
        Instr::Cmp { a: 12, b: 13 },
        Instr::Prn { addr: 14 },
        Instr::Mul { dst: 15, src: 16 },
        Instr::Div { dst: 17, src: 255 },
        Instr::Unknown { opcode: 0x77 },
    ];
    for i in all {
        let w = encode(i);
        assert_eq!(decode(w), i);
        assert_eq!(encode(decode(w)), w);
    }
}

#[test]
fn zero_flag_persists_until_cmp() {
    let mut vm = machine_with(
        16,
        &[
            Instr::Str { dst: 10, imm: 1 },
            Instr::Sui { dst: 10, imm: 1 },
            Instr::Str { dst: 11, imm: 4 },
            Instr::Adi { dst: 11, imm: 4 },
            Instr::Str { dst: 12, imm: 5 },
            Instr::Cmp { a: 11, b: 12 },
            Instr::Eof,
        ],
        &[],
    );
    for _ in 0..5 {
        vm.cycle();
    }
    assert!(vm.flags().zero);
    assert_eq!(vm.cycle(), Event::Continue);
    assert!(!vm.flags().zero);
    assert_eq!(vm.cycle(), Event::Halt);
    assert!(vm.flags().halt);
}
