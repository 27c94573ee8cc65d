use rvm::assembler::{AsmError, Assembler, Element};
use rvm::machine::{EngineState, Virtmachine};

fn chars(tokens: &[&str]) -> Vec<Vec<char>> {
    tokens.iter().map(|t| t.chars().collect()).collect()
}

#[test]
fn assembles_instruction_lines() {
    assert_eq!(Assembler::assemble("str 0 10"), Ok(Some(0x0200_000A)));
    assert_eq!(Assembler::assemble("  adi   3 513 "), Ok(Some(0x0303_0201)));
    assert_eq!(Assembler::assemble("mov 1 2"), Ok(Some(0x0101_0002)));
    assert_eq!(Assembler::assemble("cmp 1 2"), Ok(Some(0x0701_0200)));
    assert_eq!(Assembler::assemble("jz 7"), Ok(Some(0x0607_0000)));
    assert_eq!(Assembler::assemble("eof"), Ok(Some(0xFF00_0000)));
    assert_eq!(Assembler::assemble("\tprn\t4"), Ok(Some(0x0804_0000)));
}

#[test]
fn comments_are_removed() {
    assert_eq!(Assembler::assemble("str 0 10 ; store ten"), Ok(Some(0x0200_000A)));
    assert_eq!(Assembler::assemble("eof;bogus 1 2"), Ok(Some(0xFF00_0000)));
    assert_eq!(Assembler::assemble("; only a comment"), Ok(None));
    assert_eq!(Assembler::assemble(""), Ok(None));
    assert_eq!(Assembler::assemble("   "), Ok(None));
}

#[test]
fn rejects_bad_lines() {
    assert_eq!(Assembler::assemble("nop"), Err(AsmError::UnknownMnemonic));
    assert_eq!(Assembler::assemble("str 0 x"), Err(AsmError::BadNumber));
    assert_eq!(Assembler::assemble("str 0 65536"), Err(AsmError::BadNumber));
    assert_eq!(Assembler::assemble("str 0 65535"), Ok(Some(0x0200_FFFF)));
    assert_eq!(Assembler::assemble("mov 300 1"), Err(AsmError::BadOperands));
    assert_eq!(Assembler::assemble("str 256 1"), Err(AsmError::BadOperands));
    assert_eq!(Assembler::assemble("eof 1"), Err(AsmError::BadOperands));
    assert_eq!(Assembler::assemble("jmp"), Err(AsmError::BadOperands));
}

#[test]
fn element_from_tokens() {
    let e = Element::new(&chars(&["sui", "4", "1000"])).unwrap();
    assert_eq!(e.op, 0x04);
    assert_eq!(e.args, vec![4, 1000]);
    assert_eq!(e.composed, 0x0404_03E8);
    assert!(matches!(Element::new(&chars(&["div", "1", "-2"])), Err(AsmError::BadNumber)));
}

#[test]
fn gen_binary_writes_big_endian_words() {
    let src = ["str 0 72 ; H", "", "prn 0", "; done", "eof"];
    let mut source = Assembler::new(src.iter().map(|s| s.to_string()).collect());
    let bytes = source.gen_binary().unwrap();
    assert_eq!(source.words(), &vec![0x0200_0048, 0x0800_0000, 0xFF00_0000]);
    assert_eq!(
        bytes,
        vec![0x02, 0x00, 0x00, 0x48, 0x08, 0x00, 0x00, 0x00, 0xFF, 0x00, 0x00, 0x00]
    );
}

#[test]
fn gen_binary_names_first_bad_line() {
    let src = ["str 0 1", "bad 1", "mov 999 1"];
    let mut source = Assembler::new(src.iter().map(|s| s.to_string()).collect());
    assert_eq!(source.gen_binary(), Err((1, AsmError::UnknownMnemonic)));
}

#[test]
fn assembled_program_runs() {
    let src = ["str 0 72", "prn 0", "str 0 105", "prn 0", "eof"];
    let mut source = Assembler::new(src.iter().map(|s| s.to_string()).collect());
    let bytes = source.gen_binary().unwrap();
    let mut vm = Virtmachine::new(500);
    vm.load(&bytes).unwrap();
    let out: String = vm.run(1000).into_iter().collect();
    assert_eq!(out, "Hi");
    assert_eq!(vm.state(), EngineState::Halted);
}
