use vmma18::machine::Machine;
use vmma18::program::{words_from_bytes, BadProgram, MAGIC};
use vmma18::state::{Fault, MEMORY_WORDS};

#[test]
fn load_puts_the_program_at_address_zero() {
    let mut machine = Machine::new(Vec::new());
    assert_eq!(machine.push(7), Ok(()));
    machine.step();
    assert_eq!(machine.load(&[MAGIC, 0xF000_0001, 0xF000_0002, 0x2000_0000]), Ok(()));
    assert_eq!(machine.word_at(0), Some(0xF000_0001));
    assert_eq!(machine.word_at(1), Some(0xF000_0002));
    assert_eq!(machine.word_at(2), Some(0x2000_0000));
    assert_eq!(machine.word_at(3), Some(0));
    // what lies behind the program stays
    assert_eq!(machine.word_at(1023), Some(7));
    assert_eq!(machine.sp(), 1024);
    assert_eq!(machine.pc(), 0);
}

#[test]
fn load_without_the_magic_word_fails_and_changes_nothing() {
    let mut machine = Machine::new(Vec::new());
    assert_eq!(machine.load(&[MAGIC, 1, 2, 3]), Ok(()));
    assert_eq!(machine.push(7), Ok(()));
    machine.step();
    for program in [&[][..], &[0xEFBE_ADDE, 9, 9], &[0xDEAD_BEEE, 9], &[0, MAGIC, 9], &[9]] {
        assert_eq!(machine.load(program), Err(BadProgram));
        assert_eq!(machine.word_at(0), Some(1));
        assert_eq!(machine.word_at(1), Some(2));
        assert_eq!(machine.word_at(2), Some(3));
        assert_eq!(machine.word_at(1023), Some(7));
        assert_eq!(machine.sp(), 1023);
        assert_eq!(machine.pc(), 1);
    }
}

#[test]
fn load_takes_a_program_that_fills_the_memory_and_no_longer_one() {
    let mut program = vec![MAGIC];
    program.extend((0..MEMORY_WORDS as u32).map(|i| 0xF000_0000 | i));
    let mut machine = Machine::new(Vec::new());
    assert_eq!(machine.load(&program), Ok(()));
    assert_eq!(machine.word_at(0), Some(0xF000_0000));
    assert_eq!(machine.word_at(1023), Some(0xF000_03FF));
    program.push(0);
    let mut other = Machine::new(Vec::new());
    assert_eq!(other.load(&program), Err(BadProgram));
    assert_eq!(other.word_at(0), Some(0));
    assert_eq!(other.word_at(1023), Some(0));
    let mut least = Machine::new(Vec::new());
    assert_eq!(least.load(&[MAGIC]), Ok(()));
    assert_eq!(least.word_at(0), Some(0));
}

#[test]
fn a_file_loads_and_runs() {
    let bytes = [0xEF, 0xBE, 0xAD, 0xDE, 0x05, 0x00, 0x00, 0xF0, 0x05, 0x00, 0x00, 0x00];
    let words = words_from_bytes(&bytes).unwrap();
    let mut machine = Machine::new(Vec::new());
    assert_eq!(machine.load(&words), Ok(()));
    assert_eq!(machine.run(u64::MAX), Ok(Some(5)));
}

#[test]
fn the_stack_can_overwrite_the_program() {
    // Push 0x3000000 over and over: the stack grows down into the program,
    // and the next fetch finds a word that is no instruction.
    let mut machine = Machine::new(Vec::new());
    assert_eq!(machine.load(&[MAGIC, 0xF300_0000, 0x73FF_FFFC]), Ok(()));
    assert_eq!(machine.run(10_000), Err(Fault::IllegalInstruction));
    assert_eq!(machine.sp(), 1);
    assert_eq!(machine.pc(), 1);
    assert_eq!(machine.word_at(1), Some(0x0300_0000));
    assert_eq!(machine.word_at(0), Some(0xF300_0000));
}

#[test]
fn a_run_can_be_taken_up_again() {
    // count down from 5: Push 5; loop: Push 1; Subtract; NeZero -2; Exit 9
    let program = [MAGIC, 0xF000_0005, 0xF000_0001, 0x2100_0000, 0x92FF_FFFE, 0x0000_0009];
    let mut whole = Machine::new(Vec::new());
    assert_eq!(whole.load(&program), Ok(()));
    assert_eq!(whole.run(1000), Ok(Some(9)));
    assert_eq!(whole.peek(), Some(0));
    let mut parts = Machine::new(Vec::new());
    assert_eq!(parts.load(&program), Ok(()));
    assert_eq!(parts.run(0), Ok(None));
    assert_eq!(parts.pc(), 0);
    assert_eq!(parts.run(4), Ok(None));
    assert_eq!(parts.peek(), Some(4));
    assert_eq!(parts.pc(), 1);
    assert_eq!(parts.run(11), Ok(None));
    assert_eq!(parts.run(1), Ok(None));
    assert_eq!(parts.run(1), Ok(Some(9)));
    assert_eq!(parts.run(5), Ok(Some(9)));
    assert_eq!(parts.pc(), whole.pc());
    assert_eq!(parts.sp(), whole.sp());
}

#[test]
fn a_program_reads_and_prints() {
    // Input; Input; Add; Print 0; Stinput 6; Stprint 0; Dump; Exit 3
    let program = [
        MAGIC,
        0x0400_0000,
        0x0400_0000,
        0x2000_0000,
        0xD000_0000,
        0x0500_0006,
        0x4000_0000,
        0xE000_0000,
        0x0000_0003,
    ];
    let mut machine = Machine::new(b"40\n 0x2\n  hello world\n".to_vec());
    assert_eq!(machine.load(&program), Ok(()));
    assert_eq!(machine.run(100), Ok(Some(3)));
    assert_eq!(
        String::from_utf8(machine.output().clone()).unwrap(),
        "42\nhello 0000: 016c6568\n0001: 00206f6c\n0002: 0000002a\n"
    );
    assert_eq!(machine.pc(), 7);
}
