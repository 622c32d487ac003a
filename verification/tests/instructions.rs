use chip8::{Chip8, Fault, Instruction, Operation, Target, Timing};

fn timing_of(word: u16) -> Option<Timing> {
    Instruction::decode(word).timing()
}

fn micros(mean_us: u32, std_dev_us: u32) -> Option<Timing> {
    Some(Timing { mean_us, std_dev_us })
}

#[test]
fn decode_splits_a_word_into_nibbles() {
    assert_eq!(Instruction::decode(0xD12F), Instruction(0xD, 1, 2, 0xF));
    assert_eq!(Instruction::decode(0x0000), Instruction(0, 0, 0, 0));
    assert_eq!(Instruction::decode(0xFFFF), Instruction(0xF, 0xF, 0xF, 0xF));
    assert_eq!(Instruction::decode(0x00EE), Instruction(0, 0, 0xE, 0xE));
}

#[test]
fn word_puts_the_nibbles_together() {
    for word in [0x0000u16, 0x00E0, 0x1234, 0xABCD, 0xFFFF, 0x8004] {
        assert_eq!(Instruction::decode(word).word(), word);
    }
}

#[test]
fn byte_and_address_fields() {
    let ins = Instruction::decode(0x6A5C);
    assert_eq!(ins.byte(), 0x5C);
    assert_eq!(ins.address(), 0xA5C);
    assert_eq!(Instruction::decode(0x1FFF).address(), 0xFFF);
    assert_eq!(Instruction::decode(0x30FF).byte(), 0xFF);
}

#[test]
fn known_words() {
    for word in [
        0x00E0u16, 0x00EE, 0x1000, 0x2FFF, 0x3123, 0x4123, 0x5120, 0x6123, 0x7123, 0x8120, 0x8121,
        0x8122, 0x8123, 0x8124, 0x8125, 0x8126, 0x8127, 0x812E, 0x9120, 0xA123, 0xB123, 0xC123,
        0xD123, 0xE19E, 0xE1A1, 0xF107, 0xF10A, 0xF115, 0xF118, 0xF11E, 0xF129, 0xF133, 0xF155,
        0xF165,
    ] {
        assert!(Instruction::decode(word).is_known());
    }
}

#[test]
fn unknown_words() {
    for word in [
        0x0000u16, 0x00E1, 0x00FE, 0x01E0, 0x0FFF, 0x5121, 0x512F, 0x8128, 0x8129, 0x812D, 0x812F,
        0x9121, 0xE09F, 0xE1A0, 0xE000, 0xF000, 0xF108, 0xF11F, 0xF128, 0xF134, 0xF156, 0xF175,
        0xF1FF,
    ] {
        assert!(!Instruction::decode(word).is_known());
        assert_eq!(timing_of(word), None);
    }
}

#[test]
fn timing_table() {
    assert_eq!(timing_of(0x00E0), micros(109, 0));
    assert_eq!(timing_of(0x00EE), micros(105, 5));
    assert_eq!(timing_of(0x1234), micros(105, 5));
    assert_eq!(timing_of(0x2234), micros(105, 5));
    assert_eq!(timing_of(0xB234), micros(105, 5));
    assert_eq!(timing_of(0x3234), micros(55, 9));
    assert_eq!(timing_of(0x4234), micros(55, 9));
    assert_eq!(timing_of(0xA234), micros(55, 9));
    assert_eq!(timing_of(0x5230), micros(73, 0));
    assert_eq!(timing_of(0x9230), micros(73, 0));
    assert_eq!(timing_of(0xE29E), micros(73, 0));
    assert_eq!(timing_of(0xE2A1), micros(73, 0));
    assert_eq!(timing_of(0x6234), micros(27, 0));
    assert_eq!(timing_of(0x7234), micros(45, 0));
    assert_eq!(timing_of(0xF207), micros(45, 0));
    assert_eq!(timing_of(0xF215), micros(45, 0));
    assert_eq!(timing_of(0xF218), micros(45, 0));
    assert_eq!(timing_of(0x8234), micros(200, 0));
    assert_eq!(timing_of(0x823E), micros(200, 0));
    assert_eq!(timing_of(0xC234), micros(164, 0));
    assert_eq!(timing_of(0xF20A), micros(0, 0));
    assert_eq!(timing_of(0xF21E), micros(86, 14));
    assert_eq!(timing_of(0xF229), micros(91, 0));
    assert_eq!(timing_of(0xF233), micros(927, 545));
    assert_eq!(timing_of(0xF255), micros(605, 477));
    assert_eq!(timing_of(0xF265), micros(605, 477));
    assert_eq!(timing_of(0xD234), micros(22734, 4634));
}

#[test]
fn target_is_pixels_for_clear_and_draw_only() {
    assert_eq!(Instruction::decode(0x00E0).target(), Target::Pixels);
    assert_eq!(Instruction::decode(0xD015).target(), Target::Pixels);
    assert_eq!(Instruction::decode(0x00EE).target(), Target::Memory);
    assert_eq!(Instruction::decode(0x6012).target(), Target::Memory);
    assert_eq!(Instruction::decode(0xF155).target(), Target::Memory);
}

#[test]
fn operations_in_signed_arithmetic() {
    assert_eq!(Operation::Or.eval(0b1100, 0b1010), 0b1110);
    assert_eq!(Operation::And.eval(0b1100, 0b1010), 0b1000);
    assert_eq!(Operation::Xor.eval(0b1100, 0b1010), 0b0110);
    assert_eq!(Operation::Add.eval(255, 255), 510);
    assert_eq!(Operation::Sub.eval(0, 255), -255);
    assert_eq!(Operation::SubFrom.eval(255, 0), -255);
    assert_eq!(Operation::SubFrom.eval(5, 10), 5);
}

#[test]
fn compute_flips_the_flag_only_when_asked() {
    let mut chip = Chip8::new();
    chip.load(&[0x61, 200, 0x62, 100]);
    assert!(chip.step().is_ok());
    assert!(chip.step().is_ok());
    chip.compute(1, 2, Operation::Add, false);
    assert_eq!(chip.register(1), 44);
    assert_eq!(chip.register(0xF), 0);
    chip.compute(1, 2, Operation::Sub, true);
    assert_eq!(chip.register(1), 200);
    assert_eq!(chip.register(0xF), 1);
    chip.compute(1, 2, Operation::Sub, true);
    assert_eq!(chip.register(1), 100);
    assert_eq!(chip.register(0xF), 1);
    chip.compute(2, 1, Operation::Add, true);
    assert_eq!(chip.register(2), 200);
    chip.compute(2, 1, Operation::Add, true);
    assert_eq!(chip.register(2), 44);
    assert_eq!(chip.register(0xF), 0);
}

#[test]
fn fetch_reads_big_endian_and_advances() {
    let mut chip = Chip8::new();
    chip.load(&[0xAB, 0xCD, 0x12, 0x34]);
    assert_eq!(chip.peek(), Some(Instruction(0xA, 0xB, 0xC, 0xD)));
    assert_eq!(chip.pc(), 0x200);
    assert_eq!(chip.fetch(), Ok(Instruction(0xA, 0xB, 0xC, 0xD)));
    assert_eq!(chip.pc(), 0x202);
    assert_eq!(chip.fetch(), Ok(Instruction(1, 2, 3, 4)));
    assert_eq!(chip.pc(), 0x204);
}

#[test]
fn execute_runs_a_fetched_instruction() {
    let mut chip = Chip8::new();
    chip.load(&[0x6A, 0x42]);
    let ins = chip.fetch().unwrap();
    assert_eq!(chip.execute(&ins, 0), Ok(()));
    assert_eq!(chip.register(0xA), 0x42);
}

#[test]
fn draw_blits_at_the_masked_anchor() {
    let mut chip = Chip8::new();
    chip.load(&[0xA0, 0x50, 0x61, 60, 0x62, 31]);
    for _ in 0..3 {
        assert!(chip.step().is_ok());
    }
    chip.draw(1, 2, 5);
    let grid = chip.pixels();
    for x in 60..64 {
        assert!(grid[31][x]);
    }
    let lit: usize = grid.iter().map(|row| row.iter().filter(|&&p| p).count()).sum();
    assert_eq!(lit, 4);
    chip.draw(1, 2, 5);
    assert_eq!(chip.register(0xF), 1);
    let lit: usize = chip.pixels().iter().map(|row| row.iter().filter(|&&p| p).count()).sum();
    assert_eq!(lit, 0);
}

#[test]
fn execute_asks_nothing_of_the_counter_for_set_and_add() {
    // A jump to 0 leaves the counter where no fetch can have come before.
    let mut chip = Chip8::new();
    chip.load(&[0x10, 0x00]);
    assert!(chip.step().is_ok());
    assert_eq!(chip.pc(), 0);
    for x in 0..16u16 {
        assert_eq!(chip.execute(&Instruction(6, x, 0xF, 0xA), 0), Ok(()));
        assert_eq!(chip.register(x as usize), 0xFA);
    }
    assert_eq!(chip.execute(&Instruction(7, 3, 0x0, 0xA), 0), Ok(()));
    assert_eq!(chip.register(3), 4);
    assert_eq!(chip.register(0xF), 0xFA);
    for x in 0..16usize {
        if x != 3 {
            assert_eq!(chip.register(x), 0xFA);
        }
    }
    assert_eq!(chip.pc(), 0);
    assert_eq!(chip.i_register(), 0);
}

#[test]
fn execute_reports_a_fault_two_cells_back() {
    let mut chip = Chip8::new();
    chip.load(&[0x13, 0x00]);
    assert!(chip.step().is_ok());
    assert_eq!(chip.pc(), 0x300);
    assert_eq!(
        chip.execute(&Instruction(0xF, 0xF, 0xF, 0xF), 0),
        Err(Fault::InvalidOpcode { opcode: 0xFFFF, pc: 0x2FE })
    );
    assert_eq!(chip.execute(&Instruction(0, 0, 0xE, 0xE), 0), Err(Fault::StackUnderflow { pc: 0x2FE }));
    assert_eq!(chip.pc(), 0x300);
}
