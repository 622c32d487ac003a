use chip8::{Chip8, KeyState, Target};

#[test]
fn with_keys_takes_sixteen_distinct_characters() {
    let mut chip = Chip8::with_keys("0123456789abcdef").unwrap();
    assert_eq!(chip.pc(), 0x200);
    assert_eq!(chip.memory(0x050), 0xF0);
    chip.update_key_states("a", KeyState::Pressed);
    assert_eq!(chip.key_state(0xA), KeyState::Pressed);
    chip.update_key_states("q", KeyState::Pressed);
    for k in 0..16 {
        let expected = if k == 0xA { KeyState::Pressed } else { KeyState::Idle };
        assert_eq!(chip.key_state(k), expected);
    }
}

#[test]
fn with_keys_refuses_other_maps() {
    assert!(Chip8::with_keys("").is_none());
    assert!(Chip8::with_keys("0123456789abcde").is_none());
    assert!(Chip8::with_keys("0123456789abcdefg").is_none());
    assert!(Chip8::with_keys("0123456789abcdea").is_none());
    assert!(Chip8::with_keys("0023456789abcdef").is_none());
    assert!(Chip8::with_keys("0123456789abcdee").is_none());
}

#[test]
fn with_keys_counts_characters_not_bytes() {
    let mut chip = Chip8::with_keys("é123456789abcdeß").unwrap();
    chip.update_key_states("ß", KeyState::Pressed);
    assert_eq!(chip.key_state(15), KeyState::Pressed);
    chip.update_key_states("1", KeyState::Pressed);
    assert_eq!(chip.key_state(1), KeyState::Pressed);
    assert_eq!(chip.key_state(2), KeyState::Idle);
    chip.update_key_states("é", KeyState::Pressed);
    assert_eq!(chip.key_state(0), KeyState::Pressed);
}

#[test]
fn the_default_map_is_the_one_of_new() {
    let mut a = Chip8::new();
    let mut b = Chip8::with_keys("1234qwerasdfzxcv").unwrap();
    for name in ["1", "r", "z", "v", "0", "qw"] {
        a.update_key_states(name, KeyState::Pressed);
        b.update_key_states(name, KeyState::Pressed);
    }
    for k in 0..16 {
        assert_eq!(a.key_state(k), b.key_state(k));
    }
    assert_eq!(a.key_state(0), KeyState::Pressed);
    assert_eq!(a.key_state(7), KeyState::Pressed);
    assert_eq!(a.key_state(12), KeyState::Pressed);
    assert_eq!(a.key_state(15), KeyState::Pressed);
    assert_eq!(a.key_state(4), KeyState::Idle);
    assert_eq!(a.key_state(5), KeyState::Idle);
}

#[test]
fn a_released_key_is_idle_again() {
    let mut chip = Chip8::new();
    chip.load(&[0x60, 0x01, 0xE0, 0xA1, 0x00, 0x00, 0xE0, 0x9E]);
    chip.update_key_states("2", KeyState::Pressed);
    chip.update_key_states("2", KeyState::Idle);
    assert_eq!(chip.key_state(1), KeyState::Idle);
    assert_eq!(chip.step(), Ok(Target::Memory));
    assert_eq!(chip.step(), Ok(Target::Memory));
    assert_eq!(chip.pc(), 0x206);
    assert_eq!(chip.step(), Ok(Target::Memory));
    assert_eq!(chip.pc(), 0x208);
}

#[test]
fn only_the_random_instruction_reads_the_byte() {
    let program = [0x61, 0x07, 0x71, 0x02, 0x82, 0x10, 0xA3, 0x00, 0xF1, 0x33, 0xD1, 0x25];
    let mut a = Chip8::new();
    let mut b = Chip8::new();
    a.load(&program);
    b.load(&program);
    for _ in 0..6 {
        assert_eq!(a.step_with(0x00), b.step_with(0xFF));
    }
    assert_eq!(a.pc(), b.pc());
    assert_eq!(a.i_register(), b.i_register());
    for x in 0..16 {
        assert_eq!(a.register(x), b.register(x));
    }
    assert_eq!(a.pixels(), b.pixels());
    assert_eq!(a.memory(0x300), 0);
    assert_eq!(a.memory(0x302), 9);
}
