use nibble8::input::Input;
use nibble8::machine::display_state::DisplayState;
use nibble8::machine::ram::Ram;
use nibble8::machine::ram::MEMORY_SIZE;
use nibble8::machine::registers::Registers;
use nibble8::machine::stack::Stack;
use nibble8::machine::stack::STACK_CAPACITY;

#[test]
fn fresh_memory_is_all_zero() {
    let ram = Ram::initialise();
    assert_eq!(ram.read_bytes(0, MEMORY_SIZE), &[0u8; 4096][..]);
}

#[test]
fn memory_write_changes_only_its_range() {
    let mut ram = Ram::initialise();
    ram.write_bytes(0x10, &[1, 2, 3]);
    assert_eq!(ram.read_bytes(0x0F, 5), &[0, 1, 2, 3, 0]);
    ram.write_bytes(0x11, &[9]);
    assert_eq!(ram.read_bytes(0x10, 3), &[1, 9, 3]);
}

#[test]
fn memory_can_be_used_up_to_its_last_byte() {
    let mut ram = Ram::initialise();
    ram.write_bytes(MEMORY_SIZE - 2, &[0xAA, 0xBB]);
    assert_eq!(ram.read_bytes(MEMORY_SIZE - 1, 1), &[0xBB]);
    assert_eq!(ram.read_bytes(MEMORY_SIZE - 2, 2), &[0xAA, 0xBB]);
    assert_eq!(ram.read_bytes(MEMORY_SIZE, 0), &[0u8; 0][..]);
    ram.write_bytes(MEMORY_SIZE, &[]);
}

#[test]
fn memory_dump_is_hexadecimal_in_lines_of_thirty_two() {
    let mut ram = Ram::initialise();
    ram.write_bytes(0, &[0x0A, 0xFF]);
    ram.write_bytes(33, &[0x7B]);
    let mut expected = String::from("Mem: ");
    let bytes = ram.read_bytes(0, MEMORY_SIZE).to_vec();
    for (offset, byte) in bytes.iter().enumerate() {
        if offset % 32 == 0 {
            expected.push('\n');
        }
        expected.push_str(&format!("{:#04X} ", byte));
    }
    let text = ram.dump();
    assert_eq!(text, expected);
    assert!(text.starts_with("Mem: \n0x0A 0xFF 0x00 "));
}

#[test]
fn fresh_registers_are_zero() {
    let registers = Registers::new();
    for x in 0..16u8 {
        assert_eq!(registers.read_vx(x), 0);
    }
    assert_eq!(registers.read_i(), 0);
    assert_eq!(registers.read_delay_timer(), 0);
    assert_eq!(registers.read_sound_timer(), 0);
}

#[test]
fn registers_keep_what_is_written() {
    let mut registers = Registers::new();
    registers.write_vx(0x0, 0x11);
    registers.write_vx(0xF, 0xFF);
    registers.write_i(0xFFFF);
    registers.set_delay_timer(7);
    registers.set_sound_timer(9);
    assert_eq!(registers.read_vx(0x0), 0x11);
    assert_eq!(registers.read_vx(0xF), 0xFF);
    assert_eq!(registers.read_vx(0x1), 0x00);
    assert_eq!(registers.read_i(), 0xFFFF);
    assert_eq!(registers.read_delay_timer(), 7);
    assert_eq!(registers.read_sound_timer(), 9);
}

#[test]
fn registers_dump_names_every_register() {
    let mut registers = Registers::new();
    registers.write_vx(0x0, 0x0A);
    registers.write_vx(0xA, 0xC3);
    registers.write_i(0x02F0);
    registers.set_delay_timer(0x10);
    registers.set_sound_timer(0x01);
    let mut expected = String::new();
    for x in 0..16u8 {
        expected.push_str(&format!("V{:X}: {:#04X}\n", x, registers.read_vx(x)));
    }
    expected.push_str(&format!("I: {:#06X} \n", 0x02F0));
    expected.push_str(&format!("delay: {:#04X}\n", 0x10));
    expected.push_str(&format!("sound: {:#04X}\n", 0x01));
    let text = registers.dump();
    assert_eq!(text, expected);
    assert!(text.starts_with("V0: 0x0A\nV1: 0x00\n"));
    assert!(text.ends_with("VF: 0x00\nI: 0x02F0 \ndelay: 0x10\nsound: 0x01\n"));
}

#[test]
fn stack_is_last_in_first_out() {
    let mut stack = Stack::new();
    assert_eq!(stack.depth(), 0);
    stack.push(0x0200);
    stack.push(0x0300);
    stack.push(0x0400);
    assert_eq!(stack.depth(), 3);
    assert_eq!(stack.pop(), 0x0400);
    assert_eq!(stack.pop(), 0x0300);
    stack.push(0x0500);
    assert_eq!(stack.pop(), 0x0500);
    assert_eq!(stack.pop(), 0x0200);
    assert_eq!(stack.depth(), 0);
}

#[test]
fn stack_holds_sixteen_addresses() {
    let mut stack = Stack::new();
    for address in 0..STACK_CAPACITY {
        stack.push(0x200 + address as u16);
    }
    assert_eq!(stack.depth(), 16);
    for address in (0..STACK_CAPACITY).rev() {
        assert_eq!(stack.pop(), 0x200 + address as u16);
    }
    assert_eq!(stack.depth(), 0);
}

#[test]
fn stack_dump_lists_the_addresses_oldest_first() {
    let mut stack = Stack::new();
    assert_eq!(stack.dump(), "Stack:\n");
    stack.push(0x0202);
    stack.push(0xABCD);
    stack.push(0x0001);
    assert_eq!(stack.pop(), 0x0001);
    assert_eq!(stack.dump(), "Stack:\n0x0: 0x0202\n0x1: 0xABCD\n");
    let expected = format!("Stack:\n{:#X}: {:#06X}\n{:#X}: {:#06X}\n", 0, 0x0202, 1, 0xABCD);
    assert_eq!(stack.dump(), expected);
}

#[test]
fn fresh_frame_is_blank() {
    let s = DisplayState::new(64, 32);
    assert_eq!(s.as_bytes(), &[0u8; 256][..]);
    assert_eq!(s.dimensions(), (64, 32));
    for y in 0..32 {
        for x in 0..64 {
            assert!(!s.is_on(x, y));
        }
    }
}

#[test]
fn frame_of_a_grid_that_fills_no_whole_byte_is_empty() {
    let s = DisplayState::new(3, 2);
    assert_eq!(s.as_bytes().len(), 0);
}

#[test]
fn flipping_a_pixel_changes_that_pixel_only() {
    let mut s = DisplayState::new(64, 32);
    s.flip(63, 31);
    s.flip(9, 0);
    for y in 0..32 {
        for x in 0..64 {
            assert_eq!(s.is_on(x, y), (x, y) == (63, 31) || (x, y) == (9, 0));
        }
    }
    assert_eq!(s.as_bytes()[255], 0x01);
    assert_eq!(s.as_bytes()[1], 0x40);
    s.flip(9, 0);
    assert!(!s.is_on(9, 0));
    assert!(s.is_on(63, 31));
}

#[test]
fn clearing_turns_every_pixel_off() {
    let mut s = DisplayState::new(64, 32);
    s.flip(0, 0);
    s.flip(17, 5);
    s.clear();
    assert_eq!(s.as_bytes(), &[0u8; 256][..]);
    assert_eq!(s.dimensions(), (64, 32));
}

#[test]
fn every_pixel_has_a_bit_of_its_own() {
    let s = DisplayState::new(64, 32);
    let mut seen = vec![false; 64 * 32];
    for y in 0..32usize {
        for x in 0..64usize {
            let (byte, bit) = s.identify(x, y);
            assert!(byte < 256);
            assert!(bit < 8);
            let k = byte * 8 + bit;
            assert!(!seen[k]);
            seen[k] = true;
            // The way back from the bit to the pixel.
            assert_eq!((k % 64, k / 64), (x, y));
        }
    }
    assert!(seen.iter().all(|s| *s));
}

#[test]
fn every_bit_is_a_pixel() {
    let s = DisplayState::new(64, 32);
    for byte in 0..256usize {
        for bit in 0..8usize {
            let k = byte * 8 + bit;
            let (x, y) = (k % 64, k / 64);
            assert!(x < 64 && y < 32);
            assert_eq!(s.identify(x, y), (byte, bit));
        }
    }
}

#[test]
fn input_remembers_the_last_key() {
    let mut input = Input::new();
    assert_eq!(input.current_key, None);
    input.register(0x3);
    assert_eq!(input.current_key, Some(0x3));
    input.register(0xF);
    assert_eq!(input.current_key, Some(0xF));
    input.clear();
    assert_eq!(input.current_key, None);
}
