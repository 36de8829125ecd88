use nibble8::display::virtual_display::VirtualDisplay;
use nibble8::machine::chip8::Chip8;
use nibble8::machine::chip8::DISPLAY_COLS;
use nibble8::machine::chip8::DISPLAY_ROWS;
use nibble8::machine::chip8::FONT_SPRITES;
use nibble8::machine::chip8::PROGRAM_OFFSET;
use nibble8::machine::instruction::Instruction;

struct DisplayMock {}

impl VirtualDisplay for DisplayMock {
    fn draw(&mut self, _bytes: &[u8]) {}
}

#[test]
fn clear() {
    let mut display = DisplayMock {};
    let mut chip8 = Chip8::new(&mut display);

    // load first letter from the font
    chip8.load_sprite(0, 0, 5);
    assert_ne!(
        chip8.display_state().as_bytes(),
        &[0; DISPLAY_COLS * DISPLAY_ROWS / 8]
    );

    let instruction = Instruction::_00E0;
    chip8.run_instruction(instruction);

    assert_eq!(
        chip8.display_state().as_bytes(),
        &[0; DISPLAY_COLS * DISPLAY_ROWS / 8]
    );
}

#[test]
fn ret() {
    let mut display = DisplayMock {};
    let mut chip8 = Chip8::new(&mut display);

    chip8.stack.push(0x1234);

    let instruction = Instruction::_00EE;
    chip8.run_instruction(instruction);

    assert_eq!(chip8.program_counter, 0x1234);
}

#[test]
fn jump() {
    let mut display = DisplayMock {};
    let mut chip8 = Chip8::new(&mut display);

    let instruction = Instruction::_1nnn(0x1234);
    chip8.run_instruction(instruction);

    assert_eq!(chip8.program_counter, 0x1234);
}

#[test]
fn call() {
    let mut display = DisplayMock {};
    let mut chip8 = Chip8::new(&mut display);

    chip8.program_counter = 0x1234;

    let instruction = Instruction::_2nnn(0xAABB);
    chip8.run_instruction(instruction);

    assert_eq!(chip8.program_counter, 0xAABB);
    assert_eq!(chip8.stack.pop(), 0x1236);
}

#[test]
fn skip_eq_skips() {
    let mut display = DisplayMock {};
    let mut chip8 = Chip8::new(&mut display);

    chip8.registers.write_vx(0x01, 0xAB);

    let instruction = Instruction::_3xkk(0x01, 0xAB);
    chip8.run_instruction(instruction);

    assert_eq!(chip8.program_counter, 0x04);
}

#[test]
fn skip_eq_does_not_skip() {
    let mut display = DisplayMock {};
    let mut chip8 = Chip8::new(&mut display);

    chip8.registers.write_vx(0x01, 0xAB);

    let instruction = Instruction::_3xkk(0x01, 0xAC);
    chip8.run_instruction(instruction);

    assert_eq!(chip8.program_counter, 0x02);
}

#[test]
fn skip_ne_skips() {
    let mut display = DisplayMock {};
    let mut chip8 = Chip8::new(&mut display);

    chip8.registers.write_vx(0x01, 0xAB);

    let instruction = Instruction::_4xkk(0x01, 0xAC);
    chip8.run_instruction(instruction);

    assert_eq!(chip8.program_counter, 0x04);
}

#[test]
fn skip_ne_does_not_skip() {
    let mut display = DisplayMock {};
    let mut chip8 = Chip8::new(&mut display);

    chip8.registers.write_vx(0x01, 0xAB);

    let instruction = Instruction::_4xkk(0x01, 0xAB);
    chip8.run_instruction(instruction);

    assert_eq!(chip8.program_counter, 0x02);
}

#[test]
fn cmp_eq_skips() {
    let mut display = DisplayMock {};
    let mut chip8 = Chip8::new(&mut display);

    chip8.registers.write_vx(0x01, 0xAB);
    chip8.registers.write_vx(0x02, 0xAB);

    let instruction = Instruction::_5xy0(0x01, 0x02);
    chip8.run_instruction(instruction);

    assert_eq!(chip8.program_counter, 0x04);
}

#[test]
fn cmp_eq_does_not_skip() {
    let mut display = DisplayMock {};
    let mut chip8 = Chip8::new(&mut display);

    chip8.registers.write_vx(0x01, 0xAB);
    chip8.registers.write_vx(0x02, 0xAC);

    let instruction = Instruction::_5xy0(0x01, 0x02);
    chip8.run_instruction(instruction);

    assert_eq!(chip8.program_counter, 0x02);
}

#[test]
fn write_register() {
    let mut display = DisplayMock {};
    let mut chip8 = Chip8::new(&mut display);

    let instruction = Instruction::_6xkk(0x01, 0xAB);
    chip8.run_instruction(instruction);
    let instruction = Instruction::_6xkk(0x02, 0xAC);
    chip8.run_instruction(instruction);

    assert_eq!(chip8.registers.read_vx(0x01), 0xAB);
    assert_eq!(chip8.registers.read_vx(0x02), 0xAC);
}

#[test]
fn add() {
    let mut display = DisplayMock {};
    let mut chip8 = Chip8::new(&mut display);

    chip8.registers.write_vx(0x01, 100);

    let instruction = Instruction::_7xkk(0x01, 114);
    chip8.run_instruction(instruction);

    assert_eq!(chip8.registers.read_vx(0x01), 214);
}

#[test]
fn add_overflow() {
    let mut display = DisplayMock {};
    let mut chip8 = Chip8::new(&mut display);

    chip8.registers.write_vx(0x01, 255);

    let instruction = Instruction::_7xkk(0x01, 2);
    chip8.run_instruction(instruction);

    assert_eq!(chip8.registers.read_vx(0x01), 1);
}

#[test]
fn copy() {
    let mut display = DisplayMock {};
    let mut chip8 = Chip8::new(&mut display);

    chip8.registers.write_vx(0x01, 0x04);
    chip8.registers.write_vx(0x02, 0xF1);

    let instruction = Instruction::_8xy0(0x01, 0x02);
    chip8.run_instruction(instruction);

    assert_eq!(chip8.registers.read_vx(0x01), 0xF1);
}

#[test]
fn or() {
    let mut display = DisplayMock {};
    let mut chip8 = Chip8::new(&mut display);

    chip8.registers.write_vx(0x01, 0b00110010);
    chip8.registers.write_vx(0x02, 0b11100101);

    let instruction = Instruction::_8xy1(0x01, 0x02);
    chip8.run_instruction(instruction);

    assert_eq!(chip8.registers.read_vx(0x01), 0b11110111);
}

#[test]
fn and() {
    let mut display = DisplayMock {};
    let mut chip8 = Chip8::new(&mut display);

    chip8.registers.write_vx(0x01, 0b00110010);
    chip8.registers.write_vx(0x02, 0b11100101);

    let instruction = Instruction::_8xy2(0x01, 0x02);
    chip8.run_instruction(instruction);

    assert_eq!(chip8.registers.read_vx(0x01), 0b00100000);
}

#[test]
fn xor() {
    let mut display = DisplayMock {};
    let mut chip8 = Chip8::new(&mut display);

    chip8.registers.write_vx(0x01, 0b00110010);
    chip8.registers.write_vx(0x02, 0b11100101);

    let instruction = Instruction::_8xy3(0x01, 0x02);
    chip8.run_instruction(instruction);

    assert_eq!(chip8.registers.read_vx(0x01), 0b11010111);
}

#[test]
fn sum() {
    let mut display = DisplayMock {};
    let mut chip8 = Chip8::new(&mut display);

    chip8.registers.write_vx(0x01, 214);
    chip8.registers.write_vx(0x02, 23);

    let instruction = Instruction::_8xy4(0x01, 0x02);
    chip8.run_instruction(instruction);

    assert_eq!(chip8.registers.read_vx(0x01), 237);
    assert_eq!(chip8.registers.read_vx(0x0F), 0);
}

#[test]
fn sum_overflow() {
    let mut display = DisplayMock {};
    let mut chip8 = Chip8::new(&mut display);

    chip8.registers.write_vx(0x01, 255);
    chip8.registers.write_vx(0x02, 3);

    let instruction = Instruction::_8xy4(0x01, 0x02);
    chip8.run_instruction(instruction);

    assert_eq!(chip8.registers.read_vx(0x01), 2);
    assert_eq!(chip8.registers.read_vx(0x0F), 1);
}

#[test]
fn subtract() {
    let mut display = DisplayMock {};
    let mut chip8 = Chip8::new(&mut display);

    chip8.registers.write_vx(0x01, 214);
    chip8.registers.write_vx(0x02, 23);

    let instruction = Instruction::_8xy5(0x01, 0x02);
    chip8.run_instruction(instruction);

    assert_eq!(chip8.registers.read_vx(0x01), 191);
    assert_eq!(chip8.registers.read_vx(0x0F), 1);
}

#[test]
fn subtract_underflow() {
    let mut display = DisplayMock {};
    let mut chip8 = Chip8::new(&mut display);

    chip8.registers.write_vx(0x01, 214);
    chip8.registers.write_vx(0x02, 216);

    let instruction = Instruction::_8xy5(0x01, 0x02);
    chip8.run_instruction(instruction);

    assert_eq!(chip8.registers.read_vx(0x01), 254);
    assert_eq!(chip8.registers.read_vx(0x0F), 0);
}

#[test]
fn shift_right() {
    let mut display = DisplayMock {};
    let mut chip8 = Chip8::new(&mut display);

    chip8.registers.write_vx(0x01, 0b00110100);

    let instruction = Instruction::_8xy6(0x01);
    chip8.run_instruction(instruction);

    assert_eq!(chip8.registers.read_vx(0x01), 0b00011010);
    assert_eq!(chip8.registers.read_vx(0x0F), 0);
}

#[test]
fn shift_right_least_significant() {
    let mut display = DisplayMock {};
    let mut chip8 = Chip8::new(&mut display);

    chip8.registers.write_vx(0x01, 0b00110101);

    let instruction = Instruction::_8xy6(0x01);
    chip8.run_instruction(instruction);

    assert_eq!(chip8.registers.read_vx(0x01), 0b00011010);
    assert_eq!(chip8.registers.read_vx(0x0F), 1);
}

#[test]
fn subtract_registers() {
    let mut display = DisplayMock {};
    let mut chip8 = Chip8::new(&mut display);

    chip8.registers.write_vx(0x01, 200);
    chip8.registers.write_vx(0x02, 215);

    let instruction = Instruction::_8xy7(0x01, 0x02);
    chip8.run_instruction(instruction);

    assert_eq!(chip8.registers.read_vx(0x01), 15);
    assert_eq!(chip8.registers.read_vx(0x0F), 1);
}

#[test]
fn subtract_registers_underflow() {
    let mut display = DisplayMock {};
    let mut chip8 = Chip8::new(&mut display);

    chip8.registers.write_vx(0x01, 200);
    chip8.registers.write_vx(0x02, 180);

    let instruction = Instruction::_8xy7(0x01, 0x02);
    chip8.run_instruction(instruction);

    assert_eq!(chip8.registers.read_vx(0x01), 236);
    assert_eq!(chip8.registers.read_vx(0x0F), 0);
}

#[test]
fn shift_left() {
    let mut display = DisplayMock {};
    let mut chip8 = Chip8::new(&mut display);

    chip8.registers.write_vx(0x01, 0b01001101);

    let instruction = Instruction::_8xyE(0x01);
    chip8.run_instruction(instruction);

    assert_eq!(chip8.registers.read_vx(0x01), 0b10011010);
    assert_eq!(chip8.registers.read_vx(0x0F), 0);
}

#[test]
fn shift_left_most_significant() {
    let mut display = DisplayMock {};
    let mut chip8 = Chip8::new(&mut display);

    chip8.registers.write_vx(0x01, 0b11001101);

    let instruction = Instruction::_8xyE(0x01);
    chip8.run_instruction(instruction);

    assert_eq!(chip8.registers.read_vx(0x01), 0b10011010);
    assert_eq!(chip8.registers.read_vx(0x0F), 1);
}

#[test]
fn skip_cmp_ne_skips() {
    let mut display = DisplayMock {};
    let mut chip8 = Chip8::new(&mut display);

    chip8.registers.write_vx(0x01, 0x0F);
    chip8.registers.write_vx(0x02, 0x0E);

    let instruction = Instruction::_9xy0(0x01, 0x02);
    chip8.run_instruction(instruction);

    assert_eq!(chip8.program_counter, 4);
}

#[test]
fn skip_cmp_ne_does_not_skip() {
    let mut display = DisplayMock {};
    let mut chip8 = Chip8::new(&mut display);

    chip8.registers.write_vx(0x01, 0x0F);
    chip8.registers.write_vx(0x02, 0x0F);

    let instruction = Instruction::_9xy0(0x01, 0x02);
    chip8.run_instruction(instruction);

    assert_eq!(chip8.program_counter, 2);
}

#[test]
fn set_addr() {
    let mut display = DisplayMock {};
    let mut chip8 = Chip8::new(&mut display);

    let instruction = Instruction::_Annn(0x140F);
    chip8.run_instruction(instruction);

    assert_eq!(chip8.registers.read_i(), 0x140F);
}

#[test]
fn jump_with_reg() {
    let mut display = DisplayMock {};
    let mut chip8 = Chip8::new(&mut display);

    chip8.registers.write_vx(0x00, 0x13);

    let instruction = Instruction::_Bnnn(0x23);
    chip8.run_instruction(instruction);

    assert_eq!(chip8.program_counter, 0x13 + 0x23);
}

#[test]
fn draw() {
    let mut display = DisplayMock {};
    let mut chip8 = Chip8::new(&mut display);

    // draw first letter from font
    let instruction = Instruction::_Dxyn(0, 0, 5);
    chip8.run_instruction(instruction);

    assert_eq!(&chip8.display_state().as_bytes()[0], &FONT_SPRITES[0]);
    assert_eq!(&chip8.display_state().as_bytes()[8], &FONT_SPRITES[1]);
    assert_eq!(&chip8.display_state().as_bytes()[16], &FONT_SPRITES[2]);
    assert_eq!(&chip8.display_state().as_bytes()[24], &FONT_SPRITES[3]);
    assert_eq!(&chip8.display_state().as_bytes()[32], &FONT_SPRITES[4]);

    // draw same sprite -> should flip bits
    let instruction = Instruction::_Dxyn(0, 0, 5);
    chip8.run_instruction(instruction);

    assert_eq!(&chip8.display_state().as_bytes()[0], &0x00);
    assert_eq!(&chip8.display_state().as_bytes()[8], &0x00);
    assert_eq!(&chip8.display_state().as_bytes()[16], &0x00);
    assert_eq!(&chip8.display_state().as_bytes()[24], &0x00);
    assert_eq!(&chip8.display_state().as_bytes()[32], &0x00);
}

#[test]
fn rnd() {
    // we expect this instruction to AND the given value with a random
    // number and store the result in Vx. In this test we use a mask of
    // 255 to AND with the random number so we can assert that the number
    // is indeed at least pseudo-random

    let mut display = DisplayMock {};
    let mut chip8 = Chip8::new(&mut display);

    let instruction = Instruction::_Cxkk(0x01, 255);
    chip8.run_instruction(instruction);
    let first = chip8.registers.read_vx(0x01);

    let instruction = Instruction::_Cxkk(0x01, 255);
    chip8.run_instruction(instruction);
    let second = chip8.registers.read_vx(0x01);

    assert_ne!(first, second);
}

#[test]
fn skip_if_key_skips() {
    let mut display = DisplayMock {};
    let mut chip8 = Chip8::new(&mut display);

    chip8.registers.write_vx(0x01, 0xA);
    chip8.register_key(0xA);
    let instruction = Instruction::_Ex9E(0x01);
    chip8.run_instruction(instruction);

    assert_eq!(chip8.program_counter, 4);
}

#[test]
fn skip_if_key_does_not_skip() {
    let mut display = DisplayMock {};
    let mut chip8 = Chip8::new(&mut display);

    chip8.registers.write_vx(0x01, 0xA);
    chip8.register_key(0xB);
    let instruction = Instruction::_Ex9E(0x01);
    chip8.run_instruction(instruction);

    assert_eq!(chip8.program_counter, 2);
}

#[test]
fn skip_if_not_key_skips() {
    let mut display = DisplayMock {};
    let mut chip8 = Chip8::new(&mut display);

    chip8.registers.write_vx(0x01, 0x0A);
    chip8.register_key(0xB);
    let instruction = Instruction::_ExA1(0x01);
    chip8.run_instruction(instruction);

    assert_eq!(chip8.program_counter, 4);
}

#[test]
fn skip_if_not_key_does_not_skip() {
    let mut display = DisplayMock {};
    let mut chip8 = Chip8::new(&mut display);

    chip8.registers.write_vx(0x01, 0x0A);
    chip8.register_key(0xA);
    let instruction = Instruction::_ExA1(0x01);
    chip8.run_instruction(instruction);

    assert_eq!(chip8.program_counter, 2);
}

#[test]
fn wait_for_key_waits() {
    let mut display = DisplayMock {};
    let mut chip8 = Chip8::new(&mut display);

    chip8.current_key = None;
    let instruction = Instruction::_Fx0A(0x01);
    chip8.run_instruction(instruction);

    assert_eq!(chip8.program_counter, 0);
}

#[test]
fn wait_for_key_stores_key() {
    let mut display = DisplayMock {};
    let mut chip8 = Chip8::new(&mut display);

    chip8.current_key = Some(0x0F);
    let instruction = Instruction::_Fx0A(0x01);
    chip8.run_instruction(instruction);

    assert_eq!(chip8.program_counter, 2);
    assert_eq!(chip8.registers.read_vx(0x01), 0x0F);
}

#[test]
fn set_delay_timer() {
    let mut display = DisplayMock {};
    let mut chip8 = Chip8::new(&mut display);

    chip8.registers.write_vx(0x01, 30);
    let instruction = Instruction::_Fx15(0x01);
    chip8.run_instruction(instruction);

    assert_eq!(chip8.registers.read_delay_timer(), 30);
}

#[test]
fn set_sound_timer() {
    let mut display = DisplayMock {};
    let mut chip8 = Chip8::new(&mut display);

    chip8.registers.write_vx(0x01, 30);
    let instruction = Instruction::_Fx18(0x01);
    chip8.run_instruction(instruction);

    assert_eq!(chip8.registers.read_sound_timer(), 30);
}

#[test]
fn add_register_to_addr() {
    let mut display = DisplayMock {};
    let mut chip8 = Chip8::new(&mut display);

    chip8.registers.write_vx(0x01, 0x0004);
    chip8.registers.write_i(0x000F);
    let instruction = Instruction::_Fx29(0x01);
    chip8.run_instruction(instruction);

    assert_eq!(chip8.registers.read_i(), 0x0014);
}

#[test]
fn set_font_addr() {
    let mut display = DisplayMock {};
    let mut chip8 = Chip8::new(&mut display);

    // the F sprite starts at byte 75
    chip8.registers.write_vx(0x01, 0x0F);
    let instruction = Instruction::_Fx29(0x01);
    chip8.run_instruction(instruction);

    assert_eq!(chip8.registers.read_i(), 75);
}

#[test]
fn binary_coded_decimal() {
    let mut display = DisplayMock {};
    let mut chip8 = Chip8::new(&mut display);

    chip8.registers.write_vx(0x01, 123);
    let instruction = Instruction::_Fx33(0x01);
    chip8.run_instruction(instruction);

    let expected: [u8; 3] = [1, 2, 3];

    assert_eq!(
        chip8.ram.read_bytes(chip8.registers.read_i() as usize, 3),
        &expected
    );
}

#[test]
fn load_registers_in_ram() {
    let mut display = DisplayMock {};
    let mut chip8 = Chip8::new(&mut display);

    chip8.registers.write_i(PROGRAM_OFFSET as u16);
    chip8.registers.write_vx(0x00, 0x0A);
    chip8.registers.write_vx(0x01, 0x0F);
    chip8.registers.write_vx(0x02, 0x01);
    chip8.registers.write_vx(0x03, 0x07);

    let instruction = Instruction::_Fx55(0x03);
    chip8.run_instruction(instruction);

    let expected: [u8; 5] = [0x0A, 0x0F, 0x01, 0x07, 0x00]; // last byte unaffected

    assert_eq!(
        chip8.ram.read_bytes(chip8.registers.read_i() as usize, 5),
        &expected
    );
}

#[test]
fn load_ram_to_registers() {
    let mut display = DisplayMock {};
    let mut chip8 = Chip8::new(&mut display);

    chip8.registers.write_i(PROGRAM_OFFSET as u16);
    chip8
        .ram
        .write_bytes(PROGRAM_OFFSET, &[0x04, 0x0F, 0x0A, 0x07]);
    let instruction = Instruction::_Fx65(0x03);
    chip8.run_instruction(instruction);

    assert_eq!(chip8.registers.read_vx(0x00), 0x04);
    assert_eq!(chip8.registers.read_vx(0x01), 0x0F);
    assert_eq!(chip8.registers.read_vx(0x02), 0x0A);
    assert_eq!(chip8.registers.read_vx(0x03), 0x07);
    assert_eq!(chip8.registers.read_vx(0x04), 0x00); // <-- should be unaffacted
}
