use nibble8::machine::instruction::Instruction;

fn decode(word: u16) -> Option<Instruction> {
    Instruction::decode(&[(word >> 8) as u8, (word & 0xFF) as u8])
}

#[test]
fn decodes_screen_and_flow() {
    assert_eq!(decode(0x00E0), Some(Instruction::_00E0));
    assert_eq!(decode(0x00EE), Some(Instruction::_00EE));
    assert_eq!(decode(0x1ABC), Some(Instruction::_1nnn(0xABC)));
    assert_eq!(decode(0x2FFF), Some(Instruction::_2nnn(0xFFF)));
    assert_eq!(decode(0xB123), Some(Instruction::_Bnnn(0x123)));
}

#[test]
fn decodes_skips() {
    assert_eq!(decode(0x3A42), Some(Instruction::_3xkk(0xA, 0x42)));
    assert_eq!(decode(0x4B00), Some(Instruction::_4xkk(0xB, 0x00)));
    assert_eq!(decode(0x5120), Some(Instruction::_5xy0(0x1, 0x2)));
    assert_eq!(decode(0x9EF0), Some(Instruction::_9xy0(0xE, 0xF)));
    assert_eq!(decode(0xE39E), Some(Instruction::_Ex9E(0x3)));
    assert_eq!(decode(0xE4A1), Some(Instruction::_ExA1(0x4)));
}

#[test]
fn decodes_register_arithmetic() {
    assert_eq!(decode(0x6CFF), Some(Instruction::_6xkk(0xC, 0xFF)));
    assert_eq!(decode(0x7D01), Some(Instruction::_7xkk(0xD, 0x01)));
    assert_eq!(decode(0x8120), Some(Instruction::_8xy0(1, 2)));
    assert_eq!(decode(0x8121), Some(Instruction::_8xy1(1, 2)));
    assert_eq!(decode(0x8122), Some(Instruction::_8xy2(1, 2)));
    assert_eq!(decode(0x8123), Some(Instruction::_8xy3(1, 2)));
    assert_eq!(decode(0x8124), Some(Instruction::_8xy4(1, 2)));
    assert_eq!(decode(0x8125), Some(Instruction::_8xy5(1, 2)));
    assert_eq!(decode(0x8126), Some(Instruction::_8xy6(1)));
    assert_eq!(decode(0x8127), Some(Instruction::_8xy7(1, 2)));
    assert_eq!(decode(0x812E), Some(Instruction::_8xyE(1)));
    assert_eq!(decode(0xC70F), Some(Instruction::_Cxkk(7, 0x0F)));
}

#[test]
fn decodes_index_memory_and_timers() {
    assert_eq!(decode(0xA2F0), Some(Instruction::_Annn(0x2F0)));
    assert_eq!(decode(0xD125), Some(Instruction::_Dxyn(1, 2, 5)));
    assert_eq!(decode(0xF507), Some(Instruction::_Fx07(5)));
    assert_eq!(decode(0xF50A), Some(Instruction::_Fx0A(5)));
    assert_eq!(decode(0xF515), Some(Instruction::_Fx15(5)));
    assert_eq!(decode(0xF518), Some(Instruction::_Fx18(5)));
    assert_eq!(decode(0xF51E), Some(Instruction::_Fx1E(5)));
    assert_eq!(decode(0xF529), Some(Instruction::_Fx29(5)));
    assert_eq!(decode(0xF533), Some(Instruction::_Fx33(5)));
    assert_eq!(decode(0xF555), Some(Instruction::_Fx55(5)));
    assert_eq!(decode(0xF565), Some(Instruction::_Fx65(5)));
}

#[test]
fn family_alone_decides_where_the_low_nibble_is_free() {
    // The fifth family is told by its first nibble only.
    assert_eq!(decode(0x5127), Some(Instruction::_5xy0(0x1, 0x2)));
}

#[test]
fn rejects_words_that_are_no_instruction() {
    assert_eq!(decode(0x0000), None);
    assert_eq!(decode(0x00E1), None);
    assert_eq!(decode(0x0123), None);
    assert_eq!(decode(0x01E0), None);
    assert_eq!(decode(0x8008), None);
    assert_eq!(decode(0x812F), None);
    assert_eq!(decode(0x9121), None);
    assert_eq!(decode(0xE19F), None);
    assert_eq!(decode(0xE000), None);
    assert_eq!(decode(0xF000), None);
    assert_eq!(decode(0xF1FF), None);
}

#[test]
fn every_word_decodes_to_operands_in_range() {
    for word in 0..=0xFFFFu16 {
        match decode(word) {
            Some(Instruction::_1nnn(nnn))
            | Some(Instruction::_2nnn(nnn))
            | Some(Instruction::_Annn(nnn))
            | Some(Instruction::_Bnnn(nnn)) => assert_eq!(nnn, word & 0x0FFF),
            Some(Instruction::_Dxyn(x, y, n)) => {
                assert_eq!(x as u16, (word >> 8) & 0xF);
                assert_eq!(y as u16, (word >> 4) & 0xF);
                assert_eq!(n as u16, word & 0xF);
            }
            Some(Instruction::_3xkk(x, kk))
            | Some(Instruction::_4xkk(x, kk))
            | Some(Instruction::_6xkk(x, kk))
            | Some(Instruction::_7xkk(x, kk))
            | Some(Instruction::_Cxkk(x, kk)) => {
                assert_eq!(x as u16, (word >> 8) & 0xF);
                assert_eq!(kk as u16, word & 0xFF);
            }
            _ => {}
        }
    }
}

#[test]
fn decoded_instructions_name_registers_that_exist() {
    for word in 0..=0xFFFFu16 {
        if let Some(instruction) = decode(word) {
            assert!(instruction.is_well_formed());
        }
    }
}

#[test]
fn instructions_made_by_hand_may_name_registers_that_do_not_exist() {
    assert!(Instruction::_6xkk(15, 0).is_well_formed());
    assert!(!Instruction::_6xkk(16, 0).is_well_formed());
    assert!(!Instruction::_8xy4(0, 16).is_well_formed());
    assert!(!Instruction::_Dxyn(16, 0, 1).is_well_formed());
    assert!(!Instruction::_Fx65(0xFF).is_well_formed());
    assert!(Instruction::_Annn(0xFFFF).is_well_formed());
    assert!(Instruction::_00E0.is_well_formed());
}
