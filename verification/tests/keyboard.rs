use nibble8::input::keyboard::key_for;
use nibble8::input::keyboard::Action;
use nibble8::input::keyboard::Event;
use nibble8::input::keyboard::Keyboard;

#[test]
fn digits_and_letters_are_keys_of_the_keypad() {
    let codes = "0123456789abcdef";
    for (value, symbol) in codes.chars().enumerate() {
        assert_eq!(key_for(symbol as i32), Some(value as u8));
    }
}

#[test]
fn other_codes_are_no_keys() {
    assert_eq!(key_for('g' as i32), None);
    assert_eq!(key_for('/' as i32), None);
    assert_eq!(key_for(':' as i32), None);
    assert_eq!(key_for('`' as i32), None);
    assert_eq!(key_for('A' as i32), None);
    assert_eq!(key_for(0), None);
    assert_eq!(key_for(-1), None);
    assert_eq!(key_for(i32::MAX), None);
    assert_eq!(key_for(i32::MIN), None);
}

#[test]
fn escape_and_quit_end_the_run() {
    let mut keyboard = Keyboard::new();
    assert_eq!(keyboard.react(Event::Quit), Action::Stop);
    assert_eq!(keyboard.react(Event::KeyDown(27)), Action::Stop);
}

#[test]
fn keypad_keys_are_pressed() {
    let mut keyboard = Keyboard::new();
    assert_eq!(keyboard.react(Event::KeyDown('7' as i32)), Action::Press(7));
    assert_eq!(keyboard.react(Event::KeyDown('c' as i32)), Action::Press(0xC));
}

#[test]
fn keys_are_released_after_forty_turns() {
    let mut keyboard = Keyboard::new();
    for _ in 0..40 {
        keyboard.turn();
        assert_eq!(keyboard.react(Event::Other), Action::Nothing);
        assert_eq!(keyboard.react(Event::KeyDown('g' as i32)), Action::Nothing);
    }
    keyboard.turn();
    // A key of the keypad does not release the keys, however late.
    assert_eq!(keyboard.react(Event::KeyDown('1' as i32)), Action::Press(1));
    assert_eq!(keyboard.react(Event::Other), Action::Release);
    // The count has started again.
    assert_eq!(keyboard.react(Event::Other), Action::Nothing);
    for _ in 0..41 {
        keyboard.turn();
    }
    assert_eq!(keyboard.react(Event::KeyDown('x' as i32)), Action::Release);
    assert_eq!(keyboard.react(Event::KeyDown('x' as i32)), Action::Nothing);
}
