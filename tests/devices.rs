use chip8::key::{Key, KEYCODE_1, KEYCODE_4, KEYCODE_V, KEYCODE_X};
use chip8::keyboard::Keyboard;
use chip8::pacing::Pacer;

#[test]
fn keypad_layout() {
    assert_eq!(Key::from_keycode(KEYCODE_1), Some(Key::Code1));
    assert_eq!(Key::from_keycode(KEYCODE_4), Some(Key::CodeC));
    assert_eq!(Key::from_keycode(KEYCODE_X), Some(Key::Code0));
    assert_eq!(Key::from_keycode(KEYCODE_V), Some(Key::CodeF));
    assert_eq!(Key::from_keycode('q' as i32), Some(Key::Code4));
    assert_eq!(Key::from_keycode('z' as i32), Some(Key::CodeA));
    assert_eq!(Key::from_keycode('p' as i32), None);
    assert_eq!(Key::from_keycode(27), None);
}

#[test]
fn key_values() {
    assert_eq!(Key::Code0.value(), 0);
    assert_eq!(Key::Code9.value(), 9);
    assert_eq!(Key::CodeF.value(), 15);
}

#[test]
fn keyboard_starts_released() {
    let keyboard = Keyboard::new();
    assert!(format!("{:?}", keyboard).contains("false"));
}

#[test]
fn pacer_ticks_once_per_sixtieth_of_a_second() {
    let mut pacer = Pacer::new();
    assert!(!pacer.advance(16));
    // 17 ms in all is past 1/60 s
    assert!(pacer.advance(1));
    // 1/3 ms carried over, another 16 ms makes 49/3 ms: not yet
    assert!(!pacer.advance(16));
    assert!(pacer.advance(1));
    // a long pause still gives one tick per call
    assert!(pacer.advance(1000));
    assert!(pacer.advance(0));
    assert!(pacer.advance(u64::MAX));
}
