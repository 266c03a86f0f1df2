use chip8::display::Display;
use chip8::keyboard::{key_value, KeyEvent, KeyInput, Keyboard};

fn press(ch: char, timestamp: u64) -> KeyEvent {
    KeyEvent { key: KeyInput::Char(ch), timestamp }
}

#[test]
fn key_map_matches_layout() {
    assert_eq!(key_value('1'), Some(0x1));
    assert_eq!(key_value('4'), Some(0xC));
    assert_eq!(key_value('q'), Some(0x4));
    assert_eq!(key_value('r'), Some(0xD));
    assert_eq!(key_value('x'), Some(0x0));
    assert_eq!(key_value('v'), Some(0xF));
    assert_eq!(key_value(' '), None);
    assert_eq!(key_value('Q'), None);
}

#[test]
fn key_is_held_for_a_hundred_milliseconds() {
    let mut kb = Keyboard::new();
    assert!(!kb.is_key_pressed(0x7, 0));
    kb.push_event(press('a', 500));
    kb.process_pressed_keys();
    assert!(kb.is_key_pressed(0x7, 500));
    assert!(kb.is_key_pressed(0x7, 599));
    assert!(!kb.is_key_pressed(0x7, 600));
    assert!(!kb.is_key_pressed(0x8, 550));
    assert!(!kb.is_key_pressed(0x17, 550));
}

#[test]
fn draining_stops_at_pause_toggle() {
    let mut kb = Keyboard::new();
    kb.push_event(press(' ', 1));
    kb.push_event(press('a', 2));
    kb.process_pressed_keys();
    assert!(kb.pause_toggle_on());
    assert!(!kb.is_key_pressed(0x7, 2));
    kb.process_pressed_keys();
    assert!(kb.is_key_pressed(0x7, 2));
    assert!(kb.pause_toggle_on());
}

#[test]
fn quit_key_sets_flag() {
    let mut kb = Keyboard::new();
    kb.push_event(KeyEvent { key: KeyInput::Esc, timestamp: 1 });
    kb.push_event(press('a', 2));
    kb.process_pressed_keys();
    assert!(kb.esc_pressed());
    assert!(!kb.is_key_pressed(0x7, 2));
}

#[test]
fn next_key_ignores_presses_before_the_wait() {
    let mut kb = Keyboard::new();
    kb.push_event(press('a', 9));
    kb.push_event(press('p', 10));
    kb.push_event(press('s', 10));
    assert_eq!(kb.get_next_key(10), Some(0x8));
    assert_eq!(kb.get_next_key(10), None);
}

#[test]
fn next_key_stops_at_pause_toggle() {
    let mut kb = Keyboard::new();
    kb.push_event(press(' ', 20));
    kb.push_event(press('s', 21));
    assert_eq!(kb.get_next_key(10), None);
    assert!(kb.pause_toggle_on());
    assert_eq!(kb.get_next_key(10), Some(0x8));
}

#[test]
fn set_block_toggles_and_reports_erase() {
    let mut d = Display::new();
    assert!(!d.get_block(3, 4));
    assert!(!d.set_block(3, 4));
    assert!(d.get_block(3, 4));
    assert!(!d.get_block(4, 3));
    assert!(d.set_block(3, 4));
    assert!(!d.get_block(3, 4));
    d.set_block(63, 31);
    d.set_block(0, 0);
    d.clear();
    assert!(!d.get_block(63, 31));
    assert!(!d.get_block(0, 0));
}
