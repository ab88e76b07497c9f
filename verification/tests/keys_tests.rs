use snippet_engine::engine::InputEvent;
use snippet_engine::keys::{
    Key, key_to_char, char_to_keycode, ShiftState, inject_steps, InjectStep,
};

#[test]
fn letters_follow_the_shift_state() {
    assert_eq!(key_to_char(&Key::KeyA, false), Some('a'));
    assert_eq!(key_to_char(&Key::KeyA, true), Some('A'));
    assert_eq!(key_to_char(&Key::Num2, false), Some('2'));
    assert_eq!(key_to_char(&Key::Num2, true), Some('@'));
    assert_eq!(key_to_char(&Key::Quote, true), Some('"'));
}

#[test]
fn editing_keys_map_to_control_characters() {
    assert_eq!(key_to_char(&Key::Backspace, false), Some('\u{8}'));
    assert_eq!(key_to_char(&Key::Backspace, true), Some('\u{8}'));
    assert_eq!(key_to_char(&Key::Return, false), Some('\n'));
    assert_eq!(key_to_char(&Key::KpReturn, false), Some('\n'));
    assert_eq!(key_to_char(&Key::Tab, false), Some('\t'));
}

#[test]
fn unmapped_keys_produce_nothing() {
    assert_eq!(key_to_char(&Key::Other, false), None);
    assert_eq!(key_to_char(&Key::ShiftLeft, true), None);
    assert_eq!(key_to_char(&Key::LeftArrow, false), None);
}

#[test]
fn injection_table_inverts_the_capture_table() {
    for c in "azAZ09!@#$%^&*()-_=+[]{}\\|;:'\",.<>/?`~ \n\t".chars() {
        let (key, shifted) = char_to_keycode(c).expect("typable character");
        assert_eq!(key_to_char(&key, shifted), Some(c));
    }
    assert_eq!(char_to_keycode('\u{e9}'), None);
}

#[test]
fn shift_tracking_cases_characters_live() {
    let mut st = ShiftState::new();
    assert_eq!(st.on_key_down(Key::KeyH), Some(InputEvent::KeyPress('h')));
    assert_eq!(st.on_key_down(Key::ShiftLeft), None);
    assert_eq!(st.on_key_down(Key::KeyI), Some(InputEvent::KeyPress('I')));
    st.on_key_up(Key::ShiftLeft);
    assert_eq!(st.on_key_down(Key::KeyI), Some(InputEvent::KeyPress('i')));
}

#[test]
fn injected_text_splits_into_clicks_and_chunks() {
    let steps = inject_steps("ab\u{8}\u{8}cd");
    assert_eq!(steps.len(), 4);
    match &steps[0] {
        InjectStep::Text(t) => assert_eq!(t, "ab"),
        other => panic!("unexpected step: {:?}", other),
    }
    assert!(matches!(steps[1], InjectStep::Backspace));
    assert!(matches!(steps[2], InjectStep::Backspace));
    match &steps[3] {
        InjectStep::Text(t) => assert_eq!(t, "cd"),
        other => panic!("unexpected step: {:?}", other),
    }
}

#[test]
fn pure_backspace_text_is_all_clicks() {
    let steps = inject_steps("\u{8}\u{8}\u{8}");
    assert_eq!(steps.len(), 3);
    assert!(steps.iter().all(|s| matches!(s, InjectStep::Backspace)));
}
