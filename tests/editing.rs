use rushell::editor::{handle_key_press, Key, KeyAction};
use rushell::history::History;

#[test]
fn characters_are_appended_and_echoed() {
    let mut h = History::new();
    let mut input = String::new();
    assert!(matches!(handle_key_press(&mut input, Key::Char('l'), &mut h), KeyAction::Echo('l')));
    assert!(matches!(handle_key_press(&mut input, Key::Char('s'), &mut h), KeyAction::Echo('s')));
    assert_eq!(input, "ls");
}

#[test]
fn backspace_removes_last_character() {
    let mut h = History::new();
    let mut input = "ab".to_string();
    assert!(matches!(handle_key_press(&mut input, Key::Backspace, &mut h), KeyAction::Erase));
    assert_eq!(input, "a");
    assert!(matches!(handle_key_press(&mut input, Key::Backspace, &mut h), KeyAction::Erase));
    assert!(matches!(handle_key_press(&mut input, Key::Backspace, &mut h), KeyAction::Nothing));
    assert_eq!(input, "");
}

#[test]
fn enter_submits_trimmed_line_and_clears() {
    let mut h = History::new();
    let mut input = "  echo hi  ".to_string();
    match handle_key_press(&mut input, Key::Enter, &mut h) {
        KeyAction::Submit(line, _) => assert_eq!(line, "echo hi"),
        _ => panic!("expected a submitted line"),
    }
    assert_eq!(input, "");
}

#[test]
fn ctrl_j_submits_like_enter() {
    let mut h = History::new();
    let mut input = "pwd".to_string();
    match handle_key_press(&mut input, Key::Ctrl('j'), &mut h) {
        KeyAction::Submit(line, _) => assert_eq!(line, "pwd"),
        _ => panic!("expected a submitted line"),
    }
    assert_eq!(input, "");
}

#[test]
fn other_keys_do_nothing() {
    let mut h = History::new();
    let mut input = "x".to_string();
    assert!(matches!(handle_key_press(&mut input, Key::Ctrl('a'), &mut h), KeyAction::Nothing));
    assert!(matches!(handle_key_press(&mut input, Key::Other, &mut h), KeyAction::Nothing));
    assert!(matches!(handle_key_press(&mut input, Key::Tab, &mut h), KeyAction::Complete));
    assert_eq!(input, "x");
}

#[test]
fn arrows_walk_history() {
    let mut h = History::new();
    h.add_entry("ls".to_string());
    h.add_entry("pwd".to_string());
    let mut input = "partial".to_string();
    match handle_key_press(&mut input, Key::Up, &mut h) {
        KeyAction::Replace(t) => assert_eq!(t, "pwd"),
        _ => panic!("expected a replacement"),
    }
    assert_eq!(input, "pwd");
    handle_key_press(&mut input, Key::Up, &mut h);
    assert_eq!(input, "ls");
    assert!(matches!(handle_key_press(&mut input, Key::Up, &mut h), KeyAction::Nothing));
    assert_eq!(input, "ls");
    match handle_key_press(&mut input, Key::Down, &mut h) {
        KeyAction::Replace(t) => assert_eq!(t, "pwd"),
        _ => panic!("expected a replacement"),
    }
    match handle_key_press(&mut input, Key::Down, &mut h) {
        KeyAction::Replace(t) => assert_eq!(t, ""),
        _ => panic!("expected a replacement"),
    }
    assert_eq!(input, "");
}
