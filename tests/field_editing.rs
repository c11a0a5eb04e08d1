use supaquick::field::{input, FieldEditor};
use supaquick::keys::{KeyEvent, Outcome};
use supaquick::terminal::encode;

fn answer(o: &Outcome) -> Option<String> {
    match o {
        Outcome::Submitted(s) => Some(s.clone()),
        _ => None,
    }
}

fn typed(s: &str) -> Vec<KeyEvent> {
    s.chars().map(KeyEvent::Character).collect()
}

#[test]
fn enter_on_empty_field_takes_default() {
    let (o, _) = input("What is your project named: ", "my-app", "my-app", &vec![KeyEvent::Enter]);
    assert_eq!(answer(&o), Some("my-app".to_string()));
}

#[test]
fn default_taken_whatever_follows_enter() {
    let keys = vec![KeyEvent::Enter, KeyEvent::Character('x'), KeyEvent::Enter];
    let (o, _) = input("Name: ", "", "fallback", &keys);
    assert_eq!(answer(&o), Some("fallback".to_string()));
}

#[test]
fn typed_characters_are_returned_trimmed() {
    let mut keys = typed("  hello world \t");
    keys.push(KeyEvent::Enter);
    let (o, _) = input("Say: ", "", "", &keys);
    assert_eq!(answer(&o), Some("hello world".to_string()));
}

#[test]
fn typed_text_wins_over_default() {
    let mut keys = typed("demo");
    keys.push(KeyEvent::Enter);
    let (o, _) = input("Name: ", "my-app", "my-app", &keys);
    assert_eq!(answer(&o), Some("demo".to_string()));
}

#[test]
fn empty_field_without_default_gives_empty_string() {
    let (o, _) = input("Url: ", "", "", &vec![KeyEvent::Enter]);
    assert_eq!(answer(&o), Some(String::new()));
}

#[test]
fn two_backspaces_remove_two_characters() {
    // "demo", two Backspaces, then "ok": each Backspace takes one character.
    let mut keys = typed("demo");
    keys.push(KeyEvent::Backspace);
    keys.push(KeyEvent::Backspace);
    keys.extend(typed("ok"));
    keys.push(KeyEvent::Enter);
    let (o, _) = input("What is your project named: ", "my-app", "my-app", &keys);
    assert_eq!(answer(&o), Some("deok".to_string()));
}

#[test]
fn erasing_everything_then_retyping() {
    let mut keys = typed("demo");
    for _ in 0..4 {
        keys.push(KeyEvent::Backspace);
    }
    keys.extend(typed("ok"));
    keys.push(KeyEvent::Enter);
    let (o, _) = input("What is your project named: ", "my-app", "my-app", &keys);
    assert_eq!(answer(&o), Some("ok".to_string()));
}

#[test]
fn erasing_everything_falls_back_to_default() {
    let keys = vec![KeyEvent::Character('a'), KeyEvent::Backspace, KeyEvent::Enter];
    let (o, _) = input("Name: ", "my-app", "my-app", &keys);
    assert_eq!(answer(&o), Some("my-app".to_string()));
}

#[test]
fn escape_cancels_field() {
    let keys = vec![KeyEvent::Character('a'), KeyEvent::Escape, KeyEvent::Enter];
    let (o, ops) = input("Name: ", "", "", &keys);
    assert!(matches!(o, Outcome::Cancelled));
    assert_eq!(encode(&ops), "Name: \x1b[1 qa\x1b[2 q");
}

#[test]
fn field_pending_when_keys_run_out() {
    let (o, _) = input("Name: ", "", "", &typed("ab"));
    assert!(matches!(o, Outcome::Pending));
}

#[test]
fn other_keys_are_ignored_by_field() {
    let keys = vec![
        KeyEvent::Up,
        KeyEvent::Character('x'),
        KeyEvent::Left,
        KeyEvent::Other,
        KeyEvent::Enter,
    ];
    let (o, _) = input("Name: ", "", "", &keys);
    assert_eq!(answer(&o), Some("x".to_string()));
}

#[test]
fn backspace_on_empty_buffer_is_a_no_op() {
    let (mut ed, _) = FieldEditor::start("Name: ", "my-app", "");
    let (ops, o) = ed.handle(KeyEvent::Backspace);
    assert!(ops.is_empty());
    assert!(matches!(o, Outcome::Pending));
    assert_eq!(ed.buffer(), "");
    assert!(ed.placeholder_visible());
}

#[test]
fn backspace_removes_last_character_and_one_column() {
    let (mut ed, _) = FieldEditor::start("Name: ", "", "");
    ed.handle(KeyEvent::Character('a'));
    ed.handle(KeyEvent::Character('b'));
    let (ops, _) = ed.handle(KeyEvent::Backspace);
    assert_eq!(ed.buffer(), "a");
    assert_eq!(encode(&ops), "\x08 \x08");
}

#[test]
fn last_backspace_draws_placeholder_again() {
    let (mut ed, _) = FieldEditor::start("Name: ", "my-app", "");
    ed.handle(KeyEvent::Character('z'));
    assert!(!ed.placeholder_visible());
    let (ops, _) = ed.handle(KeyEvent::Backspace);
    assert!(ed.placeholder_visible());
    assert_eq!(encode(&ops), "\x08 \x08\x1b[90mmy-app\x1b[39m\x1b[6D");
}

#[test]
fn field_intro_draws_prompt_and_grey_placeholder() {
    let (_, ops) = FieldEditor::start("Name: ", "my-app", "");
    assert_eq!(encode(&ops), "Name: \x1b[90mmy-app\x1b[39m\x1b[6D\x1b[1 q");
}

#[test]
fn first_character_erases_placeholder() {
    let (mut ed, _) = FieldEditor::start("Name: ", "ab", "");
    let (ops, _) = ed.handle(KeyEvent::Character('d'));
    assert_eq!(encode(&ops), "d\x1b[2C\x08 \x08\x08 \x08");
    let (ops, _) = ed.handle(KeyEvent::Character('e'));
    assert_eq!(encode(&ops), "e");
    assert_eq!(ed.buffer(), "de");
}

#[test]
fn non_ascii_characters_are_kept() {
    let mut keys = typed("héllo");
    keys.push(KeyEvent::Backspace);
    keys.push(KeyEvent::Enter);
    let (o, _) = input("Name: ", "", "", &keys);
    assert_eq!(answer(&o), Some("héll".to_string()));
}

#[test]
fn enter_ends_line_and_steadies_cursor() {
    let (mut ed, _) = FieldEditor::start("Name: ", "", "");
    let (ops, _) = ed.handle(KeyEvent::Enter);
    assert_eq!(encode(&ops), "\x1b[2 q\r\n");
}

#[test]
fn default_with_surrounding_blanks_is_trimmed() {
    let (o, _) = input("Name: ", "", "  my-app ", &vec![KeyEvent::Enter]);
    assert_eq!(answer(&o), Some("my-app".to_string()));
}
