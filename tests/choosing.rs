use supaquick::choice::{list, option, InlineChooser, ListChooser};
use supaquick::keys::{KeyEvent, Outcome};
use supaquick::terminal::encode;

fn answer(o: &Outcome) -> Option<String> {
    match o {
        Outcome::Submitted(s) => Some(s.clone()),
        _ => None,
    }
}

#[test]
fn list_down_moves_and_wraps() {
    let (mut c, _) = ListChooser::start("Pick:", &["A", "B", "C"]);
    assert_eq!(c.selected(), 0);
    c.handle(KeyEvent::Down);
    assert_eq!(c.selected(), 1);
    c.handle(KeyEvent::Down);
    assert_eq!(c.selected(), 2);
    c.handle(KeyEvent::Down);
    assert_eq!(c.selected(), 0);
}

#[test]
fn list_up_from_first_wraps_to_last() {
    let (o, _) = list("Pick:", &["A", "B", "C"], &vec![KeyEvent::Up, KeyEvent::Enter]);
    assert_eq!(answer(&o), Some("C".to_string()));
}

#[test]
fn list_scenario_down_down_enter() {
    let keys = vec![KeyEvent::Down, KeyEvent::Down, KeyEvent::Enter];
    let (o, _) = list("Pick:", &["Next.js", "React", "Vue"], &keys);
    assert_eq!(answer(&o), Some("Vue".to_string()));
}

#[test]
fn list_vim_keys_navigate() {
    let keys = vec![
        KeyEvent::Character('j'),
        KeyEvent::Character('j'),
        KeyEvent::Character('k'),
        KeyEvent::Enter,
    ];
    let (o, _) = list("Pick:", &["A", "B", "C"], &keys);
    assert_eq!(answer(&o), Some("B".to_string()));
}

#[test]
fn list_idle_keys_change_nothing() {
    let keys = vec![
        KeyEvent::Other,
        KeyEvent::Character('x'),
        KeyEvent::Left,
        KeyEvent::Backspace,
        KeyEvent::Enter,
    ];
    let (o, ops) = list("Pick:", &["A", "B"], &keys);
    assert_eq!(answer(&o), Some("A".to_string()));
    let (_, intro) = ListChooser::start("Pick:", &["A", "B"]);
    assert_eq!(encode(&ops), format!("{}\x1b[?25h", encode(&intro)));
}

#[test]
fn list_escape_cancels() {
    let (o, _) = list("Pick:", &["A"], &vec![KeyEvent::Down, KeyEvent::Escape]);
    assert!(matches!(o, Outcome::Cancelled));
}

#[test]
fn list_single_option_stays_selected() {
    let (o, _) = list("Pick:", &["Only"], &vec![KeyEvent::Down, KeyEvent::Up, KeyEvent::Enter]);
    assert_eq!(answer(&o), Some("Only".to_string()));
}

#[test]
fn list_draws_rows_with_marker() {
    let (_, ops) = ListChooser::start("Pick:", &["A", "B"]);
    assert_eq!(
        encode(&ops),
        "\x1b[?25lPick:\n\r\x1b[38;5;2m>\x1b[39m 1. A\n\r  2. B\n\r"
    );
}

#[test]
fn list_move_goes_back_to_top_and_redraws() {
    let (mut c, _) = ListChooser::start("Pick:", &["A", "B"]);
    let (ops, o) = c.handle(KeyEvent::Down);
    assert!(matches!(o, Outcome::Pending));
    assert_eq!(
        encode(&ops),
        "\x1b[3APick:\n\r  1. A\n\r\x1b[38;5;2m>\x1b[39m 2. B\n\r"
    );
}

#[test]
fn list_numbers_past_nine() {
    let options = ["a", "b", "c", "d", "e", "f", "g", "h", "i", "j", "k"];
    let (_, ops) = ListChooser::start("P", &options);
    let text = encode(&ops);
    assert!(text.contains("  10. j\n\r  11. k\n\r"));
}

#[test]
fn list_enter_shows_cursor() {
    let (mut c, _) = ListChooser::start("Pick:", &["A", "B"]);
    let (ops, o) = c.handle(KeyEvent::Enter);
    assert_eq!(answer(&o), Some("A".to_string()));
    assert_eq!(encode(&ops), "\x1b[?25h");
}

#[test]
fn inline_right_toggles_two_options() {
    let (o, _) = option("Q ", &["Yes", "No"], &vec![KeyEvent::Right, KeyEvent::Enter]);
    assert_eq!(answer(&o), Some("No".to_string()));
}

#[test]
fn inline_left_toggles_two_options() {
    let (o, _) = option("Q ", &["Yes", "No"], &vec![KeyEvent::Left, KeyEvent::Enter]);
    assert_eq!(answer(&o), Some("No".to_string()));
}

#[test]
fn inline_vim_keys_toggle() {
    let (mut c, _) = InlineChooser::start("Q ", &["Yes", "No"]);
    c.handle(KeyEvent::Character('l'));
    assert_eq!(c.selected(), 1);
    c.handle(KeyEvent::Character('h'));
    assert_eq!(c.selected(), 0);
    c.handle(KeyEvent::Character('h'));
    assert_eq!(c.selected(), 1);
}

#[test]
fn inline_two_moves_come_back() {
    let keys = vec![KeyEvent::Right, KeyEvent::Left, KeyEvent::Enter];
    let (o, _) = option("Q ", &["Yes", "No"], &keys);
    assert_eq!(answer(&o), Some("Yes".to_string()));
}

#[test]
fn inline_enter_at_once_gives_first() {
    let (o, ops) = option("Q ", &["Yes", "No"], &vec![KeyEvent::Enter]);
    assert_eq!(answer(&o), Some("Yes".to_string()));
    assert!(encode(&ops).ends_with("\x1b[?25h\n\r"));
}

#[test]
fn inline_directions_with_three_options() {
    let (o, _) = option("Q ", &["A", "B", "C"], &vec![KeyEvent::Left, KeyEvent::Enter]);
    assert_eq!(answer(&o), Some("B".to_string()));
    let (o, _) = option("Q ", &["A", "B", "C"], &vec![KeyEvent::Right, KeyEvent::Enter]);
    assert_eq!(answer(&o), Some("C".to_string()));
}

#[test]
fn inline_draws_one_line() {
    let (_, ops) = InlineChooser::start("Import: ", &["Automatic", "Manual"]);
    assert_eq!(
        encode(&ops),
        "\x1b[?25lImport: \x1b[38;5;2mAutomatic\x1b[39m / Manual"
    );
}

#[test]
fn inline_move_clears_and_redraws() {
    let (mut c, _) = InlineChooser::start("Q ", &["Yes", "No"]);
    let (ops, _) = c.handle(KeyEvent::Right);
    assert_eq!(encode(&ops), "\x1b[2K\rQ Yes / \x1b[38;5;2mNo\x1b[39m");
}

#[test]
fn inline_idle_keys_change_nothing() {
    let keys = vec![KeyEvent::Up, KeyEvent::Down, KeyEvent::Other, KeyEvent::Enter];
    let (o, _) = option("Q ", &["Yes", "No"], &keys);
    assert_eq!(answer(&o), Some("Yes".to_string()));
}

#[test]
fn inline_escape_cancels() {
    let (o, _) = option("Q ", &["Yes", "No"], &vec![KeyEvent::Escape]);
    assert!(matches!(o, Outcome::Cancelled));
}
