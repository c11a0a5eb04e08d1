use supaquick::banner::{footer, logo, LOGO};
use supaquick::terminal::{encode, Cursor, TermOp};

#[test]
fn cursor_movement_codes() {
    assert_eq!(Cursor::left(12), "\x1b[12D");
    assert_eq!(Cursor::right(3), "\x1b[3C");
    assert_eq!(Cursor::up(7), "\x1b[7A");
    assert_eq!(Cursor::down(1), "\x1b[1B");
}

#[test]
fn cursor_state_codes() {
    assert_eq!(Cursor::show(), "\x1b[?25h");
    assert_eq!(Cursor::conceal(), "\x1b[?25l");
    assert_eq!(Cursor::blink(), "\x1b[1 q");
    assert_eq!(Cursor::steady(), "\x1b[2 q");
    assert_eq!(Cursor::restore(), "\x1b[u");
    assert_eq!(Cursor::clear_line(), "\x1b[2K");
    assert_eq!(Cursor::beginning(), "\r");
    assert_eq!(Cursor::new_line(), "\n");
}

#[test]
fn backspace_code_repeats() {
    assert_eq!(Cursor::backspace(0), "");
    assert_eq!(Cursor::backspace(2), "\x08 \x08\x08 \x08");
}

#[test]
fn styled_text_codes() {
    let ops = vec![
        TermOp::Highlight("ok".to_string()),
        TermOp::Dim("hint".to_string()),
        TermOp::Text("plain".to_string()),
    ];
    assert_eq!(
        encode(&ops),
        "\x1b[38;5;2mok\x1b[39m\x1b[90mhint\x1b[39mplain"
    );
}

#[test]
fn encode_of_nothing_is_empty() {
    assert_eq!(encode(&Vec::new()), "");
}

#[test]
fn logo_ends_with_exit_hint() {
    let text = logo();
    assert!(text.starts_with(LOGO));
    assert!(text.ends_with("\nPress ESC to exit\n\n"));
}

#[test]
fn footer_announces_project() {
    assert_eq!(
        encode(&footer("demo")),
        "\n\x1b[38;5;2mSuccess!\x1b[39m demo has been created\n"
    );
}
