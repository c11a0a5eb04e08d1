//! One-shot output: the banner shown at start and the closing message.
use vstd::prelude::*;
use crate::terminal::{Op, TermOp, ops_view};

verus! {

/// The banner and the line under it.
pub open spec fn logo_text() -> Seq<char> {
    LOGO@ + "\nPress ESC to exit\n\n"@
}

/// The banner, in characters drawn with lines and slashes.
pub const LOGO: &'static str = r#"
 ________  ___  ___  ________  ________  ________  ___  ___  ___  ________  ___  __
|\   ____\|\  \|\  \|\   __  \|\   __  \|\   __  \|\  \|\  \|\  \|\   ____\|\  \|\  \
\ \  \___|\ \  \\\  \ \  \|\  \ \  \|\  \ \  \|\  \ \  \\\  \ \  \ \  \___|\ \  \/  /|_
 \ \_____  \ \  \\\  \ \   ____\ \   __  \ \  \\\  \ \  \\\  \ \  \ \  \    \ \   ___  \
  \|____|\  \ \  \\\  \ \  \___|\ \  \ \  \ \  \\\  \ \  \\\  \ \  \ \  \____\ \  \\ \  \
    ____\_\  \ \_______\ \__\    \ \__\ \__\ \_____  \ \_______\ \__\ \_______\ \__\\ \__\
   |\_________\|_______|\|__|     \|__|\|__|\|___| \__\|_______|\|__|\|_______|\|__| \|__|
   \|_________|                                   \|__|
"#;

/// The text shown when the program starts: the banner, then how to leave.
pub fn logo() -> (r: String)
    ensures
        r@ == logo_text(),
{
    let mut r = String::from_str(LOGO);
    r.append("\nPress ESC to exit\n\n");
    r
}

/// What the closing message draws: on a new line, `Success!` in green, then
/// that the project `name` has been created.
pub open spec fn footer_ops(name: Seq<char>) -> Seq<Op> {
    seq![
        Op::NewLine,
        Op::Highlight("Success!"@),
        Op::Text(seq![' '] + name + " has been created"@),
        Op::NewLine,
    ]
}

/// The closing message for the project `name`.
pub fn footer(name: &str) -> (r: Vec<TermOp>)
    ensures
        ops_view(r@) == footer_ops(name@),
{
    let mut text = String::from_str(" ");
    text.append(name);
    text.append(" has been created");
    proof {
        reveal_strlit(" ");
        assert(text@ =~= seq![' '] + name@ + " has been created"@);
    }
    let r = vec![
        TermOp::NewLine,
        TermOp::Highlight(String::from_str("Success!")),
        TermOp::Text(text),
        TermOp::NewLine,
    ];
    proof {
        assert(ops_view(r@) =~= footer_ops(name@));
    }
    r
}

} // verus!
