//! Terminal control surface: the primitive operations that the prompt
//! controllers emit, and their encoding as escape sequences.
use vstd::prelude::*;

verus! {

/// The character of a decimal digit `d` (`d < 10`).
pub open spec fn digit_char(d: nat) -> char {
    if d == 0 {
        '0'
    } else if d == 1 {
        '1'
    } else if d == 2 {
        '2'
    } else if d == 3 {
        '3'
    } else if d == 4 {
        '4'
    } else if d == 5 {
        '5'
    } else if d == 6 {
        '6'
    } else if d == 7 {
        '7'
    } else if d == 8 {
        '8'
    } else {
        '9'
    }
}

/// The decimal notation of `n`, without leading zeros.
pub open spec fn decimal(n: nat) -> Seq<char>
    decreases n,
{
    if n < 10 {
        seq![digit_char(n)]
    } else {
        decimal(n / 10) + seq![digit_char(n % 10)]
    }
}

/// A control sequence: `ESC [` followed by `body`.
pub open spec fn csi(body: Seq<char>) -> Seq<char> {
    seq!['\x1b', '['] + body
}

pub open spec fn show_code() -> Seq<char> {
    csi(seq!['?', '2', '5', 'h'])
}

pub open spec fn hide_code() -> Seq<char> {
    csi(seq!['?', '2', '5', 'l'])
}

pub open spec fn blink_code() -> Seq<char> {
    csi(seq!['1', ' ', 'q'])
}

pub open spec fn steady_code() -> Seq<char> {
    csi(seq!['2', ' ', 'q'])
}

pub open spec fn restore_code() -> Seq<char> {
    csi(seq!['u'])
}

pub open spec fn clear_line_code() -> Seq<char> {
    csi(seq!['2', 'K'])
}

/// A cursor movement by `n` cells; `dir` is `A` (up), `B` (down), `C`
/// (right) or `D` (left).
pub open spec fn move_code(n: u16, dir: char) -> Seq<char> {
    csi(decimal(n as nat) + seq![dir])
}

/// One simulated backspace: step left, blank the cell, step left again.
pub open spec fn backspace_unit() -> Seq<char> {
    seq!['\x08', ' ', '\x08']
}

/// `count` simulated backspaces.
pub open spec fn backspace_code(count: nat) -> Seq<char>
    decreases count,
{
    if count == 0 {
        seq![]
    } else {
        backspace_code((count - 1) as nat) + backspace_unit()
    }
}

/// Foreground colour used for highlighted text.
pub open spec fn green_code() -> Seq<char> {
    csi(seq!['3', '8', ';', '5', ';', '2', 'm'])
}

/// Foreground colour used for placeholder text (light grey).
pub open spec fn grey_code() -> Seq<char> {
    csi(seq!['9', '0', 'm'])
}

/// Back to the default foreground colour.
pub open spec fn reset_code() -> Seq<char> {
    csi(seq!['3', '9', 'm'])
}

/// Relies on the `Display` impl of termion::cursor::Show (`ESC [ ? 2 5 h`).
#[verifier::external_body]
fn show_seq() -> (r: String)
    ensures
        r@ == show_code(),
{
    format!("{}", termion::cursor::Show)
}

/// Relies on the `Display` impl of termion::cursor::Hide (`ESC [ ? 2 5 l`).
#[verifier::external_body]
fn hide_seq() -> (r: String)
    ensures
        r@ == hide_code(),
{
    format!("{}", termion::cursor::Hide)
}

/// Relies on the `Display` impl of termion::cursor::BlinkingBlock (`ESC [ 1 SP q`).
#[verifier::external_body]
fn blink_seq() -> (r: String)
    ensures
        r@ == blink_code(),
{
    format!("{}", termion::cursor::BlinkingBlock)
}

/// Relies on the `Display` impl of termion::cursor::SteadyBlock (`ESC [ 2 SP q`).
#[verifier::external_body]
fn steady_seq() -> (r: String)
    ensures
        r@ == steady_code(),
{
    format!("{}", termion::cursor::SteadyBlock)
}

/// Relies on the `Display` impl of termion::cursor::Restore (`ESC [ u`).
#[verifier::external_body]
fn restore_seq() -> (r: String)
    ensures
        r@ == restore_code(),
{
    format!("{}", termion::cursor::Restore)
}

/// Relies on the `Display` impl of termion::clear::CurrentLine (`ESC [ 2 K`).
#[verifier::external_body]
fn clear_line_seq() -> (r: String)
    ensures
        r@ == clear_line_code(),
{
    format!("{}", termion::clear::CurrentLine)
}

/// Relies on the `Display` impl of termion::cursor::Left: `ESC [`, the count
/// in decimal, `D`.
#[verifier::external_body]
fn left_seq(n: u16) -> (r: String)
    ensures
        r@ == move_code(n, 'D'),
{
    format!("{}", termion::cursor::Left(n))
}

/// Relies on the `Display` impl of termion::cursor::Right: `ESC [`, the count
/// in decimal, `C`.
#[verifier::external_body]
fn right_seq(n: u16) -> (r: String)
    ensures
        r@ == move_code(n, 'C'),
{
    format!("{}", termion::cursor::Right(n))
}

/// Relies on the `Display` impl of termion::cursor::Up: `ESC [`, the count in
/// decimal, `A`.
#[verifier::external_body]
fn up_seq(n: u16) -> (r: String)
    ensures
        r@ == move_code(n, 'A'),
{
    format!("{}", termion::cursor::Up(n))
}

/// Relies on the `Display` impl of termion::cursor::Down: `ESC [`, the count
/// in decimal, `B`.
#[verifier::external_body]
fn down_seq(n: u16) -> (r: String)
    ensures
        r@ == move_code(n, 'B'),
{
    format!("{}", termion::cursor::Down(n))
}

/// Relies on termion::color::Green::fg_str, the fixed sequence
/// `ESC [ 3 8 ; 5 ; 2 m`.
#[verifier::external_body]
fn green_seq() -> (r: String)
    ensures
        r@ == green_code(),
{
    termion::color::Green.fg_str().to_string()
}

/// Relies on termion::color::Reset::fg_str, the fixed sequence `ESC [ 3 9 m`.
#[verifier::external_body]
fn reset_seq() -> (r: String)
    ensures
        r@ == reset_code(),
{
    termion::color::Reset.fg_str().to_string()
}

/// Relies on `usize`'s `Display` impl (std `to_string`): decimal notation.
#[verifier::external_body]
pub(crate) fn decimal_string(n: usize) -> (r: String)
    ensures
        r@ == decimal(n as nat),
{
    n.to_string()
}

/// Text cursor control: each method gives the bytes that perform one
/// primitive on the terminal.
pub struct Cursor;

impl Cursor {
    /// Makes the cursor visible.
    pub fn show() -> (r: String)
        ensures
            r@ == show_code(),
    {
        show_seq()
    }

    /// Hides the cursor.
    pub fn conceal() -> (r: String)
        ensures
            r@ == hide_code(),
    {
        hide_seq()
    }

    /// Makes the cursor a blinking block (used while a field is edited).
    pub fn blink() -> (r: String)
        ensures
            r@ == blink_code(),
    {
        blink_seq()
    }

    /// Makes the cursor a steady block.
    pub fn steady() -> (r: String)
        ensures
            r@ == steady_code(),
    {
        steady_seq()
    }

    /// Restores the saved cursor position.
    pub fn restore() -> (r: String)
        ensures
            r@ == restore_code(),
    {
        restore_seq()
    }

    /// Clears the line the cursor is on.
    pub fn clear_line() -> (r: String)
        ensures
            r@ == clear_line_code(),
    {
        clear_line_seq()
    }

    /// Moves the cursor `count` columns to the left.
    pub fn left(count: u16) -> (r: String)
        ensures
            r@ == move_code(count, 'D'),
    {
        left_seq(count)
    }

    /// Moves the cursor `count` rows down.
    pub fn down(count: u16) -> (r: String)
        ensures
            r@ == move_code(count, 'B'),
    {
        down_seq(count)
    }

    /// Moves the cursor `count` rows up.
    pub fn up(count: u16) -> (r: String)
        ensures
            r@ == move_code(count, 'A'),
    {
        up_seq(count)
    }

    /// Moves the cursor `count` columns to the right.
    pub fn right(count: u16) -> (r: String)
        ensures
            r@ == move_code(count, 'C'),
    {
        right_seq(count)
    }

    /// Erases the `count` cells left of the cursor, one simulated backspace
    /// each, leaving the cursor on the leftmost erased cell.
    pub fn backspace(count: u16) -> (r: String)
        ensures
            r@ == backspace_code(count as nat),
    {
        let mut out = String::new();
        let mut i: u16 = 0;
        while i != count
            invariant
                i <= count,
                out@ == backspace_code(i as nat),
            decreases count - i,
        {
            out.append("\x08 \x08");
            proof {
                reveal_strlit("\x08 \x08");
            }
            i += 1;
        }
        out
    }

    /// Moves the cursor to the first column of its line.
    pub fn beginning() -> (r: String)
        ensures
            r@ == seq!['\r'],
    {
        let r = String::from_str("\r");
        proof {
            reveal_strlit("\r");
        }
        r
    }

    /// Moves the cursor one row down.
    pub fn new_line() -> (r: String)
        ensures
            r@ == seq!['\n'],
    {
        let r = String::from_str("\n");
        proof {
            reveal_strlit("\n");
        }
        r
    }
}


/// One primitive terminal operation, as the controllers emit it.
pub enum TermOp {
    /// Writes text at the cursor.
    Text(String),
    /// Writes text at the cursor in light grey.
    Dim(String),
    /// Writes text at the cursor in green.
    Highlight(String),
    Left(u16),
    Right(u16),
    Up(u16),
    Down(u16),
    /// Erases cells left of the cursor, one simulated backspace each.
    Backspace(u16),
    ClearLine,
    /// Moves the cursor to the first column.
    Beginning,
    /// Moves the cursor one row down (raw mode: the column is kept).
    NewLine,
    Show,
    Hide,
    Blink,
    Steady,
}

/// The mathematical value of a [`TermOp`].
pub enum Op {
    Text(Seq<char>),
    Dim(Seq<char>),
    Highlight(Seq<char>),
    Left(u16),
    Right(u16),
    Up(u16),
    Down(u16),
    Backspace(u16),
    ClearLine,
    Beginning,
    NewLine,
    Show,
    Hide,
    Blink,
    Steady,
}

impl View for TermOp {
    type V = Op;

    open spec fn view(&self) -> Op {
        match self {
            TermOp::Text(t) => Op::Text(t@),
            TermOp::Dim(t) => Op::Dim(t@),
            TermOp::Highlight(t) => Op::Highlight(t@),
            TermOp::Left(n) => Op::Left(*n),
            TermOp::Right(n) => Op::Right(*n),
            TermOp::Up(n) => Op::Up(*n),
            TermOp::Down(n) => Op::Down(*n),
            TermOp::Backspace(n) => Op::Backspace(*n),
            TermOp::ClearLine => Op::ClearLine,
            TermOp::Beginning => Op::Beginning,
            TermOp::NewLine => Op::NewLine,
            TermOp::Show => Op::Show,
            TermOp::Hide => Op::Hide,
            TermOp::Blink => Op::Blink,
            TermOp::Steady => Op::Steady,
        }
    }
}

/// The values of a sequence of operations.
pub open spec fn ops_view(ops: Seq<TermOp>) -> Seq<Op> {
    ops.map_values(|o: TermOp| o@)
}

/// The characters that perform `op` on the terminal.
pub open spec fn code(op: Op) -> Seq<char> {
    match op {
        Op::Text(t) => t,
        Op::Dim(t) => grey_code() + t + reset_code(),
        Op::Highlight(t) => green_code() + t + reset_code(),
        Op::Left(n) => move_code(n, 'D'),
        Op::Right(n) => move_code(n, 'C'),
        Op::Up(n) => move_code(n, 'A'),
        Op::Down(n) => move_code(n, 'B'),
        Op::Backspace(n) => backspace_code(n as nat),
        Op::ClearLine => clear_line_code(),
        Op::Beginning => seq!['\r'],
        Op::NewLine => seq!['\n'],
        Op::Show => show_code(),
        Op::Hide => hide_code(),
        Op::Blink => blink_code(),
        Op::Steady => steady_code(),
    }
}

/// The characters that perform `ops` in order.
pub open spec fn codes(ops: Seq<Op>) -> Seq<char>
    decreases ops.len(),
{
    if ops.len() == 0 {
        seq![]
    } else {
        codes(ops.drop_last()) + code(ops.last())
    }
}

impl TermOp {
    /// The characters that perform this operation.
    pub fn code(&self) -> (r: String)
        ensures
            r@ == code(self@),
    {
        match self {
            TermOp::Text(t) => t.clone(),
            TermOp::Dim(t) => {
                let mut r = String::from_str("\x1b[90m");
                proof {
                    reveal_strlit("\x1b[90m");
                }
                r.append(t.as_str());
                let reset = reset_seq();
                r.append(reset.as_str());
                r
            },
            TermOp::Highlight(t) => {
                let mut r = green_seq();
                r.append(t.as_str());
                let reset = reset_seq();
                r.append(reset.as_str());
                r
            },
            TermOp::Left(n) => Cursor::left(*n),
            TermOp::Right(n) => Cursor::right(*n),
            TermOp::Up(n) => Cursor::up(*n),
            TermOp::Down(n) => Cursor::down(*n),
            TermOp::Backspace(n) => Cursor::backspace(*n),
            TermOp::ClearLine => Cursor::clear_line(),
            TermOp::Beginning => Cursor::beginning(),
            TermOp::NewLine => Cursor::new_line(),
            TermOp::Show => Cursor::show(),
            TermOp::Hide => Cursor::conceal(),
            TermOp::Blink => Cursor::blink(),
            TermOp::Steady => Cursor::steady(),
        }
    }
}

/// The characters to write to the terminal to perform `ops` in order.
pub fn encode(ops: &Vec<TermOp>) -> (r: String)
    ensures
        r@ == codes(ops_view(ops@)),
{
    let mut out = String::new();
    let mut i: usize = 0;
    while i < ops.len()
        invariant
            i <= ops.len(),
            out@ == codes(ops_view(ops@.subrange(0, i as int))),
        decreases ops.len() - i,
    {
        let c = ops[i].code();
        out.append(c.as_str());
        proof {
            let pre = ops_view(ops@.subrange(0, i as int));
            let post = ops_view(ops@.subrange(0, i + 1));
            assert(post.drop_last() =~= pre);
            assert(post.last() == ops@[i as int]@);
        }
        i += 1;
    }
    proof {
        assert(ops@.subrange(0, ops.len() as int) =~= ops@);
    }
    out
}

} // verus!
