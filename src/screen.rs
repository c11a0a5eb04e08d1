//! A model of what the terminal shows: lines of cells and a cursor, and the
//! effect of each primitive operation on them. Colours and cursor shape are
//! not modelled.
use vstd::prelude::*;
use crate::terminal::Op;

verus! {

/// The terminal as the controllers see it. Rows and columns start at 0; a row
/// that was never written is empty.
pub struct Screen {
    pub lines: Map<int, Seq<char>>,
    pub row: int,
    pub col: int,
    pub cursor_visible: bool,
}

/// The cells of row `r`.
pub open spec fn line_at(s: Screen, r: int) -> Seq<char> {
    if s.lines.dom().contains(r) {
        s.lines[r]
    } else {
        seq![]
    }
}

pub open spec fn spaces(n: nat) -> Seq<char> {
    Seq::new(n, |i: int| ' ')
}

/// Every cell of `line` from column `from` on is blank.
pub open spec fn blank_from(line: Seq<char>, from: int) -> bool {
    forall|i: int| from <= i < line.len() ==> line[i] == ' '
}

/// `line` with `text` written over it from column `col` on; a gap between the
/// end of the line and `col` is filled with blanks.
pub open spec fn overwrite(line: Seq<char>, col: int, text: Seq<char>) -> Seq<char> {
    let padded = if col > line.len() {
        line + spaces((col - line.len()) as nat)
    } else {
        line
    };
    let end = col + text.len();
    padded.subrange(0, col) + text + if end < padded.len() {
        padded.subrange(end, padded.len() as int)
    } else {
        seq![]
    }
}

/// Writes `text` at the cursor, which ends just after it.
pub open spec fn put_text(s: Screen, text: Seq<char>) -> Screen {
    Screen {
        lines: s.lines.insert(s.row, overwrite(line_at(s, s.row), s.col, text)),
        col: s.col + text.len(),
        ..s
    }
}

/// A movement count: terminals read a count of 0 as 1.
pub open spec fn steps(n: u16) -> int {
    if n == 0 {
        1
    } else {
        n as int
    }
}

pub open spec fn at_least_zero(x: int) -> int {
    if x < 0 {
        0
    } else {
        x
    }
}

/// The effect of `n` simulated backspaces: each steps left (not past column
/// 0), blanks the cell there and stays on it.
pub open spec fn backspaces(s: Screen, n: u16) -> Screen {
    if n == 0 {
        s
    } else if n <= s.col {
        Screen {
            lines: s.lines.insert(
                s.row,
                overwrite(line_at(s, s.row), s.col - n, spaces(n as nat)),
            ),
            col: s.col - n,
            ..s
        }
    } else {
        let k: nat = if s.col < 1 {
            1
        } else {
            s.col as nat
        };
        Screen { lines: s.lines.insert(s.row, overwrite(line_at(s, s.row), 0, spaces(k))), col: 0, ..s }
    }
}

/// The screen after `op`.
pub open spec fn apply(s: Screen, op: Op) -> Screen {
    match op {
        Op::Text(t) => put_text(s, t),
        Op::Dim(t) => put_text(s, t),
        Op::Highlight(t) => put_text(s, t),
        Op::Left(n) => Screen { col: at_least_zero(s.col - steps(n)), ..s },
        Op::Right(n) => Screen { col: s.col + steps(n), ..s },
        Op::Up(n) => Screen { row: at_least_zero(s.row - steps(n)), ..s },
        Op::Down(n) => Screen { row: s.row + steps(n), ..s },
        Op::Backspace(n) => backspaces(s, n),
        Op::ClearLine => Screen { lines: s.lines.insert(s.row, seq![]), ..s },
        Op::Beginning => Screen { col: 0, ..s },
        Op::NewLine => Screen { row: s.row + 1, ..s },
        Op::Show => Screen { cursor_visible: true, ..s },
        Op::Hide => Screen { cursor_visible: false, ..s },
        Op::Blink => s,
        Op::Steady => s,
    }
}

/// The screen after `ops`, in order.
pub open spec fn run(s: Screen, ops: Seq<Op>) -> Screen
    decreases ops.len(),
{
    if ops.len() == 0 {
        s
    } else {
        apply(run(s, ops.drop_last()), ops.last())
    }
}

/// Performing two runs of operations one after the other is performing
/// their concatenation.
pub proof fn lemma_run_append(s: Screen, a: Seq<Op>, b: Seq<Op>)
    ensures
        run(s, a + b) == run(run(s, a), b),
    decreases b.len(),
{
    if b.len() == 0 {
        assert(a + b =~= a);
    } else {
        assert((a + b).drop_last() =~= a + b.drop_last());
        lemma_run_append(s, a, b.drop_last());
    }
}

/// What writing over a line keeps and what it changes.
pub proof fn lemma_overwrite(line: Seq<char>, col: int, text: Seq<char>)
    requires
        0 <= col,
    ensures
        overwrite(line, col, text).len() == if col + text.len() > line.len() {
            col + text.len()
        } else {
            line.len() as int
        },
        forall|i: int|
            0 <= i < col && i < line.len() ==> #[trigger] overwrite(line, col, text)[i] == line[i],
        forall|i: int|
            col <= i < col + text.len() ==> #[trigger] overwrite(line, col, text)[i] == text[i
                - col],
        forall|i: int|
            col + text.len() <= i < line.len() ==> #[trigger] overwrite(line, col, text)[i]
                == line[i],
        overwrite(line, col, text).subrange(col, col + text.len()) == text,
{
    let r = overwrite(line, col, text);
    assert(r.subrange(col, col + text.len()) =~= text);
}

/// Writing at the end of a line appends to it.
pub proof fn lemma_overwrite_at_end(line: Seq<char>, text: Seq<char>)
    ensures
        overwrite(line, line.len() as int, text) == line + text,
{
    assert(overwrite(line, line.len() as int, text) =~= line + text);
}

/// Performing `ops` then `op` is performing `ops.push(op)`.
pub proof fn lemma_run_push(s: Screen, ops: Seq<Op>, op: Op)
    ensures
        run(s, ops.push(op)) == apply(run(s, ops), op),
{
    assert(ops.push(op).drop_last() =~= ops);
}

pub proof fn lemma_run_one(s: Screen, op: Op)
    ensures
        run(s, seq![op]) == apply(s, op),
{
    assert(seq![op].drop_last() =~= Seq::<Op>::empty());
    assert(run(s, Seq::<Op>::empty()) == s);
}

pub proof fn lemma_run_two(s: Screen, a: Op, b: Op)
    ensures
        run(s, seq![a, b]) == apply(apply(s, a), b),
{
    lemma_run_one(s, a);
    lemma_run_push(s, seq![a], b);
    assert(seq![a].push(b) =~= seq![a, b]);
}

pub proof fn lemma_run_three(s: Screen, a: Op, b: Op, c: Op)
    ensures
        run(s, seq![a, b, c]) == apply(apply(apply(s, a), b), c),
{
    lemma_run_two(s, a, b);
    lemma_run_push(s, seq![a, b], c);
    assert(seq![a, b].push(c) =~= seq![a, b, c]);
}

pub proof fn lemma_run_four(s: Screen, a: Op, b: Op, c: Op, d: Op)
    ensures
        run(s, seq![a, b, c, d]) == apply(apply(apply(apply(s, a), b), c), d),
{
    lemma_run_three(s, a, b, c);
    lemma_run_push(s, seq![a, b, c], d);
    assert(seq![a, b, c].push(d) =~= seq![a, b, c, d]);
}

} // verus!
