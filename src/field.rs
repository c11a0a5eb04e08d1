//! The text field editor: a single-line input with a placeholder shown while
//! nothing is typed, and a default value taken when Enter comes on an empty
//! buffer.
use vstd::prelude::*;
use crate::keys::{Answer, KeyEvent, Outcome};
use crate::terminal::{Op, TermOp, ops_view};
use crate::text::{char_string, pop_char, trim_string, trimmed};
use crate::screen::{
    Screen, apply, blank_from, lemma_overwrite_at_end, lemma_run_four, lemma_run_one,
    lemma_run_three, lemma_run_two, line_at, overwrite, run, spaces,
};

verus! {

/// The state of a field being edited.
pub struct FieldView {
    pub placeholder: Seq<char>,
    pub default_value: Seq<char>,
    /// What has been typed so far.
    pub buffer: Seq<char>,
    /// Whether the placeholder is on screen in place of the buffer.
    pub placeholder_visible: bool,
}

/// The placeholder fits a cursor movement, and it is shown exactly when
/// there is one and the buffer is empty.
pub open spec fn field_wf(v: FieldView) -> bool {
    &&& v.placeholder.len() <= u16::MAX
    &&& v.placeholder_visible == (v.buffer.len() == 0 && v.placeholder.len() > 0)
}

/// A field before any key.
pub open spec fn field_start(placeholder: Seq<char>, default_value: Seq<char>) -> FieldView {
    FieldView {
        placeholder,
        default_value,
        buffer: seq![],
        placeholder_visible: placeholder.len() > 0,
    }
}

/// What a field first draws: the prompt, then the placeholder in grey with
/// the cursor back on its first cell.
pub open spec fn field_intro(prompt: Seq<char>, placeholder: Seq<char>) -> Seq<Op> {
    seq![Op::Text(prompt)] + (if placeholder.len() > 0 {
        seq![Op::Dim(placeholder), Op::Left(placeholder.len() as u16)]
    } else {
        seq![]
    }) + seq![Op::Blink]
}

/// The value a field commits before trimming: the default when nothing was
/// typed and there is one, else the buffer.
pub open spec fn field_value(v: FieldView) -> Seq<char> {
    if v.buffer.len() == 0 && v.default_value.len() > 0 {
        v.default_value
    } else {
        v.buffer
    }
}

/// The state after key `ev`.
pub open spec fn field_next(v: FieldView, ev: KeyEvent) -> FieldView {
    match ev {
        KeyEvent::Character(c) => FieldView {
            buffer: v.buffer.push(c),
            placeholder_visible: false,
            ..v
        },
        KeyEvent::Backspace => if v.buffer.len() > 0 {
            FieldView {
                buffer: v.buffer.drop_last(),
                placeholder_visible: v.buffer.len() == 1 && v.placeholder.len() > 0,
                ..v
            }
        } else {
            v
        },
        _ => v,
    }
}

/// What key `ev` draws. The first character typed over the placeholder also
/// erases what is left of it; a Backspace that empties the buffer draws the
/// placeholder again.
pub open spec fn field_ops(v: FieldView, ev: KeyEvent) -> Seq<Op> {
    let p = v.placeholder.len() as u16;
    match ev {
        KeyEvent::Character(c) => if v.placeholder_visible {
            seq![Op::Text(seq![c]), Op::Right(p), Op::Backspace(p)]
        } else {
            seq![Op::Text(seq![c])]
        },
        KeyEvent::Backspace => if v.buffer.len() == 0 {
            seq![]
        } else if v.buffer.len() == 1 && v.placeholder.len() > 0 {
            seq![Op::Backspace(1), Op::Dim(v.placeholder), Op::Left(p)]
        } else {
            seq![Op::Backspace(1)]
        },
        KeyEvent::Enter => seq![Op::Steady, Op::Beginning, Op::NewLine],
        KeyEvent::Escape => seq![Op::Steady],
        _ => seq![],
    }
}

/// Enter commits the trimmed value, Escape cancels, any other key leaves
/// the field open.
pub open spec fn field_outcome(v: FieldView, ev: KeyEvent) -> Answer {
    match ev {
        KeyEvent::Enter => Answer::Submitted(trimmed(field_value(v))),
        KeyEvent::Escape => Answer::Cancelled,
        _ => Answer::Pending,
    }
}

/// The answer after the keys `keys`, in order; keys after the one that
/// ends the field are not read.
pub open spec fn field_answer(v: FieldView, keys: Seq<KeyEvent>) -> Answer
    decreases keys.len(),
{
    if keys.len() == 0 {
        Answer::Pending
    } else {
        match field_outcome(v, keys[0]) {
            Answer::Pending => field_answer(field_next(v, keys[0]), keys.drop_first()),
            o => o,
        }
    }
}

/// What the keys `keys` draw, up to the one that ends the field.
pub open spec fn field_transcript(v: FieldView, keys: Seq<KeyEvent>) -> Seq<Op>
    decreases keys.len(),
{
    if keys.len() == 0 {
        seq![]
    } else {
        field_ops(v, keys[0]) + if field_outcome(v, keys[0]) is Pending {
            field_transcript(field_next(v, keys[0]), keys.drop_first())
        } else {
            seq![]
        }
    }
}

/// A text field being edited.
pub struct FieldEditor {
    placeholder: String,
    default_value: String,
    buffer: String,
    placeholder_visible: bool,
}

impl View for FieldEditor {
    type V = FieldView;

    closed spec fn view(&self) -> FieldView {
        FieldView {
            placeholder: self.placeholder@,
            default_value: self.default_value@,
            buffer: self.buffer@,
            placeholder_visible: self.placeholder_visible,
        }
    }
}

impl FieldEditor {
    #[verifier::type_invariant]
    spec fn inv(self) -> bool {
        field_wf(self@)
    }

    /// Opens a field: the editor, and what it first draws.
    pub fn start(prompt: &str, placeholder: &str, default_value: &str) -> (r: (
        FieldEditor,
        Vec<TermOp>,
    ))
        requires
            placeholder@.len() <= u16::MAX,
        ensures
            r.0@ == field_start(placeholder@, default_value@),
            ops_view(r.1@) == field_intro(prompt@, placeholder@),
    {
        let p = placeholder.unicode_len();
        let mut ops: Vec<TermOp> = Vec::new();
        ops.push(TermOp::Text(String::from_str(prompt)));
        if p > 0 {
            ops.push(TermOp::Dim(String::from_str(placeholder)));
            ops.push(TermOp::Left(p as u16));
        }
        ops.push(TermOp::Blink);
        proof {
            assert(ops_view(ops@) =~= field_intro(prompt@, placeholder@));
        }
        let ed = FieldEditor {
            placeholder: String::from_str(placeholder),
            default_value: String::from_str(default_value),
            buffer: String::new(),
            placeholder_visible: p > 0,
        };
        (ed, ops)
    }

    /// The characters typed so far.
    pub fn buffer(&self) -> (r: &str)
        ensures
            r@ == self@.buffer,
    {
        self.buffer.as_str()
    }

    /// Whether the placeholder is on screen in place of the buffer.
    pub fn placeholder_visible(&self) -> (r: bool)
        ensures
            r == self@.placeholder_visible,
    {
        self.placeholder_visible
    }

    /// Takes one key: updates the field and gives what to draw and whether
    /// the field is done.
    pub fn handle(&mut self, ev: KeyEvent) -> (r: (Vec<TermOp>, Outcome))
        ensures
            field_wf(old(self)@),
            final(self)@ == field_next(old(self)@, ev),
            ops_view(r.0@) == field_ops(old(self)@, ev),
            r.1@ == field_outcome(old(self)@, ev),
    {
        proof {
            use_type_invariant(&*self);
        }
        let p = self.placeholder.as_str().unicode_len() as u16;
        let mut ops: Vec<TermOp> = Vec::new();
        match ev {
            KeyEvent::Character(c) => {
                ops.push(TermOp::Text(char_string(c)));
                if self.placeholder_visible {
                    ops.push(TermOp::Right(p));
                    ops.push(TermOp::Backspace(p));
                }
                let mut buffer = self.buffer.clone();
                let typed = char_string(c);
                buffer.append(typed.as_str());
                proof {
                    assert(buffer@ =~= old(self)@.buffer.push(c));
                }
                *self = FieldEditor {
                    placeholder: self.placeholder.clone(),
                    default_value: self.default_value.clone(),
                    buffer,
                    placeholder_visible: false,
                };
                proof {
                    assert(ops_view(ops@) =~= field_ops(old(self)@, ev));
                    assert(self@ =~= field_next(old(self)@, ev));
                }
                (ops, Outcome::Pending)
            },
            KeyEvent::Backspace => {
                let n = self.buffer.as_str().unicode_len();
                if n > 0 {
                    ops.push(TermOp::Backspace(1));
                    let shows_again = n == 1 && p > 0;
                    if shows_again {
                        ops.push(TermOp::Dim(self.placeholder.clone()));
                        ops.push(TermOp::Left(p));
                    }
                    let mut buffer = self.buffer.clone();
                    let _ = pop_char(&mut buffer);
                    *self = FieldEditor {
                        placeholder: self.placeholder.clone(),
                        default_value: self.default_value.clone(),
                        buffer,
                        placeholder_visible: shows_again,
                    };
                }
                proof {
                    assert(ops_view(ops@) =~= field_ops(old(self)@, ev));
                    assert(self@ =~= field_next(old(self)@, ev));
                }
                (ops, Outcome::Pending)
            },
            KeyEvent::Enter => {
                ops.push(TermOp::Steady);
                ops.push(TermOp::Beginning);
                ops.push(TermOp::NewLine);
                let value = if self.buffer.as_str().is_empty()
                    && !self.default_value.as_str().is_empty() {
                    trim_string(self.default_value.as_str())
                } else {
                    trim_string(self.buffer.as_str())
                };
                proof {
                    assert(ops_view(ops@) =~= field_ops(old(self)@, ev));
                }
                (ops, Outcome::Submitted(value))
            },
            KeyEvent::Escape => {
                ops.push(TermOp::Steady);
                proof {
                    assert(ops_view(ops@) =~= field_ops(old(self)@, ev));
                }
                (ops, Outcome::Cancelled)
            },
            _ => {
                proof {
                    assert(ops_view(ops@) =~= field_ops(old(self)@, ev));
                }
                (ops, Outcome::Pending)
            },
        }
    }
}

/// Runs a text field over the keys `keys`: the prompt `text`, the grey
/// `placeholder` shown while nothing is typed, and `default_value` taken
/// when Enter comes on an empty buffer. Gives the outcome (`Pending` when
/// the keys run out first) and everything drawn.
pub fn input(text: &str, placeholder: &str, default_value: &str, keys: &Vec<KeyEvent>) -> (r: (
    Outcome,
    Vec<TermOp>,
))
    requires
        placeholder@.len() <= u16::MAX,
    ensures
        r.0@ == field_answer(field_start(placeholder@, default_value@), keys@),
        ops_view(r.1@) == field_intro(text@, placeholder@) + field_transcript(
            field_start(placeholder@, default_value@),
            keys@,
        ),
{
    let (mut ed, mut ops) = FieldEditor::start(text, placeholder, default_value);
    let ghost v0 = ed@;
    let mut i: usize = 0;
    proof {
        assert(keys@.subrange(0, keys.len() as int) =~= keys@);
    }
    while i < keys.len()
        invariant
            i <= keys.len(),
            v0 == field_start(placeholder@, default_value@),
            field_wf(ed@),
            field_answer(v0, keys@) == field_answer(ed@, keys@.subrange(i as int, keys.len() as int)),
            field_intro(text@, placeholder@) + field_transcript(v0, keys@) == ops_view(ops@)
                + field_transcript(ed@, keys@.subrange(i as int, keys.len() as int)),
        decreases keys.len() - i,
    {
        let ghost before = ed@;
        let ghost rest = keys@.subrange(i as int, keys.len() as int);
        let ghost old_ops = ops@;
        let (mut step, outcome) = ed.handle(keys[i]);
        ops.append(&mut step);
        proof {
            assert(rest[0] == keys@[i as int]);
            assert(rest.drop_first() =~= keys@.subrange(i + 1, keys.len() as int));
            assert(ops_view(ops@) =~= ops_view(old_ops) + field_ops(before, keys@[i as int]));
        }
        match outcome {
            Outcome::Pending => {},
            _ => {
                proof {
                    assert(!(field_outcome(before, rest[0]) is Pending));
                    assert(field_answer(before, rest) == field_outcome(before, rest[0]));
                    assert(field_transcript(before, rest) =~= field_ops(before, keys@[i as int]));
                    assert(field_intro(text@, placeholder@) + field_transcript(v0, keys@)
                        =~= ops_view(ops@));
                }
                return (outcome, ops);
            },
        }
        proof {
            assert(ops_view(old_ops) + field_transcript(before, rest) =~= ops_view(ops@)
                + field_transcript(ed@, keys@.subrange(i + 1, keys.len() as int)));
        }
        i += 1;
    }
    proof {
        assert(ops_view(ops@) + seq![] =~= ops_view(ops@));
    }
    (Outcome::Pending, ops)
}


/// The field is on screen as its state says: the cursor's row holds the
/// prompt, then the placeholder while it is visible or else the buffer, and
/// only blanks after that; the cursor stands at the placeholder's start, or
/// just after the buffer.
pub open spec fn field_shown(s: Screen, prompt: Seq<char>, v: FieldView) -> bool {
    let line = line_at(s, s.row);
    let content = if v.placeholder_visible {
        v.placeholder
    } else {
        v.buffer
    };
    let end = (prompt.len() + content.len()) as int;
    &&& line.len() >= end
    &&& line.subrange(0, end) == prompt + content
    &&& blank_from(line, end)
    &&& s.col == prompt.len() + if v.placeholder_visible {
        0
    } else {
        v.buffer.len()
    }
}

/// Drawn from the start of an empty row, a new field is shown as its state
/// says.
pub proof fn lemma_field_intro_shown(
    s: Screen,
    prompt: Seq<char>,
    placeholder: Seq<char>,
    default_value: Seq<char>,
)
    requires
        line_at(s, s.row) == Seq::<char>::empty(),
        s.col == 0,
        placeholder.len() <= u16::MAX,
    ensures
        field_shown(
            run(s, field_intro(prompt, placeholder)),
            prompt,
            field_start(placeholder, default_value),
        ),
{
    let ops = field_intro(prompt, placeholder);
    let v = field_start(placeholder, default_value);
    let q = prompt.len() as int;
    let s1 = apply(s, Op::Text(prompt));
    lemma_run_one(s, Op::Text(prompt));
    lemma_overwrite_at_end(seq![], prompt);
    assert(Seq::<char>::empty() + prompt =~= prompt);
    assert(line_at(s1, s1.row) == prompt);
    assert(s1.col == q);
    if placeholder.len() > 0 {
        let p = placeholder.len() as int;
        let s2 = apply(s1, Op::Dim(placeholder));
        let s3 = apply(s2, Op::Left(p as u16));
        let s4 = apply(s3, Op::Blink);
        lemma_run_four(s, Op::Text(prompt), Op::Dim(placeholder), Op::Left(p as u16), Op::Blink);
        assert(ops =~= seq![Op::Text(prompt), Op::Dim(placeholder), Op::Left(p as u16), Op::Blink]);
        assert(run(s, ops) == s4);
        lemma_overwrite_at_end(prompt, placeholder);
        assert(line_at(s2, s2.row) == prompt + placeholder);
        assert(s4.row == s.row && s4.col == q);
        assert(line_at(s4, s4.row) == prompt + placeholder);
        assert((prompt + placeholder).subrange(0, q + p) =~= prompt + placeholder);
        assert(v.placeholder_visible);
    } else {
        let s2 = apply(s1, Op::Blink);
        lemma_run_two(s, Op::Text(prompt), Op::Blink);
        assert(ops =~= seq![Op::Text(prompt), Op::Blink]);
        assert(run(s, ops) == s2);
        assert(prompt.subrange(0, q) =~= prompt + Seq::<char>::empty());
    }
}

/// A character typed over the visible placeholder.
proof fn lemma_type_over_placeholder(s: Screen, prompt: Seq<char>, v: FieldView, c: char)
    requires
        field_wf(v),
        field_shown(s, prompt, v),
        v.placeholder_visible,
    ensures
        field_shown(
            run(s, field_ops(v, KeyEvent::Character(c))),
            prompt,
            field_next(v, KeyEvent::Character(c)),
        ),
{
    let line = line_at(s, s.row);
    let q = prompt.len() as int;
    let p = v.placeholder.len() as int;
    let w = field_next(v, KeyEvent::Character(c));
    assert(w.buffer =~= seq![c]);
    let s1 = apply(s, Op::Text(seq![c]));
    let s2 = apply(s1, Op::Right(p as u16));
    let s3 = apply(s2, Op::Backspace(p as u16));
    lemma_run_one(s, Op::Text(seq![c]));
    lemma_run_three(s, Op::Text(seq![c]), Op::Right(p as u16), Op::Backspace(p as u16));
    assert(run(s, field_ops(v, KeyEvent::Character(c))) == s3);
    let line1 = overwrite(line, q, seq![c]);
    assert(line_at(s1, s1.row) == line1);
    assert(line1.len() == line.len());
    assert(s2.col == q + 1 + p);
    assert(s3.col == q + 1);
    let line3 = overwrite(line1, q + 1, spaces(p as nat));
    assert(line_at(s3, s3.row) == line3);
    assert forall|i: int| 0 <= i < q + 1 implies line3[i] == (prompt + w.buffer)[i] by {
        if i < q {
            assert(line.subrange(0, q + p)[i] == (prompt + v.placeholder)[i]);
        }
    }
    assert(line3.subrange(0, q + 1) =~= prompt + w.buffer);
    assert forall|i: int| q + 1 <= i < line3.len() implies line3[i] == ' ' by {
        if i >= q + 1 + p {
            assert(line[i] == ' ');
        }
    }
}

/// A character typed after the buffer.
proof fn lemma_type_after_buffer(s: Screen, prompt: Seq<char>, v: FieldView, c: char)
    requires
        field_wf(v),
        field_shown(s, prompt, v),
        !v.placeholder_visible,
    ensures
        field_shown(
            run(s, field_ops(v, KeyEvent::Character(c))),
            prompt,
            field_next(v, KeyEvent::Character(c)),
        ),
{
    let line = line_at(s, s.row);
    let q = prompt.len() as int;
    let b = v.buffer.len() as int;
    let w = field_next(v, KeyEvent::Character(c));
    let s1 = apply(s, Op::Text(seq![c]));
    lemma_run_one(s, Op::Text(seq![c]));
    assert(run(s, field_ops(v, KeyEvent::Character(c))) == s1);
    let line1 = overwrite(line, q + b, seq![c]);
    assert(line_at(s1, s1.row) == line1);
    assert forall|i: int| 0 <= i < q + b + 1 implies line1[i] == (prompt + w.buffer)[i] by {
        if i < q + b {
            assert(line.subrange(0, q + b)[i] == (prompt + v.buffer)[i]);
        }
    }
    assert(line1.subrange(0, q + b + 1) =~= prompt + w.buffer);
    assert forall|i: int| q + b + 1 <= i < line1.len() implies line1[i] == ' ' by {
        assert(line[i] == ' ');
    }
}

/// A Backspace that leaves characters in the buffer, or a field without a
/// placeholder.
proof fn lemma_erase_plain(s: Screen, prompt: Seq<char>, v: FieldView)
    requires
        field_wf(v),
        field_shown(s, prompt, v),
        v.buffer.len() > 1 || (v.buffer.len() == 1 && v.placeholder.len() == 0),
    ensures
        run(s, field_ops(v, KeyEvent::Backspace)) == apply(s, Op::Backspace(1)),
        field_shown(run(s, field_ops(v, KeyEvent::Backspace)), prompt, field_next(v, KeyEvent::Backspace)),
{
    let line = line_at(s, s.row);
    let q = prompt.len() as int;
    let b = v.buffer.len() as int;
    let w = field_next(v, KeyEvent::Backspace);
    let s1 = apply(s, Op::Backspace(1));
    lemma_run_one(s, Op::Backspace(1));
    assert(run(s, field_ops(v, KeyEvent::Backspace)) == s1);
    let line1 = overwrite(line, q + b - 1, spaces(1));
    assert(line_at(s1, s1.row) == line1);
    assert(s1.col == q + b - 1);
    assert forall|i: int| 0 <= i < q + b - 1 implies line1[i] == (prompt + w.buffer)[i] by {
        assert(line.subrange(0, q + b)[i] == (prompt + v.buffer)[i]);
    }
    assert(line1.subrange(0, q + b - 1) =~= prompt + w.buffer);
    assert forall|i: int| q + b - 1 <= i < line1.len() implies line1[i] == ' ' by {
        if i >= q + b {
            assert(line[i] == ' ');
        }
    }
}

/// A Backspace that empties the buffer of a field with a placeholder.
proof fn lemma_erase_to_placeholder(s: Screen, prompt: Seq<char>, v: FieldView)
    requires
        field_wf(v),
        field_shown(s, prompt, v),
        v.buffer.len() == 1,
        v.placeholder.len() > 0,
    ensures
        field_shown(run(s, field_ops(v, KeyEvent::Backspace)), prompt, field_next(v, KeyEvent::Backspace)),
{
    let line = line_at(s, s.row);
    let q = prompt.len() as int;
    let p = v.placeholder.len() as int;
    let s1 = apply(s, Op::Backspace(1));
    let s2 = apply(s1, Op::Dim(v.placeholder));
    let s3 = apply(s2, Op::Left(p as u16));
    lemma_run_one(s, Op::Backspace(1));
    lemma_run_three(s, Op::Backspace(1), Op::Dim(v.placeholder), Op::Left(p as u16));
    assert(run(s, field_ops(v, KeyEvent::Backspace)) == s3);
    let line1 = overwrite(line, q, spaces(1));
    assert(line_at(s1, s1.row) == line1);
    let line3 = overwrite(line1, q, v.placeholder);
    assert(line_at(s3, s3.row) == line3);
    assert(s3.col == q);
    assert forall|i: int| 0 <= i < q + p implies line3[i] == (prompt + v.placeholder)[i] by {
        if i < q {
            assert(line.subrange(0, q + 1)[i] == (prompt + v.buffer)[i]);
        }
    }
    assert(line3.subrange(0, q + p) =~= prompt + v.placeholder);
    assert forall|i: int| q + p <= i < line3.len() implies line3[i] == ' ' by {
        if i > q {
            assert(line[i] == ' ');
        }
    }
}

/// Every key that leaves the field open keeps it shown as its state says:
/// the screen never drifts from the buffer.
pub proof fn lemma_field_stays_shown(s: Screen, prompt: Seq<char>, v: FieldView, ev: KeyEvent)
    requires
        field_wf(v),
        field_shown(s, prompt, v),
        field_outcome(v, ev) is Pending,
    ensures
        field_shown(run(s, field_ops(v, ev)), prompt, field_next(v, ev)),
{
    match ev {
        KeyEvent::Character(c) => {
            if v.placeholder_visible {
                lemma_type_over_placeholder(s, prompt, v, c);
            } else {
                lemma_type_after_buffer(s, prompt, v, c);
            }
        },
        KeyEvent::Backspace => {
            if v.buffer.len() == 0 {
                assert(field_ops(v, ev) =~= Seq::<Op>::empty());
            } else if v.buffer.len() == 1 && v.placeholder.len() > 0 {
                lemma_erase_to_placeholder(s, prompt, v);
            } else {
                lemma_erase_plain(s, prompt, v);
            }
        },
        _ => {
            assert(field_ops(v, ev) =~= Seq::<Op>::empty());
        },
    }
}

/// Backspace on an empty buffer changes nothing, in the state or on the
/// screen. On a non-empty buffer it removes exactly the last character;
/// unless that brings the placeholder back, the cursor steps one column left,
/// the cells before it are kept and only blanks follow it.
pub proof fn lemma_backspace(s: Screen, prompt: Seq<char>, v: FieldView)
    requires
        field_wf(v),
        field_shown(s, prompt, v),
    ensures
        v.buffer.len() == 0 ==> field_next(v, KeyEvent::Backspace) == v && run(
            s,
            field_ops(v, KeyEvent::Backspace),
        ) == s,
        v.buffer.len() > 0 ==> field_next(v, KeyEvent::Backspace).buffer == v.buffer.drop_last(),
        v.buffer.len() > 1 || (v.buffer.len() == 1 && v.placeholder.len() == 0) ==> ({
            let t = run(s, field_ops(v, KeyEvent::Backspace));
            &&& t.row == s.row
            &&& t.col == s.col - 1
            &&& line_at(t, t.row).subrange(0, t.col) == line_at(s, s.row).subrange(0, t.col)
            &&& blank_from(line_at(t, t.row), t.col)
        }),
{
    if v.buffer.len() == 0 {
        assert(field_ops(v, KeyEvent::Backspace) =~= Seq::<Op>::empty());
    } else if v.buffer.len() > 1 || v.placeholder.len() == 0 {
        lemma_erase_plain(s, prompt, v);
        let t = run(s, field_ops(v, KeyEvent::Backspace));
        let w = field_next(v, KeyEvent::Backspace);
        let q = prompt.len() as int;
        let b = v.buffer.len() as int;
        assert(t.col == q + b - 1);
        assert(line_at(t, t.row).subrange(0, q + b - 1) == prompt + w.buffer);
        assert(line_at(s, s.row).subrange(0, q + b) == prompt + v.buffer);
        assert(line_at(s, s.row).subrange(0, q + b - 1) =~= (prompt + v.buffer).subrange(
            0,
            q + b - 1,
        ));
        assert((prompt + v.buffer).subrange(0, q + b - 1) =~= prompt + w.buffer);
    }
}

/// Every key of `keys` is a character.
pub open spec fn all_characters(keys: Seq<KeyEvent>) -> bool {
    forall|i: int| 0 <= i < keys.len() ==> keys[i] is Character
}

/// The characters that the character keys `keys` type.
pub open spec fn key_chars(keys: Seq<KeyEvent>) -> Seq<char>
    decreases keys.len(),
{
    if keys.len() == 0 {
        seq![]
    } else {
        seq![keys[0]->Character_0] + key_chars(keys.drop_first())
    }
}

/// The state after the keys `keys`, none of which ends the field.
pub open spec fn field_after(v: FieldView, keys: Seq<KeyEvent>) -> FieldView
    decreases keys.len(),
{
    if keys.len() == 0 {
        v
    } else {
        field_after(field_next(v, keys[0]), keys.drop_first())
    }
}

proof fn lemma_typing(v: FieldView, keys: Seq<KeyEvent>, tail: Seq<KeyEvent>)
    requires
        all_characters(keys),
    ensures
        field_answer(v, keys + tail) == field_answer(field_after(v, keys), tail),
        field_after(v, keys).buffer == v.buffer + key_chars(keys),
        field_after(v, keys).default_value == v.default_value,
    decreases keys.len(),
{
    if keys.len() == 0 {
        assert(keys + tail =~= tail);
        assert(v.buffer + key_chars(keys) =~= v.buffer);
    } else {
        let all = keys + tail;
        assert(all[0] == keys[0]);
        assert(all.drop_first() =~= keys.drop_first() + tail);
        let w = field_next(v, keys[0]);
        assert(keys[0] is Character);
        lemma_typing(w, keys.drop_first(), tail);
        assert(w.buffer + key_chars(keys.drop_first()) =~= v.buffer + key_chars(keys));
    }
}

/// Character keys and then Enter, in a field without a default, submit
/// exactly the characters typed, trimmed of surrounding whitespace.
pub proof fn lemma_typed_then_enter(placeholder: Seq<char>, keys: Seq<KeyEvent>)
    requires
        all_characters(keys),
    ensures
        field_answer(field_start(placeholder, seq![]), keys.push(KeyEvent::Enter))
            == Answer::Submitted(trimmed(key_chars(keys))),
{
    let v = field_start(placeholder, seq![]);
    lemma_typing(v, keys, seq![KeyEvent::Enter]);
    assert(keys.push(KeyEvent::Enter) =~= keys + seq![KeyEvent::Enter]);
    assert(v.buffer + key_chars(keys) =~= key_chars(keys));
    let w = field_after(v, keys);
    assert(seq![KeyEvent::Enter].drop_first() =~= Seq::<KeyEvent>::empty());
    assert(field_answer(w, seq![KeyEvent::Enter]) == field_outcome(w, KeyEvent::Enter));
}

/// In a field with a default, Enter as the first key submits the default
/// unchanged, for a default without surrounding whitespace; later keys are
/// not read.
pub proof fn lemma_enter_takes_default(
    placeholder: Seq<char>,
    default_value: Seq<char>,
    later: Seq<KeyEvent>,
)
    requires
        default_value.len() > 0,
        trimmed(default_value) == default_value,
    ensures
        field_answer(field_start(placeholder, default_value), seq![KeyEvent::Enter] + later)
            == Answer::Submitted(default_value),
{
    assert((seq![KeyEvent::Enter] + later)[0] == KeyEvent::Enter);
}

} // verus!
