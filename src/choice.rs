//! Single-choice controllers: a vertical list with a highlighted marker, and
//! an inline picker on one line. Both wrap around at either end.
use vstd::prelude::*;
use crate::keys::{Answer, KeyEvent, Outcome};
use crate::terminal::{Op, TermOp, decimal, decimal_string, ops_view};
use crate::screen::{
    Screen, apply, lemma_overwrite, lemma_overwrite_at_end, lemma_run_append, lemma_run_four,
    lemma_run_one, lemma_run_three, lemma_run_two, line_at, overwrite, run,
};

verus! {

/// The state of a choice: the prompt, the labels, and which is selected.
pub struct ChoiceView {
    pub prompt: Seq<char>,
    pub options: Seq<Seq<char>>,
    pub selected: int,
}

/// At least one option, and a selection among them.
pub open spec fn choice_wf(v: ChoiceView) -> bool {
    &&& 1 <= v.options.len()
    &&& 0 <= v.selected < v.options.len()
}

/// A choice whose prompt and options, one row each, fit a cursor movement.
pub open spec fn list_wf(v: ChoiceView) -> bool {
    &&& choice_wf(v)
    &&& v.options.len() < u16::MAX
}

/// The next option, wrapping to the first after the last.
pub open spec fn next_index(v: ChoiceView) -> int {
    (v.selected + 1) % (v.options.len() as int)
}

/// The previous option, wrapping to the last before the first.
pub open spec fn prev_index(v: ChoiceView) -> int {
    if v.selected > 0 {
        v.selected - 1
    } else {
        v.options.len() - 1
    }
}

/// Enter commits the selected option, Escape cancels, other keys leave the
/// choice open.
pub open spec fn choice_outcome(v: ChoiceView, ev: KeyEvent) -> Answer {
    match ev {
        KeyEvent::Enter => Answer::Submitted(v.options[v.selected]),
        KeyEvent::Escape => Answer::Cancelled,
        _ => Answer::Pending,
    }
}

// ----- the vertical list -----
/// Down or `j` selects the next option, Up or `k` the previous one.
pub open spec fn list_next(v: ChoiceView, ev: KeyEvent) -> ChoiceView {
    match ev {
        KeyEvent::Down => ChoiceView { selected: next_index(v), ..v },
        KeyEvent::Character('j') => ChoiceView { selected: next_index(v), ..v },
        KeyEvent::Up => ChoiceView { selected: prev_index(v), ..v },
        KeyEvent::Character('k') => ChoiceView { selected: prev_index(v), ..v },
        _ => v,
    }
}

/// Whether `ev` moves the selection of a list.
pub open spec fn list_moves(ev: KeyEvent) -> bool {
    ev == KeyEvent::Down || ev == KeyEvent::Up || ev == KeyEvent::Character('j') || ev
        == KeyEvent::Character('k')
}

/// The label of option `i`: its 1-based number, a dot, a blank, the text.
pub open spec fn item_label(i: int, option: Seq<char>) -> Seq<char> {
    decimal((i + 1) as nat) + seq!['.', ' '] + option
}

/// What one row draws: a green `>` before the selected option, two blanks
/// before the others; then the cursor goes to the start of the next row.
pub open spec fn row_ops(options: Seq<Seq<char>>, selected: int, i: int) -> Seq<Op> {
    if i == selected {
        seq![
            Op::Highlight(seq!['>']),
            Op::Text(seq![' '] + item_label(i, options[i])),
            Op::NewLine,
            Op::Beginning,
        ]
    } else {
        seq![Op::Text(seq![' ', ' '] + item_label(i, options[i])), Op::NewLine, Op::Beginning]
    }
}

/// What the first `k` rows draw.
pub open spec fn rows_ops(options: Seq<Seq<char>>, selected: int, k: int) -> Seq<Op>
    decreases k,
{
    if k <= 0 {
        seq![]
    } else {
        rows_ops(options, selected, k - 1) + row_ops(options, selected, k - 1)
    }
}

/// What drawing the whole list does: the prompt on its own row, then one row
/// per option; the cursor ends at the start of the row below the list.
pub open spec fn list_render(v: ChoiceView) -> Seq<Op> {
    seq![Op::Text(v.prompt), Op::NewLine, Op::Beginning] + rows_ops(
        v.options,
        v.selected,
        v.options.len() as int,
    )
}

/// What a list first draws: the cursor is hidden, then the list.
pub open spec fn list_intro(v: ChoiceView) -> Seq<Op> {
    seq![Op::Hide] + list_render(v)
}

/// What key `ev` draws: a move goes back up over the prompt and every option
/// and draws the list again; Enter and Escape show the cursor.
pub open spec fn list_ops(v: ChoiceView, ev: KeyEvent) -> Seq<Op> {
    if list_moves(ev) {
        seq![Op::Up((v.options.len() + 1) as u16)] + list_render(list_next(v, ev))
    } else if ev == KeyEvent::Enter || ev == KeyEvent::Escape {
        seq![Op::Show]
    } else {
        seq![]
    }
}

/// The answer of a list after the keys `keys`.
pub open spec fn list_answer(v: ChoiceView, keys: Seq<KeyEvent>) -> Answer
    decreases keys.len(),
{
    if keys.len() == 0 {
        Answer::Pending
    } else {
        match choice_outcome(v, keys[0]) {
            Answer::Pending => list_answer(list_next(v, keys[0]), keys.drop_first()),
            o => o,
        }
    }
}

/// What the keys `keys` draw on a list, up to the one that ends it.
pub open spec fn list_transcript(v: ChoiceView, keys: Seq<KeyEvent>) -> Seq<Op>
    decreases keys.len(),
{
    if keys.len() == 0 {
        seq![]
    } else {
        list_ops(v, keys[0]) + if choice_outcome(v, keys[0]) is Pending {
            list_transcript(list_next(v, keys[0]), keys.drop_first())
        } else {
            seq![]
        }
    }
}

// ----- the inline picker -----
/// Left or `h` selects the next option, Right or `l` the previous one.
pub open spec fn inline_next(v: ChoiceView, ev: KeyEvent) -> ChoiceView {
    match ev {
        KeyEvent::Left => ChoiceView { selected: next_index(v), ..v },
        KeyEvent::Character('h') => ChoiceView { selected: next_index(v), ..v },
        KeyEvent::Right => ChoiceView { selected: prev_index(v), ..v },
        KeyEvent::Character('l') => ChoiceView { selected: prev_index(v), ..v },
        _ => v,
    }
}

/// Whether `ev` moves the selection of an inline picker.
pub open spec fn inline_moves(ev: KeyEvent) -> bool {
    ev == KeyEvent::Left || ev == KeyEvent::Right || ev == KeyEvent::Character('h') || ev
        == KeyEvent::Character('l')
}

/// What option `i` draws: its text, green when selected, and the separator
/// ` / ` unless it is the last.
pub open spec fn inline_item_ops(options: Seq<Seq<char>>, selected: int, i: int) -> Seq<Op> {
    (if i == selected {
        seq![Op::Highlight(options[i])]
    } else {
        seq![Op::Text(options[i])]
    }) + if i + 1 != options.len() {
        seq![Op::Text(seq![' ', '/', ' '])]
    } else {
        seq![]
    }
}

/// What the first `k` options draw.
pub open spec fn inline_items_ops(options: Seq<Seq<char>>, selected: int, k: int) -> Seq<Op>
    decreases k,
{
    if k <= 0 {
        seq![]
    } else {
        inline_items_ops(options, selected, k - 1) + inline_item_ops(options, selected, k - 1)
    }
}

/// What drawing the picker does: the prompt, then the options on the same
/// line.
pub open spec fn inline_render(v: ChoiceView) -> Seq<Op> {
    seq![Op::Text(v.prompt)] + inline_items_ops(v.options, v.selected, v.options.len() as int)
}

/// What a picker first draws: the cursor is hidden, then the picker.
pub open spec fn inline_intro(v: ChoiceView) -> Seq<Op> {
    seq![Op::Hide] + inline_render(v)
}

/// What key `ev` draws: a move clears the line and draws the picker again
/// from its first column; Enter shows the cursor and goes to the start of the
/// next row; Escape shows the cursor.
pub open spec fn inline_ops(v: ChoiceView, ev: KeyEvent) -> Seq<Op> {
    if inline_moves(ev) {
        seq![Op::ClearLine, Op::Beginning] + inline_render(inline_next(v, ev))
    } else if ev == KeyEvent::Enter {
        seq![Op::Show, Op::NewLine, Op::Beginning]
    } else if ev == KeyEvent::Escape {
        seq![Op::Show]
    } else {
        seq![]
    }
}

/// The answer of a picker after the keys `keys`.
pub open spec fn inline_answer(v: ChoiceView, keys: Seq<KeyEvent>) -> Answer
    decreases keys.len(),
{
    if keys.len() == 0 {
        Answer::Pending
    } else {
        match choice_outcome(v, keys[0]) {
            Answer::Pending => inline_answer(inline_next(v, keys[0]), keys.drop_first()),
            o => o,
        }
    }
}

/// What the keys `keys` draw on a picker, up to the one that ends it.
pub open spec fn inline_transcript(v: ChoiceView, keys: Seq<KeyEvent>) -> Seq<Op>
    decreases keys.len(),
{
    if keys.len() == 0 {
        seq![]
    } else {
        inline_ops(v, keys[0]) + if choice_outcome(v, keys[0]) is Pending {
            inline_transcript(inline_next(v, keys[0]), keys.drop_first())
        } else {
            seq![]
        }
    }
}

/// The labels of `options`.
pub open spec fn labels(options: Seq<&str>) -> Seq<Seq<char>> {
    options.map_values(|o: &str| o@)
}

/// A choice before any key: the first option selected.
pub open spec fn choice_start(prompt: Seq<char>, options: Seq<&str>) -> ChoiceView {
    ChoiceView { prompt, options: labels(options), selected: 0 }
}

/// The prompt and labels of a choice, and its selection.
struct Choices {
    prompt: String,
    options: Vec<String>,
    selected: usize,
}

impl View for Choices {
    type V = ChoiceView;

    closed spec fn view(&self) -> ChoiceView {
        ChoiceView {
            prompt: self.prompt@,
            options: self.options@.map_values(|o: String| o@),
            selected: self.selected as int,
        }
    }
}

impl Choices {
    fn new(prompt: &str, options: &[&str]) -> (r: Choices)
        requires
            1 <= options@.len(),
        ensures
            r@ == choice_start(prompt@, options@),
            choice_wf(r@),
    {
        let mut texts: Vec<String> = Vec::new();
        let mut i: usize = 0;
        while i < options.len()
            invariant
                i <= options@.len(),
                texts@.len() == i,
                forall|j: int| 0 <= j < i ==> texts@[j]@ == options@[j]@,
            decreases options.len() - i,
        {
            texts.push(String::from_str(options[i]));
            i += 1;
        }
        let r = Choices { prompt: String::from_str(prompt), options: texts, selected: 0 };
        proof {
            assert(r@.options =~= labels(options@));
        }
        r
    }

    /// Selects the next option, wrapping around.
    fn select_next(&mut self)
        requires
            choice_wf(old(self)@),
        ensures
            final(self)@ == (ChoiceView { selected: next_index(old(self)@), ..old(self)@ }),
        no_unwind
    {
        let n = self.options.len();
        if self.selected == n - 1 {
            proof {
                assert((n as int) % (n as int) == 0) by (nonlinear_arith)
                    requires
                        n > 0,
                ;
            }
            self.selected = 0;
        } else {
            proof {
                assert((self.selected + 1) as int % (n as int) == self.selected + 1) by (
                nonlinear_arith)
                    requires
                        self.selected + 1 < n,
                        self.selected >= 0,
                ;
            }
            self.selected = self.selected + 1;
        }
    }

    /// Selects the previous option, wrapping around.
    fn select_prev(&mut self)
        requires
            choice_wf(old(self)@),
        ensures
            final(self)@ == (ChoiceView { selected: prev_index(old(self)@), ..old(self)@ }),
        no_unwind
    {
        if self.selected > 0 {
            self.selected = self.selected - 1;
        } else {
            self.selected = self.options.len() - 1;
        }
    }

    /// The selected option.
    fn chosen(&self) -> (r: String)
        requires
            choice_wf(self@),
        ensures
            r@ == self@.options[self@.selected],
    {
        self.options[self.selected].clone()
    }

    /// What drawing the list does.
    fn render_list(&self) -> (r: Vec<TermOp>)
        requires
            choice_wf(self@),
        ensures
            ops_view(r@) == list_render(self@),
    {
        let mut ops: Vec<TermOp> = Vec::new();
        ops.push(TermOp::Text(self.prompt.clone()));
        ops.push(TermOp::NewLine);
        ops.push(TermOp::Beginning);
        proof {
            assert(ops_view(ops@) =~= seq![Op::Text(self@.prompt), Op::NewLine, Op::Beginning]
                + rows_ops(self@.options, self@.selected, 0));
        }
        let n = self.options.len();
        let mut i: usize = 0;
        while i < n
            invariant
                choice_wf(self@),
                n == self@.options.len(),
                i <= n,
                ops_view(ops@) == seq![Op::Text(self@.prompt), Op::NewLine, Op::Beginning]
                    + rows_ops(self@.options, self@.selected, i as int),
            decreases n - i,
        {
            let ghost before = ops@;
            proof {
                assert(self@.options[i as int] == self.options@[i as int]@);
            }
            let mut label = decimal_string(i + 1);
            label.append(". ");
            label.append(self.options[i].as_str());
            proof {
                reveal_strlit(". ");
                assert(label@ =~= item_label(i as int, self@.options[i as int]));
            }
            if i == self.selected {
                let mut text = String::from_str(" ");
                text.append(label.as_str());
                let marker = String::from_str(">");
                proof {
                    reveal_strlit(" ");
                    reveal_strlit(">");
                    assert(text@ =~= seq![' '] + item_label(i as int, self@.options[i as int]));
                    assert(marker@ =~= seq!['>']);
                }
                ops.push(TermOp::Highlight(marker));
                ops.push(TermOp::Text(text));
            } else {
                let mut text = String::from_str("  ");
                text.append(label.as_str());
                proof {
                    reveal_strlit("  ");
                    assert(text@ =~= seq![' ', ' '] + item_label(i as int, self@.options[i as int]));
                }
                ops.push(TermOp::Text(text));
            }
            ops.push(TermOp::NewLine);
            ops.push(TermOp::Beginning);
            proof {
                assert(ops_view(ops@) =~= ops_view(before) + row_ops(
                    self@.options,
                    self@.selected,
                    i as int,
                ));
            }
            i += 1;
        }
        ops
    }

    /// What drawing the inline picker does.
    fn render_inline(&self) -> (r: Vec<TermOp>)
        requires
            choice_wf(self@),
        ensures
            ops_view(r@) == inline_render(self@),
    {
        let mut ops: Vec<TermOp> = Vec::new();
        ops.push(TermOp::Text(self.prompt.clone()));
        proof {
            assert(ops_view(ops@) =~= seq![Op::Text(self@.prompt)] + inline_items_ops(
                self@.options,
                self@.selected,
                0,
            ));
        }
        let n = self.options.len();
        let mut i: usize = 0;
        while i < n
            invariant
                choice_wf(self@),
                n == self@.options.len(),
                i <= n,
                ops_view(ops@) == seq![Op::Text(self@.prompt)] + inline_items_ops(
                    self@.options,
                    self@.selected,
                    i as int,
                ),
            decreases n - i,
        {
            let ghost before = ops@;
            proof {
                assert(self@.options[i as int] == self.options@[i as int]@);
            }
            if i == self.selected {
                ops.push(TermOp::Highlight(self.options[i].clone()));
            } else {
                ops.push(TermOp::Text(self.options[i].clone()));
            }
            if i + 1 != n {
                let sep = String::from_str(" / ");
                proof {
                    reveal_strlit(" / ");
                    assert(sep@ =~= seq![' ', '/', ' ']);
                }
                ops.push(TermOp::Text(sep));
            }
            proof {
                assert(ops_view(ops@) =~= ops_view(before) + inline_item_ops(
                    self@.options,
                    self@.selected,
                    i as int,
                ));
            }
            i += 1;
        }
        ops
    }
}


/// A vertical selection list being answered.
pub struct ListChooser {
    choices: Choices,
}

impl View for ListChooser {
    type V = ChoiceView;

    closed spec fn view(&self) -> ChoiceView {
        self.choices@
    }
}

impl ListChooser {
    #[verifier::type_invariant]
    spec fn inv(self) -> bool {
        list_wf(self.choices@)
    }

    /// Opens a list on `options` with the first one selected: the chooser,
    /// and what it first draws.
    pub fn start(prompt: &str, options: &[&str]) -> (r: (ListChooser, Vec<TermOp>))
        requires
            1 <= options@.len() < u16::MAX,
        ensures
            r.0@ == choice_start(prompt@, options@),
            ops_view(r.1@) == list_intro(r.0@),
    {
        let choices = Choices::new(prompt, options);
        let mut ops: Vec<TermOp> = vec![TermOp::Hide];
        let mut drawn = choices.render_list();
        ops.append(&mut drawn);
        proof {
            assert(ops_view(ops@) =~= list_intro(choices@));
        }
        (ListChooser { choices }, ops)
    }

    /// The index of the selected option.
    pub fn selected(&self) -> (r: usize)
        ensures
            r == self@.selected,
    {
        self.choices.selected
    }

    /// Takes one key: moves the selection or ends the list, and gives what
    /// to draw and whether the list is done.
    pub fn handle(&mut self, ev: KeyEvent) -> (r: (Vec<TermOp>, Outcome))
        ensures
            list_wf(old(self)@),
            final(self)@ == list_next(old(self)@, ev),
            ops_view(r.0@) == list_ops(old(self)@, ev),
            r.1@ == choice_outcome(old(self)@, ev),
    {
        proof {
            use_type_invariant(&*self);
        }
        let up = TermOp::Up((self.choices.options.len() + 1) as u16);
        match ev {
            KeyEvent::Down | KeyEvent::Character('j') => {
                self.choices.select_next();
                let mut ops: Vec<TermOp> = vec![up];
                let mut drawn = self.choices.render_list();
                ops.append(&mut drawn);
                proof {
                    assert(ops_view(ops@) =~= list_ops(old(self)@, ev));
                }
                (ops, Outcome::Pending)
            },
            KeyEvent::Up | KeyEvent::Character('k') => {
                self.choices.select_prev();
                let mut ops: Vec<TermOp> = vec![up];
                let mut drawn = self.choices.render_list();
                ops.append(&mut drawn);
                proof {
                    assert(ops_view(ops@) =~= list_ops(old(self)@, ev));
                }
                (ops, Outcome::Pending)
            },
            KeyEvent::Enter => {
                let ops: Vec<TermOp> = vec![TermOp::Show];
                proof {
                    assert(ops_view(ops@) =~= list_ops(old(self)@, ev));
                }
                (ops, Outcome::Submitted(self.choices.chosen()))
            },
            KeyEvent::Escape => {
                let ops: Vec<TermOp> = vec![TermOp::Show];
                proof {
                    assert(ops_view(ops@) =~= list_ops(old(self)@, ev));
                }
                (ops, Outcome::Cancelled)
            },
            _ => {
                let ops: Vec<TermOp> = Vec::new();
                proof {
                    assert(ops_view(ops@) =~= list_ops(old(self)@, ev));
                }
                (ops, Outcome::Pending)
            },
        }
    }
}

/// An inline picker being answered.
pub struct InlineChooser {
    choices: Choices,
}

impl View for InlineChooser {
    type V = ChoiceView;

    closed spec fn view(&self) -> ChoiceView {
        self.choices@
    }
}

impl InlineChooser {
    #[verifier::type_invariant]
    spec fn inv(self) -> bool {
        choice_wf(self.choices@)
    }

    /// Opens a picker on `options` with the first one selected: the chooser,
    /// and what it first draws.
    pub fn start(prompt: &str, options: &[&str]) -> (r: (InlineChooser, Vec<TermOp>))
        requires
            1 <= options@.len(),
        ensures
            r.0@ == choice_start(prompt@, options@),
            ops_view(r.1@) == inline_intro(r.0@),
    {
        let choices = Choices::new(prompt, options);
        let mut ops: Vec<TermOp> = vec![TermOp::Hide];
        let mut drawn = choices.render_inline();
        ops.append(&mut drawn);
        proof {
            assert(ops_view(ops@) =~= inline_intro(choices@));
        }
        (InlineChooser { choices }, ops)
    }

    /// The index of the selected option.
    pub fn selected(&self) -> (r: usize)
        ensures
            r == self@.selected,
    {
        self.choices.selected
    }

    /// Takes one key: moves the selection or ends the picker, and gives what
    /// to draw and whether the picker is done.
    pub fn handle(&mut self, ev: KeyEvent) -> (r: (Vec<TermOp>, Outcome))
        ensures
            choice_wf(old(self)@),
            final(self)@ == inline_next(old(self)@, ev),
            ops_view(r.0@) == inline_ops(old(self)@, ev),
            r.1@ == choice_outcome(old(self)@, ev),
    {
        proof {
            use_type_invariant(&*self);
        }
        match ev {
            KeyEvent::Left | KeyEvent::Character('h') => {
                self.choices.select_next();
                let mut ops: Vec<TermOp> = vec![TermOp::ClearLine, TermOp::Beginning];
                let mut drawn = self.choices.render_inline();
                ops.append(&mut drawn);
                proof {
                    assert(ops_view(ops@) =~= inline_ops(old(self)@, ev));
                }
                (ops, Outcome::Pending)
            },
            KeyEvent::Right | KeyEvent::Character('l') => {
                self.choices.select_prev();
                let mut ops: Vec<TermOp> = vec![TermOp::ClearLine, TermOp::Beginning];
                let mut drawn = self.choices.render_inline();
                ops.append(&mut drawn);
                proof {
                    assert(ops_view(ops@) =~= inline_ops(old(self)@, ev));
                }
                (ops, Outcome::Pending)
            },
            KeyEvent::Enter => {
                let ops: Vec<TermOp> = vec![TermOp::Show, TermOp::NewLine, TermOp::Beginning];
                proof {
                    assert(ops_view(ops@) =~= inline_ops(old(self)@, ev));
                }
                (ops, Outcome::Submitted(self.choices.chosen()))
            },
            KeyEvent::Escape => {
                let ops: Vec<TermOp> = vec![TermOp::Show];
                proof {
                    assert(ops_view(ops@) =~= inline_ops(old(self)@, ev));
                }
                (ops, Outcome::Cancelled)
            },
            _ => {
                let ops: Vec<TermOp> = Vec::new();
                proof {
                    assert(ops_view(ops@) =~= inline_ops(old(self)@, ev));
                }
                (ops, Outcome::Pending)
            },
        }
    }
}


/// Runs a vertical selection list over the keys `keys`: the prompt `text`
/// and the options `options`, the first selected at the start. Gives the
/// outcome (`Pending` when the keys run out first) and everything drawn.
pub fn list(text: &str, options: &[&str], keys: &Vec<KeyEvent>) -> (r: (Outcome, Vec<TermOp>))
    requires
        1 <= options@.len() < u16::MAX,
    ensures
        r.0@ == list_answer(choice_start(text@, options@), keys@),
        ops_view(r.1@) == list_intro(choice_start(text@, options@)) + list_transcript(
            choice_start(text@, options@),
            keys@,
        ),
{
    let (mut chooser, mut ops) = ListChooser::start(text, options);
    let ghost v0 = chooser@;
    let mut i: usize = 0;
    proof {
        assert(keys@.subrange(0, keys.len() as int) =~= keys@);
    }
    while i < keys.len()
        invariant
            i <= keys.len(),
            v0 == choice_start(text@, options@),
            list_answer(v0, keys@) == list_answer(
                chooser@,
                keys@.subrange(i as int, keys.len() as int),
            ),
            list_intro(v0) + list_transcript(v0, keys@) == ops_view(ops@) + list_transcript(
                chooser@,
                keys@.subrange(i as int, keys.len() as int),
            ),
        decreases keys.len() - i,
    {
        let ghost before = chooser@;
        let ghost rest = keys@.subrange(i as int, keys.len() as int);
        let ghost old_ops = ops@;
        let (mut step, outcome) = chooser.handle(keys[i]);
        ops.append(&mut step);
        proof {
            assert(rest[0] == keys@[i as int]);
            assert(rest.drop_first() =~= keys@.subrange(i + 1, keys.len() as int));
            assert(ops_view(ops@) =~= ops_view(old_ops) + list_ops(before, keys@[i as int]));
        }
        match outcome {
            Outcome::Pending => {},
            _ => {
                proof {
                    assert(!(choice_outcome(before, rest[0]) is Pending));
                    assert(list_answer(before, rest) == choice_outcome(before, rest[0]));
                    assert(list_transcript(before, rest) =~= list_ops(before, keys@[i as int]));
                    assert(list_intro(v0) + list_transcript(v0, keys@) =~= ops_view(ops@));
                }
                return (outcome, ops);
            },
        }
        proof {
            assert(ops_view(old_ops) + list_transcript(before, rest) =~= ops_view(ops@)
                + list_transcript(chooser@, keys@.subrange(i + 1, keys.len() as int)));
        }
        i += 1;
    }
    proof {
        assert(ops_view(ops@) + seq![] =~= ops_view(ops@));
    }
    (Outcome::Pending, ops)
}

/// Runs an inline picker over the keys `keys`: the prompt `text` and the
/// options `options` on one line, the first selected at the start. Gives the
/// outcome (`Pending` when the keys run out first) and everything drawn.
pub fn option(text: &str, options: &[&str], keys: &Vec<KeyEvent>) -> (r: (Outcome, Vec<TermOp>))
    requires
        1 <= options@.len(),
    ensures
        r.0@ == inline_answer(choice_start(text@, options@), keys@),
        ops_view(r.1@) == inline_intro(choice_start(text@, options@)) + inline_transcript(
            choice_start(text@, options@),
            keys@,
        ),
{
    let (mut chooser, mut ops) = InlineChooser::start(text, options);
    let ghost v0 = chooser@;
    let mut i: usize = 0;
    proof {
        assert(keys@.subrange(0, keys.len() as int) =~= keys@);
    }
    while i < keys.len()
        invariant
            i <= keys.len(),
            v0 == choice_start(text@, options@),
            inline_answer(v0, keys@) == inline_answer(
                chooser@,
                keys@.subrange(i as int, keys.len() as int),
            ),
            inline_intro(v0) + inline_transcript(v0, keys@) == ops_view(ops@) + inline_transcript(
                chooser@,
                keys@.subrange(i as int, keys.len() as int),
            ),
        decreases keys.len() - i,
    {
        let ghost before = chooser@;
        let ghost rest = keys@.subrange(i as int, keys.len() as int);
        let ghost old_ops = ops@;
        let (mut step, outcome) = chooser.handle(keys[i]);
        ops.append(&mut step);
        proof {
            assert(rest[0] == keys@[i as int]);
            assert(rest.drop_first() =~= keys@.subrange(i + 1, keys.len() as int));
            assert(ops_view(ops@) =~= ops_view(old_ops) + inline_ops(before, keys@[i as int]));
        }
        match outcome {
            Outcome::Pending => {},
            _ => {
                proof {
                    assert(!(choice_outcome(before, rest[0]) is Pending));
                    assert(inline_answer(before, rest) == choice_outcome(before, rest[0]));
                    assert(inline_transcript(before, rest) =~= inline_ops(before, keys@[i as int]));
                    assert(inline_intro(v0) + inline_transcript(v0, keys@) =~= ops_view(ops@));
                }
                return (outcome, ops);
            },
        }
        proof {
            assert(ops_view(old_ops) + inline_transcript(before, rest) =~= ops_view(ops@)
                + inline_transcript(chooser@, keys@.subrange(i + 1, keys.len() as int)));
        }
        i += 1;
    }
    proof {
        assert(ops_view(ops@) + seq![] =~= ops_view(ops@));
    }
    (Outcome::Pending, ops)
}


// ----- what the choices show on screen -----
/// The text that row `k` of a list shows: the prompt on row 0, then one row
/// per option, the selected one marked with `>`.
pub open spec fn list_row_text(v: ChoiceView, k: int) -> Seq<char> {
    if k == 0 {
        v.prompt
    } else if k - 1 == v.selected {
        seq!['>', ' '] + item_label(k - 1, v.options[k - 1])
    } else {
        seq![' ', ' '] + item_label(k - 1, v.options[k - 1])
    }
}

/// Rows `top` to `top + k` start with the text of rows 0 to `k` of the list.
pub open spec fn list_rows_shown(s: Screen, v: ChoiceView, top: int, k: int) -> bool {
    forall|j: int|
        0 <= j <= k ==> #[trigger] line_at(s, top + j).len() >= list_row_text(v, j).len()
            && line_at(s, top + j).subrange(0, list_row_text(v, j).len() as int)
            == list_row_text(v, j)
}

/// The list is on screen from row `top`: its prompt and its options in
/// order, the selected one marked, and the cursor at the start of the row
/// just below it.
pub open spec fn list_shown(s: Screen, v: ChoiceView, top: int) -> bool {
    &&& 0 <= top
    &&& s.row == top + v.options.len() + 1
    &&& s.col == 0
    &&& list_rows_shown(s, v, top, v.options.len() as int)
}

proof fn lemma_row_drawn(s: Screen, v: ChoiceView, top: int, i: int)
    requires
        choice_wf(v),
        0 <= top,
        0 <= i < v.options.len(),
        s.row == top + 1 + i,
        s.col == 0,
        list_rows_shown(s, v, top, i),
    ensures
        run(s, row_ops(v.options, v.selected, i)).row == top + 2 + i,
        run(s, row_ops(v.options, v.selected, i)).col == 0,
        list_rows_shown(run(s, row_ops(v.options, v.selected, i)), v, top, i + 1),
{
    let label = item_label(i, v.options[i]);
    let line = line_at(s, s.row);
    let t = run(s, row_ops(v.options, v.selected, i));
    let text = list_row_text(v, i + 1);
    if i == v.selected {
        let a = Op::Highlight(seq!['>']);
        let b = Op::Text(seq![' '] + label);
        lemma_run_four(s, a, b, Op::NewLine, Op::Beginning);
        let s1 = apply(s, a);
        let s2 = apply(s1, b);
        let line1 = overwrite(line, 0, seq!['>']);
        let line2 = overwrite(line1, 1, seq![' '] + label);
        lemma_overwrite(line, 0, seq!['>']);
        lemma_overwrite(line1, 1, seq![' '] + label);
        assert(line_at(s2, s.row) == line2);
        assert(line2.subrange(0, text.len() as int) =~= text);
        assert(line_at(t, s.row) == line2);
    } else {
        let a = Op::Text(seq![' ', ' '] + label);
        lemma_run_three(s, a, Op::NewLine, Op::Beginning);
        let line1 = overwrite(line, 0, seq![' ', ' '] + label);
        lemma_overwrite(line, 0, seq![' ', ' '] + label);
        assert(line1.subrange(0, text.len() as int) =~= text);
        assert(line_at(t, s.row) == line1);
    }
    assert forall|j: int| 0 <= j <= i + 1 implies #[trigger] line_at(t, top + j).len()
        >= list_row_text(v, j).len() && line_at(t, top + j).subrange(
        0,
        list_row_text(v, j).len() as int,
    ) == list_row_text(v, j) by {
        if j <= i {
            assert(line_at(t, top + j) == line_at(s, top + j));
        }
    }
    assert(list_rows_shown(t, v, top, i + 1));
}

/// The list header: the prompt on its own row.
spec fn list_header(v: ChoiceView) -> Seq<Op> {
    seq![Op::Text(v.prompt), Op::NewLine, Op::Beginning]
}

proof fn lemma_rows_drawn(s: Screen, v: ChoiceView, top: int, k: int)
    requires
        choice_wf(v),
        0 <= top,
        0 <= k <= v.options.len(),
        s.row == top,
        s.col == 0,
    ensures
        run(s, list_header(v) + rows_ops(v.options, v.selected, k)).row == top + 1 + k,
        run(s, list_header(v) + rows_ops(v.options, v.selected, k)).col == 0,
        list_rows_shown(run(s, list_header(v) + rows_ops(v.options, v.selected, k)), v, top, k),
    decreases k,
{
    if k == 0 {
        assert(list_header(v) + rows_ops(v.options, v.selected, 0) =~= list_header(v));
        lemma_run_three(s, Op::Text(v.prompt), Op::NewLine, Op::Beginning);
        let line1 = overwrite(line_at(s, top), 0, v.prompt);
        lemma_overwrite(line_at(s, top), 0, v.prompt);
        let t = run(s, list_header(v));
        assert(line_at(t, top) == line1);
        assert(line1.subrange(0, v.prompt.len() as int) =~= v.prompt);
        assert(line_at(t, top + 0) == line1);
    } else {
        lemma_rows_drawn(s, v, top, k - 1);
        let before = list_header(v) + rows_ops(v.options, v.selected, k - 1);
        let row = row_ops(v.options, v.selected, k - 1);
        assert(list_header(v) + rows_ops(v.options, v.selected, k) =~= before + row);
        lemma_run_append(s, before, row);
        lemma_row_drawn(run(s, before), v, top, k - 1);
    }
}

/// Drawing a list from the start of row `top` leaves it shown there.
proof fn lemma_list_render_shown(s: Screen, v: ChoiceView, top: int)
    requires
        choice_wf(v),
        0 <= top,
        s.row == top,
        s.col == 0,
    ensures
        list_shown(run(s, list_render(v)), v, top),
{
    lemma_rows_drawn(s, v, top, v.options.len() as int);
}

/// Drawn from the first column of a row, a new list is shown from that row
/// on, with the cursor hidden.
pub proof fn lemma_list_intro_shown(s: Screen, v: ChoiceView)
    requires
        choice_wf(v),
        0 <= s.row,
        s.col == 0,
    ensures
        list_shown(run(s, list_intro(v)), v, s.row),
        !run(s, list_intro(v)).cursor_visible,
{
    lemma_run_one(s, Op::Hide);
    lemma_run_append(s, seq![Op::Hide], list_render(v));
    lemma_list_render_shown(apply(s, Op::Hide), v, s.row);
    lemma_list_render_cursor(apply(s, Op::Hide), v);
}

proof fn lemma_list_render_cursor(s: Screen, v: ChoiceView)
    ensures
        run(s, list_render(v)).cursor_visible == s.cursor_visible,
{
    lemma_rows_keep_cursor(v.options, v.selected, v.options.len() as int);
    let ops = list_render(v);
    let rows = rows_ops(v.options, v.selected, v.options.len() as int);
    assert forall|i: int| 0 <= i < ops.len() implies !(ops[i] is Show) && !(ops[i] is Hide) by {
        if i >= 3 {
            assert(ops[i] == rows[i - 3]);
        }
    }
    lemma_ops_keep_cursor(s, ops);
}

/// An operation that neither shows nor hides the cursor.
spec fn keeps_cursor(op: Op) -> bool {
    !(op is Show) && !(op is Hide)
}

proof fn lemma_rows_keep_cursor(options: Seq<Seq<char>>, selected: int, k: int)
    ensures
        forall|i: int|
            0 <= i < rows_ops(options, selected, k).len() ==> keeps_cursor(
                #[trigger] rows_ops(options, selected, k)[i],
            ),
    decreases k,
{
    if k > 0 {
        lemma_rows_keep_cursor(options, selected, k - 1);
        let a = rows_ops(options, selected, k - 1);
        let b = row_ops(options, selected, k - 1);
        assert forall|i: int| 0 <= i < (a + b).len() implies keeps_cursor(#[trigger] (a + b)[i]) by {
            if i < a.len() {
                assert((a + b)[i] == a[i]);
            } else {
                assert((a + b)[i] == b[i - a.len()]);
            }
        }
    }
}

proof fn lemma_items_keep_cursor(options: Seq<Seq<char>>, selected: int, k: int)
    ensures
        forall|i: int|
            0 <= i < inline_items_ops(options, selected, k).len() ==> keeps_cursor(
                #[trigger] inline_items_ops(options, selected, k)[i],
            ),
    decreases k,
{
    if k > 0 {
        lemma_items_keep_cursor(options, selected, k - 1);
        let a = inline_items_ops(options, selected, k - 1);
        let b = inline_item_ops(options, selected, k - 1);
        assert forall|i: int| 0 <= i < (a + b).len() implies keeps_cursor(#[trigger] (a + b)[i]) by {
            if i < a.len() {
                assert((a + b)[i] == a[i]);
            } else {
                assert((a + b)[i] == b[i - a.len()]);
            }
        }
    }
}

/// Operations that neither show nor hide the cursor keep its visibility.
proof fn lemma_ops_keep_cursor(s: Screen, ops: Seq<Op>)
    requires
        forall|i: int| 0 <= i < ops.len() ==> !(ops[i] is Show) && !(ops[i] is Hide),
    ensures
        run(s, ops).cursor_visible == s.cursor_visible,
    decreases ops.len(),
{
    if ops.len() > 0 {
        lemma_ops_keep_cursor(s, ops.drop_last());
    }
}

/// Every key that leaves a list open keeps it shown from the same row: a
/// move first brings the cursor back exactly to the top of the list, then
/// draws it again with the new selection, so redrawing never drifts down the
/// screen.
pub proof fn lemma_list_stays_shown(s: Screen, v: ChoiceView, top: int, ev: KeyEvent)
    requires
        list_wf(v),
        list_shown(s, v, top),
        choice_outcome(v, ev) is Pending,
    ensures
        list_moves(ev) ==> apply(s, Op::Up((v.options.len() + 1) as u16)).row == top,
        list_shown(run(s, list_ops(v, ev)), list_next(v, ev), top),
{
    if list_moves(ev) {
        let up = Op::Up((v.options.len() + 1) as u16);
        let w = list_next(v, ev);
        assert(list_wf(w));
        lemma_run_one(s, up);
        lemma_run_append(s, seq![up], list_render(w));
        lemma_list_render_shown(apply(s, up), w, top);
    } else {
        assert(list_ops(v, ev) =~= Seq::<Op>::empty());
    }
}

/// The text of the first `k` options of an inline picker, with the
/// separators that follow them.
pub open spec fn inline_items_text(options: Seq<Seq<char>>, k: int) -> Seq<char>
    decreases k,
{
    if k <= 0 {
        seq![]
    } else {
        inline_items_text(options, k - 1) + options[k - 1] + if k != options.len() {
            seq![' ', '/', ' ']
        } else {
            seq![]
        }
    }
}

/// The line an inline picker shows: the prompt, then the options separated
/// by ` / `.
pub open spec fn inline_text(v: ChoiceView) -> Seq<char> {
    v.prompt + inline_items_text(v.options, v.options.len() as int)
}

/// The picker is on screen: the cursor's row holds exactly its line, and the
/// cursor stands at the end of it.
pub open spec fn inline_shown(s: Screen, v: ChoiceView) -> bool {
    &&& line_at(s, s.row) == inline_text(v)
    &&& s.col == inline_text(v).len()
}

proof fn lemma_items_drawn(s: Screen, v: ChoiceView, k: int)
    requires
        choice_wf(v),
        0 <= k <= v.options.len(),
        line_at(s, s.row) == Seq::<char>::empty(),
        s.col == 0,
    ensures
        line_at(
            run(s, seq![Op::Text(v.prompt)] + inline_items_ops(v.options, v.selected, k)),
            s.row,
        ) == v.prompt + inline_items_text(v.options, k),
        run(s, seq![Op::Text(v.prompt)] + inline_items_ops(v.options, v.selected, k)).col == (
        v.prompt + inline_items_text(v.options, k)).len(),
        run(s, seq![Op::Text(v.prompt)] + inline_items_ops(v.options, v.selected, k)).row
            == s.row,
    decreases k,
{
    if k == 0 {
        assert(seq![Op::Text(v.prompt)] + inline_items_ops(v.options, v.selected, 0) =~= seq![
            Op::Text(v.prompt),
        ]);
        lemma_run_one(s, Op::Text(v.prompt));
        lemma_overwrite_at_end(seq![], v.prompt);
        assert(Seq::<char>::empty() + v.prompt =~= v.prompt);
        assert(v.prompt + inline_items_text(v.options, 0) =~= v.prompt);
    } else {
        lemma_items_drawn(s, v, k - 1);
        let before = seq![Op::Text(v.prompt)] + inline_items_ops(v.options, v.selected, k - 1);
        let item = inline_item_ops(v.options, v.selected, k - 1);
        assert(seq![Op::Text(v.prompt)] + inline_items_ops(v.options, v.selected, k) =~= before
            + item);
        lemma_run_append(s, before, item);
        let s1 = run(s, before);
        let x = v.prompt + inline_items_text(v.options, k - 1);
        let o = v.options[k - 1];
        let first = if k - 1 == v.selected {
            Op::Highlight(o)
        } else {
            Op::Text(o)
        };
        let s2 = apply(s1, first);
        lemma_overwrite_at_end(x, o);
        assert(line_at(s2, s.row) == x + o);
        if k != v.options.len() {
            let sep = seq![' ', '/', ' '];
            assert(item =~= seq![first, Op::Text(sep)]);
            lemma_run_two(s1, first, Op::Text(sep));
            lemma_overwrite_at_end(x + o, sep);
            assert(x + o + sep =~= v.prompt + inline_items_text(v.options, k));
        } else {
            assert(item =~= seq![first]);
            lemma_run_one(s1, first);
            assert(x + o =~= v.prompt + inline_items_text(v.options, k));
        }
    }
}

/// Drawing a picker on an empty row from its first column leaves it shown.
proof fn lemma_inline_render_shown(s: Screen, v: ChoiceView)
    requires
        choice_wf(v),
        line_at(s, s.row) == Seq::<char>::empty(),
        s.col == 0,
    ensures
        inline_shown(run(s, inline_render(v)), v),
{
    lemma_items_drawn(s, v, v.options.len() as int);
}

/// Drawn from the first column of an empty row, a new picker is shown there,
/// with the cursor hidden.
pub proof fn lemma_inline_intro_shown(s: Screen, v: ChoiceView)
    requires
        choice_wf(v),
        line_at(s, s.row) == Seq::<char>::empty(),
        s.col == 0,
    ensures
        inline_shown(run(s, inline_intro(v)), v),
        !run(s, inline_intro(v)).cursor_visible,
{
    lemma_run_one(s, Op::Hide);
    lemma_run_append(s, seq![Op::Hide], inline_render(v));
    let s1 = apply(s, Op::Hide);
    assert(line_at(s1, s1.row) == line_at(s, s.row));
    lemma_inline_render_shown(s1, v);
    lemma_items_keep_cursor(v.options, v.selected, v.options.len() as int);
    let ops = inline_render(v);
    let items = inline_items_ops(v.options, v.selected, v.options.len() as int);
    assert forall|i: int| 0 <= i < ops.len() implies !(ops[i] is Show) && !(ops[i] is Hide) by {
        if i >= 1 {
            assert(ops[i] == items[i - 1]);
        }
    }
    lemma_ops_keep_cursor(s1, ops);
}

/// Every key that leaves a picker open keeps it shown on its row: a move
/// clears the row and draws the picker again from the first column, with
/// the new selection.
pub proof fn lemma_inline_stays_shown(s: Screen, v: ChoiceView, ev: KeyEvent)
    requires
        choice_wf(v),
        inline_shown(s, v),
        choice_outcome(v, ev) is Pending,
    ensures
        inline_shown(run(s, inline_ops(v, ev)), inline_next(v, ev)),
        run(s, inline_ops(v, ev)).row == s.row,
{
    if inline_moves(ev) {
        let w = inline_next(v, ev);
        assert(choice_wf(w));
        lemma_run_two(s, Op::ClearLine, Op::Beginning);
        let s1 = apply(apply(s, Op::ClearLine), Op::Beginning);
        assert(line_at(s1, s1.row) == Seq::<char>::empty());
        lemma_run_append(s, seq![Op::ClearLine, Op::Beginning], inline_render(w));
        lemma_inline_render_shown(s1, w);
        lemma_items_drawn(s1, w, w.options.len() as int);
    } else {
        assert(inline_ops(v, ev) =~= Seq::<Op>::empty());
    }
}


/// A key that neither moves a list's selection nor ends it.
pub open spec fn list_idle(ev: KeyEvent) -> bool {
    !list_moves(ev) && ev != KeyEvent::Enter && ev != KeyEvent::Escape
}

/// A key that neither moves a picker's selection nor ends it.
pub open spec fn inline_idle(ev: KeyEvent) -> bool {
    !inline_moves(ev) && ev != KeyEvent::Enter && ev != KeyEvent::Escape
}

/// Keys that neither move nor end a list leave its selection and its
/// eventual answer as they were, and draw nothing.
pub proof fn lemma_list_idle_keys(v: ChoiceView, idle: Seq<KeyEvent>, later: Seq<KeyEvent>)
    requires
        forall|i: int| 0 <= i < idle.len() ==> list_idle(#[trigger] idle[i]),
    ensures
        list_answer(v, idle + later) == list_answer(v, later),
        list_transcript(v, idle + later) == list_transcript(v, later),
    decreases idle.len(),
{
    if idle.len() == 0 {
        assert(idle + later =~= later);
    } else {
        let keys = idle + later;
        assert(keys[0] == idle[0]);
        assert(list_idle(idle[0]));
        assert(list_next(v, idle[0]) == v);
        assert(list_ops(v, idle[0]) =~= Seq::<Op>::empty());
        assert(keys.drop_first() =~= idle.drop_first() + later);
        lemma_list_idle_keys(v, idle.drop_first(), later);
        assert(list_transcript(v, keys) =~= list_transcript(v, idle.drop_first() + later));
    }
}

/// Keys that neither move nor end a picker leave its selection and its
/// eventual answer as they were, and draw nothing.
pub proof fn lemma_inline_idle_keys(v: ChoiceView, idle: Seq<KeyEvent>, later: Seq<KeyEvent>)
    requires
        forall|i: int| 0 <= i < idle.len() ==> inline_idle(#[trigger] idle[i]),
    ensures
        inline_answer(v, idle + later) == inline_answer(v, later),
        inline_transcript(v, idle + later) == inline_transcript(v, later),
    decreases idle.len(),
{
    if idle.len() == 0 {
        assert(idle + later =~= later);
    } else {
        let keys = idle + later;
        assert(keys[0] == idle[0]);
        assert(inline_idle(idle[0]));
        assert(inline_next(v, idle[0]) == v);
        assert(inline_ops(v, idle[0]) =~= Seq::<Op>::empty());
        assert(keys.drop_first() =~= idle.drop_first() + later);
        lemma_inline_idle_keys(v, idle.drop_first(), later);
        assert(inline_transcript(v, keys) =~= inline_transcript(v, idle.drop_first() + later));
    }
}

/// Drawing a shown list again with nothing in between keeps it shown with
/// the same selection, from the same row, however often it is done.
pub proof fn lemma_list_redraw(s: Screen, v: ChoiceView, top: int)
    requires
        list_wf(v),
        list_shown(s, v, top),
    ensures
        list_shown(
            run(s, seq![Op::Up((v.options.len() + 1) as u16)] + list_render(v)),
            v,
            top,
        ),
{
    let up = Op::Up((v.options.len() + 1) as u16);
    lemma_run_one(s, up);
    lemma_run_append(s, seq![up], list_render(v));
    lemma_list_render_shown(apply(s, up), v, top);
}

/// Drawing a shown picker again with nothing in between keeps it shown
/// with the same selection, on the same row, however often it is done.
pub proof fn lemma_inline_redraw(s: Screen, v: ChoiceView)
    requires
        choice_wf(v),
        inline_shown(s, v),
    ensures
        inline_shown(run(s, seq![Op::ClearLine, Op::Beginning] + inline_render(v)), v),
{
    lemma_run_two(s, Op::ClearLine, Op::Beginning);
    let s1 = apply(apply(s, Op::ClearLine), Op::Beginning);
    lemma_run_append(s, seq![Op::ClearLine, Op::Beginning], inline_render(v));
    lemma_inline_render_shown(s1, v);
}

/// With two options, every move of a picker toggles the selection, in
/// either direction, and Enter commits the option that is selected.
pub proof fn lemma_inline_two_options(v: ChoiceView, ev: KeyEvent)
    requires
        choice_wf(v),
        v.options.len() == 2,
    ensures
        inline_moves(ev) ==> inline_next(v, ev).selected == 1 - v.selected,
        choice_outcome(v, KeyEvent::Enter) == Answer::Submitted(v.options[v.selected]),
{
}

} // verus!
