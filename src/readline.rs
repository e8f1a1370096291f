//! A line editor with Emacs-like shortcuts.
//!
//! `Buffer` holds the text, the cursor and the display prefix. Each key
//! handler changes the text and cursor and queues the terminal instructions
//! that bring the screen in line; `take_output` hands them to the caller.
//!
//! Word motions and deletions treat the ASCII space as the only separator.

use crate::key::{copy_range, shown_all, Key, Shown, TermOp};
use vstd::prelude::*;
use vstd::string::*;

verus! {

/// The abstract state of a line being edited.
pub struct EditState {
    /// The characters of the line.
    pub text: Seq<char>,
    /// The cursor, an offset into `text`.
    pub index: int,
    /// Whether an Escape waits for the key that completes a meta command.
    pub meta: bool,
}

impl EditState {
    pub open spec fn wf(self) -> bool {
        0 <= self.index <= self.text.len()
    }

    pub open spec fn at(text: Seq<char>, index: int) -> EditState {
        EditState { text, index, meta: false }
    }
}

/// The first offset at or after `j` that holds a space, or the length of `t`.
pub open spec fn space_at_or_after(t: Seq<char>, j: int) -> int
    decreases t.len() - j,
{
    if j >= t.len() {
        t.len() as int
    } else if t[j] == ' ' {
        j
    } else {
        space_at_or_after(t, j + 1)
    }
}

/// The last offset at or before `j` where a word starts: one past a space, or 0.
pub open spec fn word_start_at_or_before(t: Seq<char>, j: int) -> int
    decreases j,
{
    if j <= 0 {
        0
    } else if t[j - 1] == ' ' {
        j
    } else {
        word_start_at_or_before(t, j - 1)
    }
}

/// The last offset before `j` that holds a space, or 0 when there is none.
pub open spec fn space_before(t: Seq<char>, j: int) -> int
    decreases j,
{
    if j <= 0 {
        0
    } else if t[j - 1] == ' ' {
        j - 1
    } else {
        space_before(t, j - 1)
    }
}

/// `c` typed at the cursor.
pub open spec fn typed(s: EditState, c: char) -> EditState {
    EditState::at(s.text.insert(s.index, c), s.index + 1)
}

/// The line accepted: a newline lands at the cursor when `double` is set.
pub open spec fn accepted(s: EditState, double: bool) -> EditState {
    if double {
        EditState::at(s.text.insert(s.index, '\n'), s.index)
    } else {
        EditState::at(s.text, s.index)
    }
}

pub open spec fn moved_home(s: EditState) -> EditState {
    EditState::at(s.text, 0)
}

pub open spec fn moved_end(s: EditState) -> EditState {
    EditState::at(s.text, s.text.len() as int)
}

pub open spec fn moved_left(s: EditState) -> EditState {
    EditState::at(s.text, if s.index > 0 { s.index - 1 } else { s.index })
}

pub open spec fn moved_right(s: EditState) -> EditState {
    EditState::at(s.text, if s.index < s.text.len() { s.index + 1 } else { s.index })
}

/// The character before the cursor removed.
pub open spec fn backspaced(s: EditState) -> EditState {
    if s.index > 0 {
        EditState::at(s.text.remove(s.index - 1), s.index - 1)
    } else {
        EditState::at(s.text, s.index)
    }
}

/// The character under the cursor removed.
pub open spec fn deleted(s: EditState) -> EditState {
    if s.index < s.text.len() {
        EditState::at(s.text.remove(s.index), s.index)
    } else {
        EditState::at(s.text, s.index)
    }
}

/// The cursor moved to the next space after it, or to the end.
pub open spec fn word_forwarded(s: EditState) -> EditState {
    EditState::at(s.text, space_at_or_after(s.text, s.index + 1))
}

/// The cursor moved to the start of the word before it.
pub open spec fn word_backwarded(s: EditState) -> EditState {
    EditState::at(
        s.text,
        if s.index > 0 { word_start_at_or_before(s.text, s.index - 1) } else { s.index },
    )
}

/// The text from the last space before the cursor up to the cursor removed.
pub open spec fn word_backspaced(s: EditState) -> EditState {
    let a = space_before(s.text, s.index);
    EditState::at(s.text.subrange(0, a) + s.text.subrange(s.index, s.text.len() as int), a)
}

/// The text from the cursor up to the next space after it removed.
pub open spec fn word_deleted(s: EditState) -> EditState {
    let b = space_at_or_after(s.text, s.index + 1);
    EditState::at(s.text.subrange(0, s.index) + s.text.subrange(b, s.text.len() as int), s.index)
}

/// The state after one key.
pub open spec fn step(s: EditState, double: bool, k: Key) -> EditState {
    if s.meta {
        match k {
            Key::Char(c) => if c == 'f' {
                word_forwarded(s)
            } else if c == 'b' {
                word_backwarded(s)
            } else if c == 'd' {
                word_deleted(s)
            } else {
                EditState::at(s.text, s.index)
            },
            Key::Backspace => word_backspaced(s),
            _ => EditState::at(s.text, s.index),
        }
    } else {
        match k {
            Key::Enter => accepted(s, double),
            Key::Home => moved_home(s),
            Key::End => moved_end(s),
            Key::ArrowRight => moved_right(s),
            Key::ArrowLeft => moved_left(s),
            Key::Backspace => backspaced(s),
            Key::Del => deleted(s),
            Key::Char(c) => typed(s, c),
            Key::Escape => EditState { meta: true, ..s },
            _ => s,
        }
    }
}

/// Whether the key ends the edit.
pub open spec fn finishes(s: EditState, up_down: bool, k: Key) -> bool {
    !s.meta && (k == Key::Enter || (up_down && (k == Key::ArrowUp || k == Key::ArrowDown)))
}

/// The state once the keys are fed in turn, up to and including the one that
/// ends the edit.
pub open spec fn run(s: EditState, double: bool, up_down: bool, keys: Seq<Key>) -> EditState
    decreases keys.len(),
{
    if keys.len() == 0 {
        s
    } else if finishes(s, up_down, keys[0]) {
        step(s, double, keys[0])
    } else {
        run(step(s, double, keys[0]), double, up_down, keys.drop_first())
    }
}

/// The whole line written again, the cursor put back at `index`.
pub open spec fn redrawn(prefix: Seq<char>, text: Seq<char>, index: int) -> Seq<Shown> {
    seq![
        Shown::ClearLine,
        Shown::Write(prefix),
        Shown::Write(text),
        Shown::Left((text.len() - index) as nat),
    ]
}

proof fn lemma_word_start_bounded(t: Seq<char>, j: int)
    requires
        0 <= j,
    ensures
        0 <= word_start_at_or_before(t, j) <= j,
    decreases j,
{
    if j > 0 && t[j - 1] != ' ' {
        lemma_word_start_bounded(t, j - 1);
    }
}

proof fn lemma_space_before_bounded(t: Seq<char>, j: int)
    requires
        0 <= j,
    ensures
        0 <= space_before(t, j) <= j,
        j > 0 ==> space_before(t, j) < j,
    decreases j,
{
    if j > 0 && t[j - 1] != ' ' {
        lemma_space_before_bounded(t, j - 1);
    }
}

proof fn lemma_space_after_bounded(t: Seq<char>, j: int)
    requires
        0 <= j <= t.len() + 1,
    ensures
        j <= t.len() ==> j <= space_at_or_after(t, j) <= t.len(),
        j > t.len() ==> space_at_or_after(t, j) == t.len(),
    decreases t.len() - j,
{
    if j < t.len() && t[j] != ' ' {
        lemma_space_after_bounded(t, j + 1);
    }
}

/// What the terminal is told after one key, `after` being the state it leads
/// to from `s`.
pub open spec fn rendered(s: EditState, after: EditState, prefix: Seq<char>, k: Key) -> Seq<Shown> {
    let n = (s.text.len() - s.index) as nat;
    if s.meta {
        match k {
            Key::Char(c) => if c == 'f' && s.index < s.text.len() {
                seq![Shown::Right((after.index - s.index) as nat)]
            } else if c == 'b' && s.index > 0 {
                seq![Shown::Left((s.index - after.index) as nat)]
            } else if c == 'd' {
                redrawn(prefix, after.text, after.index)
            } else {
                seq![]
            },
            Key::Backspace => if s.text.len() > 0 {
                redrawn(prefix, after.text, after.index)
            } else {
                seq![]
            },
            _ => seq![],
        }
    } else {
        match k {
            Key::Home => seq![Shown::Left(s.index as nat)],
            Key::End => seq![Shown::Right(n)],
            Key::ArrowRight => if s.index < s.text.len() {
                seq![Shown::Right(1)]
            } else {
                seq![]
            },
            Key::ArrowLeft => if s.index > 0 {
                seq![Shown::Left(1)]
            } else {
                seq![]
            },
            Key::Backspace => if s.index > 0 {
                redrawn(prefix, after.text, after.index)
            } else {
                seq![]
            },
            Key::Del => if s.index < s.text.len() {
                redrawn(prefix, after.text, after.index)
            } else {
                seq![]
            },
            Key::Char(c) => seq![
                Shown::Right(n),
                Shown::ClearChars(n),
                Shown::Write(after.text.subrange(s.index, after.text.len() as int)),
                Shown::Left(n),
            ],
            _ => seq![],
        }
    }
}

/// The first offset at or after `from` that holds a space, or the length of `t`.
fn find_space(t: &Vec<char>, from: usize) -> (r: usize)
    requires
        from <= t@.len(),
    ensures
        r == space_at_or_after(t@, from as int),
{
    let mut j: usize = from;
    while j < t.len()
        invariant
            from <= j <= t@.len(),
            space_at_or_after(t@, from as int) == space_at_or_after(t@, j as int),
        decreases t@.len() - j,
    {
        if t[j] == ' ' {
            return j;
        }
        j += 1;
    }
    t.len()
}

/// The last offset at or before `to` where a word starts.
fn find_word_start(t: &Vec<char>, to: usize) -> (r: usize)
    requires
        to <= t@.len(),
    ensures
        r == word_start_at_or_before(t@, to as int),
{
    let mut k: usize = to;
    while k > 0
        invariant
            k <= to <= t@.len(),
            word_start_at_or_before(t@, to as int) == word_start_at_or_before(t@, k as int),
        decreases k,
    {
        if t[k - 1] == ' ' {
            return k;
        }
        k -= 1;
    }
    0
}

/// The last offset before `to` that holds a space, or 0.
fn find_space_before(t: &Vec<char>, to: usize) -> (r: usize)
    requires
        to <= t@.len(),
    ensures
        r == space_before(t@, to as int),
{
    let mut k: usize = to;
    while k > 0
        invariant
            k <= to <= t@.len(),
            space_before(t@, to as int) == space_before(t@, k as int),
        decreases k,
    {
        if t[k - 1] == ' ' {
            return k - 1;
        }
        k -= 1;
    }
    0
}

/// `t` without `t[a..b]`.
fn cut(t: &Vec<char>, a: usize, b: usize) -> (r: Vec<char>)
    requires
        a <= b <= t@.len(),
    ensures
        r@ == t@.subrange(0, a as int) + t@.subrange(b as int, t@.len() as int),
{
    let mut r = copy_range(t, 0, a);
    let mut k: usize = b;
    while k < t.len()
        invariant
            a <= b <= k <= t@.len(),
            r@ == t@.subrange(0, a as int) + t@.subrange(b as int, k as int),
        decreases t@.len() - k,
    {
        r.push(t[k]);
        k += 1;
        assert(r@ =~= t@.subrange(0, a as int) + t@.subrange(b as int, k as int));
    }
    r
}


/// The buffer of a line editor.
#[derive(Clone, Debug)]
pub struct Buffer {
    /// Debug mode or not.
    debug: bool,
    /// Whether accepting the line puts a newline at the cursor.
    double_line_response: bool,
    /// Whether ArrowUp and ArrowDown end the edit.
    terminate_on_up_down: bool,
    /// Cursor offset for the next character.
    index: usize,
    /// Written before the text on the screen; not part of the text.
    prefix: Vec<char>,
    /// The line being edited.
    text: Vec<char>,
    /// Whether an Escape waits for the key that completes a meta command.
    meta: bool,
    /// Terminal instructions not yet handed out.
    out: Vec<TermOp>,
}

impl View for Buffer {
    type V = EditState;

    closed spec fn view(&self) -> EditState {
        EditState { text: self.text@, index: self.index as int, meta: self.meta }
    }
}

impl Buffer {
    pub open spec fn wf(&self) -> bool {
        self@.wf()
    }

    pub closed spec fn prefix_view(&self) -> Seq<char> {
        self.prefix@
    }

    pub closed spec fn in_debug(&self) -> bool {
        self.debug
    }

    /// Whether accepting the line puts a newline at the cursor.
    pub closed spec fn doubles(&self) -> bool {
        self.double_line_response
    }

    /// Whether ArrowUp and ArrowDown end the edit.
    pub closed spec fn stops_on_up_down(&self) -> bool {
        self.terminate_on_up_down
    }

    /// The meaning of the instructions not yet handed out.
    pub closed spec fn shown(&self) -> Seq<Shown> {
        shown_all(self.out@)
    }

    /// Everything but the line and the instructions is as in `other`.
    pub open spec fn same_settings(&self, other: &Buffer) -> bool {
        &&& self.doubles() == other.doubles()
        &&& self.stops_on_up_down() == other.stops_on_up_down()
        &&& self.prefix_view() == other.prefix_view()
        &&& self.in_debug() == other.in_debug()
    }

    fn emit(&mut self, op: TermOp)
        ensures
            final(self)@ == old(self)@,
            final(self).same_settings(old(self)),
            final(self).shown() == old(self).shown().push(op.shown()),
    {
        self.out.push(op);
        proof {
            assert(shown_all(self.out@) =~= shown_all(old(self).out@).push(op.shown()));
        }
    }

    /// Queues a redraw of the whole line, the cursor put back at the index.
    fn redraw(&mut self)
        requires
            old(self).wf(),
        ensures
            final(self)@ == old(self)@,
            final(self).same_settings(old(self)),
            final(self).shown() == old(self).shown() + redrawn(
                old(self).prefix_view(),
                old(self)@.text,
                old(self)@.index,
            ),
    {
        let p = copy_range(&self.prefix, 0, self.prefix.len());
        let t = copy_range(&self.text, 0, self.text.len());
        let n = self.text.len() - self.index;
        assert(p@ =~= self.prefix@);
        assert(t@ =~= self.text@);
        self.emit(TermOp::ClearLine);
        self.emit(TermOp::Write(p));
        self.emit(TermOp::Write(t));
        self.emit(TermOp::MoveLeft(n));
        proof {
            assert(self.shown() =~= old(self).shown() + redrawn(
                old(self).prefix_view(),
                old(self)@.text,
                old(self)@.index,
            ));
        }
    }

    /// An empty buffer.
    pub fn new() -> (r: Self)
        ensures
            r@ == EditState::at(seq![], 0),
            r.wf(),
            !r.doubles(),
            !r.stops_on_up_down(),
            !r.in_debug(),
            r.prefix_view() == Seq::<char>::empty(),
            r.shown() == Seq::<Shown>::empty(),
    {
        let r = Buffer {
            debug: false,
            double_line_response: false,
            terminate_on_up_down: false,
            index: 0,
            prefix: Vec::new(),
            text: Vec::new(),
            meta: false,
            out: Vec::new(),
        };
        proof {
            assert(r@.text =~= seq![]);
            assert(r.shown() =~= Seq::<Shown>::empty());
        }
        r
    }

    /// A buffer that holds `text`, the cursor at its start.
    pub fn from(text: &str) -> (r: Self)
        ensures
            r@ == EditState::at(text@, 0),
            r.wf(),
            !r.doubles(),
            !r.stops_on_up_down(),
            !r.in_debug(),
            r.prefix_view() == Seq::<char>::empty(),
            r.shown() == Seq::<Shown>::empty(),
    {
        let mut r = Buffer::new();
        r.text = chars_of(text);
        r
    }

    /// Switches on debug mode.
    pub fn debug(&mut self)
        ensures
            final(self)@ == old(self)@,
            final(self).in_debug(),
            final(self).doubles() == old(self).doubles(),
            final(self).stops_on_up_down() == old(self).stops_on_up_down(),
            final(self).prefix_view() == old(self).prefix_view(),
            final(self).shown() == old(self).shown(),
    {
        self.debug = true;
    }

    /// Sets whether accepting the line puts a newline at the cursor.
    pub fn set_double_line_response(&mut self, on: bool)
        ensures
            final(self)@ == old(self)@,
            final(self).doubles() == on,
            final(self).stops_on_up_down() == old(self).stops_on_up_down(),
            final(self).prefix_view() == old(self).prefix_view(),
            final(self).in_debug() == old(self).in_debug(),
            final(self).shown() == old(self).shown(),
    {
        self.double_line_response = on;
    }

    /// Sets whether ArrowUp and ArrowDown end the edit.
    pub fn set_terminate_on_up_down(&mut self, on: bool)
        ensures
            final(self)@ == old(self)@,
            final(self).stops_on_up_down() == on,
            final(self).doubles() == old(self).doubles(),
            final(self).prefix_view() == old(self).prefix_view(),
            final(self).in_debug() == old(self).in_debug(),
            final(self).shown() == old(self).shown(),
    {
        self.terminate_on_up_down = on;
    }

    /// Sets the prefix written before the text.
    pub fn set_prefix(&mut self, prefix: String)
        ensures
            final(self)@ == old(self)@,
            final(self).prefix_view() == prefix@,
            final(self).doubles() == old(self).doubles(),
            final(self).stops_on_up_down() == old(self).stops_on_up_down(),
            final(self).in_debug() == old(self).in_debug(),
            final(self).shown() == old(self).shown(),
    {
        self.prefix = chars_of(prefix.as_str());
    }

    /// The prefix written before the text.
    pub fn prefix(&self) -> (r: String)
        ensures
            r@ == self.prefix_view(),
    {
        string_of(&self.prefix)
    }

    /// Whether debug mode is on.
    pub fn is_debug(&self) -> (r: bool)
        ensures
            r == self.in_debug(),
    {
        self.debug
    }

    /// Whether accepting the line puts a newline at the cursor.
    pub fn double_line_response(&self) -> (r: bool)
        ensures
            r == self.doubles(),
    {
        self.double_line_response
    }

    /// Whether ArrowUp and ArrowDown end the edit.
    pub fn terminate_on_up_down(&self) -> (r: bool)
        ensures
            r == self.stops_on_up_down(),
    {
        self.terminate_on_up_down
    }

    /// The cursor offset.
    pub fn index(&self) -> (r: usize)
        ensures
            r == self@.index,
    {
        self.index
    }

    /// The number of characters in the line.
    pub fn len(&self) -> (r: usize)
        ensures
            r == self@.text.len(),
    {
        self.text.len()
    }

    /// The line as a string.
    pub fn to_string(&self) -> (r: String)
        ensures
            r@ == self@.text,
    {
        string_of(&self.text)
    }

    /// Accepts the line; with `double_line_response` a newline lands at the
    /// cursor, which stays where it is.
    pub fn enter(&mut self) -> (k: Key)
        requires
            old(self).wf(),
        ensures
            final(self).wf(),
            final(self)@ == accepted(old(self)@, old(self).doubles()),
            final(self).same_settings(old(self)),
            final(self).shown() == old(self).shown(),
            k == Key::Enter,
    {
        if self.double_line_response {
            self.text.insert(self.index, '\n');
        }
        self.meta = false;
        Key::Enter
    }

    /// Moves the cursor to the start of the line.
    pub fn home(&mut self) -> (k: Key)
        requires
            old(self).wf(),
        ensures
            final(self).wf(),
            final(self)@ == moved_home(old(self)@),
            final(self).same_settings(old(self)),
            final(self).shown() == old(self).shown().push(Shown::Left(old(self)@.index as nat)),
            k == Key::Home,
    {
        let n = self.index;
        self.emit(TermOp::MoveLeft(n));
        self.index = 0;
        self.meta = false;
        Key::Home
    }

    /// Moves the cursor to the end of the line.
    pub fn end(&mut self) -> (k: Key)
        requires
            old(self).wf(),
        ensures
            final(self).wf(),
            final(self)@ == moved_end(old(self)@),
            final(self).same_settings(old(self)),
            final(self).shown() == old(self).shown().push(
                Shown::Right((old(self)@.text.len() - old(self)@.index) as nat),
            ),
            k == Key::End,
    {
        let n = self.text.len() - self.index;
        self.emit(TermOp::MoveRight(n));
        self.index = self.text.len();
        self.meta = false;
        Key::End
    }

    /// Inserts `x` at the cursor and moves the cursor past it. The screen
    /// from the cursor on is erased and written again.
    pub fn char(&mut self, x: char) -> (k: Key)
        requires
            old(self).wf(),
        ensures
            final(self).wf(),
            final(self)@ == typed(old(self)@, x),
            final(self).same_settings(old(self)),
            final(self).shown() == old(self).shown() + seq![
                Shown::Right((old(self)@.text.len() - old(self)@.index) as nat),
                Shown::ClearChars((old(self)@.text.len() - old(self)@.index) as nat),
                Shown::Write(final(self)@.text.subrange(old(self)@.index, final(self)@.text.len() as int)),
                Shown::Left((old(self)@.text.len() - old(self)@.index) as nat),
            ],
            k == Key::Char(x),
    {
        let n = self.text.len() - self.index;
        self.emit(TermOp::MoveRight(n));
        self.emit(TermOp::ClearChars(n));
        self.text.insert(self.index, x);
        let tail = copy_range(&self.text, self.index, self.text.len());
        self.emit(TermOp::Write(tail));
        self.index += 1;
        self.emit(TermOp::MoveLeft(n));
        self.meta = false;
        proof {
            assert(self.shown() =~= old(self).shown() + seq![
                Shown::Right(n as nat),
                Shown::ClearChars(n as nat),
                Shown::Write(self@.text.subrange(old(self)@.index, self@.text.len() as int)),
                Shown::Left(n as nat),
            ]);
        }
        Key::Char(x)
    }

    /// Removes the character before the cursor, if any, and redraws the line.
    pub fn backspace(&mut self) -> (k: Key)
        requires
            old(self).wf(),
        ensures
            final(self).wf(),
            final(self)@ == backspaced(old(self)@),
            final(self).same_settings(old(self)),
            final(self).shown() == if old(self)@.index > 0 {
                old(self).shown() + redrawn(
                    old(self).prefix_view(),
                    final(self)@.text,
                    final(self)@.index,
                )
            } else {
                old(self).shown()
            },
            k == Key::Backspace,
    {
        self.meta = false;
        if self.index > 0 {
            self.text.remove(self.index - 1);
            self.index -= 1;
            self.redraw();
        }
        Key::Backspace
    }

    /// Removes the character under the cursor, if any, and redraws the line.
    pub fn del(&mut self) -> (k: Key)
        requires
            old(self).wf(),
        ensures
            final(self).wf(),
            final(self)@ == deleted(old(self)@),
            final(self).same_settings(old(self)),
            final(self).shown() == if old(self)@.index < old(self)@.text.len() {
                old(self).shown() + redrawn(
                    old(self).prefix_view(),
                    final(self)@.text,
                    final(self)@.index,
                )
            } else {
                old(self).shown()
            },
            k == Key::Del,
    {
        self.meta = false;
        if self.text.len() > 0 && self.text.len() > self.index {
            self.text.remove(self.index);
            self.redraw();
        }
        Key::Del
    }

    /// Moves the cursor to the next space after it, or to the end.
    pub fn word_forward(&mut self)
        requires
            old(self).wf(),
        ensures
            final(self).wf(),
            final(self)@ == word_forwarded(old(self)@),
            final(self).same_settings(old(self)),
            final(self).shown() == if old(self)@.index < old(self)@.text.len() {
                old(self).shown().push(Shown::Right((final(self)@.index - old(self)@.index) as nat))
            } else {
                old(self).shown()
            },
    {
        self.meta = false;
        if self.index < self.text.len() {
            let target = find_space(&self.text, self.index + 1);
            proof {
                lemma_space_after_bounded(self@.text, self@.index + 1);
            }
            self.emit(TermOp::MoveRight(target - self.index));
            self.index = target;
        } else {
            proof {
                assert(space_at_or_after(self@.text, self@.index + 1) == self@.text.len());
            }
        }
    }

    /// Moves the cursor to the start of the word before it.
    pub fn word_backword(&mut self)
        requires
            old(self).wf(),
        ensures
            final(self).wf(),
            final(self)@ == word_backwarded(old(self)@),
            final(self).same_settings(old(self)),
            final(self).shown() == if old(self)@.index > 0 {
                old(self).shown().push(Shown::Left((old(self)@.index - final(self)@.index) as nat))
            } else {
                old(self).shown()
            },
    {
        self.meta = false;
        if self.index > 0 {
            let target = find_word_start(&self.text, self.index - 1);
            proof {
                lemma_word_start_bounded(self@.text, self@.index - 1);
            }
            self.emit(TermOp::MoveLeft(self.index - target));
            self.index = target;
        }
    }

    /// Removes the text from the last space before the cursor (or the start)
    /// up to the cursor, moves the cursor there and redraws the line.
    pub fn word_backspace(&mut self)
        requires
            old(self).wf(),
        ensures
            final(self).wf(),
            final(self)@ == word_backspaced(old(self)@),
            final(self).same_settings(old(self)),
            final(self).shown() == if old(self)@.text.len() > 0 {
                old(self).shown() + redrawn(
                    old(self).prefix_view(),
                    final(self)@.text,
                    final(self)@.index,
                )
            } else {
                old(self).shown()
            },
    {
        self.meta = false;
        let target = find_space_before(&self.text, self.index);
        proof {
            lemma_space_before_bounded(self@.text, self@.index);
        }
        if self.text.len() != 0 {
            self.text = cut(&self.text, target, self.index);
            self.index = target;
            self.redraw();
        } else {
            proof {
                assert(self@.text.subrange(0, 0) + self@.text.subrange(0, 0) =~= self@.text);
            }
        }
    }

    /// Removes the text from the cursor up to the next space after it (or
    /// the end) and redraws the line.
    pub fn word_delete(&mut self)
        requires
            old(self).wf(),
        ensures
            final(self).wf(),
            final(self)@ == word_deleted(old(self)@),
            final(self).same_settings(old(self)),
            final(self).shown() == old(self).shown() + redrawn(
                old(self).prefix_view(),
                final(self)@.text,
                final(self)@.index,
            ),
    {
        self.meta = false;
        proof {
            lemma_space_after_bounded(self@.text, self@.index + 1);
        }
        let target = if self.index < self.text.len() {
            find_space(&self.text, self.index + 1)
        } else {
            self.text.len()
        };
        self.text = cut(&self.text, self.index, target);
        self.redraw();
    }

    /// Moves the cursor one column left, unless it is at the start.
    pub fn left(&mut self) -> (k: Key)
        requires
            old(self).wf(),
        ensures
            final(self).wf(),
            final(self)@ == moved_left(old(self)@),
            final(self).same_settings(old(self)),
            final(self).shown() == if old(self)@.index > 0 {
                old(self).shown().push(Shown::Left(1))
            } else {
                old(self).shown()
            },
            k == Key::ArrowLeft,
    {
        self.meta = false;
        if self.index > 0 {
            self.emit(TermOp::MoveLeft(1));
            self.index -= 1;
        }
        Key::ArrowLeft
    }

    /// Moves the cursor one column right, unless it is at the end.
    pub fn right(&mut self) -> (k: Key)
        requires
            old(self).wf(),
        ensures
            final(self).wf(),
            final(self)@ == moved_right(old(self)@),
            final(self).same_settings(old(self)),
            final(self).shown() == if old(self)@.index < old(self)@.text.len() {
                old(self).shown().push(Shown::Right(1))
            } else {
                old(self).shown()
            },
            k == Key::ArrowRight,
    {
        self.meta = false;
        if self.index < self.text.len() {
            self.emit(TermOp::MoveRight(1));
            self.index += 1;
        }
        Key::ArrowRight
    }

    /// Feeds one key and returns whether it ends the edit: Enter, or ArrowUp
    /// and ArrowDown when `terminate_on_up_down` is set. After an Escape the
    /// next key completes a meta command: `f`, `b` and `d` move forward, move
    /// back and delete forward by words, Backspace deletes back by words, and
    /// any other key is dropped. Keys that nothing reacts to are ignored.
    pub fn press(&mut self, key: Key) -> (done: bool)
        requires
            old(self).wf(),
        ensures
            final(self).wf(),
            final(self)@ == step(old(self)@, old(self).doubles(), key),
            final(self).same_settings(old(self)),
            final(self).shown() == old(self).shown() + rendered(
                old(self)@,
                final(self)@,
                old(self).prefix_view(),
                key,
            ),
            done == finishes(old(self)@, old(self).stops_on_up_down(), key),
    {
        proof {
            assert(self.shown() + Seq::<Shown>::empty() =~= self.shown());
            assert(self.shown() + seq![Shown::Left(self@.index as nat)] =~= self.shown().push(
                Shown::Left(self@.index as nat),
            ));
            assert(self.shown() + seq![Shown::Right((self@.text.len() - self@.index) as nat)]
                =~= self.shown().push(Shown::Right((self@.text.len() - self@.index) as nat)));
            assert(self.shown() + seq![Shown::Left(1)] =~= self.shown().push(Shown::Left(1)));
            assert(self.shown() + seq![Shown::Right(1)] =~= self.shown().push(Shown::Right(1)));
        }
        if self.meta {
            match key {
                Key::Char(c) => {
                    if c == 'f' {
                        self.word_forward();
                    } else if c == 'b' {
                        self.word_backword();
                    } else if c == 'd' {
                        self.word_delete();
                    } else {
                        self.meta = false;
                    }
                },
                Key::Backspace => {
                    self.word_backspace();
                },
                _ => {
                    self.meta = false;
                },
            }
            false
        } else {
            match key {
                Key::Enter => {
                    self.enter();
                    true
                },
                Key::Home => {
                    self.home();
                    false
                },
                Key::End => {
                    self.end();
                    false
                },
                Key::ArrowRight => {
                    self.right();
                    false
                },
                Key::ArrowLeft => {
                    self.left();
                    false
                },
                Key::Backspace => {
                    self.backspace();
                    false
                },
                Key::Del => {
                    self.del();
                    false
                },
                Key::Char(c) => {
                    self.char(c);
                    false
                },
                Key::Escape => {
                    self.meta = true;
                    false
                },
                Key::ArrowUp => self.terminate_on_up_down,
                Key::ArrowDown => self.terminate_on_up_down,
                Key::Unknown => false,
            }
        }
    }

    /// Hands out the queued terminal instructions, oldest first.
    pub fn take_output(&mut self) -> (r: Vec<TermOp>)
        ensures
            shown_all(r@) == old(self).shown(),
            final(self).shown() == Seq::<Shown>::empty(),
            final(self)@ == old(self)@,
            final(self).same_settings(old(self)),
    {
        let mut r: Vec<TermOp> = Vec::new();
        std::mem::swap(&mut r, &mut self.out);
        proof {
            assert(shown_all(self.out@) =~= Seq::<Shown>::empty());
        }
        r
    }
}

/// The characters of `s`, in order.
fn chars_of(s: &str) -> (r: Vec<char>)
    ensures
        r@ == s@,
{
    let n = s.unicode_len();
    let mut r: Vec<char> = Vec::new();
    let mut i: usize = 0;
    while i < n
        invariant
            n == s@.len(),
            i <= n,
            r@ == s@.subrange(0, i as int),
        decreases n - i,
    {
        r.push(s.get_char(i));
        i += 1;
        assert(r@ =~= s@.subrange(0, i as int));
    }
    assert(r@ =~= s@);
    r
}

/// Relies on `String::from_iter`: the string of these characters, in order.
#[verifier::external_body]
fn string_of(v: &Vec<char>) -> (r: String)
    ensures
        r@ == v@,
{
    String::from_iter(v.iter())
}


/// Edits an empty line with `keys`, up to the key that ends the edit.
fn edit_keys(double: bool, keys: &Vec<Key>) -> (r: String)
    ensures
        r@ == run(EditState::at(seq![], 0), double, false, keys@).text,
{
    let mut buf = Buffer::new();
    buf.set_double_line_response(double);
    proof {
        assert(keys@.subrange(0, keys@.len() as int) =~= keys@);
    }
    let mut i: usize = 0;
    while i < keys.len()
        invariant
            i <= keys@.len(),
            buf.wf(),
            buf.prefix_view() == Seq::<char>::empty(),
            buf.doubles() == double,
            !buf.stops_on_up_down(),
            run(EditState::at(seq![], 0), double, false, keys@) == run(
                buf@,
                double,
                false,
                keys@.subrange(i as int, keys@.len() as int),
            ),
        decreases keys@.len() - i,
    {
        let ghost before = buf@;
        proof {
            lemma_step_keeps_cursor_in_text(before, double, keys@[i as int]);
            assert(keys@.subrange(i as int, keys@.len() as int).drop_first() =~= keys@.subrange(
                i + 1,
                keys@.len() as int,
            ));
        }
        let done = buf.press(keys[i]);
        if done {
            return buf.to_string();
        }
        i += 1;
    }
    buf.to_string()
}

/// Edits an empty line with `keys` and returns the text once Enter comes, or
/// once the keys run out. The text holds no newline of Enter's.
pub fn read_line(keys: &Vec<Key>) -> (r: String)
    ensures
        r@ == run(EditState::at(seq![], 0), false, false, keys@).text,
{
    edit_keys(false, keys)
}

/// As `read_line`, but Enter leaves a newline at the cursor in the text.
pub fn read_line2(keys: &Vec<Key>) -> (r: String)
    ensures
        r@ == run(EditState::at(seq![], 0), true, false, keys@).text,
{
    edit_keys(true, keys)
}

/// One key keeps the cursor within the text, and adds at most one character.
pub proof fn lemma_step_keeps_cursor_in_text(s: EditState, double: bool, k: Key)
    requires
        s.wf(),
    ensures
        step(s, double, k).wf(),
        step(s, double, k).text.len() <= s.text.len() + 1,
{
    lemma_space_after_bounded(s.text, s.index + 1);
    lemma_space_before_bounded(s.text, s.index);
    if s.index > 0 {
        lemma_word_start_bounded(s.text, s.index - 1);
    }
}

/// Whatever keys come, the cursor stays within the text.
pub proof fn lemma_run_keeps_cursor_in_text(
    s: EditState,
    double: bool,
    up_down: bool,
    keys: Seq<Key>,
)
    requires
        s.wf(),
    ensures
        run(s, double, up_down, keys).wf(),
    decreases keys.len(),
{
    if keys.len() > 0 {
        lemma_step_keeps_cursor_in_text(s, double, keys[0]);
        if !finishes(s, up_down, keys[0]) {
            lemma_run_keeps_cursor_in_text(step(s, double, keys[0]), double, up_down, keys.drop_first());
        }
    }
}

/// Home then End puts the cursor at the end, End then Home at the start, and
/// neither changes the text; each is idempotent.
pub proof fn lemma_home_end(s: EditState)
    requires
        s.wf(),
    ensures
        moved_end(moved_home(s)) == EditState::at(s.text, s.text.len() as int),
        moved_home(moved_end(s)) == EditState::at(s.text, 0),
        moved_home(moved_home(s)) == moved_home(s),
        moved_end(moved_end(s)) == moved_end(s),
{
}

/// A character typed and then removed with Backspace leaves text and cursor
/// as they were.
pub proof fn lemma_type_then_backspace(s: EditState, c: char)
    requires
        s.wf(),
    ensures
        backspaced(typed(s, c)) == EditState::at(s.text, s.index),
{
    assert(s.text.insert(s.index, c).remove(s.index) =~= s.text);
}

/// Word-forward lands on the first space after the cursor, or at the end of
/// the text when there is none; at the end it stays.
pub proof fn lemma_word_forward_target(s: EditState)
    requires
        s.wf(),
    ensures
        ({
            let r = word_forwarded(s).index;
            &&& word_forwarded(s).text == s.text
            &&& s.index < s.text.len() ==> s.index < r <= s.text.len()
            &&& s.index == s.text.len() ==> r == s.index
            &&& r < s.text.len() ==> s.text[r] == ' '
            &&& forall|k: int| s.index < k < r ==> s.text[k] != ' '
        }),
{
    lemma_space_after_bounded(s.text, s.index + 1);
    lemma_space_after_scan(s.text, s.index + 1);
}

proof fn lemma_space_after_scan(t: Seq<char>, j: int)
    requires
        0 <= j <= t.len() + 1,
    ensures
        space_at_or_after(t, j) < t.len() ==> t[space_at_or_after(t, j)] == ' ',
        forall|k: int| j <= k < space_at_or_after(t, j) ==> t[k] != ' ',
    decreases t.len() - j,
{
    if j < t.len() && t[j] != ' ' {
        lemma_space_after_scan(t, j + 1);
    }
}

/// Word-backward lands on the last start of a word before the cursor: one
/// past a space, or 0.
pub proof fn lemma_word_backward_target(s: EditState)
    requires
        s.wf(),
        s.index > 0,
    ensures
        ({
            let r = word_backwarded(s).index;
            &&& word_backwarded(s).text == s.text
            &&& 0 <= r < s.index
            &&& r > 0 ==> s.text[r - 1] == ' '
            &&& forall|k: int| r < k < s.index ==> #[trigger] s.text[k - 1] != ' '
        }),
{
    lemma_word_start_bounded(s.text, s.index - 1);
    lemma_word_start_scan(s.text, s.index - 1);
}

proof fn lemma_word_start_scan(t: Seq<char>, j: int)
    requires
        0 <= j <= t.len(),
    ensures
        word_start_at_or_before(t, j) > 0 ==> t[word_start_at_or_before(t, j) - 1] == ' ',
        forall|k: int| word_start_at_or_before(t, j) < k <= j ==> #[trigger] t[k - 1] != ' ',
    decreases j,
{
    if j > 0 && t[j - 1] != ' ' {
        lemma_word_start_scan(t, j - 1);
    }
}

/// The state after `n` presses of Del.
pub open spec fn deleted_times(s: EditState, n: nat) -> EditState
    decreases n,
{
    if n == 0 {
        s
    } else {
        deleted_times(deleted(s), (n - 1) as nat)
    }
}

/// Del at the end of the text changes nothing, and enough presses of Del
/// remove the text after the cursor and nothing more.
pub proof fn lemma_delete_past_end(s: EditState, n: nat)
    requires
        s.wf(),
        !s.meta,
        n >= s.text.len() - s.index,
    ensures
        s.index == s.text.len() ==> deleted(s) == s,
        deleted_times(s, n) == EditState::at(s.text.subrange(0, s.index), s.index),
    decreases n,
{
    if s.index == s.text.len() {
        assert(s.text.subrange(0, s.index) =~= s.text);
        lemma_delete_at_end_times(s, n);
    } else {
        assert(s.text.remove(s.index).subrange(0, s.index) =~= s.text.subrange(0, s.index));
        lemma_delete_past_end(deleted(s), (n - 1) as nat);
    }
}

proof fn lemma_delete_at_end_times(s: EditState, n: nat)
    requires
        s.wf(),
        !s.meta,
        s.index == s.text.len(),
    ensures
        deleted_times(s, n) == s,
    decreases n,
{
    if n > 0 {
        lemma_delete_at_end_times(deleted(s), (n - 1) as nat);
    }
}

} // verus!
