//! Keys read from the terminal, and instructions written back to it.

use vstd::prelude::*;

verus! {

/// One logical key press.
#[derive(Clone, Copy, Debug, PartialEq, Eq, Structural)]
pub enum Key {
    Char(char),
    Enter,
    Escape,
    Backspace,
    Del,
    Home,
    End,
    ArrowLeft,
    ArrowRight,
    ArrowUp,
    ArrowDown,
    /// Any key that none of the components reacts to.
    Unknown,
}

/// One instruction to the terminal, to be carried out in order.
#[derive(Clone, Debug)]
pub enum TermOp {
    /// Move the cursor this many columns to the left.
    MoveLeft(usize),
    /// Move the cursor this many columns to the right.
    MoveRight(usize),
    /// Erase the whole line the cursor stands on and put the cursor at the
    /// start of that line.
    ClearLine,
    /// Erase this many characters under and after the cursor.
    ClearChars(usize),
    /// Write these characters at the cursor.
    Write(Vec<char>),
}

/// The meaning of a `TermOp`, with the written text as a sequence.
pub enum Shown {
    Left(nat),
    Right(nat),
    ClearLine,
    ClearChars(nat),
    Write(Seq<char>),
}

impl TermOp {
    pub open spec fn shown(self) -> Shown {
        match self {
            TermOp::MoveLeft(n) => Shown::Left(n as nat),
            TermOp::MoveRight(n) => Shown::Right(n as nat),
            TermOp::ClearLine => Shown::ClearLine,
            TermOp::ClearChars(n) => Shown::ClearChars(n as nat),
            TermOp::Write(w) => Shown::Write(w@),
        }
    }
}

/// The meaning of a sequence of instructions.
pub open spec fn shown_all(ops: Seq<TermOp>) -> Seq<Shown> {
    ops.map_values(|op: TermOp| op.shown())
}

/// A copy of `t[from..to]`.
pub(crate) fn copy_range(t: &Vec<char>, from: usize, to: usize) -> (r: Vec<char>)
    requires
        from <= to <= t@.len(),
    ensures
        r@ == t@.subrange(from as int, to as int),
{
    let mut r: Vec<char> = Vec::new();
    let mut k: usize = from;
    while k < to
        invariant
            from <= k <= to <= t@.len(),
            r@ == t@.subrange(from as int, k as int),
        decreases to - k,
    {
        r.push(t[k]);
        k += 1;
        assert(r@ =~= t@.subrange(from as int, k as int));
    }
    r
}

} // verus!
