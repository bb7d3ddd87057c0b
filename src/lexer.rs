//! The lexical scanner behind the Source Block Extractor: one explicit state
//! per lexical context, one transition function, and brace depth counted in
//! code only.
use vstd::prelude::*;

verus! {

/// Where the scanner stands between two characters.
#[derive(Clone, Copy, Debug, PartialEq, Eq, Structural)]
pub enum LexState {
    /// Ordinary code: braces count here and nowhere else.
    Code,
    /// Inside a `"..."` literal.
    Str,
    /// Inside a string literal, right after a backslash.
    StrEscape,
    /// Inside a `'...'` literal.
    Chr,
    /// Inside a character literal, right after a backslash.
    ChrEscape,
    /// After `//`, up to the end of the line.
    LineComment,
    /// Inside `/* ... */`.
    BlockComment,
}

/// One transition: the state after `c` (with `next` the character after it,
/// if any), whether `next` is consumed with `c`, and the change of brace depth.
pub open spec fn step(st: LexState, c: char, next: Option<char>) -> (LexState, bool, int) {
    match st {
        LexState::StrEscape => (LexState::Str, false, 0),
        LexState::ChrEscape => (LexState::Chr, false, 0),
        LexState::Str => if c == '\\' {
            (LexState::StrEscape, false, 0)
        } else if c == '"' {
            (LexState::Code, false, 0)
        } else {
            (LexState::Str, false, 0)
        },
        LexState::Chr => if c == '\\' {
            (LexState::ChrEscape, false, 0)
        } else if c == '\'' {
            (LexState::Code, false, 0)
        } else {
            (LexState::Chr, false, 0)
        },
        LexState::LineComment => (LexState::LineComment, false, 0),
        LexState::BlockComment => if c == '*' && next == Some('/') {
            (LexState::Code, true, 0)
        } else {
            (LexState::BlockComment, false, 0)
        },
        LexState::Code => if c == '"' {
            (LexState::Str, false, 0)
        } else if c == '\'' {
            (LexState::Chr, false, 0)
        } else if c == '/' && next == Some('/') {
            (LexState::LineComment, true, 0)
        } else if c == '/' && next == Some('*') {
            (LexState::BlockComment, true, 0)
        } else if c == '{' {
            (LexState::Code, false, 1)
        } else if c == '}' {
            (LexState::Code, false, -1)
        } else {
            (LexState::Code, false, 0)
        },
    }
}

/// The character after index `j` of `line`, if any.
pub open spec fn next_char(line: Seq<char>, j: int) -> Option<char> {
    if j + 1 < line.len() {
        Some(line[j + 1])
    } else {
        None
    }
}

/// Scans `line` from index `j` in state `st` at depth `d`.  The result is the
/// state and depth at the end of the line, and the index of the `}` that
/// brings the depth back to zero, or -1 where no brace does.
pub open spec fn scan_from(line: Seq<char>, j: int, st: LexState, d: int) -> (LexState, int, int)
    decreases line.len() - j,
{
    if j < 0 || j >= line.len() {
        (st, d, -1)
    } else {
        let t = step(st, line[j], next_char(line, j));
        let d2 = d + t.2;
        if t.2 < 0 && d2 == 0 {
            (t.0, d2, j)
        } else {
            scan_from(line, j + if t.1 {
                2int
            } else {
                1int
            }, t.0, d2)
        }
    }
}

/// The state carried to the next line: a line comment ends with its line.
pub open spec fn carry(st: LexState) -> LexState {
    if st == LexState::LineComment {
        LexState::Code
    } else {
        st
    }
}

/// Inside a literal or a comment no character changes the brace depth.
pub proof fn braces_inside_literals_are_ignored(st: LexState, c: char, next: Option<char>)
    requires
        st != LexState::Code,
    ensures
        step(st, c, next).2 == 0,
{
}

/// The exec form of `step`.
pub fn step_exec(st: LexState, c: char, next: Option<char>) -> (r: (LexState, bool, i8))
    ensures
        (r.0, r.1, r.2 as int) == step(st, c, next),
{
    match st {
        LexState::StrEscape => (LexState::Str, false, 0),
        LexState::ChrEscape => (LexState::Chr, false, 0),
        LexState::Str => if c == '\\' {
            (LexState::StrEscape, false, 0)
        } else if c == '"' {
            (LexState::Code, false, 0)
        } else {
            (LexState::Str, false, 0)
        },
        LexState::Chr => if c == '\\' {
            (LexState::ChrEscape, false, 0)
        } else if c == '\'' {
            (LexState::Code, false, 0)
        } else {
            (LexState::Chr, false, 0)
        },
        LexState::LineComment => (LexState::LineComment, false, 0),
        LexState::BlockComment => if c == '*' && next == Some('/') {
            (LexState::Code, true, 0)
        } else {
            (LexState::BlockComment, false, 0)
        },
        LexState::Code => if c == '"' {
            (LexState::Str, false, 0)
        } else if c == '\'' {
            (LexState::Chr, false, 0)
        } else if c == '/' && next == Some('/') {
            (LexState::LineComment, true, 0)
        } else if c == '/' && next == Some('*') {
            (LexState::BlockComment, true, 0)
        } else if c == '{' {
            (LexState::Code, false, 1)
        } else if c == '}' {
            (LexState::Code, false, -1)
        } else {
            (LexState::Code, false, 0)
        },
    }
}

/// Scans one line: see `scan_from`.  The index of the closing brace is
/// `None` where no brace brings the depth back to zero.
pub(crate) fn scan_line(line: &Vec<char>, st: LexState, d: i128) -> (r: (LexState, i128, Option<usize>))
    requires
        i128::MIN + line@.len() <= d <= i128::MAX - line@.len(),
    ensures
        ({
            let s = scan_from(line@, 0, st, d as int);
            &&& r.0 == s.0
            &&& r.1 == s.1
            &&& match r.2 {
                Some(j) => s.2 == j,
                None => s.2 == -1,
            }
        }),
        d - line@.len() <= r.1 <= d + line@.len(),
        match r.2 {
            Some(j) => j < line@.len(),
            None => true,
        },
{
    let mut j: usize = 0;
    let mut cur = st;
    let mut depth = d;
    while j < line.len()
        invariant
            j <= line@.len(),
            i128::MIN + line@.len() <= d <= i128::MAX - line@.len(),
            d - j <= depth <= d + j,
            scan_from(line@, j as int, cur, depth as int) == scan_from(line@, 0, st, d as int),
        decreases line.len() + 1 - j,
    {
        let next = if j + 1 < line.len() {
            Some(line[j + 1])
        } else {
            None
        };
        let t = step_exec(cur, line[j], next);
        depth = depth + t.2 as i128;
        if t.2 < 0 && depth == 0 {
            return (t.0, depth, Some(j));
        }
        cur = t.0;
        j = if t.1 {
            j + 2
        } else {
            j + 1
        };
    }
    (cur, depth, None)
}

} // verus!
