//! The Source Block Extractor, and the small helpers of the
//! definition-display flow around it.
use vstd::prelude::*;

use crate::lexer::{carry, scan_from, scan_line, LexState};
use crate::text::{
    blank, chars_of, concat, contains, dec, decimal, ends_with, eq_chars, extend, has_prefix,
    has_sub, has_suffix, is_blank, last_scope, last_scope_of, lines_of, pad_left, padded,
    push_str, split_lines, starts_with, string_of, trim_end, trim_end_of, trim_start,
    trim_start_of,
};

verus! {

/// Whether `lit` occurs in `s`.
pub fn has_text(s: &Vec<char>, lit: &str) -> (r: bool)
    ensures
        r == has_sub(s@, lit@),
{
    contains(s, &chars_of(lit))
}

/// Whether `s` begins with `lit`.
pub fn begins(s: &Vec<char>, lit: &str) -> (r: bool)
    ensures
        r == has_prefix(s@, lit@),
{
    starts_with(s, &chars_of(lit))
}

/// Whether `s` ends with `lit`.
pub fn finishes(s: &Vec<char>, lit: &str) -> (r: bool)
    ensures
        r == has_suffix(s@, lit@),
{
    ends_with(s, &chars_of(lit))
}

/// An output line: `"{marker} {num:4}: {text}"`.
pub open spec fn numbered(marker: Seq<char>, num: nat, text: Seq<char>) -> Seq<char> {
    marker + seq![' '] + pad_left(dec(num), 4) + seq![':', ' '] + text
}

/// `>>>` on the requested line, blanks elsewhere.
pub open spec fn marker_for(num: int, start_line: int) -> Seq<char> {
    if num == start_line {
        seq!['>', '>', '>']
    } else {
        seq![' ', ' ', ' ']
    }
}

/// The line that ends a block cut short.
pub open spec fn truncation_marker() -> Seq<char> {
    "   ...  : (method too long, truncated)"@
}

/// The head of a class or struct.
pub open spec fn is_class_head(s: Seq<char>) -> bool {
    has_sub(s, "class "@) || has_sub(s, "struct "@)
}

/// The heuristics by which a line reads as the head of a function, method,
/// class, struct or interface.
pub open spec fn looks_like_definition_head(s: Seq<char>) -> bool {
    (has_sub(s, "("@) && (has_sub(s, "{"@) || has_suffix(trim_end(s), ")"@) || has_suffix(
        trim_end(s),
        ";"@,
    ) || has_sub(s, "::"@) || has_prefix(trim_start(s), "fn "@) || has_sub(s, "function "@)))
        || has_sub(s, "class "@) || has_sub(s, "struct "@) || has_sub(s, "interface "@)
}

/// One of the lines `si ..= si + 5` (those that exist) holds a `{` or starts
/// an initializer list.
pub open spec fn body_follows(lines: Seq<Seq<char>>, si: int) -> bool {
    exists|k: int|
        si <= k <= si + 5 && k < lines.len() && (has_sub(lines[k], "{"@) || has_prefix(
            trim_start(#[trigger] lines[k]),
            ":"@,
        ))
}

/// A line at which the search for an opening brace gives up: it reads as the
/// head of another definition.  (A line holding `m` anywhere never does.)
pub open spec fn is_other_head(s: Seq<char>) -> bool {
    has_sub(s, "::"@) && has_sub(s, "("@) && !has_prefix(trim_start(s), "//"@) && !has_sub(
        s,
        "mId"@,
    ) && !has_sub(s, "m"@)
}

/// The search for an opening brace after line `si`, from line `i` on: a `{`
/// is found before the search stops (after 25 lines, at a blank line once 5
/// are behind, or at the head of another definition).
pub open spec fn brace_search(lines: Seq<Seq<char>>, si: int, i: int) -> bool
    decreases lines.len() - i,
{
    if i < 0 || i >= lines.len() {
        false
    } else if has_sub(lines[i], "{"@) {
        true
    } else if i > si + 25 || (is_blank(lines[i]) && i > si + 5) || is_other_head(lines[i]) {
        false
    } else {
        brace_search(lines, si, i + 1)
    }
}

/// The fallback context: lines `si - 5 ..= si + 5` (those that exist), five
/// either side of the requested one.
pub open spec fn context_window(lines: Seq<Seq<char>>, si: int, start_line: int) -> Seq<
    Seq<char>,
> {
    let cs = if si >= 5 {
        si - 5
    } else {
        0
    };
    let ce = if si + 6 <= lines.len() {
        si + 6
    } else {
        lines.len() as int
    };
    Seq::new(
        (ce - cs) as nat,
        |k: int| numbered(marker_for(cs + k + 1, start_line), (cs + k + 1) as nat, lines[cs + k]),
    )
}

/// What follows the closing brace of a class or struct at index `j` of line
/// `i`: the next line, where it starts with `;` and the rest of line `i`
/// does not.
pub open spec fn class_tail(lines: Seq<Seq<char>>, si: int, i: int, j: int) -> Seq<Seq<char>> {
    let rest = lines[i].subrange(j + 1, lines[i].len() as int);
    if is_class_head(lines[si]) && !has_prefix(trim_start(rest), ";"@) && i + 1 < lines.len()
        && has_prefix(trim_start(lines[i + 1]), ";"@) {
        seq![numbered(seq![' ', ' ', ' ', ' '], (i + 2) as nat, lines[i + 1])]
    } else {
        seq![]
    }
}

/// The block from line `i` on, the scanner in state `st` at depth `d`: each
/// line numbered, up to the line whose `}` brings the depth back to zero,
/// then what `class_tail` adds; cut after 200 lines with a marker.
pub open spec fn block_from(
    lines: Seq<Seq<char>>,
    si: int,
    start_line: int,
    i: int,
    st: LexState,
    d: int,
) -> Seq<Seq<char>>
    decreases lines.len() - i,
{
    if i < 0 || i >= lines.len() {
        seq![]
    } else {
        let out = numbered(marker_for(i + 1, start_line), (i + 1) as nat, lines[i]);
        let s = scan_from(lines[i], 0, st, d);
        if s.2 >= 0 {
            seq![out] + class_tail(lines, si, i, s.2)
        } else if i - si + 1 >= 200 {
            seq![out, truncation_marker()]
        } else {
            seq![out] + block_from(lines, si, start_line, i + 1, carry(s.0), s.1)
        }
    }
}

/// What the Source Block Extractor returns for `lines` and the 1-based
/// `start_line`.
pub open spec fn extracted(lines: Seq<Seq<char>>, start_line: int) -> Seq<Seq<char>> {
    let si = if start_line >= 1 {
        start_line - 1
    } else {
        0
    };
    if si >= lines.len() {
        seq![Seq::empty()]
    } else {
        let s = lines[si];
        let single = seq![numbered(seq!['>', '>', '>'], start_line as nat, s)];
        if !looks_like_definition_head(s) && !body_follows(lines, si) {
            context_window(lines, si, start_line)
        } else if has_suffix(trim_end(s), ";"@) && !is_class_head(s) {
            single
        } else if !has_sub(s, "{"@) && !brace_search(lines, si, si + 1) {
            single
        } else {
            block_from(lines, si, start_line, si, LexState::Code, 0)
        }
    }
}

/// The views of a slice of string slices.
pub open spec fn views(lines: Seq<&str>) -> Seq<Seq<char>> {
    lines.map_values(|l: &str| l@)
}

/// The views of a vector of strings.
pub open spec fn string_views(v: Seq<String>) -> Seq<Seq<char>> {
    v.map_values(|l: String| l@)
}

/// The views of a vector of character vectors.
pub open spec fn char_views(v: Seq<Vec<char>>) -> Seq<Seq<char>> {
    v.map_values(|l: Vec<char>| l@)
}

/// Each vector as a `String`.
pub fn to_strings(v: &Vec<Vec<char>>) -> (r: Vec<String>)
    ensures
        string_views(r@) == char_views(v@),
{
    let mut out: Vec<String> = Vec::new();
    let mut i: usize = 0;
    while i < v.len()
        invariant
            i <= v@.len(),
            string_views(out@) == char_views(v@).take(i as int),
        decreases v.len() - i,
    {
        let ghost before = string_views(out@);
        let s = string_of(&v[i]);
        assert(s@ == char_views(v@)[i as int]);
        out.push(s);
        assert(string_views(out@) =~= before.push(s@));
        assert(before.push(s@) =~= char_views(v@).take(i + 1));
        i = i + 1;
    }
    assert(char_views(v@).take(v@.len() as int) =~= char_views(v@));
    out
}

/// `"{marker} {num:4}: {text}"`.
pub fn numbered_line(marker: &Vec<char>, num: u128, text: &Vec<char>) -> (r: Vec<char>)
    ensures
        r@ == numbered(marker@, num as nat, text@),
{
    let mut out = marker.clone();
    assert(out@ == marker@);
    out.push(' ');
    let digits = padded(&decimal(num), 4);
    out = concat(&out, &digits);
    out.push(':');
    out.push(' ');
    out = concat(&out, text);
    assert(out@ =~= numbered(marker@, num as nat, text@));
    out
}

fn marker_of(num: u128, start_line: usize) -> (r: Vec<char>)
    ensures
        r@ == marker_for(num as int, start_line as int),
{
    if num == start_line as u128 {
        let r = vec!['>', '>', '>'];
        assert(r@ =~= seq!['>', '>', '>']);
        r
    } else {
        let r = vec![' ', ' ', ' '];
        assert(r@ =~= seq![' ', ' ', ' ']);
        r
    }
}

fn is_class_head_exec(s: &Vec<char>) -> (r: bool)
    ensures
        r == is_class_head(s@),
{
    has_text(s, "class ") || has_text(s, "struct ")
}

fn looks_like_definition_head_exec(s: &Vec<char>) -> (r: bool)
    ensures
        r == looks_like_definition_head(s@),
{
    let te = trim_end_of(s);
    let ts = trim_start_of(s);
    (has_text(s, "(") && (has_text(s, "{") || finishes(&te, ")") || finishes(&te, ";") || has_text(s, "::")
        || begins(&ts, "fn ") || has_text(s, "function "))) || has_text(s, "class ") || has_text(s, "struct ")
        || has_text(s, "interface ")
}

fn body_follows_exec(lines: &[&str], si: usize) -> (r: bool)
    requires
        si < lines@.len(),
    ensures
        r == body_follows(views(lines@), si as int),
{
    let ghost ls = views(lines@);
    let mut k: usize = si;
    while k - si <= 5 && k < lines.len()
        invariant
            si <= k <= si + 6,
            si < lines@.len(),
            ls == views(lines@),
            forall|t: int|
                si <= t < k ==> !(has_sub(ls[t], "{"@) || has_prefix(
                    trim_start(#[trigger] ls[t]),
                    ":"@,
                )),
        decreases si + 6 - k,
    {
        let l = chars_of(lines[k]);
        assert(l@ == ls[k as int]);
        if has_text(&l, "{") || begins(&trim_start_of(&l), ":") {
            return true;
        }
        k = k + 1;
    }
    false
}

fn brace_search_exec(lines: &[&str], si: usize) -> (r: bool)
    requires
        si < lines@.len(),
    ensures
        r == brace_search(views(lines@), si as int, si + 1),
{
    let ghost ls = views(lines@);
    let n = lines.len();
    let mut i: usize = si + 1;
    while i < lines.len()
        invariant
            si < i,
            ls == views(lines@),
            brace_search(ls, si as int, i as int) == brace_search(ls, si as int, si + 1),
        decreases lines.len() - i,
    {
        let l = chars_of(lines[i]);
        assert(l@ == ls[i as int]);
        if has_text(&l, "{") {
            return true;
        }
        let ts = trim_start_of(&l);
        if i - si > 25 || (blank(&l) && i - si > 5) || (has_text(&l, "::") && has_text(&l, "(") && !begins(
            &ts,
            "//",
        ) && !has_text(&l, "mId") && !has_text(&l, "m")) {
            return false;
        }
        i = i + 1;
    }
    false
}

fn context_window_exec(lines: &[&str], si: usize, start_line: usize) -> (r: Vec<Vec<char>>)
    requires
        si < lines@.len(),
    ensures
        char_views(r@) == context_window(views(lines@), si as int, start_line as int),
{
    let ghost ls = views(lines@);
    let cs: usize = if si >= 5 {
        si - 5
    } else {
        0
    };
    let ce: usize = if lines.len() - si >= 6 {
        si + 6
    } else {
        lines.len()
    };
    let ghost want = context_window(ls, si as int, start_line as int);
    let mut out: Vec<Vec<char>> = Vec::new();
    let mut k: usize = cs;
    while k < ce
        invariant
            cs <= k <= ce <= lines@.len(),
            ls == views(lines@),
            want == context_window(ls, si as int, start_line as int),
            want.len() == ce - cs,
            cs == (if si >= 5 {
                si - 5
            } else {
                0
            }),
            char_views(out@) == want.take(k - cs),
        decreases ce - k,
    {
        let l = chars_of(lines[k]);
        assert(l@ == ls[k as int]);
        let num = k as u128 + 1;
        let line = numbered_line(&marker_of(num, start_line), num, &l);
        let ghost idx = k - cs;
        assert(want[idx] == numbered(
            marker_for(cs + idx + 1, start_line as int),
            (cs + idx + 1) as nat,
            ls[cs + idx],
        ));
        assert(cs + idx == k);
        assert(line@ == want[idx]);
        let ghost before = char_views(out@);
        out.push(line);
        assert(char_views(out@) =~= before.push(line@));
        assert(char_views(out@) =~= want.take(k + 1 - cs));
        k = k + 1;
    }
    assert(want.take(ce - cs) =~= want);
    out
}

fn single_line(start_line: usize, s: &Vec<char>) -> (r: Vec<Vec<char>>)
    ensures
        char_views(r@) == seq![numbered(seq!['>', '>', '>'], start_line as nat, s@)],
{
    let m = vec!['>', '>', '>'];
    assert(m@ =~= seq!['>', '>', '>']);
    let r = vec![numbered_line(&m, start_line as u128, s)];
    assert(char_views(r@) =~= seq![numbered(seq!['>', '>', '>'], start_line as nat, s@)]);
    r
}

/// The largest number of characters that one line can hold, plus one.
pub open spec fn line_bound() -> int {
    0x1_0000_0000_0000_0000
}

fn block_exec(lines: &[&str], si: usize, start_line: usize) -> (r: Vec<Vec<char>>)
    requires
        si < lines@.len(),
    ensures
        char_views(r@) == block_from(
            views(lines@),
            si as int,
            start_line as int,
            si as int,
            LexState::Code,
            0,
        ),
{
    let ghost ls = views(lines@);
    let ghost want = block_from(ls, si as int, start_line as int, si as int, LexState::Code, 0);
    let is_class = is_class_head_exec(&chars_of(lines[si]));
    let mut out: Vec<Vec<char>> = Vec::new();
    let mut st = LexState::Code;
    let mut d: i128 = 0;
    let mut i: usize = si;
    while i < lines.len()
        invariant
            si <= i <= lines@.len(),
            i - si < 200,
            out@.len() == i - si,
            ls == views(lines@),
            is_class == is_class_head(ls[si as int]),
            want == block_from(ls, si as int, start_line as int, si as int, LexState::Code, 0),
            -((i - si) * line_bound()) <= d <= (i - si) * line_bound(),
            char_views(out@) + block_from(ls, si as int, start_line as int, i as int, st, d as int)
                == want,
        decreases lines.len() - i,
    {
        let l = chars_of(lines[i]);
        assert(l@ == ls[i as int]);
        let num = i as u128 + 1;
        let line = numbered_line(&marker_of(num, start_line), num, &l);
        let ghost before = char_views(out@);
        out.push(line);
        assert(char_views(out@) =~= before.push(line@));
        let ll = l.len();
        assert(l@.len() < line_bound());
        let scanned = scan_line(&l, st, d);
        match scanned.2 {
            Some(j) => {
                if is_class {
                    let rest = trim_start_of(&slice_tail(&l, j + 1));
                    if !begins(&rest, ";") && i + 1 < lines.len() {
                        let nl = chars_of(lines[i + 1]);
                        assert(nl@ == ls[i + 1]);
                        if begins(&trim_start_of(&nl), ";") {
                            let m = vec![' ', ' ', ' ', ' '];
                            assert(m@ =~= seq![' ', ' ', ' ', ' ']);
                            let ghost mid = char_views(out@);
                            out.push(numbered_line(&m, i as u128 + 2, &nl));
                            assert(char_views(out@) =~= mid + class_tail(
                                ls,
                                si as int,
                                i as int,
                                j as int,
                            ));
                            return out;
                        }
                    }
                }
                assert(char_views(out@) =~= char_views(out@) + class_tail(
                    ls,
                    si as int,
                    i as int,
                    j as int,
                ));
                return out;
            },
            None => {},
        }
        if out.len() >= 200 {
            let ghost mid = char_views(out@);
            out.push(chars_of("   ...  : (method too long, truncated)"));
            assert(char_views(out@) =~= mid.push(truncation_marker()));
            return out;
        }
        st = if scanned.0 == LexState::LineComment {
            LexState::Code
        } else {
            scanned.0
        };
        d = scanned.1;
        i = i + 1;
    }
    assert(char_views(out@) + seq![] =~= char_views(out@));
    out
}

/// `s[from..]`.
fn slice_tail(s: &Vec<char>, from: usize) -> (r: Vec<char>)
    requires
        from <= s@.len(),
    ensures
        r@ == s@.subrange(from as int, s@.len() as int),
{
    crate::text::slice_of(s, from, s.len())
}

/// Recovers the syntactic unit that begins at the 1-based `start_line` of
/// `lines`: the whole body of a function, method, class or struct where its
/// opening brace can be found, a single line for a declaration, and the
/// surrounding lines for anything else.  Each output line carries its
/// number, the requested one marked `>>>`.
pub fn extract_complete_method(lines: &[&str], start_line: usize) -> (r: (usize, Vec<String>))
    ensures
        r.0 == start_line,
        string_views(r.1@) == extracted(views(lines@), start_line as int),
{
    let ghost ls = views(lines@);
    let si: usize = if start_line >= 1 {
        start_line - 1
    } else {
        0
    };
    if si >= lines.len() {
        let r = vec![String::new()];
        assert(string_views(r@) =~= seq![Seq::<char>::empty()]);
        return (start_line, r);
    }
    let s = chars_of(lines[si]);
    assert(s@ == ls[si as int]);
    let out: Vec<Vec<char>>;
    if !looks_like_definition_head_exec(&s) && !body_follows_exec(lines, si) {
        out = context_window_exec(lines, si, start_line);
    } else if finishes(&trim_end_of(&s), ";") && !is_class_head_exec(&s) {
        out = single_line(start_line, &s);
    } else if !has_text(&s, "{") && !brace_search_exec(lines, si) {
        out = single_line(start_line, &s);
    } else {
        out = block_exec(lines, si, start_line);
    }
    (start_line, to_strings(&out))
}

/// The index of the first line, from line `i` on, on which the brace depth
/// returns to zero (the scanner entering line `i` in state `st` at depth
/// `d`), or -1 where none does.
pub open spec fn closing_line(lines: Seq<Seq<char>>, i: int, st: LexState, d: int) -> int
    decreases lines.len() - i,
{
    if i < 0 || i >= lines.len() {
        -1
    } else {
        let s = scan_from(lines[i], 0, st, d);
        if s.2 >= 0 {
            i
        } else {
            closing_line(lines, i + 1, carry(s.0), s.1)
        }
    }
}

/// Lines `i ..= k` of `lines`, numbered.
pub open spec fn numbered_run(lines: Seq<Seq<char>>, start_line: int, i: int, k: int) -> Seq<
    Seq<char>,
> {
    Seq::new(
        (k - i + 1) as nat,
        |t: int| numbered(marker_for(i + t + 1, start_line), (i + t + 1) as nat, lines[i + t]),
    )
}

proof fn closing_line_in_range(lines: Seq<Seq<char>>, i: int, st: LexState, d: int)
    ensures
        closing_line(lines, i, st, d) == -1 || (i <= closing_line(lines, i, st, d) < lines.len()),
    decreases lines.len() - i,
{
    if 0 <= i < lines.len() {
        let s = scan_from(lines[i], 0, st, d);
        if s.2 < 0 {
            closing_line_in_range(lines, i + 1, carry(s.0), s.1);
        }
    }
}

proof fn block_runs_to_closing_line(
    lines: Seq<Seq<char>>,
    si: int,
    start_line: int,
    i: int,
    st: LexState,
    d: int,
    k: int,
)
    requires
        0 <= si <= i <= k < lines.len(),
        k - si < 200,
        !is_class_head(lines[si]),
        closing_line(lines, i, st, d) == k,
    ensures
        block_from(lines, si, start_line, i, st, d) == numbered_run(lines, start_line, i, k),
    decreases k - i,
{
    let s = scan_from(lines[i], 0, st, d);
    if s.2 >= 0 {
        assert(i == k);
        assert(class_tail(lines, si, i, s.2) == Seq::<Seq<char>>::empty());
        assert(block_from(lines, si, start_line, i, st, d) =~= numbered_run(lines, start_line, i, k));
    } else {
        closing_line_in_range(lines, i + 1, carry(s.0), s.1);
        block_runs_to_closing_line(lines, si, start_line, i + 1, carry(s.0), s.1, k);
        assert(block_from(lines, si, start_line, i, st, d) =~= numbered_run(lines, start_line, i, k));
    }
}

/// A definition whose opening brace is found (on its head line or soon
/// after) comes back whole: from its head line through the line on which
/// the brace depth first returns to zero, no line more or less.  Depth
/// counts code only: by `braces_inside_literals_are_ignored`, a brace inside
/// a string, a character literal or a comment never moves it.
pub proof fn body_ends_where_depth_returns_to_zero(lines: Seq<Seq<char>>, start_line: int, k: int)
    requires
        1 <= start_line <= lines.len(),
        looks_like_definition_head(lines[start_line - 1]),
        has_sub(lines[start_line - 1], "{"@) || brace_search(lines, start_line - 1, start_line),
        !has_suffix(trim_end(lines[start_line - 1]), ";"@),
        !is_class_head(lines[start_line - 1]),
        k == closing_line(lines, start_line - 1, LexState::Code, 0),
        start_line - 1 <= k <= start_line + 198,
    ensures
        extracted(lines, start_line) == numbered_run(lines, start_line, start_line - 1, k),
{
    closing_line_in_range(lines, start_line - 1, LexState::Code, 0);
    block_runs_to_closing_line(lines, start_line - 1, start_line, start_line - 1, LexState::Code, 0, k);
}

/// The extractor keeps no state between calls: two runs on the same lines
/// and start line give the same output.
pub proof fn extraction_is_repeatable(
    lines: Seq<Seq<char>>,
    start_line: int,
    first: Seq<Seq<char>>,
    second: Seq<Seq<char>>,
)
    requires
        first == extracted(lines, start_line),
        second == extracted(lines, start_line),
    ensures
        first == second,
{
}

/// The line names the symbol: the whole of it, or for a qualified symbol
/// its last `::` piece.
pub open spec fn symbol_hit(line: Seq<char>, sym: Seq<char>) -> bool {
    has_sub(line, sym) || (has_sub(sym, "::"@) && has_sub(line, last_scope(sym)))
}

/// A line near the expected one that names the symbol and reads as code
/// about it (it holds `::`, `(` or `=`).
pub open spec fn drift_hit(line: Seq<char>, sym: Seq<char>) -> bool {
    symbol_hit(line, sym) && (has_sub(line, "::"@) || has_sub(line, "("@) || has_sub(line, "="@))
}

/// The first index in `i .. end` whose line is a drift hit.
pub open spec fn first_drift_hit(ls: Seq<Seq<char>>, sym: Seq<char>, i: int, end: int) -> Option<
    int,
>
    decreases end - i,
{
    if i >= end || i < 0 || i >= ls.len() {
        None
    } else if drift_hit(ls[i], sym) {
        Some(i)
    } else {
        first_drift_hit(ls, sym, i + 1, end)
    }
}

/// Where the symbol stands in the local copy of a file whose index said it
/// stands at `expected`: there, if that line names it; else the first line
/// of the 50 before and the 50 after (from `expected - 50` up to, not
/// including, `expected + 50`) that names it and reads as code about it.
pub open spec fn local_symbol_line(ls: Seq<Seq<char>>, expected: int, sym: Seq<char>) -> Option<
    int,
> {
    if 1 <= expected <= ls.len() && symbol_hit(ls[expected - 1], sym) {
        Some(expected)
    } else {
        let start = if expected >= 50 {
            expected - 50
        } else {
            0
        };
        let end = if expected + 50 <= ls.len() {
            expected + 50
        } else {
            ls.len() as int
        };
        match first_drift_hit(ls, sym, start, end) {
            Some(i) => Some(i + 1),
            None => None,
        }
    }
}

fn symbol_hit_exec(line: &Vec<char>, sym: &Vec<char>, last: &Vec<char>) -> (r: bool)
    requires
        last@ == last_scope(sym@),
    ensures
        r == symbol_hit(line@, sym@),
{
    contains(line, sym) || (has_text(sym, "::") && contains(line, last))
}

/// Finds the symbol in the local copy of a file, allowing for the line
/// numbers to have drifted since the index was built.
pub fn find_symbol_in_local_content(content: &str, expected_line: usize, symbol: &str) -> (r: Option<
    usize,
>)
    ensures
        match r {
            Some(n) => local_symbol_line(lines_of(content@), expected_line as int, symbol@) == Some(
                n as int,
            ),
            None => local_symbol_line(lines_of(content@), expected_line as int, symbol@) is None,
        },
{
    let lines = split_lines(&chars_of(content));
    let ghost ls = char_views(lines@);
    let sym = chars_of(symbol);
    let last = last_scope_of(&sym);
    let n = lines.len();
    if expected_line > 0 && expected_line <= n {
        assert(ls[expected_line - 1] == lines@[expected_line - 1]@);
        if symbol_hit_exec(&lines[expected_line - 1], &sym, &last) {
            return Some(expected_line);
        }
    }
    let start: usize = if expected_line >= 50 {
        expected_line - 50
    } else {
        0
    };
    let end: usize = if expected_line <= n && n - expected_line >= 50 {
        expected_line + 50
    } else {
        n
    };
    assert(end as int == if expected_line + 50 <= ls.len() {
        expected_line + 50
    } else {
        ls.len() as int
    });
    let mut i: usize = start;
    while i < end
        invariant
            start <= i,
            end <= n == lines@.len(),
            ls == char_views(lines@),
            ls == lines_of(content@),
            last@ == last_scope(sym@),
            sym@ == symbol@,
            !(1 <= expected_line <= ls.len() && symbol_hit(ls[expected_line - 1], symbol@)),
            start as int == (if expected_line >= 50 {
                expected_line - 50
            } else {
                0
            }),
            end as int == (if expected_line + 50 <= ls.len() {
                expected_line + 50
            } else {
                ls.len() as int
            }),
            first_drift_hit(ls, symbol@, i as int, end as int) == first_drift_hit(
                ls,
                symbol@,
                start as int,
                end as int,
            ),
        decreases end - i,
    {
        let l = &lines[i];
        assert(ls[i as int] == l@);
        if symbol_hit_exec(l, &sym, &last) && (has_text(l, "::") || has_text(l, "(") || has_text(
            l,
            "=",
        )) {
            return Some(i + 1);
        }
        i = i + 1;
    }
    None
}

/// The GitHub repository and branch that mirror a searchfox repository.
pub open spec fn github_repo_of(repo: Seq<char>) -> Seq<char> {
    if repo == "comm-central"@ {
        "mozilla/releases-comm-central"@
    } else {
        "mozilla/firefox"@
    }
}

pub open spec fn branch_of(repo: Seq<char>) -> Seq<char> {
    if repo == "autoland"@ {
        "autoland"@
    } else if repo == "mozilla-beta"@ {
        "beta"@
    } else if repo == "mozilla-release"@ {
        "release"@
    } else if repo == "mozilla-esr115"@ {
        "esr115"@
    } else if repo == "mozilla-esr128"@ {
        "esr128"@
    } else if repo == "mozilla-esr140"@ {
        "esr140"@
    } else {
        "main"@
    }
}

fn is_lit(s: &Vec<char>, lit: &str) -> (r: bool)
    ensures
        r == (s@ == lit@),
{
    eq_chars(s, &chars_of(lit))
}

/// The raw-file URL of `file_path` in the GitHub mirror of `repo`.
pub fn get_github_raw_url(repo: &str, file_path: &str) -> (r: String)
    ensures
        r@ == "https://raw.githubusercontent.com/"@ + github_repo_of(repo@) + "/"@ + branch_of(
            repo@,
        ) + "/"@ + file_path@,
{
    let rp = chars_of(repo);
    let gh = if is_lit(&rp, "comm-central") {
        "mozilla/releases-comm-central"
    } else {
        "mozilla/firefox"
    };
    let branch = if is_lit(&rp, "autoland") {
        "autoland"
    } else if is_lit(&rp, "mozilla-beta") {
        "beta"
    } else if is_lit(&rp, "mozilla-release") {
        "release"
    } else if is_lit(&rp, "mozilla-esr115") {
        "esr115"
    } else if is_lit(&rp, "mozilla-esr128") {
        "esr128"
    } else if is_lit(&rp, "mozilla-esr140") {
        "esr140"
    } else {
        "main"
    };
    let mut out: Vec<char> = Vec::new();
    push_str(&mut out, "https://raw.githubusercontent.com/");
    push_str(&mut out, gh);
    push_str(&mut out, "/");
    push_str(&mut out, branch);
    push_str(&mut out, "/");
    push_str(&mut out, file_path);
    string_of(&out)
}

/// The tree name under which searchfox serves a repository.
pub open spec fn url_repo_of(repo: Seq<char>) -> Seq<char> {
    if repo == "mozilla-central"@ {
        "firefox-main"@
    } else if repo == "autoland"@ {
        "firefox-autoland"@
    } else if repo == "mozilla-beta"@ {
        "firefox-beta"@
    } else if repo == "mozilla-release"@ {
        "firefox-release"@
    } else if repo == "mozilla-esr115"@ {
        "firefox-esr115"@
    } else if repo == "mozilla-esr128"@ {
        "firefox-esr128"@
    } else if repo == "mozilla-esr140"@ {
        "firefox-esr140"@
    } else {
        repo
    }
}

/// The tree name under which searchfox serves `repo`.
pub fn searchfox_url_repo(repo: &str) -> (r: String)
    ensures
        r@ == url_repo_of(repo@),
{
    let rp = chars_of(repo);
    let mapped = if is_lit(&rp, "mozilla-central") {
        "firefox-main"
    } else if is_lit(&rp, "autoland") {
        "firefox-autoland"
    } else if is_lit(&rp, "mozilla-beta") {
        "firefox-beta"
    } else if is_lit(&rp, "mozilla-release") {
        "firefox-release"
    } else if is_lit(&rp, "mozilla-esr115") {
        "firefox-esr115"
    } else if is_lit(&rp, "mozilla-esr128") {
        "firefox-esr128"
    } else if is_lit(&rp, "mozilla-esr140") {
        "firefox-esr140"
    } else {
        return string_of(&rp);
    };
    string_of(&chars_of(mapped))
}

/// `ls` joined with newlines.
pub open spec fn joined(ls: Seq<Seq<char>>) -> Seq<char>
    decreases ls.len(),
{
    if ls.len() == 0 {
        seq![]
    } else if ls.len() == 1 {
        ls[0]
    } else {
        joined(ls.drop_last()) + seq!['\n'] + ls.last()
    }
}

/// Lines `k ..= end` (1-based) numbered around `line`, each ended by a
/// newline.
pub open spec fn window_from(lines: Seq<Seq<char>>, line: int, k: int, end: int) -> Seq<char>
    decreases end + 1 - k,
{
    if k > end || k < 1 || k > lines.len() {
        seq![]
    } else {
        numbered(marker_for(k, line), k as nat, lines[k - 1]) + seq!['\n'] + window_from(
            lines,
            line,
            k + 1,
            end,
        )
    }
}

/// The fallback of the definition display: `context` lines either side of
/// `line`.
pub open spec fn context_text(lines: Seq<Seq<char>>, line: int, context: int) -> Seq<char> {
    let start = if line > context {
        line - context
    } else {
        1
    };
    let end = if line + context <= lines.len() {
        line + context
    } else {
        lines.len() as int
    };
    window_from(lines, line, start, end)
}

/// What the definition display shows for `line`: the extracted block where
/// it is more than one line, else the surrounding context.
pub open spec fn definition_text(lines: Seq<Seq<char>>, line: int, context: int) -> Seq<char> {
    let m = extracted(lines, line);
    if m.len() > 1 {
        joined(m)
    } else {
        context_text(lines, line, context)
    }
}

/// The definition at `line_number` of a file: its complete block where the
/// extractor finds one, else `context_lines` lines either side.
pub fn definition_context(lines: &[&str], line_number: usize, context_lines: usize) -> (r: String)
    ensures
        r@ == definition_text(views(lines@), line_number as int, context_lines as int),
{
    let ghost ls = views(lines@);
    let (_, method_lines) = extract_complete_method(lines, line_number);
    let ghost mv = string_views(method_lines@);
    if method_lines.len() > 1 {
        let mut out = chars_of(method_lines[0].as_str());
        assert(out@ == mv[0]);
        let mut k: usize = 1;
        while k < method_lines.len()
            invariant
                1 <= k <= method_lines@.len(),
                mv == string_views(method_lines@),
                out@ == joined(mv.take(k as int)),
            decreases method_lines.len() - k,
        {
            assert(mv.take(k + 1).drop_last() =~= mv.take(k as int));
            assert(mv[k as int] == method_lines@[k as int]@);
            out.push('\n');
            extend(&mut out, &chars_of(method_lines[k].as_str()));
            k = k + 1;
        }
        assert(mv.take(mv.len() as int) =~= mv);
        return string_of(&out);
    }
    let n = lines.len();
    let start: usize = if line_number > context_lines {
        line_number - context_lines
    } else {
        1
    };
    let end: usize = if line_number <= n && n - line_number >= context_lines {
        line_number + context_lines
    } else {
        n
    };
    assert(end as int == if line_number + context_lines <= ls.len() {
        line_number + context_lines
    } else {
        ls.len() as int
    });
    let mut out: Vec<char> = Vec::new();
    let mut j: usize = start - 1;
    while j < end
        invariant
            1 <= start <= j + 1,
            end <= n == lines@.len(),
            ls == views(lines@),
            out@ + window_from(ls, line_number as int, j + 1, end as int) == window_from(
                ls,
                line_number as int,
                start as int,
                end as int,
            ),
        decreases end - j,
    {
        let k = j + 1;
        let l = chars_of(lines[j]);
        assert(l@ == ls[k - 1]);
        let ghost before = out@;
        let line = numbered_line(&marker_of(k as u128, line_number), k as u128, &l);
        extend(&mut out, &line);
        out.push('\n');
        assert(out@ =~= before + (numbered(marker_for(k as int, line_number as int), k as nat, ls[k - 1]) + seq!['\n']));
        j = j + 1;
    }
    assert(out@ =~= out@ + window_from(ls, line_number as int, j + 1, end as int));
    string_of(&out)
}

/// The line to show for a definition that the index places at
/// `line_number`, in a local copy of the file: that line where it names the
/// symbol (or, with no symbol, reads as code: `::` or `(`), else where the
/// symbol is found nearby, else the index's line.
pub open spec fn local_definition_line(ls: Seq<Seq<char>>, line_number: int, symbol: Option<Seq<char>>) -> int {
    let found = if 1 <= line_number <= ls.len() {
        let lc = ls[line_number - 1];
        match symbol {
            Some(s) => if symbol_hit(lc, s) {
                Some(line_number)
            } else {
                local_symbol_line(ls, line_number, s)
            },
            None => if has_sub(lc, "::"@) || has_sub(lc, "("@) {
                Some(line_number)
            } else {
                None
            },
        }
    } else {
        match symbol {
            Some(s) => local_symbol_line(ls, 1, s),
            None => None,
        }
    };
    match found {
        Some(k) => k,
        None => line_number,
    }
}

/// The line of a local copy of a file at which to show a definition.
pub fn resolve_local_line(content: &str, line_number: usize, symbol: Option<&str>) -> (r: usize)
    ensures
        r as int == local_definition_line(
            lines_of(content@),
            line_number as int,
            match symbol {
                Some(s) => Some(s@),
                None => None,
            },
        ),
{
    let lines = split_lines(&chars_of(content));
    let ghost ls = char_views(lines@);
    let n = lines.len();
    if line_number > 0 && line_number <= n {
        let lc = &lines[line_number - 1];
        assert(lc@ == ls[line_number - 1]);
        match symbol {
            Some(s) => {
                let sym = chars_of(s);
                let last = last_scope_of(&sym);
                if symbol_hit_exec(lc, &sym, &last) {
                    return line_number;
                }
                match find_symbol_in_local_content(content, line_number, s) {
                    Some(k) => k,
                    None => line_number,
                }
            },
            None => line_number,
        }
    } else {
        match symbol {
            Some(s) => match find_symbol_in_local_content(content, 1, s) {
                Some(k) => k,
                None => line_number,
            },
            None => line_number,
        }
    }
}

} // verus!
