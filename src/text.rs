//! Character-sequence utilities shared by the scanners and formatters.
//!
//! Text is modelled as `Seq<char>`, the view of `str` and `String`.  Substring
//! tests, trimming, line splitting and decimal conversion are stated as spec
//! functions here and implemented over `Vec<char>`.
use vstd::prelude::*;

verus! {

/// `n` occurs in `h` starting at index `i`.
pub open spec fn occurs_at(h: Seq<char>, n: Seq<char>, i: int) -> bool {
    0 <= i && i + n.len() <= h.len() && h.subrange(i, i + n.len()) == n
}

/// `n` is a substring of `h` (as `str::contains`).
pub open spec fn has_sub(h: Seq<char>, n: Seq<char>) -> bool {
    exists|i: int| occurs_at(h, n, i)
}

/// `h` begins with `n` (as `str::starts_with`).
pub open spec fn has_prefix(h: Seq<char>, n: Seq<char>) -> bool {
    occurs_at(h, n, 0)
}

/// `h` ends with `n` (as `str::ends_with`).
pub open spec fn has_suffix(h: Seq<char>, n: Seq<char>) -> bool {
    occurs_at(h, n, h.len() - n.len())
}

/// Unicode `White_Space`, the property that `char::is_whitespace` and the
/// `trim` family of `str` go by.
pub open spec fn is_ws(c: char) -> bool {
    let u = c as u32;
    (0x09 <= u <= 0x0d) || u == 0x20 || u == 0x85 || u == 0xa0 || u == 0x1680 || (0x2000 <= u
        <= 0x200a) || u == 0x2028 || u == 0x2029 || u == 0x202f || u == 0x205f || u == 0x3000
}

/// Every character of `s` is white space (so `s.trim()` is empty).
pub open spec fn is_blank(s: Seq<char>) -> bool {
    forall|i: int| 0 <= i < s.len() ==> is_ws(#[trigger] s[i])
}

/// `s` without its leading white space (as `str::trim_start`).
pub open spec fn trim_start(s: Seq<char>) -> Seq<char>
    decreases s.len(),
{
    if s.len() > 0 && is_ws(s[0]) {
        trim_start(s.drop_first())
    } else {
        s
    }
}

/// `s` without its trailing white space (as `str::trim_end`).
pub open spec fn trim_end(s: Seq<char>) -> Seq<char>
    decreases s.len(),
{
    if s.len() > 0 && is_ws(s.last()) {
        trim_end(s.drop_last())
    } else {
        s
    }
}

/// `s` without white space at either end (as `str::trim`).
pub open spec fn trim(s: Seq<char>) -> Seq<char> {
    trim_end(trim_start(s))
}

pub fn is_whitespace(c: char) -> (r: bool)
    ensures
        r == is_ws(c),
{
    let u = c as u32;
    (0x09 <= u && u <= 0x0d) || u == 0x20 || u == 0x85 || u == 0xa0 || u == 0x1680 || (0x2000
        <= u && u <= 0x200a) || u == 0x2028 || u == 0x2029 || u == 0x202f || u == 0x205f || u
        == 0x3000
}

/// The characters of `s`, in order.
pub fn chars_of(s: &str) -> (r: Vec<char>)
    ensures
        r@ == s@,
{
    let mut out: Vec<char> = Vec::new();
    for c in it: s.chars()
        invariant
            it.seq() == s@,
            out@ == it.seq().take(it.index() as int),
    {
        out.push(c);
    }
    out
}

/// Relies on `String`'s `FromIterator<&char>`: the string holds the given
/// characters in order.
#[verifier::external_body]
pub(crate) fn string_of(cs: &Vec<char>) -> (r: String)
    ensures
        r@ == cs@,
{
    cs.iter().collect()
}

/// A copy of `s[from..to]`.
pub(crate) fn slice_of(s: &Vec<char>, from: usize, to: usize) -> (r: Vec<char>)
    requires
        from <= to <= s@.len(),
    ensures
        r@ == s@.subrange(from as int, to as int),
{
    let mut out: Vec<char> = Vec::new();
    let mut i: usize = from;
    while i < to
        invariant
            from <= i <= to <= s@.len(),
            out@ == s@.subrange(from as int, i as int),
        decreases to - i,
    {
        out.push(s[i]);
        i = i + 1;
    }
    out
}

/// Appends `b` to `a`.
pub fn extend(a: &mut Vec<char>, b: &Vec<char>)
    ensures
        final(a)@ == old(a)@ + b@,
{
    let mut i: usize = 0;
    while i < b.len()
        invariant
            i <= b@.len(),
            a@ == old(a)@ + b@.take(i as int),
        decreases b.len() - i,
    {
        a.push(b[i]);
        i = i + 1;
        assert(b@.take(i as int) == b@.take(i - 1) + seq![b@[i - 1]]);
    }
    assert(b@.take(b@.len() as int) == b@);
}

/// `a` followed by `b`, as a new vector.
pub fn concat(a: &Vec<char>, b: &Vec<char>) -> (r: Vec<char>)
    ensures
        r@ == a@ + b@,
{
    let mut r = a.clone();
    proof {
        assert(r@ == a@);
    }
    extend(&mut r, b);
    r
}

/// Whether `n` occurs in `h` at index `i`.
pub fn matches_at(h: &Vec<char>, n: &Vec<char>, i: usize) -> (r: bool)
    ensures
        r == occurs_at(h@, n@, i as int),
{
    if i > h.len() || n.len() > h.len() - i {
        return false;
    }
    let mut k: usize = 0;
    while k < n.len()
        invariant
            i + n@.len() <= h@.len() == h.len(),
            k <= n@.len(),
            forall|t: int| 0 <= t < k ==> h@[i + t] == n@[t],
        decreases n.len() - k,
    {
        if h[i + k] != n[k] {
            assert(h@.subrange(i as int, i + n@.len())[k as int] != n@[k as int]);
            return false;
        }
        k = k + 1;
    }
    assert(h@.subrange(i as int, i + n@.len()) =~= n@);
    true
}

/// The first index at or after `from` where `n` occurs in `h`.
pub fn find_from(h: &Vec<char>, n: &Vec<char>, from: usize) -> (r: Option<usize>)
    ensures
        match r {
            Some(i) => from <= i && occurs_at(h@, n@, i as int) && forall|k: int|
                from <= k < i ==> !occurs_at(h@, n@, k),
            None => forall|k: int| from <= k ==> !occurs_at(h@, n@, k),
        },
{
    let mut i: usize = from;
    while i < h.len()
        invariant
            from <= i,
            forall|k: int| from <= k < i ==> !occurs_at(h@, n@, k),
        decreases h.len() - i,
    {
        if matches_at(h, n, i) {
            return Some(i);
        }
        i = i + 1;
    }
    if i == h.len() && matches_at(h, n, i) {
        return Some(i);
    }
    None
}

/// Whether `n` is a substring of `h`.
pub fn contains(h: &Vec<char>, n: &Vec<char>) -> (r: bool)
    ensures
        r == has_sub(h@, n@),
{
    match find_from(h, n, 0) {
        Some(i) => true,
        None => {
            assert forall|k: int| !occurs_at(h@, n@, k) by {
                if k >= 0 {
                    assert(!occurs_at(h@, n@, k));
                }
            }
            false
        },
    }
}

/// Whether `h` begins with `n`.
pub fn starts_with(h: &Vec<char>, n: &Vec<char>) -> (r: bool)
    ensures
        r == has_prefix(h@, n@),
{
    matches_at(h, n, 0)
}

/// Whether `h` ends with `n`.
pub fn ends_with(h: &Vec<char>, n: &Vec<char>) -> (r: bool)
    ensures
        r == has_suffix(h@, n@),
{
    if n.len() > h.len() {
        false
    } else {
        matches_at(h, n, h.len() - n.len())
    }
}

/// The number of leading white-space characters of `s`.
pub fn leading_ws(s: &Vec<char>) -> (r: usize)
    ensures
        r <= s@.len(),
        trim_start(s@) == s@.subrange(r as int, s@.len() as int),
{
    let mut i: usize = 0;
    assert(s@.subrange(0, s@.len() as int) =~= s@);
    while i < s.len() && is_whitespace(s[i])
        invariant
            i <= s@.len(),
            trim_start(s@) == trim_start(s@.subrange(i as int, s@.len() as int)),
        decreases s.len() - i,
    {
        assert(s@.subrange(i as int, s@.len() as int).drop_first() =~= s@.subrange(
            i + 1,
            s@.len() as int,
        ));
        i = i + 1;
    }
    i
}

/// The length of `s` without its trailing white space.
pub fn trimmed_end_len(s: &Vec<char>) -> (r: usize)
    ensures
        r <= s@.len(),
        trim_end(s@) == s@.take(r as int),
{
    let mut i: usize = s.len();
    assert(s@.take(s@.len() as int) =~= s@);
    while i > 0 && is_whitespace(s[i - 1])
        invariant
            i <= s@.len(),
            trim_end(s@) == trim_end(s@.take(i as int)),
        decreases i,
    {
        assert(s@.take(i as int).drop_last() =~= s@.take(i - 1));
        i = i - 1;
    }
    i
}

/// `s` without leading white space.
pub fn trim_start_of(s: &Vec<char>) -> (r: Vec<char>)
    ensures
        r@ == trim_start(s@),
{
    let k = leading_ws(s);
    slice_of(s, k, s.len())
}

/// `s` without trailing white space.
pub fn trim_end_of(s: &Vec<char>) -> (r: Vec<char>)
    ensures
        r@ == trim_end(s@),
{
    let k = trimmed_end_len(s);
    slice_of(s, 0, k)
}

/// `s` without white space at either end.
pub fn trim_of(s: &Vec<char>) -> (r: Vec<char>)
    ensures
        r@ == trim(s@),
{
    let t = trim_start_of(s);
    trim_end_of(&t)
}

/// Whether every character of `s` is white space.
pub fn blank(s: &Vec<char>) -> (r: bool)
    ensures
        r == is_blank(s@),
{
    let mut i: usize = 0;
    while i < s.len()
        invariant
            i <= s@.len(),
            forall|k: int| 0 <= k < i ==> is_ws(#[trigger] s@[k]),
        decreases s.len() - i,
    {
        if !is_whitespace(s[i]) {
            return false;
        }
        i = i + 1;
    }
    true
}

/// The decimal digit for `d < 10`.
pub open spec fn digit_char(d: nat) -> char {
    if d == 0 {
        '0'
    } else if d == 1 {
        '1'
    } else if d == 2 {
        '2'
    } else if d == 3 {
        '3'
    } else if d == 4 {
        '4'
    } else if d == 5 {
        '5'
    } else if d == 6 {
        '6'
    } else if d == 7 {
        '7'
    } else if d == 8 {
        '8'
    } else {
        '9'
    }
}

/// The decimal representation of `n` (as `format!("{}", n)`).
pub open spec fn dec(n: nat) -> Seq<char>
    decreases n,
{
    if n < 10 {
        seq![digit_char(n)]
    } else {
        dec(n / 10).push(digit_char(n % 10))
    }
}

/// Spaces before `s` up to width `w` (as `format!("{:w$}", n)` right-aligns numbers).
pub open spec fn pad_left(s: Seq<char>, w: nat) -> Seq<char> {
    if s.len() < w {
        Seq::new((w - s.len()) as nat, |i: int| ' ') + s
    } else {
        s
    }
}

fn digit_of(d: u128) -> (c: char)
    requires
        d < 10,
    ensures
        c == digit_char(d as nat),
{
    if d == 0 {
        '0'
    } else if d == 1 {
        '1'
    } else if d == 2 {
        '2'
    } else if d == 3 {
        '3'
    } else if d == 4 {
        '4'
    } else if d == 5 {
        '5'
    } else if d == 6 {
        '6'
    } else if d == 7 {
        '7'
    } else if d == 8 {
        '8'
    } else {
        '9'
    }
}

/// The decimal digits of `n`.
pub fn decimal(n: u128) -> (r: Vec<char>)
    ensures
        r@ == dec(n as nat),
    decreases n,
{
    if n < 10 {
        vec![digit_of(n)]
    } else {
        let mut v = decimal(n / 10);
        v.push(digit_of(n % 10));
        v
    }
}

/// `s` right-aligned in a field of width `w`.
pub fn padded(s: &Vec<char>, w: usize) -> (r: Vec<char>)
    ensures
        r@ == pad_left(s@, w as nat),
{
    if s.len() < w {
        let mut out: Vec<char> = Vec::new();
        let k = w - s.len();
        let mut i: usize = 0;
        while i < k
            invariant
                i <= k,
                out@ == Seq::new(i as nat, |j: int| ' '),
            decreases k - i,
        {
            out.push(' ');
            i = i + 1;
            assert(out@ =~= Seq::new(i as nat, |j: int| ' '));
        }
        extend(&mut out, s);
        out
    } else {
        s.clone()
    }
}

/// An ASCII decimal digit.
pub open spec fn is_digit(c: char) -> bool {
    48 <= (c as u32) <= 57
}

pub open spec fn all_digits(s: Seq<char>) -> bool {
    forall|i: int| 0 <= i < s.len() ==> is_digit(#[trigger] s[i])
}

/// The number that the ASCII digits `s` spell.
pub open spec fn digits_value(s: Seq<char>) -> nat
    decreases s.len(),
{
    if s.len() == 0 {
        0
    } else {
        digits_value(s.drop_last()) * 10 + ((s.last() as u32) - 48) as nat
    }
}

/// What `str::parse` reads for an unsigned integer, before its bound is
/// checked: an optional `+`, then one or more ASCII digits, nothing else.
pub open spec fn unsigned_value(s: Seq<char>) -> Option<nat> {
    let body = if s.len() > 0 && s[0] == '+' {
        s.drop_first()
    } else {
        s
    };
    if body.len() > 0 && all_digits(body) {
        Some(digits_value(body))
    } else {
        None
    }
}

/// `str::parse::<u64>` on `s`, as an `Option`.
pub fn parse_u64(s: &Vec<char>) -> (r: Option<u64>)
    ensures
        r == (match unsigned_value(s@) {
            Some(v) => if v <= u64::MAX {
                Some(v as u64)
            } else {
                None
            },
            None => None,
        }),
{
    let start: usize = if s.len() > 0 && s[0] == '+' {
        1
    } else {
        0
    };
    let ghost body = s@.subrange(start as int, s@.len() as int);
    proof {
        if start == 1 {
            assert(body =~= s@.drop_first());
        } else {
            assert(body =~= s@);
        }
    }
    if start == s.len() {
        return None;
    }
    let mut acc: u64 = 0;
    let mut over = false;
    let mut i: usize = start;
    while i < s.len()
        invariant
            start <= i <= s@.len(),
            start < s@.len(),
            body == s@.subrange(start as int, s@.len() as int),
            body == (if s@.len() > 0 && s@[0] == '+' {
                s@.drop_first()
            } else {
                s@
            }),
            all_digits(s@.subrange(start as int, i as int)),
            !over ==> acc == digits_value(s@.subrange(start as int, i as int)),
            over ==> digits_value(s@.subrange(start as int, i as int)) > u64::MAX,
        decreases s.len() - i,
    {
        let c = s[i];
        let u = c as u32;
        if u < 48 || u > 57 {
            assert(body[i - start] == c);
            assert(!is_digit(body[i - start]));
            assert(!all_digits(body));
            return None;
        }
        let d = (u - 48) as u64;
        let ghost prev = s@.subrange(start as int, i as int);
        let ghost next = s@.subrange(start as int, i + 1);
        assert(next.drop_last() =~= prev);
        assert(next.last() == c);
        if !over {
            if acc > (u64::MAX - d) / 10 {
                over = true;
                assert(acc * 10 + d > u64::MAX) by (nonlinear_arith)
                    requires
                        acc > (u64::MAX - d) / 10,
                        d <= 9,
                ;
            } else {
                assert(acc * 10 + d <= u64::MAX) by (nonlinear_arith)
                    requires
                        acc <= (u64::MAX - d) / 10,
                        d <= 9,
                ;
                acc = acc * 10 + d;
            }
        }
        assert(all_digits(next));
        i = i + 1;
    }
    assert(s@.subrange(start as int, i as int) == body);
    if over {
        None
    } else {
        Some(acc)
    }
}

/// `str::parse::<usize>` on `s`, as an `Option`.
pub fn parse_usize(s: &Vec<char>) -> (r: Option<usize>)
    ensures
        r == (match unsigned_value(s@) {
            Some(v) => if v <= usize::MAX {
                Some(v as usize)
            } else {
                None
            },
            None => None,
        }),
{
    match parse_u64(s) {
        Some(v) => {
            if v <= usize::MAX as u64 {
                Some(v as usize)
            } else {
                None
            }
        },
        None => None,
    }
}

/// `s` without one trailing carriage return.
pub open spec fn strip_cr(s: Seq<char>) -> Seq<char> {
    if s.len() > 0 && s.last() == '\r' {
        s.drop_last()
    } else {
        s
    }
}

/// The lines of `s[st..]` as `str::lines` yields them, scanning from `i`
/// (`st <= i`): split at `\n`, a `\r` before a `\n` dropped, no empty line
/// after a final `\n`.
pub open spec fn lines_scan(s: Seq<char>, i: int, st: int) -> Seq<Seq<char>>
    decreases s.len() - i,
{
    if i >= s.len() {
        if st < s.len() {
            seq![s.subrange(st, s.len() as int)]
        } else {
            seq![]
        }
    } else if s[i] == '\n' {
        seq![strip_cr(s.subrange(st, i))] + lines_scan(s, i + 1, i + 1)
    } else {
        lines_scan(s, i + 1, st)
    }
}

/// The lines of `s` (as `str::lines`).
pub open spec fn lines_of(s: Seq<char>) -> Seq<Seq<char>> {
    lines_scan(s, 0, 0)
}

/// The lines of `s`.
pub fn split_lines(s: &Vec<char>) -> (r: Vec<Vec<char>>)
    ensures
        r@.map_values(|l: Vec<char>| l@) == lines_of(s@),
{
    let mut out: Vec<Vec<char>> = Vec::new();
    let mut st: usize = 0;
    let mut i: usize = 0;
    while i < s.len()
        invariant
            st <= i <= s@.len(),
            out@.map_values(|l: Vec<char>| l@) + lines_scan(s@, i as int, st as int) == lines_of(
                s@,
            ),
        decreases s.len() - i,
    {
        if s[i] == '\n' {
            let mut piece = slice_of(s, st, i);
            if piece.len() > 0 && piece[piece.len() - 1] == '\r' {
                piece.pop();
            }
            let ghost before = out@.map_values(|l: Vec<char>| l@);
            proof {
                if s@.subrange(st as int, i as int).len() > 0 && s@.subrange(st as int, i as int).last() == '\r' {
                    assert(piece@ =~= s@.subrange(st as int, i as int).drop_last());
                }
            }
            out.push(piece);
            assert(out@.map_values(|l: Vec<char>| l@) =~= before.push(strip_cr(s@.subrange(st as int, i as int))));
            i = i + 1;
            st = i;
        } else {
            i = i + 1;
        }
    }
    if st < s.len() {
        let ghost before = out@.map_values(|l: Vec<char>| l@);
        out.push(slice_of(s, st, s.len()));
        assert(out@.map_values(|l: Vec<char>| l@) =~= before.push(s@.subrange(st as int, s@.len() as int)));
    } else {
        assert(out@.map_values(|l: Vec<char>| l@) =~= out@.map_values(|l: Vec<char>| l@) + seq![]);
    }
    out
}

/// The piece after the last `::` of `s[st..]`, scanning from `i`, as
/// `s.split("::").last()` finds it.
pub open spec fn last_scope_scan(s: Seq<char>, i: int, st: int) -> Seq<char>
    decreases s.len() - i,
{
    if i >= s.len() {
        s.subrange(st, s.len() as int)
    } else if occurs_at(s, seq![':', ':'], i) {
        last_scope_scan(s, i + 2, i + 2)
    } else {
        last_scope_scan(s, i + 1, st)
    }
}

/// The last `::`-separated piece of `s` (as `s.split("::").last()`).
pub open spec fn last_scope(s: Seq<char>) -> Seq<char> {
    last_scope_scan(s, 0, 0)
}

/// The last `::`-separated piece of `s`.
pub fn last_scope_of(s: &Vec<char>) -> (r: Vec<char>)
    ensures
        r@ == last_scope(s@),
{
    let sep: Vec<char> = vec![':', ':'];
    assert(sep@ =~= seq![':', ':']);
    let mut st: usize = 0;
    let mut i: usize = 0;
    while i < s.len()
        invariant
            st <= i <= s@.len(),
            sep@ == seq![':', ':'],
            last_scope_scan(s@, i as int, st as int) == last_scope(s@),
        decreases s.len() - i,
    {
        if matches_at(s, &sep, i) {
            i = i + 2;
            st = i;
        } else {
            i = i + 1;
        }
    }
    slice_of(s, st, s.len())
}

/// What `str::to_lowercase` returns for `s`.
pub uninterp spec fn lower_of(s: Seq<char>) -> Seq<char>;

/// Relies on `str::to_lowercase`: Unicode lower-case mapping, which depends on
/// the characters alone.
#[verifier::external_body]
pub(crate) fn lowercase(s: &str) -> (r: String)
    ensures
        r@ == lower_of(s@),
{
    s.to_lowercase()
}

/// Whether `a` and `b` hold the same characters.
pub fn eq_chars(a: &Vec<char>, b: &Vec<char>) -> (r: bool)
    ensures
        r == (a@ == b@),
{
    if a.len() != b.len() {
        return false;
    }
    let r = matches_at(a, b, 0);
    proof {
        assert(a@ =~= a@.subrange(0, b@.len() as int));
    }
    r
}

/// Appends the characters of `s` to `out`.
pub fn push_str(out: &mut Vec<char>, s: &str)
    ensures
        final(out)@ == old(out)@ + s@,
{
    let cs = chars_of(s);
    extend(out, &cs);
}

/// The characters of `s`, or of `dflt` where `s` is `None`.
pub fn chars_or(s: &Option<String>, dflt: &Vec<char>) -> (r: Vec<char>)
    ensures
        r@ == (match s {
            Some(v) => v@,
            None => dflt@,
        }),
{
    match s {
        Some(v) => chars_of(v.as_str()),
        None => dflt.clone(),
    }
}

/// The pieces of `s[st..]` between occurrences of `sep`, scanning from `i`
/// (`st <= i`), as `str::split` with a `char` yields them: always at least
/// one, possibly empty.
pub open spec fn split_scan(s: Seq<char>, sep: char, i: int, st: int) -> Seq<Seq<char>>
    decreases s.len() - i,
{
    if i >= s.len() {
        seq![s.subrange(st, s.len() as int)]
    } else if s[i] == sep {
        seq![s.subrange(st, i)] + split_scan(s, sep, i + 1, i + 1)
    } else {
        split_scan(s, sep, i + 1, st)
    }
}

/// `s.split(sep)`.
pub open spec fn pieces(s: Seq<char>, sep: char) -> Seq<Seq<char>> {
    split_scan(s, sep, 0, 0)
}

/// The pieces of `s` between occurrences of `sep`.
pub fn split_char(s: &Vec<char>, sep: char) -> (r: Vec<Vec<char>>)
    ensures
        r@.map_values(|p: Vec<char>| p@) == pieces(s@, sep),
{
    let mut out: Vec<Vec<char>> = Vec::new();
    let mut st: usize = 0;
    let mut i: usize = 0;
    while i < s.len()
        invariant
            st <= i <= s@.len(),
            out@.map_values(|p: Vec<char>| p@) + split_scan(s@, sep, i as int, st as int) == pieces(
                s@,
                sep,
            ),
        decreases s.len() - i,
    {
        if s[i] == sep {
            let piece = slice_of(s, st, i);
            let ghost before = out@.map_values(|p: Vec<char>| p@);
            out.push(piece);
            assert(out@.map_values(|p: Vec<char>| p@) =~= before.push(piece@));
            i = i + 1;
            st = i;
        } else {
            i = i + 1;
        }
    }
    let ghost before = out@.map_values(|p: Vec<char>| p@);
    let last = slice_of(s, st, s.len());
    out.push(last);
    assert(out@.map_values(|p: Vec<char>| p@) =~= before.push(last@));
    out
}

/// `s` with each occurrence of `pat` (found left to right, not overlapping)
/// replaced by `rep`, scanning from `i` (as `str::replace`).
pub open spec fn replaced_from(s: Seq<char>, pat: Seq<char>, rep: Seq<char>, i: int) -> Seq<char>
    decreases s.len() - i,
{
    if i < 0 || i >= s.len() {
        seq![]
    } else if pat.len() > 0 && occurs_at(s, pat, i) {
        rep + replaced_from(s, pat, rep, i + pat.len())
    } else {
        seq![s[i]] + replaced_from(s, pat, rep, i + 1)
    }
}

pub open spec fn replaced(s: Seq<char>, pat: Seq<char>, rep: Seq<char>) -> Seq<char> {
    replaced_from(s, pat, rep, 0)
}

/// `s` with every occurrence of `pat` replaced by `rep`.
pub fn replace_all(s: &Vec<char>, pat: &str, rep: &str) -> (r: Vec<char>)
    ensures
        r@ == replaced(s@, pat@, rep@),
{
    let p = chars_of(pat);
    let rp = chars_of(rep);
    let mut out: Vec<char> = Vec::new();
    let mut i: usize = 0;
    while i < s.len()
        invariant
            i <= s@.len(),
            p@ == pat@,
            rp@ == rep@,
            out@ + replaced_from(s@, pat@, rep@, i as int) == replaced(s@, pat@, rep@),
        decreases s.len() - i,
    {
        if p.len() > 0 && matches_at(s, &p, i) {
            let ghost before = out@;
            extend(&mut out, &rp);
            assert(out@ + replaced_from(s@, pat@, rep@, i + p@.len()) =~= before + replaced_from(
                s@,
                pat@,
                rep@,
                i as int,
            ));
            i = i + p.len();
        } else {
            let ghost before = out@;
            out.push(s[i]);
            assert(out@ + replaced_from(s@, pat@, rep@, i + 1) =~= before + replaced_from(
                s@,
                pat@,
                rep@,
                i as int,
            ));
            i = i + 1;
        }
    }
    assert(out@ =~= out@ + replaced_from(s@, pat@, rep@, i as int));
    out
}

/// The decimal representation of `n` is one or more ASCII digits that
/// spell `n`.
pub proof fn decimal_reads_back(n: nat)
    ensures
        dec(n).len() > 0,
        all_digits(dec(n)),
        digits_value(dec(n)) == n,
        unsigned_value(dec(n)) == Some(n),
    decreases n,
{
    let d = n % 10;
    assert(digit_char(d) as u32 - 48 == d) by {
        assert('0' as u32 == 48 && '1' as u32 == 49 && '2' as u32 == 50 && '3' as u32 == 51
            && '4' as u32 == 52 && '5' as u32 == 53 && '6' as u32 == 54 && '7' as u32 == 55
            && '8' as u32 == 56 && '9' as u32 == 57);
    }
    if n >= 10 {
        decimal_reads_back(n / 10);
        let s = dec(n / 10);
        assert(dec(n) == s.push(digit_char(d)));
        assert(dec(n).drop_last() =~= s);
        assert(dec(n).last() == digit_char(d));
        assert(digits_value(dec(n)) == digits_value(s) * 10 + ((digit_char(d) as u32) - 48) as nat);
        assert forall|i: int| 0 <= i < dec(n).len() implies is_digit(#[trigger] dec(n)[i]) by {
            if i < s.len() {
                assert(dec(n)[i] == s[i]);
            }
        }
        assert(n == (n / 10) * 10 + d);
    } else {
        assert(dec(n) == seq![digit_char(n)]);
        assert(dec(n).drop_last() =~= Seq::<char>::empty());
        assert(dec(n).last() == digit_char(d));
        assert(n % 10 == n);
        assert(digits_value(dec(n)) == digits_value(Seq::<char>::empty()) * 10 + ((digit_char(d) as u32) - 48) as nat);
    }
    assert(dec(n)[0] != '+');
}

/// Scanning a stretch without `sep` up to a `sep` (or the end) yields that
/// stretch as one piece.
pub proof fn split_scan_piece(s: Seq<char>, sep: char, i: int, st: int, j: int)
    requires
        0 <= st <= i <= j <= s.len(),
        forall|k: int| i <= k < j ==> s[k] != sep,
        j == s.len() || s[j] == sep,
    ensures
        split_scan(s, sep, i, st) == seq![s.subrange(st, j)] + if j < s.len() {
            split_scan(s, sep, j + 1, j + 1)
        } else {
            Seq::empty()
        },
    decreases j - i,
{
    if i < j {
        split_scan_piece(s, sep, i + 1, st, j);
    } else if j == s.len() {
        assert(seq![s.subrange(st, j)] + Seq::<Seq<char>>::empty() =~= seq![s.subrange(st, j)]);
    }
}

} // verus!
