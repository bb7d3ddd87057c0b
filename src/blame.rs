//! The Blame Attribution Grouper: per-line attribution read from a source
//! page, commit headers parsed, and runs of lines of one commit merged into
//! one annotated range.
use vstd::prelude::*;

use crate::text::{
    chars_of, dec, decimal, decimal_reads_back, extend, is_digit, parse_u64, parse_usize, pieces,
    push_str, split_scan_piece,
    replace_all, replaced, slice_of, split_char, string_of, trim, trim_of, unsigned_value,
};

verus! {

/// What the commit-info service says of a commit.
#[derive(Clone, Debug)]
pub struct CommitInfo {
    /// Rich text: message, then author and date, with markup.
    pub header: String,
    pub parent: Option<String>,
    pub date: String,
}

/// The attribution of one line.
#[derive(Clone, Debug)]
pub struct BlameInfo {
    pub commit_hash: String,
    /// The file the line came from; `%` stands for the file being viewed.
    pub original_path: String,
    pub original_line: usize,
    pub commit_info: Option<CommitInfo>,
}

/// A commit header taken apart.
#[derive(Clone, Debug)]
pub struct ParsedCommitInfo {
    pub bug_number: Option<u64>,
    pub message: String,
    pub author: String,
    pub date: String,
}

/// A run of displayed lines last changed by one commit.
#[derive(Clone, Debug)]
pub struct CommitRange {
    pub start_line: usize,
    pub end_line: usize,
    pub short_hash: String,
    pub message: String,
}

/// The most commit hashes asked for in one request.
pub const COMMIT_BATCH_SIZE: usize = 50;

/// A `data-blame` attribute, `hash#path#line`, read as (hash, path, line).
pub open spec fn data_blame(s: Seq<char>) -> Option<(Seq<char>, Seq<char>, usize)> {
    let ps = pieces(s, '#');
    if ps.len() == 3 {
        match unsigned_value(ps[2]) {
            Some(v) => if v <= usize::MAX {
                Some((ps[0], ps[1], v as usize))
            } else {
                None
            },
            None => None,
        }
    } else {
        None
    }
}

/// An attribution entry: (displayed line, hash, path, original line).
pub type Entry = (usize, Seq<char>, Seq<char>, usize);

pub open spec fn entry_views(v: Seq<(usize, (String, String, usize))>) -> Seq<Entry> {
    v.map_values(|e: (usize, (String, String, usize))| (e.0, e.1.0@, e.1.1@, e.1.2))
}

/// What a source page holds: for each displayed row in order, the
/// `data-blame` attribute of its blame strip, if any.
pub uninterp spec fn blame_attributes_of(html: Seq<char>) -> Seq<Option<Seq<char>>>;

pub open spec fn attr_views(v: Seq<Option<String>>) -> Seq<Option<Seq<char>>> {
    v.map_values(
        |a: Option<String>|
            match a {
                Some(s) => Some(s@),
                None => None,
            },
    )
}

/// Relies on scraper (`Html::parse_document`, `Selector::parse`,
/// `Html::select`, `ElementRef::select`, `Element::attr`): the rows
/// `div[role='row']` of the page in the order `Html::select` yields them
/// (the node order of the parsed tree), each with the
/// `data-blame` attribute of its first `.blame-strip` element.  The result
/// depends on the page alone.
#[verifier::external_body]
fn row_blame_attributes(html: &str) -> (r: Vec<Option<String>>)
    ensures
        attr_views(r@) == blame_attributes_of(html@),
{
    let document = scraper::Html::parse_document(html);
    let rows = scraper::Selector::parse("div[role='row']").unwrap();
    let strip = scraper::Selector::parse(".blame-strip").unwrap();
    let mut out = Vec::new();
    for row in document.select(&rows) {
        let attr = match row.select(&strip).next() {
            Some(e) => e.value().attr("data-blame"),
            None => None,
        };
        out.push(attr.map(String::from));
    }
    out
}

/// The entries that the attributes of rows from `k` on give, rows counted
/// from line 1: a row without an attribute, or with one that does not read,
/// gives none.
pub open spec fn entries_from_attrs(attrs: Seq<Option<Seq<char>>>) -> Seq<Entry>
    decreases attrs.len(),
{
    if attrs.len() == 0 {
        seq![]
    } else {
        let line = attrs.len() as int;
        entries_from_attrs(attrs.drop_last()) + match attrs.last() {
            Some(a) => match data_blame(a) {
                Some(d) => if line <= usize::MAX {
                    seq![(line as usize, d.0, d.1, d.2)]
                } else {
                    seq![]
                },
                None => seq![],
            },
            None => seq![],
        }
    }
}

/// The keys of requested lines.
pub open spec fn requested(lines: Seq<usize>, e: Entry) -> bool {
    lines.contains(e.0)
}

/// The entries whose line was requested, in order.
pub open spec fn filtered_entries(es: Seq<Entry>, lines: Seq<usize>) -> Seq<Entry>
    decreases es.len(),
{
    if es.len() == 0 {
        seq![]
    } else {
        filtered_entries(es.drop_last(), lines) + if requested(lines, es.last()) {
            seq![es.last()]
        } else {
            seq![]
        }
    }
}

/// The distinct hashes of `es`, in order of first appearance.
pub open spec fn distinct_hashes(es: Seq<Entry>) -> Seq<Seq<char>>
    decreases es.len(),
{
    if es.len() == 0 {
        seq![]
    } else {
        let prior = distinct_hashes(es.drop_last());
        if prior.contains(es.last().1) {
            prior
        } else {
            prior.push(es.last().1)
        }
    }
}

/// `hashes` cut into batches of `COMMIT_BATCH_SIZE`, in order.
pub open spec fn batches_of(hashes: Seq<Seq<char>>) -> Seq<Seq<Seq<char>>>
    decreases hashes.len(),
{
    if hashes.len() <= COMMIT_BATCH_SIZE {
        if hashes.len() == 0 {
            seq![]
        } else {
            seq![hashes]
        }
    } else {
        seq![hashes.take(COMMIT_BATCH_SIZE as int)] + batches_of(
            hashes.skip(COMMIT_BATCH_SIZE as int),
        )
    }
}

/// The index of `h` in `hashes`, if there.
pub open spec fn index_in(hashes: Seq<Seq<char>>, h: Seq<char>, i: int) -> int
    decreases hashes.len() - i,
{
    if i < 0 || i >= hashes.len() {
        -1
    } else if hashes[i] == h {
        i
    } else {
        index_in(hashes, h, i + 1)
    }
}

/// The metadata of the commit `h`: the record at `h`'s position among the
/// requested hashes, where the service returned one.
pub open spec fn info_for(hashes: Seq<Seq<char>>, infos: Seq<CommitInfo>, h: Seq<char>) -> Option<
    CommitInfo,
> {
    let k = index_in(hashes, h, 0);
    if 0 <= k < infos.len() {
        Some(infos[k])
    } else {
        None
    }
}

impl crate::client::SearchfoxClient {
    /// Reads a `data-blame` attribute, `hash#path#line`; `%` as the path
    /// stands for the file being viewed.  `None` unless there are exactly
    /// three fields and the last is a line number.
    pub fn parse_data_blame(data: &str) -> (r: Option<(String, String, usize)>)
        ensures
            match r {
                Some(t) => data_blame(data@) == Some((t.0@, t.1@, t.2)),
                None => data_blame(data@) is None,
            },
    {
        let ps = split_char(&chars_of(data), '#');
        let ghost pv = ps@.map_values(|p: Vec<char>| p@);
        if ps.len() != 3 {
            return None;
        }
        assert(pv[2] == ps@[2]@ && pv[0] == ps@[0]@ && pv[1] == ps@[1]@);
        match parse_usize(&ps[2]) {
            Some(n) => Some((string_of(&ps[0]), string_of(&ps[1]), n)),
            None => None,
        }
    }

    /// The attribution of each displayed line of a source page, in line
    /// order: (line, (hash, path, original line)).
    pub fn parse_blame_from_html(html: &str) -> (r: Vec<(usize, (String, String, usize))>)
        ensures
            entry_views(r@) == entries_from_attrs(blame_attributes_of(html@)),
    {
        let attrs = row_blame_attributes(html);
        blame_from_attributes(&attrs)
    }
}

/// The attribution that the rows' `data-blame` attributes give, row `k`
/// being line `k + 1`.
pub fn blame_from_attributes(attrs: &Vec<Option<String>>) -> (r: Vec<
    (usize, (String, String, usize)),
>)
    ensures
        entry_views(r@) == entries_from_attrs(attr_views(attrs@)),
{
    let ghost av = attr_views(attrs@);
    let mut out: Vec<(usize, (String, String, usize))> = Vec::new();
    let mut k: usize = 0;
    while k < attrs.len()
        invariant
            k <= attrs@.len(),
            av == attr_views(attrs@),
            entry_views(out@) == entries_from_attrs(av.take(k as int)),
        decreases attrs.len() - k,
    {
        assert(av.take(k + 1).drop_last() =~= av.take(k as int));
        assert(av.take(k + 1).last() == av[k as int]);
        let ghost before = entry_views(out@);
        match &attrs[k] {
            Some(a) => {
                match crate::client::SearchfoxClient::parse_data_blame(a.as_str()) {
                    Some(t) => {
                        let ghost tv = (t.0@, t.1@, t.2);
                        out.push((k + 1, t));
                        assert(entry_views(out@) =~= before.push(((k + 1) as usize, tv.0, tv.1, tv.2)));
                    },
                    None => {},
                }
            },
            None => {},
        }
        assert(entry_views(out@) =~= entries_from_attrs(av.take(k + 1)));
        k = k + 1;
    }
    assert(av.take(attrs@.len() as int) =~= av);
    out
}

/// The attribution of the requested lines only.
pub fn filter_blame(entries: &Vec<(usize, (String, String, usize))>, lines: &[usize]) -> (r: Vec<
    (usize, (String, String, usize)),
>)
    ensures
        entry_views(r@) == filtered_entries(entry_views(entries@), lines@),
{
    let ghost ev = entry_views(entries@);
    let mut out: Vec<(usize, (String, String, usize))> = Vec::new();
    let mut k: usize = 0;
    while k < entries.len()
        invariant
            k <= entries@.len(),
            ev == entry_views(entries@),
            entry_views(out@) == filtered_entries(ev.take(k as int), lines@),
        decreases entries.len() - k,
    {
        assert(ev.take(k + 1).drop_last() =~= ev.take(k as int));
        assert(ev.take(k + 1).last() == ev[k as int]);
        let line = entries[k].0;
        let mut found = false;
        let mut j: usize = 0;
        while j < lines.len()
            invariant
                j <= lines@.len(),
                found == exists|t: int| 0 <= t < j && lines@[t] == line,
            decreases lines.len() - j,
        {
            if lines[j] == line {
                found = true;
            }
            j = j + 1;
        }
        let ghost before = entry_views(out@);
        if found {
            let e = &entries[k];
            out.push((e.0, (e.1.0.clone(), e.1.1.clone(), e.1.2)));
            assert(entry_views(out@) =~= before.push(ev[k as int]));
        }
        assert(entry_views(out@) =~= filtered_entries(ev.take(k + 1), lines@));
        k = k + 1;
    }
    assert(ev.take(entries@.len() as int) =~= ev);
    out
}

pub open spec fn string_views(v: Seq<String>) -> Seq<Seq<char>> {
    v.map_values(|s: String| s@)
}

/// The distinct commit hashes of the entries, in order of first appearance.
pub fn unique_hashes(entries: &Vec<(usize, (String, String, usize))>) -> (r: Vec<String>)
    ensures
        string_views(r@) == distinct_hashes(entry_views(entries@)),
{
    let ghost ev = entry_views(entries@);
    let mut out: Vec<String> = Vec::new();
    let mut k: usize = 0;
    while k < entries.len()
        invariant
            k <= entries@.len(),
            ev == entry_views(entries@),
            string_views(out@) == distinct_hashes(ev.take(k as int)),
        decreases entries.len() - k,
    {
        assert(ev.take(k + 1).drop_last() =~= ev.take(k as int));
        assert(ev.take(k + 1).last() == ev[k as int]);
        let h = chars_of(entries[k].1.0.as_str());
        let ghost prior = string_views(out@);
        let mut seen = false;
        let mut j: usize = 0;
        while j < out.len()
            invariant
                j <= out@.len(),
                prior == string_views(out@),
                seen == exists|t: int| 0 <= t < j && prior[t] == h@,
            decreases out.len() - j,
        {
            assert(prior[j as int] == out@[j as int]@);
            if crate::text::eq_chars(&chars_of(out[j].as_str()), &h) {
                seen = true;
            }
            j = j + 1;
        }
        assert(seen == prior.contains(h@));
        if !seen {
            out.push(string_of(&h));
            assert(string_views(out@) =~= prior.push(h@));
        }
        k = k + 1;
    }
    assert(ev.take(entries@.len() as int) =~= ev);
    out
}

/// The hashes cut into request batches of at most `COMMIT_BATCH_SIZE`.
pub fn commit_batches(hashes: &Vec<String>) -> (r: Vec<Vec<String>>)
    ensures
        r@.map_values(|b: Vec<String>| string_views(b@)) == batches_of(string_views(hashes@)),
{
    let ghost hv = string_views(hashes@);
    let mut out: Vec<Vec<String>> = Vec::new();
    let mut start: usize = 0;
    assert(hv.skip(0) =~= hv);
    while start < hashes.len()
        invariant
            start <= hashes@.len(),
            hv == string_views(hashes@),
            out@.map_values(|b: Vec<String>| string_views(b@)) + batches_of(hv.skip(start as int))
                == batches_of(hv),
        decreases hashes.len() - start,
    {
        let end = if hashes.len() - start > COMMIT_BATCH_SIZE {
            start + COMMIT_BATCH_SIZE
        } else {
            hashes.len()
        };
        let mut batch: Vec<String> = Vec::new();
        let mut i: usize = start;
        while i < end
            invariant
                start <= i <= end <= hashes@.len(),
                hv == string_views(hashes@),
                string_views(batch@) == hv.subrange(start as int, i as int),
            decreases end - i,
        {
            assert(hv[i as int] == hashes@[i as int]@);
            let ghost before = string_views(batch@);
            batch.push(hashes[i].clone());
            assert(string_views(batch@) =~= before.push(hv[i as int]));
            assert(string_views(batch@) =~= hv.subrange(start as int, i + 1));
            i = i + 1;
        }
        let ghost rest = hv.skip(start as int);
        let ghost before = out@.map_values(|b: Vec<String>| string_views(b@));
        assert(string_views(batch@) == hv.subrange(start as int, end as int));
        out.push(batch);
        assert(out@.map_values(|b: Vec<String>| string_views(b@)) =~= before.push(hv.subrange(start as int, end as int)));
        proof {
            if rest.len() > COMMIT_BATCH_SIZE {
                assert(rest.take(COMMIT_BATCH_SIZE as int) =~= hv.subrange(start as int, end as int));
                assert(rest.skip(COMMIT_BATCH_SIZE as int) =~= hv.skip(end as int));
            } else {
                assert(rest =~= hv.subrange(start as int, end as int));
                assert(hv.skip(end as int).len() == 0);
            }
        }
        start = end;
    }
    assert(out@.map_values(|b: Vec<String>| string_views(b@)) =~= out@.map_values(|b: Vec<String>| string_views(b@)) + batches_of(hv.skip(start as int)));
    out
}

/// The index of the first `>` in `s` at or after `i`, or `s.len()`.
pub open spec fn next_gt(s: Seq<char>, i: int) -> int
    decreases s.len() - i,
{
    if i < 0 || i >= s.len() {
        s.len() as int
    } else if s[i] == '>' {
        i
    } else {
        next_gt(s, i + 1)
    }
}

/// `s[i..]` without the matches of `<[^>]+>`: leftmost first, a match at a
/// `<` running to the first `>` after it where at least one character lies
/// between them.
pub open spec fn without_tags_from(s: Seq<char>, i: int) -> Seq<char>
    decreases s.len() - i,
{
    if i < 0 || i >= s.len() {
        seq![]
    } else if s[i] == '<' && next_gt(s, i + 1) < s.len() && next_gt(s, i + 1) >= i + 2 {
        without_tags_from(s, next_gt(s, i + 1) + 1)
    } else {
        seq![s[i]] + without_tags_from(s, i + 1)
    }
}

pub open spec fn without_tags(s: Seq<char>) -> Seq<char> {
    without_tags_from(s, 0)
}

/// Relies on regex's `Regex::replace_all` with the pattern `<[^>]+>` and an
/// empty replacement: every leftmost-first, non-overlapping match removed.
#[verifier::external_body]
fn remove_tags(html: &str) -> (r: String)
    ensures
        r@ == without_tags(html@),
{
    regex::Regex::new("<[^>]+>").unwrap().replace_all(html, "").into_owned()
}

/// The common entities decoded, one after the other.
pub open spec fn decode_entities(s: Seq<char>) -> Seq<char> {
    replaced(
        replaced(
            replaced(replaced(replaced(s, "&lt;"@, "<"@), "&gt;"@, ">"@), "&amp;"@, "&"@),
            "&quot;"@,
            "\""@,
        ),
        "&#39;"@,
        "'"@,
    )
}

/// Header text: markup removed, entities decoded.
pub open spec fn stripped(html: Seq<char>) -> Seq<char> {
    decode_entities(without_tags(html))
}

/// Removes markup tags from `html` and decodes the common entities.
pub fn strip_html_tags(html: &str) -> (r: String)
    ensures
        r@ == stripped(html@),
{
    let t = chars_of(remove_tags(html).as_str());
    let t = replace_all(&t, "&lt;", "<");
    let t = replace_all(&t, "&gt;", ">");
    let t = replace_all(&t, "&amp;", "&");
    let t = replace_all(&t, "&quot;", "\"");
    let t = replace_all(&t, "&#39;", "'");
    string_of(&t)
}

/// The digits that follow the first `bug` reference of `text` (a `Bug` or
/// `bug`, white space, then digits), as the pattern `[Bb]ug\s+(\d+)`
/// captures them.
pub uninterp spec fn bug_digits_of(text: Seq<char>) -> Option<Seq<char>>;

/// Relies on regex's `Regex::captures` with the pattern `[Bb]ug\s+(\d+)`:
/// the first group of the first match.  The result depends on the text alone.
#[verifier::external_body]
fn bug_digits(text: &str) -> (r: Option<String>)
    ensures
        match r {
            Some(d) => bug_digits_of(text@) == Some(d@),
            None => bug_digits_of(text@) is None,
        },
{
    let caps = regex::Regex::new(r"[Bb]ug\s+(\d+)").unwrap().captures(text)?;
    Some(caps.get(1)?.as_str().to_string())
}

/// A bug number read from captured digits: `None` where there are none or
/// they do not make a `u64`.
pub open spec fn bug_number_of(digits: Option<Seq<char>>) -> Option<u64> {
    match digits {
        Some(d) => match unsigned_value(d) {
            Some(v) => if v <= u64::MAX {
                Some(v as u64)
            } else {
                None
            },
            None => None,
        },
        None => None,
    }
}

/// The bug number that captured digits give.
pub fn bug_number_from_digits(digits: Option<&str>) -> (r: Option<u64>)
    ensures
        r == bug_number_of(
            match digits {
                Some(d) => Some(d@),
                None => None,
            },
        ),
{
    match digits {
        Some(d) => parse_u64(&chars_of(d)),
        None => None,
    }
}

/// The bug number of the first bug reference in `text`.
pub fn extract_bug_number(text: &str) -> (r: Option<u64>)
    ensures
        r == bug_number_of(bug_digits_of(text@)),
{
    match bug_digits(text) {
        Some(d) => bug_number_from_digits(Some(d.as_str())),
        None => bug_number_from_digits(None),
    }
}

/// The message of a header's first line: what follows its first `:`
/// (a `Bug NNN:` prefix), else the whole line, trimmed.
pub open spec fn message_of(first: Seq<char>) -> Seq<char> {
    let ps = pieces(first, ':');
    if ps.len() > 1 {
        trim(first.subrange(ps[0].len() + 1int, first.len() as int))
    } else {
        trim(first)
    }
}

/// `Author, Date` taken apart at the first comma, both trimmed; all of it
/// the author where there is no comma.
pub open spec fn author_date(t: Seq<char>) -> (Seq<char>, Seq<char>) {
    let ps = pieces(t, ',');
    if ps.len() >= 2 {
        (trim(ps[0]), trim(t.subrange(ps[0].len() + 1int, t.len() as int)))
    } else {
        (trim(t), Seq::empty())
    }
}

proof fn first_piece_fits(s: Seq<char>, sep: char, i: int, st: int)
    requires
        0 <= st <= i <= s.len(),
    ensures
        crate::text::split_scan(s, sep, i, st).len() >= 1,
        crate::text::split_scan(s, sep, i, st).len() > 1 ==> st + crate::text::split_scan(
            s,
            sep,
            i,
            st,
        )[0].len() < s.len() && s[st + crate::text::split_scan(s, sep, i, st)[0].len()] == sep,
    decreases s.len() - i,
{
    if i < s.len() {
        if s[i] != sep {
            first_piece_fits(s, sep, i + 1, st);
        } else {
            first_piece_fits(s, sep, i + 1, i + 1);
        }
    }
}

/// Splits `Author, Date` at the first comma.
pub fn parse_author_date(text: &str) -> (r: (String, String))
    ensures
        (r.0@, r.1@) == author_date(text@),
{
    let t = chars_of(text);
    let ps = split_char(&t, ',');
    let ghost pv = ps@.map_values(|p: Vec<char>| p@);
    proof {
        first_piece_fits(t@, ',', 0, 0);
    }
    if ps.len() >= 2 {
        assert(pv[0] == ps@[0]@);
        assert(pv.len() == ps@.len());
        assert(pv == crate::text::split_scan(t@, ',', 0, 0));
        let first_len = ps[0].len();
        let n = t.len();
        assert(first_len < n);
        let rest = slice_of(&t, first_len + 1, n);
        (string_of(&trim_of(&ps[0])), string_of(&trim_of(&rest)))
    } else {
        (string_of(&trim_of(&t)), String::new())
    }
}

/// A commit header taken apart: (bug number, message, author, date).
pub open spec fn parsed_header(header: Seq<char>) -> (Option<u64>, Seq<char>, Seq<char>, Seq<char>) {
    let text = stripped(header);
    let ps = pieces(text, '\n');
    let ad = if ps.len() > 1 {
        author_date(ps[1])
    } else {
        (Seq::empty(), Seq::empty())
    };
    (bug_number_of(bug_digits_of(text)), message_of(ps[0]), ad.0, ad.1)
}

/// Takes a commit header apart: markup stripped, the bug number of its
/// first bug reference, the message of its first line (after the first
/// `:`), and author and date from its second line.
pub fn parse_commit_header(header: &str) -> (r: ParsedCommitInfo)
    ensures
        (r.bug_number, r.message@, r.author@, r.date@) == parsed_header(header@),
{
    let text = strip_html_tags(header);
    let bug_number = extract_bug_number(text.as_str());
    let t = chars_of(text.as_str());
    let ps = split_char(&t, '\n');
    let ghost pv = ps@.map_values(|p: Vec<char>| p@);
    proof {
        first_piece_fits(t@, '\n', 0, 0);
    }
    assert(pv[0] == ps@[0]@);
    let first = &ps[0];
    let colon = split_char(first, ':');
    proof {
        first_piece_fits(first@, ':', 0, 0);
    }
    let message = if colon.len() > 1 {
        assert(colon@.map_values(|p: Vec<char>| p@)[0] == colon@[0]@);
        trim_of(&slice_of(first, colon[0].len() + 1, first.len()))
    } else {
        trim_of(first)
    };
    let (author, date) = if ps.len() > 1 {
        assert(pv[1] == ps@[1]@);
        parse_author_date(string_of(&ps[1]).as_str())
    } else {
        (String::new(), String::new())
    };
    ParsedCommitInfo { bug_number, message: string_of(&message), author, date }
}

/// A copy of a commit record, field by field.
fn copy_info(c: &CommitInfo) -> (r: CommitInfo)
    ensures
        r.header@ == c.header@,
        r.date@ == c.date@,
        match (r.parent, c.parent) {
            (Some(a), Some(b)) => a@ == b@,
            (None, None) => true,
            _ => false,
        },
{
    let parent = match &c.parent {
        Some(p) => Some(p.clone()),
        None => None,
    };
    CommitInfo { header: c.header.clone(), parent, date: c.date.clone() }
}

/// The position of `h` among `hashes`.
fn position_of(hashes: &Vec<String>, h: &Vec<char>) -> (r: Option<usize>)
    ensures
        match r {
            Some(k) => k < hashes@.len() && index_in(string_views(hashes@), h@, 0) == k,
            None => index_in(string_views(hashes@), h@, 0) == -1,
        },
{
    let ghost hv = string_views(hashes@);
    let mut k: usize = 0;
    while k < hashes.len()
        invariant
            k <= hashes@.len(),
            hv == string_views(hashes@),
            index_in(hv, h@, k as int) == index_in(hv, h@, 0),
        decreases hashes.len() - k,
    {
        assert(hv[k as int] == hashes@[k as int]@);
        if crate::text::eq_chars(&chars_of(hashes[k].as_str()), h) {
            return Some(k);
        }
        k = k + 1;
    }
    None
}

/// The attribution of the entries with the metadata of their commits
/// attached: `infos[k]` belongs to `hashes[k]` (the order of the request),
/// and an entry whose commit has no record gets none.
pub fn attach_commit_info(
    entries: &Vec<(usize, (String, String, usize))>,
    hashes: &Vec<String>,
    infos: &Vec<CommitInfo>,
) -> (r: Vec<(usize, BlameInfo)>)
    ensures
        r@.len() == entries@.len(),
        forall|k: int|
            0 <= k < r@.len() ==> {
                let e = entries@[k];
                let b = (#[trigger] r@[k]).1;
                &&& r@[k].0 == e.0
                &&& b.commit_hash@ == e.1.0@
                &&& b.original_path@ == e.1.1@
                &&& b.original_line == e.1.2
                &&& match (b.commit_info, info_for(string_views(hashes@), infos@, e.1.0@)) {
                    (Some(a), Some(c)) => a.header@ == c.header@ && a.date@ == c.date@ && match (
                        a.parent,
                        c.parent,
                    ) {
                        (Some(x), Some(y)) => x@ == y@,
                        (None, None) => true,
                        _ => false,
                    },
                    (None, None) => true,
                    _ => false,
                }
            },
{
    let mut out: Vec<(usize, BlameInfo)> = Vec::new();
    let mut k: usize = 0;
    while k < entries.len()
        invariant
            k <= entries@.len(),
            out@.len() == k,
            forall|t: int|
                0 <= t < k ==> {
                    let e = entries@[t];
                    let b = (#[trigger] out@[t]).1;
                    &&& out@[t].0 == e.0
                    &&& b.commit_hash@ == e.1.0@
                    &&& b.original_path@ == e.1.1@
                    &&& b.original_line == e.1.2
                    &&& match (b.commit_info, info_for(string_views(hashes@), infos@, e.1.0@)) {
                        (Some(a), Some(c)) => a.header@ == c.header@ && a.date@ == c.date@
                            && match (a.parent, c.parent) {
                            (Some(x), Some(y)) => x@ == y@,
                            (None, None) => true,
                            _ => false,
                        },
                        (None, None) => true,
                        _ => false,
                    }
                },
        decreases entries.len() - k,
    {
        let e = &entries[k];
        let h = chars_of(e.1.0.as_str());
        let info = match position_of(hashes, &h) {
            Some(p) => if p < infos.len() {
                Some(copy_info(&infos[p]))
            } else {
                None
            },
            None => None,
        };
        let b = BlameInfo {
            commit_hash: e.1.0.clone(),
            original_path: e.1.1.clone(),
            original_line: e.1.2,
            commit_info: info,
        };
        out.push((e.0, b));
        k = k + 1;
    }
    out
}

/// The first 8 characters of a hash (all of a shorter one).
pub open spec fn short_hash(h: Seq<char>) -> Seq<char> {
    if h.len() <= 8 {
        h
    } else {
        h.take(8)
    }
}

/// `(line N)` for one line, `(lines N-M)` for a run.
pub open spec fn range_label(start: usize, end: usize) -> Seq<char> {
    if start == end {
        "(line "@ + dec(start as nat) + ")"@
    } else {
        "(lines "@ + dec(start as nat) + "-"@ + dec(end as nat) + ")"@
    }
}

/// The summary of a commit: `Bug N: ` where the header names a bug, the
/// message, then `(author, date)` where the header names an author.
pub open spec fn summary_of(info: Option<CommitInfo>) -> Seq<char> {
    match info {
        Some(c) => {
            let p = parsed_header(c.header@);
            (match p.0 {
                Some(n) => "Bug "@ + dec(n as nat) + ": "@,
                None => Seq::empty(),
            }) + p.1 + if p.2.len() > 0 {
                " ("@ + p.2 + ", "@ + p.3 + ")"@
            } else {
                Seq::empty()
            }
        },
        None => Seq::empty(),
    }
}

/// The annotation line of a range.
pub open spec fn annotation_text(start: usize, end: usize, hash: Seq<char>, summary: Seq<char>) -> Seq<char> {
    "       "@ + short_hash(hash) + " "@ + summary + " "@ + range_label(start, end)
}

impl CommitRange {
    /// The annotation line: short hash, summary and the range's lines.
    pub fn annotation(&self) -> (r: String)
        ensures
            r@ == "       "@ + self.short_hash@ + " "@ + self.message@ + " "@ + range_label(
                self.start_line,
                self.end_line,
            ),
    {
        let mut out: Vec<char> = Vec::new();
        push_str(&mut out, "       ");
        push_str(&mut out, self.short_hash.as_str());
        push_str(&mut out, " ");
        push_str(&mut out, self.message.as_str());
        push_str(&mut out, " ");
        let ghost before = out@;
        if self.start_line == self.end_line {
            push_str(&mut out, "(line ");
            extend(&mut out, &decimal(self.start_line as u128));
            push_str(&mut out, ")");
        } else {
            push_str(&mut out, "(lines ");
            extend(&mut out, &decimal(self.start_line as u128));
            push_str(&mut out, "-");
            extend(&mut out, &decimal(self.end_line as u128));
            push_str(&mut out, ")");
        }
        assert(out@ =~= before + range_label(self.start_line, self.end_line));
        string_of(&out)
    }
}

/// The index of the first attribution of line `lno`, or -1.
pub open spec fn blame_index(blame: Seq<(usize, BlameInfo)>, lno: usize, i: int) -> int
    decreases blame.len() - i,
{
    if i < 0 || i >= blame.len() {
        -1
    } else if blame[i].0 == lno {
        i
    } else {
        blame_index(blame, lno, i + 1)
    }
}

/// The commit hash of displayed line `i`, where it has an attribution.
pub open spec fn line_hash(rendered: Seq<(usize, String)>, blame: Seq<(usize, BlameInfo)>, i: int) -> Option<Seq<char>> {
    let k = blame_index(blame, rendered[i].0, 0);
    if 0 <= k < blame.len() {
        Some(blame[k].1.commit_hash@)
    } else {
        None
    }
}

/// Line `i` carries on the run of line `i - 1`: both attributed to one commit.
pub open spec fn continues_run(rendered: Seq<(usize, String)>, blame: Seq<(usize, BlameInfo)>, i: int) -> bool {
    0 < i < rendered.len() && line_hash(rendered, blame, i) is Some && line_hash(rendered, blame, i - 1)
        == line_hash(rendered, blame, i)
}

/// The first line of the run that line `i` belongs to.
pub open spec fn run_start(rendered: Seq<(usize, String)>, blame: Seq<(usize, BlameInfo)>, i: int) -> int
    decreases i,
{
    if i > 0 && continues_run(rendered, blame, i) {
        run_start(rendered, blame, i - 1)
    } else {
        i
    }
}

/// Line `i` ends a run: it is attributed, and the next line is not of the
/// same commit (or there is none).
pub open spec fn closes_run(rendered: Seq<(usize, String)>, blame: Seq<(usize, BlameInfo)>, i: int) -> bool {
    line_hash(rendered, blame, i) is Some && !continues_run(rendered, blame, i + 1)
}

/// What displayed line `i` contributes: the line, then, where it ends a
/// run, the run's one annotation.
pub open spec fn overlay_line(rendered: Seq<(usize, String)>, blame: Seq<(usize, BlameInfo)>, i: int) -> Seq<Seq<char>> {
    let k = blame_index(blame, rendered[i].0, 0);
    seq![rendered[i].1@] + if closes_run(rendered, blame, i) {
        seq![annotation_text(rendered[run_start(rendered, blame, i)].0, rendered[i].0, blame[k].1.commit_hash@, summary_of(blame[k].1.commit_info))]
    } else {
        seq![]
    }
}

/// The overlay of the first `n` displayed lines.
pub open spec fn overlay(rendered: Seq<(usize, String)>, blame: Seq<(usize, BlameInfo)>, n: int) -> Seq<Seq<char>>
    decreases n,
{
    if n <= 0 {
        seq![]
    } else {
        overlay(rendered, blame, n - 1) + overlay_line(rendered, blame, n - 1)
    }
}

fn blame_index_exec(blame: &Vec<(usize, BlameInfo)>, lno: usize) -> (r: Option<usize>)
    ensures
        match r {
            Some(k) => k < blame@.len() && blame_index(blame@, lno, 0) == k,
            None => blame_index(blame@, lno, 0) == -1,
        },
{
    let mut k: usize = 0;
    while k < blame.len()
        invariant
            k <= blame@.len(),
            blame_index(blame@, lno, k as int) == blame_index(blame@, lno, 0),
        decreases blame.len() - k,
    {
        if blame[k].0 == lno {
            return Some(k);
        }
        k = k + 1;
    }
    None
}

proof fn blame_index_range(blame: Seq<(usize, BlameInfo)>, lno: usize, i: int)
    ensures
        blame_index(blame, lno, i) == -1 || (0 <= blame_index(blame, lno, i) < blame.len()),
    decreases blame.len() - i,
{
    if 0 <= i < blame.len() && blame[i].0 != lno {
        blame_index_range(blame, lno, i + 1);
    }
}

/// The commit hash of a displayed line, if attributed.
fn line_hash_exec(rendered: &Vec<(usize, String)>, blame: &Vec<(usize, BlameInfo)>, i: usize) -> (r: Option<Vec<char>>)
    requires
        i < rendered@.len(),
    ensures
        match r {
            Some(h) => line_hash(rendered@, blame@, i as int) == Some(h@),
            None => line_hash(rendered@, blame@, i as int) is None,
        },
{
    proof {
        blame_index_range(blame@, rendered@[i as int].0, 0);
    }
    match blame_index_exec(blame, rendered[i].0) {
        Some(k) => Some(chars_of(blame[k].1.commit_hash.as_str())),
        None => None,
    }
}

fn same_hash(a: &Option<Vec<char>>, b: &Option<Vec<char>>) -> (r: bool)
    ensures
        r == (match (a, b) {
            (Some(x), Some(y)) => x@ == y@,
            (None, None) => true,
            _ => false,
        }),
{
    match (a, b) {
        (Some(x), Some(y)) => crate::text::eq_chars(x, y),
        (None, None) => true,
        _ => false,
    }
}

/// The summary of a commit record, as `summary_of` states it.
fn summary_exec(info: &Option<CommitInfo>) -> (r: String)
    ensures
        r@ == summary_of(*info),
{
    match info {
        Some(c) => {
            let p = parse_commit_header(c.header.as_str());
            let mut out: Vec<char> = Vec::new();
            match p.bug_number {
                Some(n) => {
                    push_str(&mut out, "Bug ");
                    extend(&mut out, &decimal(n as u128));
                    push_str(&mut out, ": ");
                },
                None => {},
            }
            let ghost a = out@;
            push_str(&mut out, p.message.as_str());
            let ghost b = out@;
            if chars_of(p.author.as_str()).len() > 0 {
                push_str(&mut out, " (");
                push_str(&mut out, p.author.as_str());
                push_str(&mut out, ", ");
                push_str(&mut out, p.date.as_str());
                push_str(&mut out, ")");
            }
            assert(out@ =~= summary_of(*info));
            string_of(&out)
        },
        None => String::new(),
    }
}

fn short_hash_exec(h: &str) -> (r: String)
    ensures
        r@ == short_hash(h@),
{
    let c = chars_of(h);
    if c.len() <= 8 {
        string_of(&c)
    } else {
        string_of(&slice_of(&c, 0, 8))
    }
}

/// Overlays attribution on displayed lines (line number, rendered text):
/// each run of consecutive lines attributed to one commit is followed by
/// one annotation line naming the commit and `(line N)` or `(lines N-M)`;
/// a run closes where the commit changes, at a line without attribution,
/// or at the end.  Lines without attribution pass through alone.
pub fn overlay_blame(rendered: &Vec<(usize, String)>, blame: &Vec<(usize, BlameInfo)>) -> (r: Vec<
    String,
>)
    ensures
        string_views(r@) == overlay(rendered@, blame@, rendered@.len() as int),
{
    let mut out: Vec<String> = Vec::new();
    let mut rs: usize = 0;
    let mut prev: Option<Vec<char>> = None;
    let mut i: usize = 0;
    while i < rendered.len()
        invariant
            i <= rendered@.len(),
            string_views(out@) == overlay(rendered@, blame@, i as int),
            i > 0 ==> rs == run_start(rendered@, blame@, i - 1),
            i > 0 ==> rs < i,
            i > 0 ==> match prev {
                Some(h) => line_hash(rendered@, blame@, i - 1) == Some(h@),
                None => line_hash(rendered@, blame@, i - 1) is None,
            },
        decreases rendered.len() - i,
    {
        let h = line_hash_exec(rendered, blame, i);
        let cont = i > 0 && h.is_some() && same_hash(&prev, &h);
        assert(cont == continues_run(rendered@, blame@, i as int));
        if !cont {
            rs = i;
        }
        assert(rs == run_start(rendered@, blame@, i as int));
        let ghost before = string_views(out@);
        out.push(rendered[i].1.clone());
        let next_cont = if i + 1 < rendered.len() {
            let hn = line_hash_exec(rendered, blame, i + 1);
            hn.is_some() && same_hash(&h, &hn)
        } else {
            false
        };
        assert(next_cont == continues_run(rendered@, blame@, i + 1));
        let ghost mid = string_views(out@);
        assert(mid =~= before + seq![rendered@[i as int].1@]);
        if h.is_some() && !next_cont {
            proof {
                blame_index_range(blame@, rendered@[i as int].0, 0);
            }
            match blame_index_exec(blame, rendered[i].0) {
                Some(k) => {
                    let info = &blame[k].1;
                    let range = CommitRange {
                        start_line: rendered[rs].0,
                        end_line: rendered[i].0,
                        short_hash: short_hash_exec(info.commit_hash.as_str()),
                        message: summary_exec(&info.commit_info),
                    };
                    let a = range.annotation();
                    out.push(a);
                    assert(string_views(out@) =~= mid.push(a@));
                },
                None => {},
            }
        }
        assert(string_views(out@) =~= before + overlay_line(rendered@, blame@, i as int));
        prev = h;
        i = i + 1;
    }
    out
}

/// A run never spans two commits: every line from the start of the run of
/// line `i` through line `i` is attributed to the commit of line `i`.
pub proof fn run_is_one_commit(
    rendered: Seq<(usize, String)>,
    blame: Seq<(usize, BlameInfo)>,
    i: int,
    j: int,
)
    requires
        0 <= i < rendered.len(),
        line_hash(rendered, blame, i) is Some,
        run_start(rendered, blame, i) <= j <= i,
    ensures
        line_hash(rendered, blame, j) == line_hash(rendered, blame, i),
    decreases i,
{
    if j < i {
        assert(continues_run(rendered, blame, i));
        run_is_one_commit(rendered, blame, i - 1, j);
    }
}

/// An attribute made of a hash without `#`, the same-file sentinel `%` and a
/// line number reads back as exactly those three: the sentinel is returned
/// as it is, for the caller to resolve.
pub proof fn data_blame_keeps_sentinel(h: Seq<char>, n: usize)
    requires
        forall|i: int| 0 <= i < h.len() ==> h[i] != '#',
    ensures
        data_blame(h + "#%#"@ + dec(n as nat)) == Some((h, "%"@, n)),
{
    reveal_strlit("#%#");
    reveal_strlit("%");
    let d = dec(n as nat);
    decimal_reads_back(n as nat);
    let s = h + "#%#"@ + d;
    let a = h.len() as int;
    assert(s[a] == '#' && s[a + 1] == '%' && s[a + 2] == '#');
    assert forall|k: int| 0 <= k < a implies s[k] != '#' by {
        assert(s[k] == h[k]);
    }
    assert forall|k: int| a + 3 <= k < s.len() implies s[k] != '#' by {
        assert(s[k] == d[k - a - 3]);
        assert(is_digit(d[k - a - 3]));
    }
    split_scan_piece(s, '#', 0, 0, a);
    split_scan_piece(s, '#', a + 1, a + 1, a + 2);
    split_scan_piece(s, '#', a + 3, a + 3, s.len() as int);
    let ps = pieces(s, '#');
    assert(ps =~= seq![s.subrange(0, a), s.subrange(a + 1, a + 2), s.subrange(a + 3, s.len() as int)]);
    assert(s.subrange(0, a) =~= h);
    assert(s.subrange(a + 1, a + 2) =~= "%"@);
    assert(s.subrange(a + 3, s.len() as int) =~= d);
}

} // verus!
