//! The Symbol Location Resolver: picks the likely definition sites of a
//! symbol out of a search response.
use vstd::prelude::*;

use crate::search::{language_ok, SearchOptions};
use crate::text::{
    chars_of, eq_chars, has_prefix, has_sub, has_suffix, lower_of, lowercase, push_str,
    slice_of, trim_end, trim_end_of,
};
use crate::types::{is_metadata_key, metadata_key, File, Line, ResultGroup, SearchfoxResponse};
use crate::utils::{begins, finishes, has_text};

verus! {

/// A candidate location: (path, line number).
pub type Cand = (Seq<char>, usize);

/// A line that reads as a definition, not a use: it opens a brace, ends a
/// statement, assigns, declares a class, struct or interface, or joins a
/// scope with a call or a smart-pointer type.
pub open spec fn definition_signal(t: Seq<char>) -> bool {
    has_sub(t, "{"@) || has_suffix(trim_end(t), ";"@) || has_sub(t, "="@) || has_sub(t, "class "@)
        || has_sub(t, "struct "@) || has_sub(t, "interface "@) || (has_sub(t, "::"@) && (has_sub(
        t,
        "("@,
    ) || has_sub(t, "already_AddRefed"@) || has_sub(t, "RefPtr"@) || has_sub(t, "nsCOMPtr"@)))
}

/// `text` mentions `query`, as is or both lower-cased (`text_lower`,
/// `query_lower`).
pub open spec fn mentions(
    text: Seq<char>,
    query: Seq<char>,
    text_lower: Seq<char>,
    query_lower: Seq<char>,
) -> bool {
    has_sub(text, query) || has_sub(text_lower, query_lower)
}

/// A line that mentions the query and reads as a definition.
pub open spec fn potential_definition(text: Seq<char>, query: Seq<char>) -> bool {
    mentions(text, query, lower_of(text), lower_of(query)) && definition_signal(text)
}

/// Whether `text` reads as a definition.
pub fn has_definition_signal(text: &str) -> (r: bool)
    ensures
        r == definition_signal(text@),
{
    let t = chars_of(text);
    has_text(&t, "{") || finishes(&trim_end_of(&t), ";") || has_text(&t, "=") || has_text(
        &t,
        "class ",
    ) || has_text(&t, "struct ") || has_text(&t, "interface ") || (has_text(&t, "::") && (
    has_text(&t, "(") || has_text(&t, "already_AddRefed") || has_text(&t, "RefPtr") || has_text(
        &t,
        "nsCOMPtr",
    )))
}

/// Whether `text` mentions `query`, given both lower-cased as well.
pub fn mentions_query(text: &str, query: &str, text_lower: &str, query_lower: &str) -> (r: bool)
    ensures
        r == mentions(text@, query@, text_lower@, query_lower@),
{
    crate::text::contains(&chars_of(text), &chars_of(query)) || crate::text::contains(
        &chars_of(text_lower),
        &chars_of(query_lower),
    )
}

/// Whether a matching line reads as a definition of `query`.
pub fn is_potential_definition(line: &Line, query: &str) -> (r: bool)
    ensures
        r == potential_definition(line.line@, query@),
{
    let tl = lowercase(line.line.as_str());
    let ql = lowercase(query);
    mentions_query(line.line.as_str(), query, tl.as_str(), ql.as_str()) && has_definition_signal(
        line.line.as_str(),
    )
}

/// The file passes the language filters.
pub open spec fn file_ok(o: SearchOptions, f: File) -> bool {
    language_ok(o, lower_of(f.path@))
}

/// Flat results: every line of a kept file that reads as a definition of
/// `sym`.
pub open spec fn flat_candidates(o: SearchOptions, sym: Seq<char>, fs: Seq<File>) -> Seq<Cand>
    decreases fs.len(),
{
    if fs.len() == 0 {
        seq![]
    } else {
        let f = fs.last();
        flat_candidates(o, sym, fs.drop_last()) + if file_ok(o, f) {
            line_defs(f.path@, sym, f.lines@)
        } else {
            seq![]
        }
    }
}

pub open spec fn line_defs(path: Seq<char>, sym: Seq<char>, ls: Seq<Line>) -> Seq<Cand>
    decreases ls.len(),
{
    if ls.len() == 0 {
        seq![]
    } else {
        line_defs(path, sym, ls.drop_last()) + if potential_definition(ls.last().line@, sym) {
            seq![(path, ls.last().lno)]
        } else {
            seq![]
        }
    }
}

/// The lines of kept files that head a class or struct.
pub open spec fn class_candidates(o: SearchOptions, fs: Seq<File>) -> Seq<Cand>
    decreases fs.len(),
{
    if fs.len() == 0 {
        seq![]
    } else {
        let f = fs.last();
        class_candidates(o, fs.drop_last()) + if file_ok(o, f) {
            class_lines(f.path@, f.lines@)
        } else {
            seq![]
        }
    }
}

pub open spec fn class_lines(path: Seq<char>, ls: Seq<Line>) -> Seq<Cand>
    decreases ls.len(),
{
    if ls.len() == 0 {
        seq![]
    } else {
        class_lines(path, ls.drop_last()) + if has_sub(ls.last().line@, "class "@) || has_sub(
            ls.last().line@,
            "struct "@,
        ) {
            seq![(path, ls.last().lno)]
        } else {
            seq![]
        }
    }
}

/// The line names its symbol by a mangled name: an authoritative hit.
pub open spec fn mangled_hit(l: Line) -> bool {
    match l.upsearch {
        Some(u) => has_prefix(u@, "symbol:_Z"@),
        None => false,
    }
}

/// A scan's outcome: whether it stopped on an authoritative hit, and the
/// candidates (on a hit, that one alone).
pub type Scan = (bool, Seq<Cand>);

/// Scans lines from `i` on, each a candidate, stopping at a mangled hit.
pub open spec fn scan_lines(path: Seq<char>, ls: Seq<Line>, i: int, acc: Seq<Cand>) -> Scan
    decreases ls.len() - i,
{
    if i < 0 || i >= ls.len() {
        (false, acc)
    } else if mangled_hit(ls[i]) {
        (true, seq![(path, ls[i].lno)])
    } else {
        scan_lines(path, ls, i + 1, acc.push((path, ls[i].lno)))
    }
}

/// Scans the kept files of `fs` from `i` on.
pub open spec fn scan_files(o: SearchOptions, fs: Seq<File>, i: int, acc: Seq<Cand>) -> Scan
    decreases fs.len() - i,
{
    if i < 0 || i >= fs.len() {
        (false, acc)
    } else if !file_ok(o, fs[i]) {
        scan_files(o, fs, i + 1, acc)
    } else {
        let r = scan_lines(fs[i].path@, fs[i].lines@, 0, acc);
        if r.0 {
            r
        } else {
            scan_files(o, fs, i + 1, r.1)
        }
    }
}

/// The category that holds the class definitions of `name`.
pub open spec fn class_key(name: Seq<char>) -> Seq<char> {
    "Definitions ("@ + name + ")"@
}

/// A category scanned for `kind` (`Definitions` or `Declarations`): its
/// label names the kind and the symbol (as is or lower-cased), and it is
/// not the class-definition category already inspected.
pub open spec fn category_selected(
    label: Seq<char>,
    name: Seq<char>,
    is_member: bool,
    kind: Seq<char>,
) -> bool {
    !(!is_member && label == class_key(name)) && has_sub(label, kind) && (has_sub(label, name)
        || has_sub(lower_of(label), lower_of(name)))
}

/// Scans the selected categories of `cs` from `i` on.
pub open spec fn scan_categories(
    o: SearchOptions,
    name: Seq<char>,
    is_member: bool,
    kind: Seq<char>,
    cs: Seq<(String, Vec<File>)>,
    i: int,
    acc: Seq<Cand>,
) -> Scan
    decreases cs.len() - i,
{
    if i < 0 || i >= cs.len() {
        (false, acc)
    } else if !category_selected(cs[i].0@, name, is_member, kind) {
        scan_categories(o, name, is_member, kind, cs, i + 1, acc)
    } else {
        let r = scan_files(o, cs[i].1@, 0, acc);
        if r.0 {
            r
        } else {
            scan_categories(o, name, is_member, kind, cs, i + 1, r.1)
        }
    }
}

/// The files of the first category labelled `label`, if any.
pub open spec fn category_files(cs: Seq<(String, Vec<File>)>, label: Seq<char>, i: int) -> Seq<
    File,
>
    decreases cs.len() - i,
{
    if i < 0 || i >= cs.len() {
        seq![]
    } else if cs[i].0@ == label {
        cs[i].1@
    } else {
        category_files(cs, label, i + 1)
    }
}

/// `sym` without an `id:` prefix.
pub open spec fn bare_name(sym: Seq<char>) -> Seq<char> {
    if has_prefix(sym, "id:"@) {
        sym.subrange(3, sym.len() as int)
    } else {
        sym
    }
}

/// A qualified-member lookup (`Class::member`), as against a bare type.
pub open spec fn is_member_lookup(sym: Seq<char>) -> bool {
    has_sub(bare_name(sym), "::"@)
}

/// The category kinds in the order they are searched: definitions first for
/// a member, declarations first for a bare type.
pub open spec fn kind_order(is_member: bool) -> (Seq<char>, Seq<char>) {
    if is_member {
        ("Definitions"@, "Declarations"@)
    } else {
        ("Declarations"@, "Definitions"@)
    }
}

/// Categorised results: for a bare type, first the class and struct heads
/// of its `Definitions (<name>)` category; then the categories of the first
/// kind, then (only where nothing has been found yet) those of the second.
pub open spec fn scan_categorized(
    o: SearchOptions,
    sym: Seq<char>,
    cs: Seq<(String, Vec<File>)>,
    acc: Seq<Cand>,
) -> Scan {
    let name = bare_name(sym);
    let is_member = is_member_lookup(sym);
    let acc1 = if is_member {
        acc
    } else {
        acc + class_candidates(o, category_files(cs, class_key(name), 0))
    };
    let kinds = kind_order(is_member);
    let r1 = scan_categories(o, name, is_member, kinds.0, cs, 0, acc1);
    if r1.0 || r1.1.len() > 0 {
        r1
    } else {
        scan_categories(o, name, is_member, kinds.1, cs, 0, r1.1)
    }
}

/// Resolves over the groups of a response from `i` on.
pub open spec fn resolve_from(
    o: SearchOptions,
    sym: Seq<char>,
    gs: Seq<(String, ResultGroup)>,
    i: int,
    acc: Seq<Cand>,
) -> Seq<Cand>
    decreases gs.len() - i,
{
    if i < 0 || i >= gs.len() {
        acc
    } else if is_metadata_key(gs[i].0@) {
        resolve_from(o, sym, gs, i + 1, acc)
    } else {
        match gs[i].1 {
            ResultGroup::Files(fs) => resolve_from(
                o,
                sym,
                gs,
                i + 1,
                acc + flat_candidates(o, sym, fs@),
            ),
            ResultGroup::Categories(cs) => {
                let r = scan_categorized(o, sym, cs@, acc);
                if r.0 {
                    r.1
                } else {
                    resolve_from(o, sym, gs, i + 1, r.1)
                }
            },
        }
    }
}

pub open spec fn cand_views(v: Seq<(String, usize)>) -> Seq<Cand> {
    v.map_values(|c: (String, usize)| (c.0@, c.1))
}

fn push_cand(out: &mut Vec<(String, usize)>, path: &String, lno: usize)
    ensures
        cand_views(final(out)@) == cand_views(old(out)@).push((path@, lno)),
{
    let ghost before = cand_views(out@);
    out.push((path.clone(), lno));
    assert(cand_views(out@) =~= before.push((path@, lno)));
}

fn flat_exec(o: &SearchOptions, sym: &str, fs: &Vec<File>, out: &mut Vec<(String, usize)>)
    ensures
        cand_views(final(out)@) == cand_views(old(out)@) + flat_candidates(*o, sym@, fs@),
{
    let ghost base = cand_views(out@);
    let mut i: usize = 0;
    while i < fs.len()
        invariant
            i <= fs@.len(),
            cand_views(out@) == base + flat_candidates(*o, sym@, fs@.take(i as int)),
        decreases fs.len() - i,
    {
        let f = &fs[i];
        assert(fs@.take(i + 1).drop_last() =~= fs@.take(i as int));
        assert(fs@.take(i + 1).last() == *f);
        let ghost mid = cand_views(out@);
        if o.matches_language_filter(f.path.as_str()) {
            let mut k: usize = 0;
            while k < f.lines.len()
                invariant
                    k <= f.lines@.len(),
                    cand_views(out@) == mid + line_defs(f.path@, sym@, f.lines@.take(k as int)),
                decreases f.lines.len() - k,
            {
                assert(f.lines@.take(k + 1).drop_last() =~= f.lines@.take(k as int));
                assert(f.lines@.take(k + 1).last() == f.lines@[k as int]);
                let ghost m2 = cand_views(out@);
                if is_potential_definition(&f.lines[k], sym) {
                    push_cand(out, &f.path, f.lines[k].lno);
                }
                assert(cand_views(out@) =~= mid + line_defs(f.path@, sym@, f.lines@.take(k + 1)));
                k = k + 1;
            }
            assert(f.lines@.take(f.lines@.len() as int) =~= f.lines@);
        }
        assert(cand_views(out@) =~= base + flat_candidates(*o, sym@, fs@.take(i + 1)));
        i = i + 1;
    }
    assert(fs@.take(fs@.len() as int) =~= fs@);
}

fn class_exec(o: &SearchOptions, fs: &Vec<File>, out: &mut Vec<(String, usize)>)
    ensures
        cand_views(final(out)@) == cand_views(old(out)@) + class_candidates(*o, fs@),
{
    let ghost base = cand_views(out@);
    let mut i: usize = 0;
    while i < fs.len()
        invariant
            i <= fs@.len(),
            cand_views(out@) == base + class_candidates(*o, fs@.take(i as int)),
        decreases fs.len() - i,
    {
        let f = &fs[i];
        assert(fs@.take(i + 1).drop_last() =~= fs@.take(i as int));
        assert(fs@.take(i + 1).last() == *f);
        let ghost mid = cand_views(out@);
        if o.matches_language_filter(f.path.as_str()) {
            let mut k: usize = 0;
            while k < f.lines.len()
                invariant
                    k <= f.lines@.len(),
                    cand_views(out@) == mid + class_lines(f.path@, f.lines@.take(k as int)),
                decreases f.lines.len() - k,
            {
                assert(f.lines@.take(k + 1).drop_last() =~= f.lines@.take(k as int));
                assert(f.lines@.take(k + 1).last() == f.lines@[k as int]);
                let t = chars_of(f.lines[k].line.as_str());
                if has_text(&t, "class ") || has_text(&t, "struct ") {
                    push_cand(out, &f.path, f.lines[k].lno);
                }
                assert(cand_views(out@) =~= mid + class_lines(f.path@, f.lines@.take(k + 1)));
                k = k + 1;
            }
            assert(f.lines@.take(f.lines@.len() as int) =~= f.lines@);
        }
        assert(cand_views(out@) =~= base + class_candidates(*o, fs@.take(i + 1)));
        i = i + 1;
    }
    assert(fs@.take(fs@.len() as int) =~= fs@);
}

fn mangled_hit_exec(l: &Line) -> (r: bool)
    ensures
        r == mangled_hit(*l),
{
    match &l.upsearch {
        Some(u) => begins(&chars_of(u.as_str()), "symbol:_Z"),
        None => false,
    }
}

/// Scans the kept files of `fs`; true where it stopped on a mangled hit,
/// `out` then holding that location alone.
fn scan_files_exec(o: &SearchOptions, fs: &Vec<File>, out: &mut Vec<(String, usize)>) -> (r: bool)
    ensures
        (r, cand_views(final(out)@)) == scan_files(*o, fs@, 0, cand_views(old(out)@)),
{
    let ghost want = scan_files(*o, fs@, 0, cand_views(out@));
    let mut i: usize = 0;
    while i < fs.len()
        invariant
            i <= fs@.len(),
            want == scan_files(*o, fs@, 0, cand_views(old(out)@)),
            scan_files(*o, fs@, i as int, cand_views(out@)) == want,
        decreases fs.len() - i,
    {
        let f = &fs[i];
        if o.matches_language_filter(f.path.as_str()) {
            let ghost acc0 = cand_views(out@);
            let mut k: usize = 0;
            while k < f.lines.len()
                invariant
                    k <= f.lines@.len(),
                    i < fs@.len(),
                    *f == fs@[i as int],
                    file_ok(*o, fs@[i as int]),
                    want == scan_files(*o, fs@, 0, cand_views(old(out)@)),
                    scan_files(*o, fs@, i as int, acc0) == want,
                    scan_lines(f.path@, f.lines@, k as int, cand_views(out@)) == scan_lines(
                        f.path@,
                        f.lines@,
                        0,
                        acc0,
                    ),
                decreases f.lines.len() - k,
            {
                if mangled_hit_exec(&f.lines[k]) {
                    out.clear();
                    push_cand(out, &f.path, f.lines[k].lno);
                    assert(cand_views(out@) =~= seq![(f.path@, f.lines@[k as int].lno)]);
                    return true;
                }
                push_cand(out, &f.path, f.lines[k].lno);
                k = k + 1;
            }
        }
        i = i + 1;
    }
    false
}

fn scan_categories_exec(
    o: &SearchOptions,
    name: &Vec<char>,
    is_member: bool,
    kind: &str,
    cs: &Vec<(String, Vec<File>)>,
    out: &mut Vec<(String, usize)>,
) -> (r: bool)
    ensures
        (r, cand_views(final(out)@)) == scan_categories(
            *o,
            name@,
            is_member,
            kind@,
            cs@,
            0,
            cand_views(old(out)@),
        ),
{
    let ghost want = scan_categories(*o, name@, is_member, kind@, cs@, 0, cand_views(out@));
    let mut key = chars_of("Definitions (");
    crate::text::extend(&mut key, name);
    push_str(&mut key, ")");
    let name_str = crate::text::string_of(name);
    let name_lower = chars_of(lowercase(name_str.as_str()).as_str());
    let mut i: usize = 0;
    while i < cs.len()
        invariant
            i <= cs@.len(),
            key@ == class_key(name@),
            name_str@ == name@,
            name_lower@ == lower_of(name@),
            want == scan_categories(*o, name@, is_member, kind@, cs@, 0, cand_views(old(out)@)),
            scan_categories(*o, name@, is_member, kind@, cs@, i as int, cand_views(out@)) == want,
        decreases cs.len() - i,
    {
        let label = chars_of(cs[i].0.as_str());
        let label_lower = chars_of(lowercase(cs[i].0.as_str()).as_str());
        let selected = !(!is_member && eq_chars(&label, &key)) && has_text(&label, kind) && (
        crate::text::contains(&label, name) || crate::text::contains(&label_lower, &name_lower));
        let ghost acc0 = cand_views(out@);
        if selected {
            assert(category_selected(cs@[i as int].0@, name@, is_member, kind@));
            if scan_files_exec(o, &cs[i].1, out) {
                assert(scan_categories(*o, name@, is_member, kind@, cs@, i as int, acc0) == (
                true, cand_views(out@)));
                return true;
            }
        }
        i = i + 1;
    }
    false
}

/// The files of the first category labelled `label`.
fn category_files_exec<'a>(cs: &'a Vec<(String, Vec<File>)>, label: &Vec<char>) -> (r: Option<
    &'a Vec<File>,
>)
    ensures
        match r {
            Some(fs) => fs@ == category_files(cs@, label@, 0),
            None => category_files(cs@, label@, 0) == Seq::<File>::empty(),
        },
{
    let mut i: usize = 0;
    while i < cs.len()
        invariant
            i <= cs@.len(),
            category_files(cs@, label@, i as int) == category_files(cs@, label@, 0),
        decreases cs.len() - i,
    {
        if eq_chars(&chars_of(cs[i].0.as_str()), label) {
            return Some(&cs[i].1);
        }
        i = i + 1;
    }
    None
}

fn scan_categorized_exec(
    o: &SearchOptions,
    sym: &str,
    cs: &Vec<(String, Vec<File>)>,
    out: &mut Vec<(String, usize)>,
) -> (r: bool)
    ensures
        (r, cand_views(final(out)@)) == scan_categorized(*o, sym@, cs@, cand_views(old(out)@)),
{
    let s = chars_of(sym);
    proof {
        reveal_strlit("id:");
    }
    let name = if begins(&s, "id:") {
        slice_of(&s, 3, s.len())
    } else {
        s
    };
    assert(name@ == bare_name(sym@));
    let is_member = has_text(&name, "::");
    if !is_member {
        let mut key = chars_of("Definitions (");
        crate::text::extend(&mut key, &name);
        push_str(&mut key, ")");
        match category_files_exec(cs, &key) {
            Some(fs) => class_exec(o, fs, out),
            None => {
                let ghost before = cand_views(out@);
                assert(before + class_candidates(*o, Seq::<File>::empty()) =~= before);
            },
        }
    }
    let (first, second) = if is_member {
        ("Definitions", "Declarations")
    } else {
        ("Declarations", "Definitions")
    };
    if scan_categories_exec(o, &name, is_member, first, cs, out) {
        return true;
    }
    if out.len() > 0 {
        return false;
    }
    scan_categories_exec(o, &name, is_member, second, cs, out)
}

/// The likely definition sites of `symbol` in a search response, best
/// first.  Metadata keys are skipped and files are kept by the language
/// filters.  Flat results give every line that mentions the symbol and
/// reads as a definition.  Categorised results are searched by priority: a
/// bare type's `Definitions (<name>)` category first (its class and struct
/// heads), then declarations before definitions for a bare type and
/// definitions before declarations for a qualified member, the second kind
/// only where nothing was found.  A line whose upsearch hint names a mangled
/// symbol ends the search: its location alone is returned.  Nothing found
/// is an empty list.
pub fn locate_definitions(symbol: &str, options: &SearchOptions, response: &SearchfoxResponse) -> (r: Vec<
    (String, usize),
>)
    ensures
        cand_views(r@) == resolve_from(*options, symbol@, response.groups@, 0, Seq::empty()),
{
    let gs = &response.groups;
    let mut out: Vec<(String, usize)> = Vec::new();
    let ghost want = resolve_from(*options, symbol@, gs@, 0, Seq::empty());
    assert(cand_views(out@) =~= Seq::<Cand>::empty());
    let mut g: usize = 0;
    while g < gs.len()
        invariant
            g <= gs@.len(),
            gs == response.groups,
            want == resolve_from(*options, symbol@, gs@, 0, Seq::empty()),
            resolve_from(*options, symbol@, gs@, g as int, cand_views(out@)) == want,
        decreases gs.len() - g,
    {
        if !metadata_key(gs[g].0.as_str()) {
            match &gs[g].1 {
                ResultGroup::Files(fs) => {
                    flat_exec(options, symbol, fs, &mut out);
                },
                ResultGroup::Categories(cs) => {
                    let ghost acc0 = cand_views(out@);
                    if scan_categorized_exec(options, symbol, cs, &mut out) {
                        assert(resolve_from(*options, symbol@, gs@, g as int, acc0) == cand_views(
                            out@,
                        ));
                        return out;
                    }
                },
            }
        }
        g = g + 1;
    }
    out
}

/// `acc` is a prefix of `r`.
pub open spec fn extends(r: Seq<Cand>, acc: Seq<Cand>) -> bool {
    acc.len() <= r.len() && r.subrange(0, acc.len() as int) == acc
}

proof fn scan_lines_extends(path: Seq<char>, ls: Seq<Line>, i: int, acc: Seq<Cand>)
    ensures
        !scan_lines(path, ls, i, acc).0 ==> extends(scan_lines(path, ls, i, acc).1, acc),
    decreases ls.len() - i,
{
    if 0 <= i < ls.len() && !mangled_hit(ls[i]) {
        let a2 = acc.push((path, ls[i].lno));
        scan_lines_extends(path, ls, i + 1, a2);
        let r = scan_lines(path, ls, i + 1, a2).1;
        if !scan_lines(path, ls, i + 1, a2).0 {
            assert(r.subrange(0, acc.len() as int) =~= a2.subrange(0, acc.len() as int));
            assert(a2.subrange(0, acc.len() as int) =~= acc);
        }
    } else {
        assert(acc.subrange(0, acc.len() as int) =~= acc);
    }
}

proof fn extends_trans(a: Seq<Cand>, b: Seq<Cand>, c: Seq<Cand>)
    requires
        extends(a, b),
        extends(b, c),
    ensures
        extends(a, c),
{
    assert(a.subrange(0, c.len() as int) =~= b.subrange(0, c.len() as int));
}

proof fn scan_files_extends(o: SearchOptions, fs: Seq<File>, i: int, acc: Seq<Cand>)
    ensures
        !scan_files(o, fs, i, acc).0 ==> extends(scan_files(o, fs, i, acc).1, acc),
    decreases fs.len() - i,
{
    if 0 <= i < fs.len() {
        if !file_ok(o, fs[i]) {
            scan_files_extends(o, fs, i + 1, acc);
        } else {
            let r = scan_lines(fs[i].path@, fs[i].lines@, 0, acc);
            scan_lines_extends(fs[i].path@, fs[i].lines@, 0, acc);
            if !r.0 {
                scan_files_extends(o, fs, i + 1, r.1);
                if !scan_files(o, fs, i + 1, r.1).0 {
                    extends_trans(scan_files(o, fs, i + 1, r.1).1, r.1, acc);
                }
            }
        }
    } else {
        assert(acc.subrange(0, acc.len() as int) =~= acc);
    }
}

proof fn scan_categories_extends(
    o: SearchOptions,
    name: Seq<char>,
    is_member: bool,
    kind: Seq<char>,
    cs: Seq<(String, Vec<File>)>,
    i: int,
    acc: Seq<Cand>,
)
    ensures
        !scan_categories(o, name, is_member, kind, cs, i, acc).0 ==> extends(
            scan_categories(o, name, is_member, kind, cs, i, acc).1,
            acc,
        ),
    decreases cs.len() - i,
{
    if 0 <= i < cs.len() {
        if !category_selected(cs[i].0@, name, is_member, kind) {
            scan_categories_extends(o, name, is_member, kind, cs, i + 1, acc);
        } else {
            let r = scan_files(o, cs[i].1@, 0, acc);
            scan_files_extends(o, cs[i].1@, 0, acc);
            if !r.0 {
                scan_categories_extends(o, name, is_member, kind, cs, i + 1, r.1);
                let r2 = scan_categories(o, name, is_member, kind, cs, i + 1, r.1);
                if !r2.0 {
                    extends_trans(r2.1, r.1, acc);
                }
            }
        }
    } else {
        assert(acc.subrange(0, acc.len() as int) =~= acc);
    }
}

/// A qualified member (`Class::member`) is looked up in the definition
/// categories first, and in the declaration categories only where those
/// gave nothing.
pub proof fn members_search_definitions_first(
    o: SearchOptions,
    sym: Seq<char>,
    cs: Seq<(String, Vec<File>)>,
    acc: Seq<Cand>,
)
    requires
        is_member_lookup(sym),
    ensures
        ({
            let r1 = scan_categories(o, bare_name(sym), true, "Definitions"@, cs, 0, acc);
            scan_categorized(o, sym, cs, acc) == if r1.0 || r1.1.len() > 0 {
                r1
            } else {
                scan_categories(o, bare_name(sym), true, "Declarations"@, cs, 0, r1.1)
            }
        }),
{
}

/// A bare type is looked up first in its `Definitions (<name>)` category
/// (class and struct heads), then in the declaration categories, and in the
/// definition categories only where nothing was found so far.
pub proof fn types_search_declarations_first(
    o: SearchOptions,
    sym: Seq<char>,
    cs: Seq<(String, Vec<File>)>,
    acc: Seq<Cand>,
)
    requires
        !is_member_lookup(sym),
    ensures
        ({
            let heads = class_candidates(o, category_files(cs, class_key(bare_name(sym)), 0));
            let r1 = scan_categories(o, bare_name(sym), false, "Declarations"@, cs, 0, acc + heads);
            scan_categorized(o, sym, cs, acc) == if r1.0 || r1.1.len() > 0 {
                r1
            } else {
                scan_categories(o, bare_name(sym), false, "Definitions"@, cs, 0, r1.1)
            }
        }),
{
}

/// For a bare type, unless a mangled-symbol hit ends the search, the class
/// and struct heads of its `Definitions (<name>)` category come before every
/// other candidate that the category scan adds.
pub proof fn type_heads_come_first(
    o: SearchOptions,
    sym: Seq<char>,
    cs: Seq<(String, Vec<File>)>,
    acc: Seq<Cand>,
)
    requires
        !is_member_lookup(sym),
        !scan_categorized(o, sym, cs, acc).0,
    ensures
        extends(
            scan_categorized(o, sym, cs, acc).1,
            acc + class_candidates(o, category_files(cs, class_key(bare_name(sym)), 0)),
        ),
{
    let name = bare_name(sym);
    let acc1 = acc + class_candidates(o, category_files(cs, class_key(name), 0));
    let r1 = scan_categories(o, name, false, "Declarations"@, cs, 0, acc1);
    scan_categories_extends(o, name, false, "Declarations"@, cs, 0, acc1);
    if !(r1.0 || r1.1.len() > 0) {
        scan_categories_extends(o, name, false, "Definitions"@, cs, 0, r1.1);
        let r2 = scan_categories(o, name, false, "Definitions"@, cs, 0, r1.1);
        extends_trans(r2.1, r1.1, acc1);
    }
}

} // verus!
