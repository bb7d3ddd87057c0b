//! Search options, the query they build, and the listing of a search
//! response as result rows.
use vstd::prelude::*;

use crate::text::{
    chars_of, dec, decimal, extend, has_sub, has_suffix, lower_of, lowercase, push_str, string_of,
    trim_end, trim_end_of,
};
use crate::types::{is_metadata_key, metadata_key, File, ResultGroup, SearchfoxResponse};
use crate::utils::{finishes, has_text};

verus! {

/// Which result categories (the response's top-level keys) a search keeps.
#[derive(Clone, Copy, Debug, PartialEq, Eq, Structural)]
pub enum CategoryFilter {
    All,
    ExcludeTests,
    ExcludeGenerated,
    ExcludeTestsAndGenerated,
    OnlyTests,
    OnlyGenerated,
    OnlyNormal,
}

/// Whether `filter` keeps the results under `key`.
pub open spec fn keeps_category(filter: CategoryFilter, key: Seq<char>) -> bool {
    match filter {
        CategoryFilter::All => true,
        CategoryFilter::ExcludeTests => key != "test"@,
        CategoryFilter::ExcludeGenerated => key != "generated"@,
        CategoryFilter::ExcludeTestsAndGenerated => key != "test"@ && key != "generated"@,
        CategoryFilter::OnlyTests => key == "test"@,
        CategoryFilter::OnlyGenerated => key == "generated"@,
        CategoryFilter::OnlyNormal => key == "normal"@,
    }
}

impl CategoryFilter {
    /// Whether the results under `key` are kept.
    pub fn keeps(&self, key: &str) -> (r: bool)
        ensures
            r == keeps_category(*self, key@),
    {
        let k = chars_of(key);
        let is_test = crate::text::eq_chars(&k, &chars_of("test"));
        let is_generated = crate::text::eq_chars(&k, &chars_of("generated"));
        match self {
            CategoryFilter::All => true,
            CategoryFilter::ExcludeTests => !is_test,
            CategoryFilter::ExcludeGenerated => !is_generated,
            CategoryFilter::ExcludeTestsAndGenerated => !is_test && !is_generated,
            CategoryFilter::OnlyTests => is_test,
            CategoryFilter::OnlyGenerated => is_generated,
            CategoryFilter::OnlyNormal => crate::text::eq_chars(&k, &chars_of("normal")),
        }
    }
}

/// What to search for, and how to filter the results.
#[derive(Clone, Debug)]
pub struct SearchOptions {
    pub query: Option<String>,
    pub path: Option<String>,
    pub case: bool,
    pub regexp: bool,
    pub limit: usize,
    pub context: Option<usize>,
    pub symbol: Option<String>,
    pub id: Option<String>,
    pub cpp: bool,
    pub c_lang: bool,
    pub webidl: bool,
    pub js: bool,
    pub category_filter: CategoryFilter,
}

impl Default for SearchOptions {
    fn default() -> (r: Self)
        ensures
            r.query is None,
            r.path is None,
            !r.case,
            !r.regexp,
            r.limit == 50,
            r.context is None,
            r.symbol is None,
            r.id is None,
            !r.cpp,
            !r.c_lang,
            !r.webidl,
            !r.js,
            r.category_filter == CategoryFilter::All,
    {
        SearchOptions {
            query: None,
            path: None,
            case: false,
            regexp: false,
            limit: 50,
            context: None,
            symbol: None,
            id: None,
            cpp: false,
            c_lang: false,
            webidl: false,
            js: false,
            category_filter: CategoryFilter::All,
        }
    }
}

/// A full-text search that the service's index does not serve.
pub open spec fn expensive(o: SearchOptions) -> bool {
    o.symbol is None && o.id is None && match o.query {
        Some(q) => !has_sub(q@, "symbol:"@) && !has_sub(q@, "id:"@),
        None => false,
    }
}

/// Whether a query already uses the service's query syntax.
pub open spec fn has_query_prefix(q: Seq<char>) -> bool {
    has_sub(q, "path:"@) || has_sub(q, "pathre:"@) || has_sub(q, "symbol:"@) || has_sub(
        q,
        "id:"@,
    ) || has_sub(q, "text:"@) || has_sub(q, "re:"@)
}

/// The query string that the options stand for.
pub open spec fn query_of(o: SearchOptions) -> Seq<char> {
    match o.symbol {
        Some(s) => "symbol:"@ + s@,
        None => match o.id {
            Some(i) => "id:"@ + i@,
            None => match o.query {
                Some(q) => if has_query_prefix(q@) {
                    q@
                } else {
                    match o.context {
                        Some(c) => "context:"@ + dec(c as nat) + " text:"@ + q@,
                        None => q@,
                    }
                },
                None => Seq::empty(),
            },
        },
    }
}

/// Whether the language filters keep a file whose lower-cased path is
/// `lower`: every file where none is set, else the files of the set ones.
pub open spec fn language_ok(o: SearchOptions, lower: Seq<char>) -> bool {
    (!o.cpp && !o.c_lang && !o.webidl && !o.js) || (o.cpp && (has_suffix(lower, ".cc"@)
        || has_suffix(lower, ".cpp"@) || has_suffix(lower, ".h"@) || has_suffix(lower, ".hh"@)
        || has_suffix(lower, ".hpp"@))) || (o.c_lang && (has_suffix(lower, ".c"@) || has_suffix(
        lower,
        ".h"@,
    ))) || (o.webidl && has_suffix(lower, ".webidl"@)) || (o.js && (has_suffix(lower, ".js"@)
        || has_suffix(lower, ".mjs"@) || has_suffix(lower, ".ts"@) || has_suffix(lower, ".cjs"@)
        || has_suffix(lower, ".jsx"@) || has_suffix(lower, ".tsx"@)))
}

impl SearchOptions {
    /// Whether this search is a full-text one that the index does not serve.
    pub fn is_expensive_search(&self) -> (r: bool)
        ensures
            r == expensive(*self),
    {
        if self.symbol.is_some() || self.id.is_some() {
            return false;
        }
        match &self.query {
            Some(q) => {
                let qc = chars_of(q.as_str());
                !has_text(&qc, "symbol:") && !has_text(&qc, "id:")
            },
            None => false,
        }
    }

    /// Whether the language filters keep the file whose lower-cased path is
    /// `path_lower`.
    pub fn matches_language_filter_lowered(&self, path_lower: &str) -> (r: bool)
        ensures
            r == language_ok(*self, path_lower@),
    {
        if !self.cpp && !self.c_lang && !self.webidl && !self.js {
            return true;
        }
        let p = chars_of(path_lower);
        if self.cpp && (finishes(&p, ".cc") || finishes(&p, ".cpp") || finishes(&p, ".h")
            || finishes(&p, ".hh") || finishes(&p, ".hpp")) {
            return true;
        }
        if self.c_lang && (finishes(&p, ".c") || finishes(&p, ".h")) {
            return true;
        }
        if self.webidl && finishes(&p, ".webidl") {
            return true;
        }
        if self.js && (finishes(&p, ".js") || finishes(&p, ".mjs") || finishes(&p, ".ts")
            || finishes(&p, ".cjs") || finishes(&p, ".jsx") || finishes(&p, ".tsx")) {
            return true;
        }
        false
    }

    /// Whether the language filters keep the file at `path`, its extension
    /// compared without regard to case.
    pub fn matches_language_filter(&self, path: &str) -> (r: bool)
        ensures
            r == language_ok(*self, lower_of(path@)),
    {
        let lower = lowercase(path);
        self.matches_language_filter_lowered(lower.as_str())
    }

    /// The query string sent to the service: `symbol:` or `id:` for those
    /// searches, else the query, with its context where it asks for one and
    /// uses no query syntax of its own.
    pub fn build_query(&self) -> (r: String)
        ensures
            r@ == query_of(*self),
    {
        match &self.symbol {
            Some(s) => {
                let mut out: Vec<char> = Vec::new();
                push_str(&mut out, "symbol:");
                push_str(&mut out, s.as_str());
                return string_of(&out);
            },
            None => {},
        }
        match &self.id {
            Some(i) => {
                let mut out: Vec<char> = Vec::new();
                push_str(&mut out, "id:");
                push_str(&mut out, i.as_str());
                return string_of(&out);
            },
            None => {},
        }
        match &self.query {
            Some(q) => {
                let qc = chars_of(q.as_str());
                if has_text(&qc, "path:") || has_text(&qc, "pathre:") || has_text(&qc, "symbol:")
                    || has_text(&qc, "id:") || has_text(&qc, "text:") || has_text(&qc, "re:") {
                    return q.clone();
                }
                match self.context {
                    Some(c) => {
                        let mut out: Vec<char> = Vec::new();
                        push_str(&mut out, "context:");
                        extend(&mut out, &decimal(c as u128));
                        push_str(&mut out, " text:");
                        extend(&mut out, &qc);
                        string_of(&out)
                    },
                    None => q.clone(),
                }
            },
            None => String::new(),
        }
    }
}

/// One row of a search listing.
#[derive(Clone, Debug)]
pub struct SearchResult {
    pub path: String,
    /// 0 for a file found by path alone.
    pub line_number: usize,
    pub line: String,
}

/// A listing row as (path, line number, text).
pub type Row = (Seq<char>, usize, Seq<char>);

/// The search asks for files by path alone.
pub open spec fn path_only(o: SearchOptions) -> bool {
    o.path is Some && o.query is None && o.symbol is None && o.id is None
}

/// The rows of `fs` that the language filters keep: one per file for a
/// search by path alone, else one per matching line, its text without
/// trailing white space.
pub open spec fn file_rows(o: SearchOptions, fs: Seq<File>) -> Seq<Row>
    decreases fs.len(),
{
    if fs.len() == 0 {
        seq![]
    } else {
        let f = fs.last();
        file_rows(o, fs.drop_last()) + if !language_ok(o, lower_of(f.path@)) {
            seq![]
        } else if path_only(o) {
            seq![(f.path@, 0usize, Seq::<char>::empty())]
        } else {
            f.lines@.map_values(|l: crate::types::Line| (f.path@, l.lno, trim_end(l.line@)))
        }
    }
}

pub open spec fn category_rows(o: SearchOptions, cs: Seq<(String, Vec<File>)>) -> Seq<Row>
    decreases cs.len(),
{
    if cs.len() == 0 {
        seq![]
    } else {
        category_rows(o, cs.drop_last()) + file_rows(o, cs.last().1@)
    }
}

/// Every row of the response, key by key, metadata keys and the keys that
/// the category filter drops left out.
pub open spec fn response_rows(o: SearchOptions, gs: Seq<(String, ResultGroup)>) -> Seq<Row>
    decreases gs.len(),
{
    if gs.len() == 0 {
        seq![]
    } else {
        let (k, g) = gs.last();
        response_rows(o, gs.drop_last()) + if is_metadata_key(k@) || !keeps_category(
            o.category_filter,
            k@,
        ) {
            seq![]
        } else {
            match g {
                ResultGroup::Files(fs) => file_rows(o, fs@),
                ResultGroup::Categories(cs) => category_rows(o, cs@),
            }
        }
    }
}

/// The first `n` rows of `rows`, or all of them.
pub open spec fn first_rows(rows: Seq<Row>, n: nat) -> Seq<Row> {
    if rows.len() <= n {
        rows
    } else {
        rows.take(n as int)
    }
}

pub open spec fn row_views(v: Seq<SearchResult>) -> Seq<Row> {
    v.map_values(|r: SearchResult| (r.path@, r.line_number, r.line@))
}

fn push_row(out: &mut Vec<SearchResult>, limit: usize, row: SearchResult)
    requires
        old(out)@.len() <= limit,
    ensures
        row_views(final(out)@) == first_rows(
            row_views(old(out)@).push((row.path@, row.line_number, row.line@)),
            limit as nat,
        ),
        final(out)@.len() <= limit,
{
    let ghost before = row_views(out@);
    let ghost rv = (row.path@, row.line_number, row.line@);
    if out.len() < limit {
        out.push(row);
        assert(row_views(out@) =~= before.push(rv));
    } else {
        assert(before.push(rv).take(limit as int) =~= before);
    }
}

proof fn first_rows_push(a: Seq<Row>, x: Row, n: nat)
    ensures
        first_rows(first_rows(a, n).push(x), n) == first_rows(a.push(x), n),
{
    if a.len() < n {
    } else {
        assert(first_rows(a, n).push(x).take(n as int) =~= first_rows(a.push(x), n));
        assert(a.push(x).take(n as int) =~= a.take(n as int));
    }
}

fn list_files(o: &SearchOptions, fs: &Vec<File>, out: &mut Vec<SearchResult>)
    requires
        old(out)@.len() <= o.limit,
        exists|pre: Seq<Row>| row_views(old(out)@) == first_rows(pre, o.limit as nat),
    ensures
        final(out)@.len() <= o.limit,
        forall|pre: Seq<Row>|
            row_views(old(out)@) == #[trigger] first_rows(pre, o.limit as nat) ==> row_views(final(out)@)
                == first_rows(pre + file_rows(*o, fs@), o.limit as nat),
{
    let ghost start = row_views(out@);
    let ghost pre0 = choose|pre: Seq<Row>| row_views(old(out)@) == first_rows(pre, o.limit as nat);
    let mut i: usize = 0;
    while i < fs.len()
        invariant
            i <= fs@.len(),
            out@.len() <= o.limit,
            start == row_views(old(out)@),
            forall|pre: Seq<Row>|
                start == #[trigger] first_rows(pre, o.limit as nat) ==> row_views(out@) == first_rows(
                    pre + file_rows(*o, fs@.take(i as int)),
                    o.limit as nat,
                ),
        decreases fs.len() - i,
    {
        let f = &fs[i];
        assert(fs@.take(i + 1).drop_last() =~= fs@.take(i as int));
        assert(fs@.take(i + 1).last() == *f);
        let ghost mid = row_views(out@);
        if o.matches_language_filter(f.path.as_str()) {
            if o.path.is_some() && o.query.is_none() && o.symbol.is_none() && o.id.is_none() {
                let ghost x = (f.path@, 0usize, Seq::<char>::empty());
                push_row(out, o.limit, SearchResult { path: f.path.clone(), line_number: 0, line: String::new() });
                assert forall|pre: Seq<Row>| start == #[trigger] first_rows(pre, o.limit as nat) implies row_views(out@) == first_rows(
                    pre + file_rows(*o, fs@.take(i + 1)),
                    o.limit as nat,
                ) by {
                    first_rows_push(pre + file_rows(*o, fs@.take(i as int)), x, o.limit as nat);
                    assert(pre + file_rows(*o, fs@.take(i + 1)) =~= (pre + file_rows(*o, fs@.take(i as int))).push(x));
                }
            } else {
                let ghost lines_rows = f.lines@.map_values(|l: crate::types::Line| (f.path@, l.lno, trim_end(l.line@)));
                let mut k: usize = 0;
                while k < f.lines.len()
                    invariant
                        k <= f.lines@.len(),
                        out@.len() <= o.limit,
                        lines_rows == f.lines@.map_values(|l: crate::types::Line| (f.path@, l.lno, trim_end(l.line@))),
                        forall|pre: Seq<Row>|
                            start == #[trigger] first_rows(pre, o.limit as nat) ==> row_views(out@) == first_rows(
                                pre + file_rows(*o, fs@.take(i as int)) + lines_rows.take(k as int),
                                o.limit as nat,
                            ),
                    decreases f.lines.len() - k,
                {
                    let l = &f.lines[k];
                    let text = trim_end_of(&chars_of(l.line.as_str()));
                    let ghost x = (f.path@, l.lno, trim_end(l.line@));
                    push_row(out, o.limit, SearchResult { path: f.path.clone(), line_number: l.lno, line: string_of(&text) });
                    assert forall|pre: Seq<Row>| start == #[trigger] first_rows(pre, o.limit as nat) implies row_views(out@) == first_rows(
                        pre + file_rows(*o, fs@.take(i as int)) + lines_rows.take(k + 1),
                        o.limit as nat,
                    ) by {
                        first_rows_push(pre + file_rows(*o, fs@.take(i as int)) + lines_rows.take(k as int), x, o.limit as nat);
                        assert(pre + file_rows(*o, fs@.take(i as int)) + lines_rows.take(k + 1) =~= (pre + file_rows(*o, fs@.take(i as int)) + lines_rows.take(k as int)).push(x));
                    }
                    k = k + 1;
                }
                assert(lines_rows.take(f.lines@.len() as int) =~= lines_rows);
                assert forall|pre: Seq<Row>| start == #[trigger] first_rows(pre, o.limit as nat) implies row_views(out@) == first_rows(
                    pre + file_rows(*o, fs@.take(i + 1)),
                    o.limit as nat,
                ) by {
                    assert(pre + file_rows(*o, fs@.take(i + 1)) =~= pre + file_rows(*o, fs@.take(i as int)) + lines_rows);
                }
            }
        } else {
            assert forall|pre: Seq<Row>| start == #[trigger] first_rows(pre, o.limit as nat) implies row_views(out@) == first_rows(
                pre + file_rows(*o, fs@.take(i + 1)),
                o.limit as nat,
            ) by {
                assert(pre + file_rows(*o, fs@.take(i + 1)) =~= pre + file_rows(*o, fs@.take(i as int)));
            }
        }
        i = i + 1;
    }
    assert(fs@.take(fs@.len() as int) =~= fs@);
}

/// Lists a search response as rows: metadata keys and the categories that
/// the filter drops skipped, files that the language filters drop skipped,
/// one row per file for a search by path alone and one per line otherwise,
/// at most `limit` rows.
pub fn collect_search_results(options: &SearchOptions, response: &SearchfoxResponse) -> (r: Vec<
    SearchResult,
>)
    ensures
        row_views(r@) == first_rows(
            response_rows(*options, response.groups@),
            options.limit as nat,
        ),
{
    let mut out: Vec<SearchResult> = Vec::new();
    let gs = &response.groups;
    assert(row_views(out@) =~= first_rows(Seq::empty(), options.limit as nat));
    let mut g: usize = 0;
    while g < gs.len()
        invariant
            g <= gs@.len(),
            out@.len() <= options.limit,
            row_views(out@) == first_rows(response_rows(*options, gs@.take(g as int)), options.limit as nat),
        decreases gs.len() - g,
    {
        let ghost pre = response_rows(*options, gs@.take(g as int));
        assert(gs@.take(g + 1).drop_last() =~= gs@.take(g as int));
        assert(gs@.take(g + 1).last() == gs@[g as int]);
        let key = &gs[g].0;
        if !metadata_key(key.as_str()) && options.category_filter.keeps(key.as_str()) {
            match &gs[g].1 {
                ResultGroup::Files(fs) => {
                    list_files(options, fs, &mut out);
                },
                ResultGroup::Categories(cs) => {
                    let mut c: usize = 0;
                    while c < cs.len()
                        invariant
                            c <= cs@.len(),
                            out@.len() <= options.limit,
                            row_views(out@) == first_rows(pre + category_rows(*options, cs@.take(c as int)), options.limit as nat),
                        decreases cs.len() - c,
                    {
                        assert(cs@.take(c + 1).drop_last() =~= cs@.take(c as int));
                        list_files(options, &cs[c].1, &mut out);
                        assert(pre + category_rows(*options, cs@.take(c + 1)) =~= pre + category_rows(*options, cs@.take(c as int)) + file_rows(*options, cs@[c as int].1@));
                        c = c + 1;
                    }
                    assert(cs@.take(cs@.len() as int) =~= cs@);
                },
            }
            assert(response_rows(*options, gs@.take(g + 1)) =~= pre + match gs@[g as int].1 {
                ResultGroup::Files(fs) => file_rows(*options, fs@),
                ResultGroup::Categories(cs) => category_rows(*options, cs@),
            });
        } else {
            assert(response_rows(*options, gs@.take(g + 1)) =~= pre);
        }
        g = g + 1;
    }
    assert(gs@.take(gs@.len() as int) =~= gs@);
    out
}

} // verus!
