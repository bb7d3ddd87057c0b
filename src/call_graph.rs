//! The Call-Graph Result Formatter: turns a call graph and its symbol
//! cross-reference table into a Markdown report.
use vstd::prelude::*;

use crate::order::{
    insert_sorted, record_views, sorted_enumeration_is_unique, strictly_sorted, Quad, Record,
};
use crate::text::{
    chars_of, chars_or, dec, decimal, eq_chars, extend, has_prefix, has_sub, push_str,
    slice_of, starts_with, string_of, trim, trim_of,
};

verus! {

/// What a call-graph search asks for.
pub struct CallGraphQuery {
    pub calls_from: Option<String>,
    pub calls_to: Option<String>,
    pub calls_between: Option<(String, String)>,
    pub depth: u32,
}

/// An edge of a call graph, between two symbol ids (empty where the
/// document gave none).
#[derive(Clone, Debug)]
pub struct GraphEdge {
    pub from: String,
    pub to: String,
}

/// A node of a between-two-symbols hierarchy.
pub struct GraphNode {
    pub edges: Vec<GraphEdge>,
    pub children: Vec<GraphNode>,
}

/// One graph of a calls-from / calls-to result.
#[derive(Clone, Debug)]
pub struct SymbolGraph {
    pub edges: Vec<GraphEdge>,
}

/// An entry of the symbol cross-reference table.
#[derive(Clone, Debug)]
pub struct SymbolInfo {
    /// Display name.
    pub pretty: Option<String>,
    /// Mangled or raw identifier.
    pub sym: Option<String>,
    /// Declaration location.
    pub decl: Option<String>,
    /// Definition location.
    pub def: Option<String>,
    /// Id of the enclosing symbol.
    pub parent_sym: Option<String>,
}

/// A call-graph result: a hierarchy (between-two-symbols queries) or flat
/// graphs (from / to queries), and the cross-reference table keyed by id.
pub struct CallGraphData {
    pub hierarchical_graphs: Option<Vec<GraphNode>>,
    pub graphs: Option<Vec<SymbolGraph>>,
    pub jumprefs: Option<Vec<(String, SymbolInfo)>>,
}

/// A pair of symbol ids.
pub type EdgeIds = (Seq<char>, Seq<char>);

pub open spec fn opt_or(o: Option<String>, dflt: Seq<char>) -> Seq<char> {
    match o {
        Some(s) => s@,
        None => dflt,
    }
}

/// The first entry of `refs` from index `i` on whose id is `key`.
pub open spec fn lookup_from(refs: Seq<(String, SymbolInfo)>, key: Seq<char>, i: int) -> Option<
    SymbolInfo,
>
    decreases refs.len() - i,
{
    if i < 0 || i >= refs.len() {
        None
    } else if refs[i].0@ == key {
        Some(refs[i].1)
    } else {
        lookup_from(refs, key, i + 1)
    }
}

/// The cross-reference entry of `key`, if the table is there and holds it.
pub open spec fn lookup(refs: Option<Vec<(String, SymbolInfo)>>, key: Seq<char>) -> Option<
    SymbolInfo,
> {
    match refs {
        Some(r) => lookup_from(r@, key, 0),
        None => None,
    }
}

/// The edges of `es` with both ends given, as id pairs.
pub open spec fn kept_edges(es: Seq<GraphEdge>) -> Seq<EdgeIds>
    decreases es.len(),
{
    if es.len() == 0 {
        seq![]
    } else {
        let e = es.last();
        kept_edges(es.drop_last()) + if e.from@.len() > 0 && e.to@.len() > 0 {
            seq![(e.from@, e.to@)]
        } else {
            seq![]
        }
    }
}

/// Every edge of a hierarchy, the node's own before its children's, in
/// order of discovery.
pub open spec fn tree_edges(n: GraphNode) -> Seq<EdgeIds>
    decreases n, 0int,
{
    kept_edges(n.edges@) + forest_edges(n.children@, n.children@.len() as int)
}

/// Every edge of the first `k` hierarchies of `ns`.
pub open spec fn forest_edges(ns: Seq<GraphNode>, k: int) -> Seq<EdgeIds>
    decreases ns, k,
{
    if k <= 0 || k > ns.len() {
        seq![]
    } else {
        forest_edges(ns, k - 1) + tree_edges(ns[k - 1])
    }
}

/// The display name of a symbol: its `pretty` entry, else its id.
pub open spec fn display_name(refs: Option<Vec<(String, SymbolInfo)>>, sym: Seq<char>) -> Seq<
    char,
> {
    match lookup(refs, sym) {
        Some(info) => opt_or(info.pretty, sym),
        None => sym,
    }
}

/// The definition location of a symbol, or nothing.
pub open spec fn def_location(refs: Option<Vec<(String, SymbolInfo)>>, sym: Seq<char>) -> Seq<
    char,
> {
    match lookup(refs, sym) {
        Some(info) => opt_or(info.def, Seq::empty()),
        None => Seq::empty(),
    }
}

/// The bullet for one edge of a between-two-symbols report.
pub open spec fn edge_text(refs: Option<Vec<(String, SymbolInfo)>>, e: EdgeIds) -> Seq<char> {
    "- **"@ + display_name(refs, e.0) + "** ("@ + def_location(refs, e.0) + ") calls **"@
        + display_name(refs, e.1) + "** ("@ + def_location(refs, e.1) + ")\n"@ + "  - From: `"@
        + e.0 + "`\n"@ + "  - To: `"@ + e.1 + "`\n"@
}

pub open spec fn edges_text(refs: Option<Vec<(String, SymbolInfo)>>, es: Seq<EdgeIds>) -> Seq<
    char,
>
    decreases es.len(),
{
    if es.len() == 0 {
        seq![]
    } else {
        edges_text(refs, es.drop_last()) + edge_text(refs, es.last())
    }
}

/// The report's heading.
pub open spec fn heading(query: Seq<char>) -> Seq<char> {
    "# "@ + query + "\n\n"@
}

/// The report for a between-two-symbols query over `hs`.
pub open spec fn between_text(
    query: Seq<char>,
    refs: Option<Vec<(String, SymbolInfo)>>,
    hs: Seq<GraphNode>,
) -> Seq<char> {
    let es = forest_edges(hs, hs.len() as int);
    heading(query) + if es.len() == 0 {
        "No direct calls found between source and target.\n"@
    } else {
        "## Direct calls from source to target\n\n"@ + edges_text(refs, es)
    }
}

/// Where a symbol is: its definition, with the declaration where that lies
/// elsewhere; else whichever of the two is known.
pub open spec fn location_of(def: Seq<char>, decl: Seq<char>) -> Seq<char> {
    if def.len() > 0 && decl.len() > 0 && def != decl {
        def + " (decl: "@ + decl + ")"@
    } else if def.len() > 0 {
        def
    } else {
        decl
    }
}

/// A parent symbol's heading: its id without a `T_` type prefix.
pub open spec fn parent_label(p: Seq<char>) -> Seq<char> {
    if has_prefix(p, "T_"@) {
        p.subrange(2, p.len() as int)
    } else {
        p
    }
}

/// The report entry (parent, name, mangled name, location) for the end of
/// `e` that is not the queried symbol: the caller for calls-to, the callee
/// for calls-from.  A symbol that the table gives without a display name
/// appears by its raw id, its location empty where none is known; a symbol
/// missing from the table appears by its raw id among the free functions.
/// Only an edge with no id at that end gives no entry.
pub open spec fn entry_of(
    is_calls_to: bool,
    refs: Option<Vec<(String, SymbolInfo)>>,
    e: GraphEdge,
) -> Option<Quad> {
    let target = if is_calls_to {
        e.from@
    } else {
        e.to@
    };
    match lookup(refs, target) {
        Some(info) => {
            let named = opt_or(info.pretty, Seq::empty());
            let pretty = if named.len() > 0 {
                named
            } else {
                target
            };
            let mangled = opt_or(info.sym, target);
            let loc = location_of(opt_or(info.def, Seq::empty()), opt_or(info.decl, Seq::empty()));
            let parent = parent_label(opt_or(info.parent_sym, "Free functions"@));
            if pretty.len() > 0 {
                Some((parent, pretty, mangled, loc))
            } else {
                None
            }
        },
        None => if target.len() > 0 {
            Some(("Free functions"@, target, target, Seq::empty()))
        } else {
            None
        },
    }
}

pub open spec fn edge_entries(
    is_calls_to: bool,
    refs: Option<Vec<(String, SymbolInfo)>>,
    es: Seq<GraphEdge>,
) -> Seq<Quad>
    decreases es.len(),
{
    if es.len() == 0 {
        seq![]
    } else {
        edge_entries(is_calls_to, refs, es.drop_last()) + match entry_of(
            is_calls_to,
            refs,
            es.last(),
        ) {
            Some(q) => seq![q],
            None => seq![],
        }
    }
}

/// The entries of every edge of every graph.
pub open spec fn graph_entries(
    is_calls_to: bool,
    refs: Option<Vec<(String, SymbolInfo)>>,
    gs: Seq<SymbolGraph>,
) -> Seq<Quad>
    decreases gs.len(),
{
    if gs.len() == 0 {
        seq![]
    } else {
        graph_entries(is_calls_to, refs, gs.drop_last()) + edge_entries(
            is_calls_to,
            refs,
            gs.last().edges@,
        )
    }
}

/// The entries of a from / to result.
pub open spec fn result_entries(query: Seq<char>, data: CallGraphData) -> Seq<Quad> {
    match data.graphs {
        Some(gs) => graph_entries(has_sub(query, "calls-to:"@), data.jumprefs, gs@),
        None => seq![],
    }
}

/// How many entries from `i` on share the parent and the name of entry `i`.
pub open spec fn run_len(q: Seq<Quad>, i: int) -> nat
    decreases q.len() - i,
{
    if 0 <= i && i + 1 < q.len() && q[i].0 == q[i + 1].0 && q[i].1 == q[i + 1].1 {
        1 + run_len(q, i + 1)
    } else {
        1
    }
}

/// The sub-bullet of one overload.
pub open spec fn overload_line(e: Quad) -> Seq<char> {
    "  - `"@ + e.2 + "`, "@ + e.3 + "\n"@
}

/// What the sorted entries `q` contribute at index `i`: the parent's
/// heading where a parent starts; the bullet where a name starts (one
/// overload inline, several counted with a sub-bullet each); a blank line
/// where a parent ends.
pub open spec fn entry_text(q: Seq<Quad>, i: int) -> Seq<char> {
    let e = q[i];
    let opens_parent = i == 0 || q[i - 1].0 != e.0;
    let opens_name = opens_parent || q[i - 1].1 != e.1;
    let closes_parent = i >= q.len() - 1 || q[i + 1].0 != e.0;
    let n = run_len(q, i);
    (if opens_parent {
        "## "@ + e.0 + "\n\n"@
    } else {
        seq![]
    }) + (if opens_name {
        if n == 1 {
            "- "@ + e.1 + " (`"@ + e.2 + "`, "@ + e.3 + ")\n"@
        } else {
            "- "@ + e.1 + " ("@ + dec(n) + " overloads)\n"@ + overload_line(e)
        }
    } else {
        overload_line(e)
    }) + (if closes_parent {
        "\n"@
    } else {
        seq![]
    })
}

/// The text of the first `k` sorted entries.
pub open spec fn render(q: Seq<Quad>, k: int) -> Seq<char>
    decreases k,
{
    if k <= 0 {
        seq![]
    } else {
        render(q, k - 1) + entry_text(q, k - 1)
    }
}

/// The report of a from / to query whose distinct entries, sorted, are `q`.
pub open spec fn grouped_text(query: Seq<char>, q: Seq<Quad>) -> Seq<char> {
    heading(query) + if q.len() == 0 {
        "No results found.\n"@
    } else {
        render(q, q.len() as int)
    }
}

/// The report takes the between-two-symbols layout.
pub open spec fn is_between(query: Seq<char>, data: CallGraphData) -> bool {
    has_sub(query, "calls-between"@) && data.hierarchical_graphs is Some
}

pub open spec fn edge_views(v: Seq<(Vec<char>, Vec<char>)>) -> Seq<EdgeIds> {
    v.map_values(|p: (Vec<char>, Vec<char>)| (p.0@, p.1@))
}

fn collect_kept(es: &Vec<GraphEdge>, out: &mut Vec<(Vec<char>, Vec<char>)>)
    ensures
        edge_views(final(out)@) == edge_views(old(out)@) + kept_edges(es@),
{
    let ghost base = edge_views(out@);
    let mut i: usize = 0;
    while i < es.len()
        invariant
            i <= es@.len(),
            edge_views(out@) == base + kept_edges(es@.take(i as int)),
        decreases es.len() - i,
    {
        let from = chars_of(es[i].from.as_str());
        let to = chars_of(es[i].to.as_str());
        let ghost before = edge_views(out@);
        assert(es@.take(i + 1).drop_last() =~= es@.take(i as int));
        if from.len() > 0 && to.len() > 0 {
            out.push((from, to));
            assert(edge_views(out@) =~= before.push((from@, to@)));
        }
        i = i + 1;
        assert(edge_views(out@) =~= base + kept_edges(es@.take(i as int)));
    }
    assert(es@.take(es@.len() as int) =~= es@);
}

fn collect_tree(n: &GraphNode, out: &mut Vec<(Vec<char>, Vec<char>)>)
    ensures
        edge_views(final(out)@) == edge_views(old(out)@) + tree_edges(*n),
    decreases n,
{
    let ghost base = edge_views(out@);
    collect_kept(&n.edges, out);
    let mut i: usize = 0;
    while i < n.children.len()
        invariant
            i <= n.children@.len(),
            edge_views(out@) == base + kept_edges(n.edges@) + forest_edges(
                n.children@,
                i as int,
            ),
        decreases n.children.len() - i,
    {
        let ghost before = edge_views(out@);
        proof {
            assert(decreases_to!(n => n.children));
            assert(decreases_to!(n.children => n.children[i as int]));
        }
        collect_tree(&n.children[i], out);
        i = i + 1;
        assert(edge_views(out@) =~= base + kept_edges(n.edges@) + forest_edges(
            n.children@,
            i as int,
        ));
    }
}

/// The index of the first entry of `refs` whose id is `key`.
fn find_ref(refs: &Vec<(String, SymbolInfo)>, key: &Vec<char>) -> (r: Option<usize>)
    ensures
        match r {
            Some(i) => i < refs@.len() && lookup_from(refs@, key@, 0) == Some(refs@[i as int].1),
            None => lookup_from(refs@, key@, 0) is None,
        },
{
    let mut i: usize = 0;
    while i < refs.len()
        invariant
            i <= refs@.len(),
            lookup_from(refs@, key@, i as int) == lookup_from(refs@, key@, 0),
        decreases refs.len() - i,
    {
        let id = chars_of(refs[i].0.as_str());
        if eq_chars(&id, key) {
            return Some(i);
        }
        i = i + 1;
    }
    None
}

/// The cross-reference entry of `key`.
fn lookup_exec<'a>(refs: &'a Option<Vec<(String, SymbolInfo)>>, key: &Vec<char>) -> (r: Option<
    &'a SymbolInfo,
>)
    ensures
        match r {
            Some(info) => lookup(*refs, key@) == Some(*info),
            None => lookup(*refs, key@) is None,
        },
{
    match refs {
        Some(r) => match find_ref(r, key) {
            Some(i) => Some(&r[i].1),
            None => None,
        },
        None => None,
    }
}

fn display_name_exec(refs: &Option<Vec<(String, SymbolInfo)>>, sym: &Vec<char>) -> (r: Vec<char>)
    ensures
        r@ == display_name(*refs, sym@),
{
    match lookup_exec(refs, sym) {
        Some(info) => chars_or(&info.pretty, sym),
        None => sym.clone(),
    }
}

fn def_location_exec(refs: &Option<Vec<(String, SymbolInfo)>>, sym: &Vec<char>) -> (r: Vec<char>)
    ensures
        r@ == def_location(*refs, sym@),
{
    match lookup_exec(refs, sym) {
        Some(info) => chars_or(&info.def, &Vec::new()),
        None => Vec::new(),
    }
}

fn between_report(
    query: &Vec<char>,
    refs: &Option<Vec<(String, SymbolInfo)>>,
    hs: &Vec<GraphNode>,
) -> (r: Vec<char>)
    ensures
        r@ == between_text(query@, *refs, hs@),
{
    let mut es: Vec<(Vec<char>, Vec<char>)> = Vec::new();
    let mut i: usize = 0;
    while i < hs.len()
        invariant
            i <= hs@.len(),
            edge_views(es@) == forest_edges(hs@, i as int),
        decreases hs.len() - i,
    {
        collect_tree(&hs[i], &mut es);
        i = i + 1;
    }
    let mut out: Vec<char> = Vec::new();
    push_str(&mut out, "# ");
    extend(&mut out, query);
    push_str(&mut out, "\n\n");
    let ghost head = out@;
    assert(head == heading(query@));
    if es.len() == 0 {
        push_str(&mut out, "No direct calls found between source and target.\n");
        return out;
    }
    push_str(&mut out, "## Direct calls from source to target\n\n");
    let ghost top = out@;
    let ghost all = edge_views(es@);
    let mut k: usize = 0;
    while k < es.len()
        invariant
            k <= es@.len(),
            all == edge_views(es@),
            all == forest_edges(hs@, hs@.len() as int),
            all.len() > 0,
            top == head + "## Direct calls from source to target\n\n"@,
            head == heading(query@),
            out@ == top + edges_text(*refs, all.take(k as int)),
        decreases es.len() - k,
    {
        let from = &es[k].0;
        let to = &es[k].1;
        let ghost before = out@;
        push_str(&mut out, "- **");
        extend(&mut out, &display_name_exec(refs, from));
        push_str(&mut out, "** (");
        extend(&mut out, &def_location_exec(refs, from));
        push_str(&mut out, ") calls **");
        extend(&mut out, &display_name_exec(refs, to));
        push_str(&mut out, "** (");
        extend(&mut out, &def_location_exec(refs, to));
        push_str(&mut out, ")\n");
        push_str(&mut out, "  - From: `");
        extend(&mut out, from);
        push_str(&mut out, "`\n");
        push_str(&mut out, "  - To: `");
        extend(&mut out, to);
        push_str(&mut out, "`\n");
        assert(all.take(k + 1).drop_last() =~= all.take(k as int));
        assert(all[k as int] == (from@, to@));
        assert(out@ =~= before + edge_text(*refs, all[k as int]));
        k = k + 1;
    }
    assert(all.take(all.len() as int) =~= all);
    out
}

fn location_exec(def: &Vec<char>, decl: &Vec<char>) -> (r: Vec<char>)
    ensures
        r@ == location_of(def@, decl@),
{
    if def.len() > 0 && decl.len() > 0 && !eq_chars(def, decl) {
        let mut out = def.clone();
        push_str(&mut out, " (decl: ");
        extend(&mut out, decl);
        push_str(&mut out, ")");
        out
    } else if def.len() > 0 {
        def.clone()
    } else {
        decl.clone()
    }
}

fn entry_exec(
    is_calls_to: bool,
    refs: &Option<Vec<(String, SymbolInfo)>>,
    e: &GraphEdge,
) -> (r: Option<Record>)
    ensures
        match r {
            Some(x) => entry_of(is_calls_to, *refs, *e) == Some(x@),
            None => entry_of(is_calls_to, *refs, *e) is None,
        },
{
    let target = if is_calls_to {
        chars_of(e.from.as_str())
    } else {
        chars_of(e.to.as_str())
    };
    match lookup_exec(refs, &target) {
        Some(info) => {
            let empty: Vec<char> = Vec::new();
            let named = chars_or(&info.pretty, &empty);
            let pretty = if named.len() > 0 {
                named
            } else {
                target.clone()
            };
            let mangled = chars_or(&info.sym, &target);
            let loc = location_exec(&chars_or(&info.def, &empty), &chars_or(&info.decl, &empty));
            let p = chars_or(&info.parent_sym, &chars_of("Free functions"));
            proof {
                reveal_strlit("T_");
            }
            let parent = if starts_with(&p, &chars_of("T_")) {
                slice_of(&p, 2, p.len())
            } else {
                p
            };
            if pretty.len() > 0 {
                Some(Record { a: parent, b: pretty, c: mangled, d: loc })
            } else {
                None
            }
        },
        None => if target.len() > 0 {
            Some(Record { a: chars_of("Free functions"), b: target.clone(), c: target, d: Vec::new() })
        } else {
            None
        },
    }
}

/// The distinct entries of a from / to result, sorted.
fn sorted_entries(query: &Vec<char>, data: &CallGraphData) -> (r: Vec<Record>)
    ensures
        strictly_sorted(record_views(r@)),
        record_views(r@).to_set() == result_entries(query@, *data).to_set(),
{
    let is_to = crate::utils::has_text(query, "calls-to:");
    let mut q: Vec<Record> = Vec::new();
    assert(record_views(q@).to_set() =~= Seq::<Quad>::empty().to_set());
    match &data.graphs {
        Some(gs) => {
            let mut g: usize = 0;
            while g < gs.len()
                invariant
                    g <= gs@.len(),
                    strictly_sorted(record_views(q@)),
                    record_views(q@).to_set() == graph_entries(
                        is_to,
                        data.jumprefs,
                        gs@.take(g as int),
                    ).to_set(),
                decreases gs.len() - g,
            {
                let es = &gs[g].edges;
                let ghost prior = graph_entries(is_to, data.jumprefs, gs@.take(g as int));
                let mut k: usize = 0;
                while k < es.len()
                    invariant
                        k <= es@.len(),
                        es == gs@[g as int].edges,
                        strictly_sorted(record_views(q@)),
                        record_views(q@).to_set() == (prior + edge_entries(
                            is_to,
                            data.jumprefs,
                            es@.take(k as int),
                        )).to_set(),
                    decreases es.len() - k,
                {
                    let ghost cur = prior + edge_entries(is_to, data.jumprefs, es@.take(k as int));
                    assert(es@.take(k + 1).drop_last() =~= es@.take(k as int));
                    assert(es@.take(k + 1).last() == es@[k as int]);
                    match entry_exec(is_to, &data.jumprefs, &es[k]) {
                        Some(x) => {
                            let ghost xv = x@;
                            insert_sorted(&mut q, x);
                            proof {
                                cur.lemma_push_to_set_commute(xv);
                            }
                            assert(cur + seq![xv] =~= cur.push(xv));
                            assert(cur + seq![xv] =~= prior + edge_entries(
                                is_to,
                                data.jumprefs,
                                es@.take(k + 1),
                            ));
                        },
                        None => {
                            assert(cur =~= prior + edge_entries(
                                is_to,
                                data.jumprefs,
                                es@.take(k + 1),
                            ));
                        },
                    }
                    k = k + 1;
                }
                assert(es@.take(es@.len() as int) =~= es@);
                assert(gs@.take(g + 1).drop_last() =~= gs@.take(g as int));
                assert(gs@.take(g + 1).last() == gs@[g as int]);
                g = g + 1;
            }
            assert(gs@.take(gs@.len() as int) =~= gs@);
        },
        None => {},
    }
    q
}

/// The length of the run of entries sharing parent and name from `i` on.
fn run_len_exec(q: &Vec<Record>, i: usize) -> (r: usize)
    requires
        i < q@.len(),
    ensures
        r == run_len(record_views(q@), i as int),
        1 <= r <= q@.len() - i,
{
    let ghost v = record_views(q@);
    let mut j: usize = i;
    while j < q.len() - 1 && eq_chars(&q[j].a, &q[j + 1].a) && eq_chars(&q[j].b, &q[j + 1].b)
        invariant
            i <= j < q@.len(),
            v == record_views(q@),
            run_len(v, i as int) == (j - i) + run_len(v, j as int),
        decreases q.len() - j,
    {
        j = j + 1;
    }
    j - i + 1
}

fn push_overload(e: &Record, out: &mut Vec<char>)
    ensures
        final(out)@ == old(out)@ + overload_line(e@),
{
    let ghost start = out@;
    push_str(out, "  - `");
    extend(out, &e.c);
    push_str(out, "`, ");
    extend(out, &e.d);
    push_str(out, "\n");
    assert(out@ =~= start + overload_line(e@));
}

fn push_name_bullet(e: &Record, n: usize, out: &mut Vec<char>)
    ensures
        final(out)@ == old(out)@ + if n == 1 {
            "- "@ + e.b@ + " (`"@ + e.c@ + "`, "@ + e.d@ + ")\n"@
        } else {
            "- "@ + e.b@ + " ("@ + dec(n as nat) + " overloads)\n"@ + overload_line(e@)
        },
{
    let ghost start = out@;
    if n == 1 {
        push_str(out, "- ");
        extend(out, &e.b);
        push_str(out, " (`");
        extend(out, &e.c);
        push_str(out, "`, ");
        extend(out, &e.d);
        push_str(out, ")\n");
        assert(out@ =~= start + ("- "@ + e.b@ + " (`"@ + e.c@ + "`, "@ + e.d@ + ")\n"@));
    } else {
        push_str(out, "- ");
        extend(out, &e.b);
        push_str(out, " (");
        extend(out, &decimal(n as u128));
        push_str(out, " overloads)\n");
        let ghost mid = out@;
        push_overload(e, out);
        assert(mid =~= start + ("- "@ + e.b@ + " ("@ + dec(n as nat) + " overloads)\n"@));
        assert(out@ =~= start + ("- "@ + e.b@ + " ("@ + dec(n as nat) + " overloads)\n"@
            + overload_line(e@)));
    }
}

fn render_entry(q: &Vec<Record>, i: usize, out: &mut Vec<char>)
    requires
        i < q@.len(),
    ensures
        final(out)@ == old(out)@ + entry_text(record_views(q@), i as int),
{
    let ghost v = record_views(q@);
    let e = &q[i];
    assert(v[i as int] == e@);
    proof {
        if i > 0 {
            assert(v[i - 1] == q@[i - 1]@);
        }
        if i + 1 < q@.len() {
            assert(v[i + 1] == q@[i + 1]@);
        }
    }
    let opens_parent = i == 0 || !eq_chars(&q[i - 1].a, &e.a);
    let opens_name = opens_parent || !eq_chars(&q[i - 1].b, &e.b);
    let closes_parent = i >= q.len() - 1 || !eq_chars(&q[i + 1].a, &e.a);
    let n = run_len_exec(q, i);
    let ghost start = out@;
    if opens_parent {
        push_str(out, "## ");
        extend(out, &e.a);
        push_str(out, "\n\n");
    }
    let ghost a1 = out@;
    assert(a1 =~= start + if opens_parent {
        "## "@ + e.a@ + "\n\n"@
    } else {
        seq![]
    });
    if opens_name {
        push_name_bullet(e, n, out);
    } else {
        push_overload(e, out);
    }
    let ghost a2 = out@;
    if closes_parent {
        push_str(out, "\n");
    }
    assert(out@ =~= a2 + if closes_parent {
        "\n"@
    } else {
        seq![]
    });
    assert(out@ =~= start + entry_text(v, i as int));
}

fn grouped_report(query: &Vec<char>, data: &CallGraphData) -> (r: Vec<char>)
    ensures
        exists|q: Seq<Quad>|
            strictly_sorted(q) && q.to_set() == result_entries(query@, *data).to_set() && r@
                == grouped_text(query@, q),
{
    let q = sorted_entries(query, data);
    let ghost v = record_views(q@);
    let mut out: Vec<char> = Vec::new();
    push_str(&mut out, "# ");
    extend(&mut out, query);
    push_str(&mut out, "\n\n");
    let ghost head = out@;
    assert(head == heading(query@));
    if q.len() == 0 {
        push_str(&mut out, "No results found.\n");
        assert(out@ == grouped_text(query@, v));
        return out;
    }
    let mut i: usize = 0;
    while i < q.len()
        invariant
            i <= q@.len(),
            v == record_views(q@),
            out@ == head + render(v, i as int),
        decreases q.len() - i,
    {
        render_entry(&q, i, &mut out);
        i = i + 1;
    }
    assert(out@ == grouped_text(query@, v));
    out
}

/// Renders a call-graph result as Markdown under a `# {query}` heading.
///
/// A between-two-symbols query (its text holds `calls-between`) over a
/// hierarchy lists every edge of the hierarchy in order of discovery, each
/// end by display name and definition location, falling back to the raw id.
/// Any other result is grouped by the parent of the end that was not
/// queried, groups and entries sorted and deduplicated, entries of one name
/// collapsed into one bullet with an overload count; with no entry at all
/// the report says that nothing was found.
pub fn format_call_graph_markdown(query_text: &str, data: &CallGraphData) -> (r: String)
    ensures
        is_between(query_text@, *data) ==> r@ == between_text(
            query_text@,
            data.jumprefs,
            data.hierarchical_graphs.unwrap()@,
        ),
        !is_between(query_text@, *data) ==> exists|q: Seq<Quad>|
            strictly_sorted(q) && q.to_set() == result_entries(query_text@, *data).to_set() && r@
                == grouped_text(query_text@, q),
{
    let query = chars_of(query_text);
    if crate::utils::has_text(&query, "calls-between") {
        match &data.hierarchical_graphs {
            Some(hs) => {
                return string_of(&between_report(&query, &data.jumprefs, hs));
            },
            None => {},
        }
    }
    string_of(&grouped_report(&query, data))
}

/// The query string of a call-graph search, if it asks for anything.
pub open spec fn call_graph_query_text(q: CallGraphQuery) -> Option<Seq<char>> {
    let tail = " depth:"@ + dec(q.depth as nat) + " graph-format:json"@;
    match q.calls_from {
        Some(s) => Some("calls-from:'"@ + s@ + "'"@ + tail),
        None => match q.calls_to {
            Some(s) => Some("calls-to:'"@ + s@ + "'"@ + tail),
            None => match q.calls_between {
                Some(p) => Some("calls-between-source:'"@ + trim(p.0@) + "' calls-between-target:'"@
                    + trim(p.1@) + "'"@ + tail),
                None => None,
            },
        },
    }
}

impl CallGraphQuery {
    /// The query string sent to the service: callees of `calls_from`,
    /// callers of `calls_to`, or the calls between the two (trimmed) symbols
    /// of `calls_between`, in that order of preference; `None` where the
    /// query names none.
    pub fn query_string(&self) -> (r: Option<String>)
        ensures
            match r {
                Some(s) => call_graph_query_text(*self) == Some(s@),
                None => call_graph_query_text(*self) is None,
            },
    {
        let mut out: Vec<char> = Vec::new();
        match &self.calls_from {
            Some(s) => {
                push_str(&mut out, "calls-from:'");
                push_str(&mut out, s.as_str());
            },
            None => match &self.calls_to {
                Some(s) => {
                    push_str(&mut out, "calls-to:'");
                    push_str(&mut out, s.as_str());
                },
                None => match &self.calls_between {
                    Some(p) => {
                        push_str(&mut out, "calls-between-source:'");
                        extend(&mut out, &trim_of(&chars_of(p.0.as_str())));
                        push_str(&mut out, "' calls-between-target:'");
                        extend(&mut out, &trim_of(&chars_of(p.1.as_str())));
                    },
                    None => {
                        return None;
                    },
                },
            },
        }
        push_str(&mut out, "'");
        push_str(&mut out, " depth:");
        extend(&mut out, &decimal(self.depth as u128));
        push_str(&mut out, " graph-format:json");
        let ghost tail = " depth:"@ + dec(self.depth as nat) + " graph-format:json"@;
        assert(Some(out@) == call_graph_query_text(*self));
        Some(string_of(&out))
    }
}

/// The from / to report is determined by the result: any two sorted
/// enumerations of its distinct entries give the same text, so the
/// formatter's contract fixes its output.
pub proof fn grouped_report_is_determined(
    query: Seq<char>,
    data: CallGraphData,
    q1: Seq<Quad>,
    q2: Seq<Quad>,
)
    requires
        strictly_sorted(q1),
        strictly_sorted(q2),
        q1.to_set() == result_entries(query, data).to_set(),
        q2.to_set() == result_entries(query, data).to_set(),
    ensures
        grouped_text(query, q1) == grouped_text(query, q2),
{
    sorted_enumeration_is_unique(q1, q2);
}

proof fn run_len_facts(q: Seq<Quad>, i: int, t: int)
    requires
        0 <= i < q.len(),
        i <= t < i + run_len(q, i) - 1,
    ensures
        i + run_len(q, i) <= q.len(),
        q[t].0 == q[t + 1].0 && q[t].1 == q[t + 1].1,
        q[t + 1].0 == q[i].0 && q[t + 1].1 == q[i].1,
    decreases t - i,
{
    run_len_bound(q, i);
    if t > i {
        run_len_facts(q, i + 1, t);
    }
}

proof fn run_len_bound(q: Seq<Quad>, i: int)
    requires
        0 <= i < q.len(),
    ensures
        i + run_len(q, i) <= q.len(),
    decreases q.len() - i,
{
    if i + 1 < q.len() && q[i].0 == q[i + 1].0 && q[i].1 == q[i + 1].1 {
        run_len_bound(q, i + 1);
    }
}

/// Entries under one parent that share a display name collapse into one
/// bullet: where entry `i` starts such a run of `n >= 2` entries, it gives
/// the single bullet `- {name} ({n} overloads)` followed by its own
/// sub-bullet, and each later entry `j` of the run gives only its own
/// sub-bullet (and the blank line that ends the parent, if it is last).
pub proof fn overloads_collapse_into_one_bullet(q: Seq<Quad>, i: int, j: int)
    requires
        0 <= i < q.len(),
        i == 0 || q[i - 1].0 != q[i].0 || q[i - 1].1 != q[i].1,
        run_len(q, i) >= 2,
        i < j < i + run_len(q, i),
    ensures
        j < q.len(),
        q[j].0 == q[i].0 && q[j].1 == q[i].1,
        entry_text(q, i) == (if i == 0 || q[i - 1].0 != q[i].0 {
            "## "@ + q[i].0 + "\n\n"@
        } else {
            seq![]
        }) + ("- "@ + q[i].1 + " ("@ + dec(run_len(q, i)) + " overloads)\n"@ + overload_line(q[i])),
        entry_text(q, j) == overload_line(q[j]) + (if j + 1 >= q.len() || q[j + 1].0 != q[j].0 {
            "\n"@
        } else {
            seq![]
        }),
{
    run_len_facts(q, i, i);
    run_len_facts(q, i, j - 1);
    if j - 1 > i {
        run_len_facts(q, i, j - 2);
    }
    assert(!(i + 1 >= q.len() || q[i + 1].0 != q[i].0));
}

} // verus!
