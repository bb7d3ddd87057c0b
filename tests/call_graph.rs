use searchfox_lib::call_graph::{
    format_call_graph_markdown, CallGraphData, CallGraphQuery, GraphEdge, GraphNode,
    SymbolGraph, SymbolInfo,
};

fn edge(from: &str, to: &str) -> GraphEdge {
    GraphEdge {
        from: from.to_string(),
        to: to.to_string(),
    }
}

fn sym(pretty: &str, mangled: &str, def: &str, decl: &str, parent: Option<&str>) -> SymbolInfo {
    SymbolInfo {
        pretty: Some(pretty.to_string()),
        sym: Some(mangled.to_string()),
        decl: if decl.is_empty() { None } else { Some(decl.to_string()) },
        def: if def.is_empty() { None } else { Some(def.to_string()) },
        parent_sym: parent.map(|p| p.to_string()),
    }
}

#[test]
fn calls_from_collapses_overloads() {
    let data = CallGraphData {
        hierarchical_graphs: None,
        graphs: Some(vec![SymbolGraph {
            edges: vec![edge("caller", "_Z1b"), edge("caller", "_Z1a"), edge("caller", "_Z1a")],
        }]),
        jumprefs: Some(vec![
            ("_Z1a".to_string(), sym("CreateGain", "_Z1a", "a.cpp:1", "", Some("T_AudioContext"))),
            ("_Z1b".to_string(), sym("CreateGain", "_Z1b", "a.cpp:9", "a.h:3", Some("T_AudioContext"))),
        ]),
    };
    let q = "calls-from:'AudioContext::CreateGain' depth:1 graph-format:json";
    let out = format_call_graph_markdown(q, &data);
    assert_eq!(
        out,
        format!(
            "# {q}\n\n## AudioContext\n\n- CreateGain (2 overloads)\n  - `_Z1a`, a.cpp:1\n  - `_Z1b`, a.cpp:9 (decl: a.h:3)\n\n"
        )
    );
}

#[test]
fn calls_to_groups_by_caller_parent() {
    let data = CallGraphData {
        hierarchical_graphs: None,
        graphs: Some(vec![SymbolGraph {
            edges: vec![edge("_Zc", "target"), edge("_Zf", "target"), edge("_Zmissing", "target")],
        }]),
        jumprefs: Some(vec![
            ("_Zc".to_string(), sym("Node::Connect", "_Zc", "n.cpp:5", "", Some("Node"))),
            ("_Zf".to_string(), sym("helper", "_Zf", "", "h.h:2", None)),
        ]),
    };
    let q = "calls-to:'Target' depth:1";
    let out = format_call_graph_markdown(q, &data);
    assert_eq!(
        out,
        format!(
            "# {q}\n\n## Free functions\n\n- _Zmissing (`_Zmissing`, )\n- helper (`_Zf`, h.h:2)\n\n## Node\n\n- Node::Connect (`_Zc`, n.cpp:5)\n\n"
        )
    );
}

#[test]
fn no_graph_reports_nothing_found() {
    let data = CallGraphData {
        hierarchical_graphs: None,
        graphs: None,
        jumprefs: None,
    };
    assert_eq!(
        format_call_graph_markdown("calls-from:'X'", &data),
        "# calls-from:'X'\n\nNo results found.\n"
    );
}

#[test]
fn calls_between_lists_every_edge_in_order() {
    let data = CallGraphData {
        hierarchical_graphs: Some(vec![GraphNode {
            edges: vec![edge("_Za", "_Zb"), edge("", "_Zb")],
            children: vec![GraphNode {
                edges: vec![edge("_Zb", "_Zunknown")],
                children: vec![],
            }],
        }]),
        graphs: None,
        jumprefs: Some(vec![
            ("_Za".to_string(), sym("A::run", "_Za", "a.cpp:1", "", None)),
            ("_Zb".to_string(), sym("B::go", "_Zb", "", "b.h:2", None)),
        ]),
    };
    let q = "calls-between-source:'A' calls-between-target:'B' depth:2";
    let out = format_call_graph_markdown(q, &data);
    assert_eq!(
        out,
        format!(
            "# {q}\n\n## Direct calls from source to target\n\n\
- **A::run** (a.cpp:1) calls **B::go** ()\n  - From: `_Za`\n  - To: `_Zb`\n\
- **B::go** () calls **_Zunknown** ()\n  - From: `_Zb`\n  - To: `_Zunknown`\n"
        )
    );
}

#[test]
fn calls_between_without_edges() {
    let data = CallGraphData {
        hierarchical_graphs: Some(vec![]),
        graphs: None,
        jumprefs: None,
    };
    assert_eq!(
        format_call_graph_markdown("calls-between-source:'A'", &data),
        "# calls-between-source:'A'\n\nNo direct calls found between source and target.\n"
    );
}

#[test]
fn call_graph_query_strings() {
    let from = CallGraphQuery {
        calls_from: Some("mozilla::dom::AudioContext::CreateGain".to_string()),
        calls_to: None,
        calls_between: None,
        depth: 1,
    };
    assert_eq!(
        from.query_string().unwrap(),
        "calls-from:'mozilla::dom::AudioContext::CreateGain' depth:1 graph-format:json"
    );
    let between = CallGraphQuery {
        calls_from: None,
        calls_to: None,
        calls_between: Some((" AudioContext ".to_string(), "AudioNode".to_string())),
        depth: 12,
    };
    assert_eq!(
        between.query_string().unwrap(),
        "calls-between-source:'AudioContext' calls-between-target:'AudioNode' depth:12 graph-format:json"
    );
    let none = CallGraphQuery {
        calls_from: None,
        calls_to: None,
        calls_between: None,
        depth: 2,
    };
    assert!(none.query_string().is_none());
}

#[test]
fn table_entry_without_name_or_location_shows_raw_id() {
    let data = CallGraphData {
        hierarchical_graphs: None,
        graphs: Some(vec![SymbolGraph {
            edges: vec![edge("caller", "_Zbare")],
        }]),
        jumprefs: Some(vec![(
            "_Zbare".to_string(),
            SymbolInfo {
                pretty: None,
                sym: None,
                decl: None,
                def: None,
                parent_sym: Some("T_Holder".to_string()),
            },
        )]),
    };
    let q = "calls-from:'X'";
    assert_eq!(
        format_call_graph_markdown(q, &data),
        format!("# {q}\n\n## Holder\n\n- _Zbare (`_Zbare`, )\n\n")
    );
}
