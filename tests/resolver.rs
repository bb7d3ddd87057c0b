use searchfox_lib::resolver::{
    has_definition_signal, is_potential_definition, locate_definitions, mentions_query,
};
use searchfox_lib::{File, Line, ResultGroup, SearchOptions, SearchfoxResponse};

fn line(lno: usize, text: &str, upsearch: Option<&str>) -> Line {
    Line {
        lno,
        line: text.to_string(),
        bounds: None,
        context: None,
        contextsym: None,
        peek_range: None,
        upsearch: upsearch.map(|u| u.to_string()),
    }
}

fn file(path: &str, lines: Vec<Line>) -> File {
    File {
        path: path.to_string(),
        lines,
    }
}

fn categorized(cats: Vec<(&str, Vec<File>)>) -> SearchfoxResponse {
    SearchfoxResponse {
        groups: vec![
            ("*title*".to_string(), ResultGroup::Files(vec![file("meta", vec![line(1, "class X {", None)])])),
            (
                "normal".to_string(),
                ResultGroup::Categories(
                    cats.into_iter().map(|(n, f)| (n.to_string(), f)).collect(),
                ),
            ),
        ],
    }
}

#[test]
fn member_lookup_prefers_definitions() {
    let resp = categorized(vec![
        (
            "Declarations (AudioContext::CreateGain)",
            vec![file("dom/AudioContext.h", vec![line(40, "CreateGain(ErrorResult&);", None)])],
        ),
        (
            "Definitions (AudioContext::CreateGain)",
            vec![file("dom/AudioContext.cpp", vec![line(500, "AudioContext::CreateGain(ErrorResult& aRv) {", None)])],
        ),
    ]);
    let r = locate_definitions("AudioContext::CreateGain", &SearchOptions::default(), &resp);
    assert_eq!(r, vec![("dom/AudioContext.cpp".to_string(), 500)]);
}

#[test]
fn bare_type_inspects_class_definitions_first() {
    let resp = categorized(vec![
        (
            "Declarations (AudioContext)",
            vec![file("dom/Fwd.h", vec![line(3, "class AudioContext;", None)])],
        ),
        (
            "Definitions (AudioContext)",
            vec![file(
                "dom/AudioContext.h",
                vec![line(120, "class AudioContext final : public DOMEventTargetHelper {", None), line(121, "  // body", None)],
            )],
        ),
    ]);
    let r = locate_definitions("AudioContext", &SearchOptions::default(), &resp);
    assert_eq!(
        r,
        vec![
            ("dom/AudioContext.h".to_string(), 120),
            ("dom/Fwd.h".to_string(), 3),
        ]
    );
    let with_prefix = locate_definitions("id:AudioContext", &SearchOptions::default(), &resp);
    assert_eq!(with_prefix, r);
}

#[test]
fn bare_type_falls_back_to_definitions() {
    let resp = categorized(vec![(
        "Definitions (audiocontext::helper)",
        vec![file("a.cpp", vec![line(7, "void f() {", None)])],
    )]);
    let r = locate_definitions("AudioContext", &SearchOptions::default(), &resp);
    assert_eq!(r, vec![("a.cpp".to_string(), 7)]);
}

#[test]
fn mangled_upsearch_hit_wins_alone() {
    let resp = categorized(vec![(
        "Definitions (Foo::Bar)",
        vec![
            file("a.cpp", vec![line(1, "x", None)]),
            file("b.cpp", vec![line(9, "Foo::Bar() {", Some("symbol:_ZN3Foo3BarEv")), line(10, "y", None)]),
        ],
    )]);
    let r = locate_definitions("Foo::Bar", &SearchOptions::default(), &resp);
    assert_eq!(r, vec![("b.cpp".to_string(), 9)]);
}

#[test]
fn flat_results_keep_definition_lines_only() {
    let resp = SearchfoxResponse {
        groups: vec![(
            "normal".to_string(),
            ResultGroup::Files(vec![
                file(
                    "a.cpp",
                    vec![
                        line(1, "  DoThing(x)", None),
                        line(2, "void DoThing(int x) {", None),
                        line(3, "int dothing = 1", None),
                    ],
                ),
                file("b.js", vec![line(4, "DoThing = f;", None)]),
            ]),
        )],
    };
    let all = locate_definitions("DoThing", &SearchOptions::default(), &resp);
    assert_eq!(
        all,
        vec![
            ("a.cpp".to_string(), 2),
            ("a.cpp".to_string(), 3),
            ("b.js".to_string(), 4),
        ]
    );
    let cpp = SearchOptions {
        cpp: true,
        ..SearchOptions::default()
    };
    assert_eq!(locate_definitions("DoThing", &cpp, &resp).len(), 2);
}

#[test]
fn nothing_found_is_empty() {
    let resp = categorized(vec![("Uses (Other)", vec![file("a.cpp", vec![line(1, "Other();", None)])])]);
    assert!(locate_definitions("Missing", &SearchOptions::default(), &resp).is_empty());
}

#[test]
fn definition_line_heuristics() {
    assert!(has_definition_signal("void f() {"));
    assert!(has_definition_signal("int x;  "));
    assert!(has_definition_signal("already_AddRefed<GainNode> AudioContext::CreateGain"));
    assert!(!has_definition_signal("return CreateGain"));
    assert!(mentions_query("Foo", "FOO", "foo", "foo"));
    assert!(!mentions_query("Foo", "Bar", "foo", "bar"));
    assert!(is_potential_definition(&line(1, "class AUDIOCONTEXT {", None), "AudioContext"));
    assert!(!is_potential_definition(&line(1, "AudioContext ctx", None), "AudioContext"));
}
