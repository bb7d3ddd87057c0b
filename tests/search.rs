use searchfox_lib::search::collect_search_results;
use searchfox_lib::{CategoryFilter, File, Line, ResultGroup, SearchOptions, SearchfoxResponse};

fn line(lno: usize, text: &str) -> Line {
    Line {
        lno,
        line: text.to_string(),
        bounds: None,
        context: None,
        contextsym: None,
        peek_range: None,
        upsearch: None,
    }
}

fn response() -> SearchfoxResponse {
    SearchfoxResponse {
        groups: vec![
            ("*timedout*".to_string(), ResultGroup::Files(vec![])),
            (
                "normal".to_string(),
                ResultGroup::Files(vec![File {
                    path: "dom/A.cpp".to_string(),
                    lines: vec![line(1, "one  "), line(2, "two\t")],
                }]),
            ),
            (
                "test".to_string(),
                ResultGroup::Categories(vec![(
                    "Uses".to_string(),
                    vec![File {
                        path: "dom/test/T.js".to_string(),
                        lines: vec![line(3, "three")],
                    }],
                )]),
            ),
        ],
    }
}

#[test]
fn listing_rows_in_order_trimmed() {
    let opts = SearchOptions {
        query: Some("x".to_string()),
        ..SearchOptions::default()
    };
    let rows = collect_search_results(&opts, &response());
    let got: Vec<(String, usize, String)> = rows
        .into_iter()
        .map(|r| (r.path, r.line_number, r.line))
        .collect();
    assert_eq!(
        got,
        vec![
            ("dom/A.cpp".to_string(), 1, "one".to_string()),
            ("dom/A.cpp".to_string(), 2, "two".to_string()),
            ("dom/test/T.js".to_string(), 3, "three".to_string()),
        ]
    );
}

#[test]
fn listing_respects_limit_and_filters() {
    let limited = SearchOptions {
        query: Some("x".to_string()),
        limit: 2,
        ..SearchOptions::default()
    };
    assert_eq!(collect_search_results(&limited, &response()).len(), 2);
    let no_tests = SearchOptions {
        query: Some("x".to_string()),
        category_filter: CategoryFilter::ExcludeTests,
        ..SearchOptions::default()
    };
    assert_eq!(collect_search_results(&no_tests, &response()).len(), 2);
    let only_js = SearchOptions {
        query: Some("x".to_string()),
        js: true,
        ..SearchOptions::default()
    };
    let rows = collect_search_results(&only_js, &response());
    assert_eq!(rows.len(), 1);
    assert_eq!(rows[0].path, "dom/test/T.js");
}

#[test]
fn path_only_search_lists_files() {
    let opts = SearchOptions {
        path: Some("dom".to_string()),
        ..SearchOptions::default()
    };
    let rows = collect_search_results(&opts, &response());
    assert_eq!(rows.len(), 2);
    assert!(rows.iter().all(|r| r.line_number == 0 && r.line.is_empty()));
}

#[test]
fn category_filter_keys() {
    assert!(CategoryFilter::All.keeps("test"));
    assert!(!CategoryFilter::OnlyNormal.keeps("test"));
    assert!(CategoryFilter::OnlyTests.keeps("test"));
    assert!(!CategoryFilter::ExcludeTestsAndGenerated.keeps("generated"));
    assert!(CategoryFilter::ExcludeGenerated.keeps("normal"));
}
