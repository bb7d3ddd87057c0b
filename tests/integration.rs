use searchfox_lib::SearchOptions;

fn default_opts() -> SearchOptions {
    SearchOptions::default()
}

#[test]
fn build_query_symbol() {
    let opts = SearchOptions {
        symbol: Some("_ZN7mozilla3dom12AudioContextE".to_string()),
        ..default_opts()
    };
    assert_eq!(opts.build_query(), "symbol:_ZN7mozilla3dom12AudioContextE");
}

#[test]
fn build_query_id() {
    let opts = SearchOptions {
        id: Some("AudioContext".to_string()),
        ..default_opts()
    };
    assert_eq!(opts.build_query(), "id:AudioContext");
}

#[test]
fn build_query_text_with_context() {
    let opts = SearchOptions {
        query: Some("AudioStream".to_string()),
        context: Some(3),
        ..default_opts()
    };
    assert_eq!(opts.build_query(), "context:3 text:AudioStream");
}

#[test]
fn build_query_passthrough_prefixed() {
    let opts = SearchOptions {
        query: Some("path:dom/media AudioStream".to_string()),
        ..default_opts()
    };
    assert_eq!(opts.build_query(), "path:dom/media AudioStream");
}

#[test]
fn url_repo_remaps_mozilla_central() {
    assert_eq!(
        searchfox_lib::searchfox_url_repo("mozilla-central"),
        "firefox-main"
    );
    assert_eq!(
        searchfox_lib::searchfox_url_repo("autoland"),
        "firefox-autoland"
    );
    assert_eq!(
        searchfox_lib::searchfox_url_repo("comm-central"),
        "comm-central"
    );
}

#[test]
fn build_query_empty_without_any_query() {
    assert_eq!(default_opts().build_query(), "");
}

#[test]
fn build_query_context_ignored_for_prefixed() {
    let opts = SearchOptions {
        query: Some("re:Audio.*".to_string()),
        context: Some(2),
        ..default_opts()
    };
    assert_eq!(opts.build_query(), "re:Audio.*");
}

#[test]
fn expensive_search_detection() {
    let text = SearchOptions {
        query: Some("AudioStream".to_string()),
        ..default_opts()
    };
    assert!(text.is_expensive_search());
    let indexed = SearchOptions {
        query: Some("id:AudioStream".to_string()),
        ..default_opts()
    };
    assert!(!indexed.is_expensive_search());
    let symbol = SearchOptions {
        symbol: Some("AudioStream".to_string()),
        ..default_opts()
    };
    assert!(!symbol.is_expensive_search());
    assert!(!default_opts().is_expensive_search());
}

#[test]
fn language_filter_by_extension() {
    assert!(default_opts().matches_language_filter("a/b.rs"));
    let cpp = SearchOptions {
        cpp: true,
        ..default_opts()
    };
    assert!(cpp.matches_language_filter("dom/media/AudioStream.cpp"));
    assert!(cpp.matches_language_filter("dom/media/AudioStream.H"));
    assert!(!cpp.matches_language_filter("dom/media/AudioStream.js"));
    let js = SearchOptions {
        js: true,
        ..default_opts()
    };
    assert!(js.matches_language_filter("toolkit/Thing.MJS"));
    assert!(!js.matches_language_filter("toolkit/Thing.webidl"));
    let c = SearchOptions {
        c_lang: true,
        ..default_opts()
    };
    assert!(c.matches_language_filter("x.h"));
    assert!(c.matches_language_filter("x.c"));
    assert!(!c.matches_language_filter("x.cc"));
}

#[test]
fn github_raw_url_per_repository() {
    assert_eq!(
        searchfox_lib::utils::get_github_raw_url("mozilla-central", "dom/a.h"),
        "https://raw.githubusercontent.com/mozilla/firefox/main/dom/a.h"
    );
    assert_eq!(
        searchfox_lib::utils::get_github_raw_url("comm-central", "mail/b.js"),
        "https://raw.githubusercontent.com/mozilla/releases-comm-central/main/mail/b.js"
    );
    assert_eq!(
        searchfox_lib::utils::get_github_raw_url("mozilla-esr128", "x"),
        "https://raw.githubusercontent.com/mozilla/firefox/esr128/x"
    );
}
