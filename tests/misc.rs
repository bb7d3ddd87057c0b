use searchfox_lib::field_layout::wrap_cpp_type;
use searchfox_lib::{Config, SearchfoxClient};

#[test]
fn short_type_is_unchanged() {
    assert_eq!(wrap_cpp_type("int", 10), "int");
    assert_eq!(wrap_cpp_type("nsTArray<int>", 13), "nsTArray<int>");
}

#[test]
fn long_type_breaks_inside_template_arguments() {
    assert_eq!(
        wrap_cpp_type("Map<Key, Value>", 8),
        "Map<Key,\n  Value>"
    );
    assert_eq!(
        wrap_cpp_type("mozilla::UniquePtr<int>", 10),
        "mozilla::UniquePtr<\n  int>"
    );
}

#[test]
fn request_numbering() {
    let mut quiet = SearchfoxClient::new("mozilla-central".to_string(), false);
    assert!(quiet
        .log_request_start("GET", "https://x", std::time::Instant::now())
        .is_none());
    assert_eq!(quiet.request_counter, 0);
    let mut loud = SearchfoxClient::new("mozilla-central".to_string(), true);
    let a = loud
        .log_request_start("GET", "https://a", std::time::Instant::now())
        .unwrap();
    let b = loud
        .log_request_start("HEAD", "https://b", std::time::Instant::now())
        .unwrap();
    assert_eq!((a.request_id, b.request_id), (1, 2));
    assert_eq!(b.start_message(), "[REQ-2] HEAD https://b - START");
    assert_eq!(
        a.end_message(200, 1234, 56),
        "[REQ-1] GET https://a - END (56ms, 1234 bytes, HTTP 200)"
    );
}

#[test]
fn config_defaults_to_warning() {
    assert!(!Config::default().allow_fulltext);
}

use searchfox_lib::field_layout::{
    base_rows, field_rows, format_field_layout, BaseClassEntry, ClassLayout, FieldEntry, FieldLayoutData,
};

fn layout_data() -> FieldLayoutData {
    FieldLayoutData {
        tables: vec![
            vec![("T_Other".to_string(), None)],
            vec![(
                "T_Foo".to_string(),
                Some(ClassLayout {
                    size: Some(16),
                    alignment: Some(8),
                    supers: vec![BaseClassEntry {
                        offset: 0,
                        size: 8,
                        sym: "T_nsISupports".to_string(),
                    }],
                    fields: vec![FieldEntry {
                        offset: 8,
                        size: 4,
                        field_type: "int32_t".to_string(),
                        pretty: Some("mozilla::Foo::mCount".to_string()),
                    }],
                }),
            )],
        ],
    }
}

#[test]
fn field_layout_report_with_tables() {
    let out = format_field_layout("Foo", &layout_data(), 120);
    assert!(out.starts_with(
        "Field Layout: Foo\n\nSize: 16 bytes, Alignment: 8 bytes\n\nBase Classes:\n"
    ));
    assert!(out.contains("nsISupports"));
    assert!(!out.contains("T_nsISupports"));
    assert!(out.contains("Fields:\n"));
    assert!(out.contains("mCount"));
    assert!(!out.contains("mozilla::Foo::mCount"));
    assert!(out.contains('╭'));
    assert!(out.ends_with('\n'));
}

#[test]
fn field_layout_not_found() {
    assert_eq!(
        format_field_layout("Missing", &layout_data(), 80),
        "Field Layout: Missing\n\nNo field layout information found.\nThis feature only works with C++ classes and structs.\n"
    );
    assert_eq!(
        format_field_layout("Other", &layout_data(), 80),
        "Field Layout: Other\n\n"
    );
}

#[test]
fn layout_rows_hold_wrapped_cells() {
    let bases = vec![BaseClassEntry {
        offset: 0,
        size: 24,
        sym: "T_mozilla::Array<int, 3>".to_string(),
    }];
    assert_eq!(
        base_rows(&bases, 30),
        vec![vec!["0".to_string(), "24".to_string(), "mozilla::Array<int, 3>".to_string()]]
    );
    let fields = vec![FieldEntry {
        offset: 4,
        size: 8,
        field_type: "void*".to_string(),
        pretty: None,
    }];
    assert_eq!(
        field_rows(&fields, 30),
        vec![vec!["4".to_string(), "8".to_string(), "void*".to_string(), "unnamed".to_string()]]
    );
}
