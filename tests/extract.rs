use searchfox_lib::utils::{
    definition_context, extract_complete_method, find_symbol_in_local_content,
    resolve_local_line,
};

#[test]
fn brace_inside_string_does_not_close_block() {
    let lines = vec!["foo() { x = \"}\"; }", "after();"];
    let (start, out) = extract_complete_method(&lines, 1);
    assert_eq!(start, 1);
    assert_eq!(out, vec![">>>    1: foo() { x = \"}\"; }".to_string()]);
}

#[test]
fn block_ignores_braces_in_literals_and_comments() {
    let lines = vec![
        "int Foo::Bar(int a) {",
        "  const char* s = \"{\";",
        "  // } comment",
        "  /* } */ char c = '}';",
        "  return 0;",
        "}",
        "int Other() {}",
    ];
    let (_, out) = extract_complete_method(&lines, 1);
    assert_eq!(out.len(), 6);
    assert_eq!(out[0], ">>>    1: int Foo::Bar(int a) {");
    assert_eq!(out[1], "       2:   const char* s = \"{\";");
    assert_eq!(out[5], "       6: }");
}

#[test]
fn escaped_quote_keeps_string_open() {
    let lines = vec!["void f() {", "  s = \"a\\\"}\";", "}", "x"];
    let (_, out) = extract_complete_method(&lines, 1);
    assert_eq!(out.len(), 3);
}

#[test]
fn class_keeps_trailing_semicolon_line() {
    let lines = vec!["class Foo {", "  int x;", "}", ";", "int y;"];
    let (_, out) = extract_complete_method(&lines, 1);
    assert_eq!(out.len(), 4);
    assert_eq!(out[3], "        4: ;");
}

#[test]
fn class_with_semicolon_on_closing_line() {
    let lines = vec!["struct Foo {", "  int x;", "};", ";"];
    let (_, out) = extract_complete_method(&lines, 1);
    assert_eq!(out.len(), 3);
}

#[test]
fn declaration_is_single_line() {
    let lines = vec!["// doc", "void Foo(int a);", "void Bar() {", "}"];
    let (_, out) = extract_complete_method(&lines, 2);
    assert_eq!(out, vec![">>>    2: void Foo(int a);".to_string()]);
}

#[test]
fn brace_on_a_later_line() {
    let lines = vec!["Foo::Foo(int a)", "  : mA(a)", "{", "  init();", "}", "next"];
    let (_, out) = extract_complete_method(&lines, 1);
    assert_eq!(out.len(), 5);
    assert_eq!(out[4], "       5: }");
}

#[test]
fn plain_line_gets_context_window() {
    let lines: Vec<String> = (1..=20).map(|i| format!("x{i} = {i}")).collect();
    let refs: Vec<&str> = lines.iter().map(|s| s.as_str()).collect();
    let (_, out) = extract_complete_method(&refs, 10);
    assert_eq!(out.len(), 11);
    assert_eq!(out[0], "       5: x5 = 5");
    assert_eq!(out[5], ">>>   10: x10 = 10");
    assert_eq!(out[10], "      15: x15 = 15");
    let (_, near_end) = extract_complete_method(&refs, 18);
    assert_eq!(near_end.len(), 8);
    assert_eq!(near_end[7], "      20: x20 = 20");
}

#[test]
fn out_of_range_start_is_one_empty_line() {
    let lines = vec!["a", "b"];
    assert_eq!(extract_complete_method(&lines, 5), (5, vec![String::new()]));
    let empty: Vec<&str> = Vec::new();
    assert_eq!(extract_complete_method(&empty, 0), (0, vec![String::new()]));
}

#[test]
fn long_block_is_truncated() {
    let mut lines: Vec<String> = vec!["void f() {".to_string()];
    for i in 0..300 {
        lines.push(format!("  call{i}();"));
    }
    let refs: Vec<&str> = lines.iter().map(|s| s.as_str()).collect();
    let (_, out) = extract_complete_method(&refs, 1);
    assert_eq!(out.len(), 201);
    assert_eq!(out[199], "     200:   call198();");
    assert_eq!(out[200], "   ...  : (method too long, truncated)");
}

#[test]
fn extraction_twice_gives_identical_output() {
    let lines = vec!["int main() {", "  return \"}\" == 0;", "}"];
    let a = extract_complete_method(&lines, 1);
    let b = extract_complete_method(&lines, 1);
    assert_eq!(a, b);
    assert_eq!(a.1.len(), 3);
}

#[test]
fn local_symbol_lookup_allows_drift() {
    let content = "a\nb\nvoid AudioContext::CreateGain() {\n}\n";
    assert_eq!(
        find_symbol_in_local_content(content, 3, "AudioContext::CreateGain"),
        Some(3)
    );
    assert_eq!(
        find_symbol_in_local_content(content, 1, "AudioContext::CreateGain"),
        Some(3)
    );
    assert_eq!(
        find_symbol_in_local_content(content, 1, "Mixer::CreateGain"),
        Some(3)
    );
    assert_eq!(find_symbol_in_local_content(content, 2, "Nothing"), None);
}

#[test]
fn local_line_resolution() {
    let content = "x\r\ny\nint Foo::Bar() {\n}";
    assert_eq!(resolve_local_line(content, 1, Some("Foo::Bar")), 3);
    assert_eq!(resolve_local_line(content, 3, Some("Bar")), 3);
    assert_eq!(resolve_local_line(content, 9, None), 9);
    assert_eq!(resolve_local_line(content, 2, Some("Missing")), 2);
}

#[test]
fn definition_context_block_or_window() {
    let lines = vec!["a", "int f() {", "  return 1;", "}", "b"];
    assert_eq!(
        definition_context(&lines, 2, 1),
        ">>>    2: int f() {\n       3:   return 1;\n       4: }"
    );
    let decl = vec!["a", "void f();", "b"];
    assert_eq!(
        definition_context(&decl, 2, 1),
        "       1: a\n>>>    2: void f();\n       3: b\n"
    );
    assert_eq!(definition_context(&decl, 9, 1), "");
}
