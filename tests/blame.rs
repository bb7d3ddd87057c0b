use searchfox_lib::blame::{
    attach_commit_info, commit_batches, extract_bug_number, filter_blame, overlay_blame,
    parse_author_date, parse_commit_header, strip_html_tags, unique_hashes, BlameInfo,
    CommitInfo, CommitRange,
};
use searchfox_lib::SearchfoxClient;

#[test]
fn test_parse_data_blame() {
    let data = "88a286dcec9ba069397bd4c4c35b3e317bf66f4f#%#7";
    let result = SearchfoxClient::parse_data_blame(data);
    assert!(result.is_some());

    let (hash, path, line) = result.unwrap();
    assert_eq!(hash, "88a286dcec9ba069397bd4c4c35b3e317bf66f4f");
    assert_eq!(path, "%");
    assert_eq!(line, 7);
}

#[test]
fn test_parse_commit_header() {
    let header =
        "Bug <a href=\"...\">123456</a>: Fix audio issue\n<br><i>John Doe, 2021-05-15</i>";
    let result = parse_commit_header(header);

    assert_eq!(result.bug_number, Some(123456));
    assert_eq!(result.message, "Fix audio issue");
    assert_eq!(result.author, "John Doe");
    assert_eq!(result.date, "2021-05-15");
}

#[test]
fn test_strip_html_tags() {
    let html = "Bug <a href=\"url\">123</a>: message";
    let result = strip_html_tags(html);
    assert_eq!(result, "Bug 123: message");
}

#[test]
fn parse_data_blame_rejects_malformed() {
    assert!(SearchfoxClient::parse_data_blame("abc#%").is_none());
    assert!(SearchfoxClient::parse_data_blame("abc#%#7#8").is_none());
    assert!(SearchfoxClient::parse_data_blame("abc#%#x7").is_none());
    assert!(SearchfoxClient::parse_data_blame("abc#%#").is_none());
    assert!(SearchfoxClient::parse_data_blame("abc#%#99999999999999999999999").is_none());
    assert_eq!(
        SearchfoxClient::parse_data_blame("abc#%#+7"),
        Some(("abc".to_string(), "%".to_string(), 7))
    );
    assert_eq!(
        SearchfoxClient::parse_data_blame("abc#dom/a.cpp#12"),
        Some(("abc".to_string(), "dom/a.cpp".to_string(), 12))
    );
}

#[test]
fn strip_html_decodes_entities() {
    assert_eq!(
        strip_html_tags("a &lt;b&gt; &amp;amp; &quot;q&quot; &#39;s&#39;"),
        "a <b> &amp; \"q\" 's'"
    );
    assert_eq!(strip_html_tags("x <> y"), "x <> y");
    assert_eq!(strip_html_tags("<b>bold</b> <i>it"), "bold it");
    assert_eq!(strip_html_tags("a <b"), "a <b");
}

#[test]
fn bug_number_extraction() {
    assert_eq!(extract_bug_number("Fix bug   42 now"), Some(42));
    assert_eq!(extract_bug_number("Bug 7 and Bug 8"), Some(7));
    assert_eq!(extract_bug_number("no reference"), None);
    assert_eq!(extract_bug_number("Bug 99999999999999999999999"), None);
}

#[test]
fn author_date_split_on_first_comma() {
    assert_eq!(
        parse_author_date(" Jane Roe , Mon, 3 May 2021 "),
        ("Jane Roe".to_string(), "Mon, 3 May 2021".to_string())
    );
    assert_eq!(
        parse_author_date(" nobody "),
        ("nobody".to_string(), String::new())
    );
}

#[test]
fn header_without_bug_or_author() {
    let p = parse_commit_header("Just a message");
    assert_eq!(p.bug_number, None);
    assert_eq!(p.message, "Just a message");
    assert_eq!(p.author, "");
    assert_eq!(p.date, "");
}

fn info(hash: &str) -> BlameInfo {
    BlameInfo {
        commit_hash: hash.to_string(),
        original_path: "%".to_string(),
        original_line: 1,
        commit_info: Some(CommitInfo {
            header: "Bug 5: Tweak\n<i>Ann, 2020-01-01</i>".to_string(),
            parent: None,
            date: "2020-01-01".to_string(),
        }),
    }
}

#[test]
fn grouper_merges_runs_of_one_commit() {
    let rendered: Vec<(usize, String)> = (10..=13)
        .map(|n| (n, format!("     {n}: line {n}")))
        .collect();
    let blame = vec![
        (10, info("abc12345")),
        (11, info("abc12345")),
        (12, info("abc12345")),
        (13, info("def67890")),
    ];
    let out = overlay_blame(&rendered, &blame);
    assert_eq!(out.len(), 6);
    assert_eq!(out[0], rendered[0].1);
    assert_eq!(out[2], rendered[2].1);
    assert!(out[3].ends_with("(lines 10-12)"));
    assert!(out[3].contains("abc12345"));
    assert!(out[3].contains("Bug 5: Tweak (Ann, 2020-01-01)"));
    assert_eq!(out[4], rendered[3].1);
    assert!(out[5].ends_with("(line 13)"));
    assert!(out[5].contains("def67890"));
}

#[test]
fn grouper_breaks_runs_at_unattributed_lines() {
    let rendered: Vec<(usize, String)> = vec![
        (1, "a".to_string()),
        (2, "b".to_string()),
        (3, "c".to_string()),
    ];
    let blame = vec![(1, info("aaaaaaaaaaaa")), (3, info("aaaaaaaaaaaa"))];
    let out = overlay_blame(&rendered, &blame);
    assert_eq!(out.len(), 5);
    assert!(out[1].ends_with("(line 1)"));
    assert!(out[1].contains(" aaaaaaaa "));
    assert_eq!(out[2], "b");
    assert!(out[4].ends_with("(line 3)"));
}

#[test]
fn commit_range_annotation() {
    let r = CommitRange {
        start_line: 4,
        end_line: 9,
        short_hash: "0123abcd".to_string(),
        message: "msg".to_string(),
    };
    assert_eq!(r.annotation(), "       0123abcd msg (lines 4-9)");
}

#[test]
fn blame_filtering_dedup_and_batches() {
    let entries = vec![
        (1, ("h1".to_string(), "%".to_string(), 1)),
        (2, ("h2".to_string(), "%".to_string(), 2)),
        (3, ("h1".to_string(), "a.cpp".to_string(), 9)),
    ];
    let kept = filter_blame(&entries, &[1, 3]);
    assert_eq!(kept.len(), 2);
    assert_eq!(kept[1].0, 3);
    let hashes = unique_hashes(&entries);
    assert_eq!(hashes, vec!["h1".to_string(), "h2".to_string()]);
    let many: Vec<String> = (0..120).map(|i| format!("{i:040}")).collect();
    let batches = commit_batches(&many);
    assert_eq!(batches.len(), 3);
    assert_eq!(batches[0].len(), 50);
    assert_eq!(batches[2].len(), 20);
    assert_eq!(batches[2][0], many[100]);
    let infos = vec![CommitInfo {
        header: "h".to_string(),
        parent: None,
        date: "d".to_string(),
    }];
    let attached = attach_commit_info(&kept, &hashes, &infos);
    assert_eq!(attached.len(), 2);
    assert_eq!(attached[0].1.commit_info.as_ref().unwrap().header, "h");
    assert_eq!(attached[1].1.original_path, "a.cpp");
    let only_second = attach_commit_info(&entries[1..2].to_vec(), &hashes, &infos);
    assert!(only_second[0].1.commit_info.is_none());
}

#[test]
fn blame_read_from_source_page() {
    let html = r#"<html><body>
<div role="row"><div class="blame-strip" data-blame="aaa#%#1"></div><code>x</code></div>
<div role="row"><code>no strip</code></div>
<div role="row"><div class="blame-strip" data-blame="bbb#dom/b.h#40"></div></div>
</body></html>"#;
    let rows = SearchfoxClient::parse_blame_from_html(html);
    assert_eq!(rows.len(), 2);
    assert_eq!(rows[0], (1, ("aaa".to_string(), "%".to_string(), 1)));
    assert_eq!(rows[1], (3, ("bbb".to_string(), "dom/b.h".to_string(), 40)));
}
