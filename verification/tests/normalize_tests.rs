use masklint::normalize::normalize;
use masklint::normalize::normalize_python;
use masklint::normalize::normalize_ruby;
use masklint::normalize::normalize_shell;
use masklint::adapter::Adapter;
use masklint::text::contains_str;
use masklint::text::join_lines;
use masklint::text::replace_all;
use masklint::text::split_to_lines;
use masklint::text::starts_with_str;
use masklint::text::str_eq;
use masklint::text::trim_str;

#[test]
fn trim_strips_both_ends() {
    assert_eq!(trim_str("  a b \n\t"), "a b");
    assert_eq!(trim_str(""), "");
    assert_eq!(trim_str(" \n "), "");
    assert_eq!(trim_str("x"), "x");
}

#[test]
fn replace_all_rewrites_every_occurrence() {
    assert_eq!(replace_all("a-b-c", "-", "+"), "a+b+c");
    assert_eq!(replace_all("abc", "", "x"), "abc");
    assert_eq!(replace_all("aaaa", "aa", "a"), "aa");
}

#[test]
fn replace_all_scan_resumes_after_replacement() {
    // pieces left of and right of the two occurrences recombine; the
    // scan does not revisit them
    assert_eq!(replace_all("aabba", "ab", ""), "aba");
}

#[test]
fn split_and_join_lines() {
    assert_eq!(split_to_lines("a\nb\n"), vec!["a", "b", ""]);
    assert_eq!(split_to_lines(""), vec![""]);
    assert_eq!(join_lines(&vec!["a".to_string(), "b".to_string()]), "a\nb");
    assert_eq!(join_lines(&Vec::new()), "");
}

#[test]
fn string_predicates() {
    assert!(str_eq("abc", "abc"));
    assert!(!str_eq("abc", "abd"));
    assert!(!str_eq("ab", "abc"));
    assert!(starts_with_str("Found 2 errors.", "Found "));
    assert!(!starts_with_str("2 Found", "Found "));
    assert!(contains_str("x 1 file inspected y", "1 file inspected"));
    assert!(!contains_str("2 files inspected", "1 file inspected"));
}

#[test]
fn shell_normalize_strips_path_and_trims() {
    let raw = "\nIn /tmp/out/lint-me.sh line 1:\necho hi\n";
    let report = normalize_shell(raw, "/tmp/out/lint-me.sh");
    assert_eq!(report, "In line 1:\necho hi");
}

#[test]
fn python_normalize_replaces_path_and_drops_summary() {
    let raw = "/tmp/out/ok.py:1:1: E501 line too long\n/tmp/out/ok.py:2:1: W291 trailing whitespace\nFound 2 errors.\n";
    let report = normalize_python(raw, "/tmp/out/ok.py");
    assert_eq!(
        report,
        "line 1:1: E501 line too long\nline 2:1: W291 trailing whitespace"
    );
    assert!(!report.contains("Found "));
    assert!(!report.contains("/tmp/out/ok.py"));
}

#[test]
fn python_normalize_empty_output_stays_empty() {
    assert_eq!(normalize_python("", "/tmp/out/ok.py"), "");
}

#[test]
fn ruby_normalize_replaces_path_and_drops_notice() {
    let raw = "/tmp/out/x.rb:3:1: C: Style/Frozen: msg\n\n1 file inspected, 1 offense detected\n";
    let report = normalize_ruby(raw, "/tmp/out/x.rb");
    assert_eq!(report, "line 3:1: C: Style/Frozen: msg");
    assert!(!report.contains("1 file inspected"));
    assert!(!report.contains("/tmp/out/x.rb"));
}

#[test]
fn shell_normalize_scrubs_bare_path() {
    // a path not followed by a space disappears too
    assert_eq!(normalize_shell("/p:x", "/p"), ":x");
    // removing one occurrence can expose another; scrubbing repeats
    assert_eq!(normalize_shell("aabb", "ab"), "");
    assert_eq!(normalize_shell("a/p/pb /p", "/p"), "ab");
}

#[test]
fn shell_normalize_trims_after_scrubbing() {
    // stripping the path can expose whitespace at the ends
    assert_eq!(normalize_shell("/p x /p", "/p"), "x");
}

#[test]
fn python_normalize_suppresses_nuisance_codes() {
    let raw = "/f.py:1:1: D100 Missing docstring in public module\n/f.py:2:1: E501 line too long\nFound 2 errors.\n";
    assert_eq!(normalize_python(raw, "/f.py"), "line 2:1: E501 line too long");
}

#[test]
fn python_normalize_scrubs_bare_path() {
    let raw = "/f.py:1:1: E501 see /f.py for context\nFound 1 error.\n";
    let report = normalize_python(raw, "/f.py");
    assert_eq!(report, "line 1:1: E501 see  for context");
    assert!(!report.contains("/f.py"));
}

#[test]
fn ruby_normalize_suppresses_documentation_cop() {
    let raw = "/f.rb:1:1: C: Style/Documentation: Missing top-level documentation.\n/f.rb:2:3: C: Style/Foo: msg\n1 file inspected, 2 offenses detected\n";
    assert_eq!(normalize_ruby(raw, "/f.rb"), "line 2:3: C: Style/Foo: msg");
}

#[test]
fn crlf_output_normalizes_like_unix() {
    let raw = "/f.py:1:1: E501 x\r\nFound 1 error.\r\n";
    assert_eq!(normalize_python(raw, "/f.py"), "line 1:1: E501 x");
    assert_eq!(normalize_shell("/p x\r\n", "/p"), "x");
}

#[test]
fn normalize_dispatches_per_adapter() {
    assert_eq!(normalize(&Adapter::Shell, " /a/b.sh x\n", "/a/b.sh"), "x");
    assert_eq!(normalize(&Adapter::Python, "Found 1 error.", "/a/b.py"), "");
    assert_eq!(
        normalize(&Adapter::Ruby, "1 file inspected, no offenses detected\n", "/a/b.rb"),
        ""
    );
    assert_eq!(normalize(&Adapter::Fallback, "raw text", "/a/b"), "raw text");
}
