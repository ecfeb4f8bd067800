use cargo_tidy::check::run_all_checks_on;
use cargo_tidy::check::run_checks;
use cargo_tidy::check::split_lines;
use cargo_tidy::check::CheckError;
use cargo_tidy::check::SourceFile;
use cargo_tidy::check::TidyContext;
use cargo_tidy::config::Config;

fn config(
    max_line_length: u64,
    forbidden: &[&str],
    style: Option<&str>,
) -> Config {
    Config::new(
        None,
        Vec::new(),
        max_line_length,
        forbidden.iter().map(|s| s.to_string()).collect(),
        style.map(|s| s.to_string()),
    )
    .expect("valid test configuration")
}

fn renders(errs: &[CheckError]) -> Vec<String> {
    errs.iter().map(|e| e.render()).collect()
}

#[test]
fn split_lines_preserves_and_strips_endings() {
    let (keep, bare) = split_lines("a\r\nbb\nccc");
    assert_eq!(keep, vec!["a\r\n", "bb\n", "ccc"]);
    assert_eq!(bare, vec!["a", "bb", "ccc"]);
}

#[test]
fn split_lines_keeps_lone_carriage_return() {
    let (keep, bare) = split_lines("a\rb\n");
    assert_eq!(keep, vec!["a\rb\n"]);
    assert_eq!(bare, vec!["a\rb"]);
}

#[test]
fn split_lines_empty_content_has_no_lines() {
    let (keep, bare) = split_lines("");
    assert!(keep.is_empty());
    assert!(bare.is_empty());
}

#[test]
fn long_line_reports_one_error() {
    let cfg = config(80, &[], None);
    let content = "a".repeat(90);
    let errs = run_all_checks_on(&cfg, "long.rs".to_string(), content).unwrap_err();
    assert_eq!(
        renders(&errs),
        vec!["error at long.rs:1:1: line too long (has 90 characters, the limit is 80)"]
    );
}

#[test]
fn line_at_the_limit_passes() {
    let cfg = config(80, &[], None);
    let content = format!("{}\n{}", "a".repeat(80), "b".repeat(79));
    assert!(run_all_checks_on(&cfg, "ok.rs".to_string(), content).is_ok());
}

#[test]
fn line_length_counts_characters_not_bytes() {
    let cfg = config(80, &[], None);
    // 40 characters but 80 UTF-8 bytes: fine.
    let wide = "\u{e4}".repeat(40);
    assert!(run_all_checks_on(&cfg, "w.rs".to_string(), wide).is_ok());
    // 81 characters: one error naming the character count.
    let over = "\u{e4}".repeat(81);
    let errs = run_all_checks_on(&cfg, "w.rs".to_string(), over).unwrap_err();
    assert_eq!(
        renders(&errs),
        vec!["error at w.rs:1:1: line too long (has 81 characters, the limit is 80)"]
    );
}

#[test]
fn each_matching_pattern_reports_its_own_error() {
    let cfg = config(100, &["foo", "o", "zzz"], None);
    let errs = run_all_checks_on(&cfg, "f.rs".to_string(), "foo\nbar\n".to_string())
        .unwrap_err();
    assert_eq!(
        renders(&errs),
        vec![
            "error at f.rs:1:1: line matches forbidden string 'foo'",
            "error at f.rs:1:1: line matches forbidden string 'o'",
        ]
    );
}

#[test]
fn forbidden_content_sees_the_line_ending() {
    // The pattern matches a Windows line ending, which is only visible in
    // the ending-preserving line view.
    let cfg = config(100, &["\\r\\n$"], None);
    let errs = run_all_checks_on(&cfg, "f.rs".to_string(), "a\r\nb\n".to_string())
        .unwrap_err();
    assert_eq!(
        renders(&errs),
        vec!["error at f.rs:1:1: line matches forbidden string '\\r\\n$'"]
    );
}

#[test]
fn wrong_indent_kind_reports_once_and_skips_amount_check() {
    let cfg = config(100, &[], Some("4 spaces"));
    let errs = run_all_checks_on(&cfg, "i.rs".to_string(), "\t\tfoo\n".to_string())
        .unwrap_err();
    assert_eq!(
        renders(&errs),
        vec!["error at i.rs:1:1: line is indented with Tabs, expected Spaces"]
    );
}

#[test]
fn wrong_indent_amount_reports_count_and_column() {
    let cfg = config(100, &[], Some("4 spaces"));
    let errs = run_all_checks_on(&cfg, "i.rs".to_string(), "      foo\n".to_string())
        .unwrap_err();
    assert_eq!(errs.len(), 1);
    assert_eq!(errs[0].line(), 0);
    assert_eq!(errs[0].column(), 6);
    assert_eq!(
        errs[0].render(),
        "error at i.rs:1:7: line is indented with 6 Spaces, expected a multiple of 4"
    );
}

#[test]
fn correct_indentation_passes() {
    let cfg = config(100, &[], Some("4 spaces"));
    let content = "    foo\n        bar\nbaz\n".to_string();
    assert!(run_all_checks_on(&cfg, "i.rs".to_string(), content).is_ok());
}

#[test]
fn tab_indentation_style_accepts_tabs() {
    let cfg = config(100, &[], Some("tabs"));
    assert!(run_all_checks_on(&cfg, "i.rs".to_string(), "\t\tfoo\n".to_string()).is_ok());
    let errs = run_all_checks_on(&cfg, "i.rs".to_string(), "  foo\n".to_string())
        .unwrap_err();
    assert_eq!(
        renders(&errs),
        vec!["error at i.rs:1:1: line is indented with Spaces, expected Tabs"]
    );
}

#[test]
fn empty_file_triggers_no_check() {
    let cfg = config(0, &["x?", ""], Some("4 spaces"));
    assert!(run_all_checks_on(&cfg, "e.rs".to_string(), String::new()).is_ok());
}

#[test]
fn both_indent_errors_can_fire_on_one_line() {
    // A tab inside the leading spaces: wrong kind, and the leading space
    // run of 2 is no multiple of 4.
    let cfg = config(100, &[], Some("4 spaces"));
    let errs = run_all_checks_on(&cfg, "i.rs".to_string(), "  \t  foo\n".to_string())
        .unwrap_err();
    assert_eq!(
        renders(&errs),
        vec![
            "error at i.rs:1:1: line is indented with Tabs, expected Spaces",
            "error at i.rs:1:3: line is indented with 2 Spaces, expected a multiple of 4",
        ]
    );
}

#[test]
fn run_is_deterministic() {
    let files = || {
        vec![
            SourceFile { path: "a.rs".to_string(), content: "aaaa\n\tx\n".to_string() },
            SourceFile { path: "b.rs".to_string(), content: "ok\n".to_string() },
        ]
    };
    let cfg = config(3, &["\\t"], Some("2 spaces"));
    let first = renders(&run_checks(&cfg, &files()).unwrap_err());
    let second = renders(&run_checks(&cfg, &files()).unwrap_err());
    assert_eq!(first, second);
}

#[test]
fn errors_keep_file_then_check_then_line_order() {
    let cfg = config(5, &["x"], Some("2 spaces"));
    let files = vec![
        SourceFile { path: "a.rs".to_string(), content: "xxxxxxx\n x\n".to_string() },
        SourceFile { path: "b.rs".to_string(), content: "fine\n".to_string() },
        SourceFile { path: "c.rs".to_string(), content: "x\n".to_string() },
    ];
    let errs = run_checks(&cfg, &files).unwrap_err();
    assert_eq!(
        renders(&errs),
        vec![
            "error at a.rs:1:1: line too long (has 7 characters, the limit is 5)",
            "error at a.rs:1:1: line matches forbidden string 'x'",
            "error at a.rs:2:1: line matches forbidden string 'x'",
            "error at a.rs:2:2: line is indented with 1 Spaces, expected a multiple of 2",
            "error at c.rs:1:1: line matches forbidden string 'x'",
        ]
    );
}

#[test]
fn clean_run_returns_ok() {
    let cfg = config(80, &["TODO"], Some("4 spaces"));
    let files = vec![
        SourceFile { path: "a.rs".to_string(), content: "fn main() {}\n".to_string() },
    ];
    assert!(run_checks(&cfg, &files).is_ok());
}

#[test]
fn end_to_end_three_violations() {
    let cfg = config(80, &["\\t$"], Some("4 spaces"));
    let files = vec![
        SourceFile { path: "long.rs".to_string(), content: "a".repeat(90) },
        // The tab ends the last line of the file, where `$` matches.
        SourceFile { path: "tab.rs".to_string(), content: "x\t".to_string() },
        SourceFile {
            path: "indent.rs".to_string(),
            content: "fn main() {}\n      foo\n".to_string(),
        },
    ];
    let errs = run_checks(&cfg, &files).unwrap_err();
    assert_eq!(
        renders(&errs),
        vec![
            "error at long.rs:1:1: line too long (has 90 characters, the limit is 80)",
            "error at tab.rs:1:1: line matches forbidden string '\\t$'",
            "error at indent.rs:2:7: line is indented with 6 Spaces, expected a multiple of 4",
        ]
    );
}

#[test]
fn context_error_records_position_and_message() {
    let mut cx = TidyContext::new("p.rs".to_string(), "one\ntwo\n".to_string());
    assert_eq!(cx.lines_with_endings, vec!["one\n", "two\n"]);
    assert_eq!(cx.lines_without_endings, vec!["one", "two"]);
    assert!(cx.errors.is_empty());
    cx.error((3, 7), "boom".to_string());
    assert_eq!(cx.errors.len(), 1);
    let e = &cx.errors[0];
    assert_eq!(e.path().as_str(), "p.rs");
    assert_eq!(e.line(), 3);
    assert_eq!(e.column(), 7);
    assert_eq!(e.msg().as_str(), "boom");
    assert_eq!(e.render(), "error at p.rs:4:8: boom");
}
