use cargo_tidy::check::indentation_style::IndentKind;
use cargo_tidy::check::indentation_style::IndentationStyle;
use cargo_tidy::check::select_files;
use cargo_tidy::config::Config;
use cargo_tidy::config::ConfigError;

fn strings(v: &[&str]) -> Vec<String> {
    v.iter().map(|s| s.to_string()).collect()
}

#[test]
fn style_with_amount_and_kind() {
    assert_eq!(
        IndentationStyle::from_str("4 spaces"),
        Ok(IndentationStyle { indent_kind: IndentKind::Spaces, indent_amount: 4 })
    );
    assert_eq!(
        IndentationStyle::from_str("2 tab"),
        Ok(IndentationStyle { indent_kind: IndentKind::Tabs, indent_amount: 2 })
    );
    assert_eq!(
        IndentationStyle::from_str("1 space"),
        Ok(IndentationStyle { indent_kind: IndentKind::Spaces, indent_amount: 1 })
    );
}

#[test]
fn bare_style_words_mean_amount_one() {
    assert_eq!(
        IndentationStyle::from_str("tabs"),
        Ok(IndentationStyle { indent_kind: IndentKind::Tabs, indent_amount: 1 })
    );
    assert_eq!(
        IndentationStyle::from_str("spaces"),
        Ok(IndentationStyle { indent_kind: IndentKind::Spaces, indent_amount: 1 })
    );
    // The singular forms are only accepted together with a number.
    assert!(IndentationStyle::from_str("tab").is_err());
    assert!(IndentationStyle::from_str("space").is_err());
}

#[test]
fn style_accepts_extra_whitespace_between_words() {
    assert_eq!(
        IndentationStyle::from_str("  8   tabs "),
        Ok(IndentationStyle { indent_kind: IndentKind::Tabs, indent_amount: 8 })
    );
}

#[test]
fn bad_styles_are_rejected() {
    for bad in [
        "",
        "four spaces",
        "4",
        "4 sideways",
        "0 tabs",
        "4 spaces please",
        "-2 tabs",
        "+2 tabs",
        "99999999999999999999 tabs",
    ] {
        assert!(IndentationStyle::from_str(bad).is_err(), "{bad:?} was accepted");
    }
}

#[test]
fn config_takes_default_selection_pattern() {
    let cfg = Config::new(None, Vec::new(), 80, Vec::new(), None).unwrap();
    let sources: Vec<&str> = cfg.inclusions.iter().map(|p| p.as_str()).collect();
    assert_eq!(sources, vec!["**/*.rs"]);
    assert!(cfg.exclusions.is_empty());
    assert_eq!(cfg.max_line_length, 80);
    assert!(cfg.indentation_style.is_none());
}

#[test]
fn config_keeps_given_patterns_and_style() {
    let cfg = Config::new(
        Some(strings(&["src/**/*.rs", "tests/*.rs"])),
        strings(&["target/**"]),
        120,
        strings(&["TODO", "\\t"]),
        Some("2 tabs".to_string()),
    )
    .unwrap();
    let sources: Vec<&str> = cfg.inclusions.iter().map(|p| p.as_str()).collect();
    assert_eq!(sources, vec!["src/**/*.rs", "tests/*.rs"]);
    let excl: Vec<&str> = cfg.exclusions.iter().map(|p| p.as_str()).collect();
    assert_eq!(excl, vec!["target/**"]);
    assert_eq!(cfg.forbidden_sources, vec!["TODO", "\\t"]);
    assert_eq!(
        cfg.indentation_style,
        Some(IndentationStyle { indent_kind: IndentKind::Tabs, indent_amount: 2 })
    );
}

#[test]
fn invalid_glob_is_a_config_error() {
    let r = Config::new(Some(strings(&["a**b"])), Vec::new(), 80, Vec::new(), None);
    assert!(matches!(r, Err(ConfigError::InvalidGlob(_))));
    let r = Config::new(None, strings(&["abc["]), 80, Vec::new(), None);
    assert!(matches!(r, Err(ConfigError::InvalidGlob(_))));
}

#[test]
fn first_failure_wins_glob_before_regex_before_style() {
    let r = Config::new(
        Some(strings(&["abc["])),
        Vec::new(),
        80,
        strings(&["("]),
        Some("sideways".to_string()),
    );
    assert!(matches!(r, Err(ConfigError::InvalidGlob(_))));
    let r = Config::new(
        None,
        Vec::new(),
        80,
        strings(&["("]),
        Some("sideways".to_string()),
    );
    assert!(matches!(r, Err(ConfigError::InvalidRegex(_))));
}

#[test]
fn invalid_regex_is_a_config_error() {
    let r = Config::new(None, Vec::new(), 80, strings(&["("]), None);
    assert!(matches!(r, Err(ConfigError::InvalidRegex(_))));
}

#[test]
fn invalid_style_is_a_config_error() {
    let r = Config::new(None, Vec::new(), 80, Vec::new(), Some("sideways".to_string()));
    assert!(matches!(r, Err(ConfigError::InvalidIndentationStyle(_))));
}

#[test]
fn excluded_path_is_never_selected() {
    let cfg = Config::new(
        Some(strings(&["**/*.rs", "*.tmp"])),
        strings(&["*.tmp"]),
        80,
        Vec::new(),
        None,
    )
    .unwrap();
    // `b.tmp` is matched by a selection pattern and by an exclusion
    // pattern: the exclusion wins.
    let candidates = vec![strings(&["a.rs", "b.tmp"]), strings(&["b.tmp"])];
    let picked = select_files(&cfg, &candidates);
    assert_eq!(picked, vec!["a.rs"]);
}

#[test]
fn selection_keeps_walk_order_and_drops_duplicates() {
    let cfg = Config::new(None, Vec::new(), 80, Vec::new(), None).unwrap();
    let candidates = vec![
        strings(&["src/a.rs", "src/b.rs"]),
        strings(&["src/b.rs", "src/c.rs", "src/a.rs"]),
    ];
    let picked = select_files(&cfg, &candidates);
    assert_eq!(picked, vec!["src/a.rs", "src/b.rs", "src/c.rs"]);
}

#[test]
fn exclusion_patterns_match_paths_not_substrings() {
    let cfg = Config::new(None, strings(&["b*.rs"]), 80, Vec::new(), None).unwrap();
    let candidates = vec![strings(&["bad.rs", "good.rs", "dir/bad.rs"])];
    let picked = select_files(&cfg, &candidates);
    // A pattern must match the whole path, so `b*.rs` leaves
    // `dir/bad.rs` alone.
    assert_eq!(picked, vec!["good.rs", "dir/bad.rs"]);
}
