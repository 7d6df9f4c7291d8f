use automd_rs::tag_options::{option_bool, parse_tag_options, TagOptions};

#[test]
fn test_parse_tag_options_standalone() {
    let opts = parse_tag_options("  <!-- automdrs:badges version downloads -->  ", "badges");
    assert_eq!(opts.get("version").map(String::as_str), Some("true"));
    assert_eq!(opts.get("downloads").map(String::as_str), Some("true"));
}

#[test]
fn test_parse_tag_options_key_value() {
    let opts = parse_tag_options(
        "<!-- automdrs:contributors author=\"YONGQI\" license=\"MIT\" -->",
        "contributors",
    );
    assert_eq!(opts.get("author").map(String::as_str), Some("YONGQI"));
    assert_eq!(opts.get("license").map(String::as_str), Some("MIT"));
}

#[test]
fn test_parse_tag_options_mixed() {
    let opts = parse_tag_options(
        "<!-- automdrs:badges showCrateVersion=\"true\" docs -->",
        "badges",
    );
    assert_eq!(opts.get("showCrateVersion").map(String::as_str), Some("true"));
    assert_eq!(opts.get("docs").map(String::as_str), Some("true"));
}

#[test]
fn test_option_bool() {
    let mut opts = TagOptions::new();
    opts.insert("on".to_string(), "true".to_string());
    opts.insert("off".to_string(), "false".to_string());
    assert!(option_bool(&opts, &["on"]));
    assert!(!option_bool(&opts, &["off"]));
    assert!(option_bool(&opts, &["missing", "on"]));
    assert!(!option_bool(&opts, &["missing"]));
}

#[test]
fn test_option_bool_yes_no_1_0() {
    let mut opts = TagOptions::new();
    opts.insert("y".to_string(), "yes".to_string());
    opts.insert("n".to_string(), "no".to_string());
    opts.insert("one".to_string(), "1".to_string());
    opts.insert("zero".to_string(), "0".to_string());
    assert!(option_bool(&opts, &["y"]));
    assert!(!option_bool(&opts, &["n"]));
    assert!(option_bool(&opts, &["one"]));
    assert!(!option_bool(&opts, &["zero"]));
}

#[test]
fn test_parse_tag_options_wrong_block_name() {
    let opts = parse_tag_options("<!-- automdrs:other version -->", "badges");
    assert!(opts.is_empty());
}

// An alias whose value is recognized neither way is skipped, and a later
// alias still decides.
#[test]
fn test_option_bool_alias_value_skipped() {
    let mut opts = TagOptions::new();
    opts.insert("old".to_string(), "maybe".to_string());
    opts.insert("new".to_string(), "yes".to_string());
    assert!(option_bool(&opts, &["old", "new"]));
}

// Values compare without ASCII case.
#[test]
fn test_option_bool_case_insensitive() {
    let mut opts = TagOptions::new();
    opts.insert("a".to_string(), "TRUE".to_string());
    opts.insert("b".to_string(), "No".to_string());
    assert!(option_bool(&opts, &["a"]));
    assert!(!option_bool(&opts, &["b"]));
}

// On a duplicate key the last occurrence wins.
#[test]
fn test_parse_tag_options_duplicate_last_wins() {
    let opts = parse_tag_options(
        "<!-- automdrs:badges version=\"false\" version=\"yes\" -->",
        "badges",
    );
    assert_eq!(opts.get("version").map(String::as_str), Some("yes"));
}

// Single quotes are stripped like double quotes; no escape processing.
#[test]
fn test_parse_tag_options_single_quotes() {
    let opts = parse_tag_options("<!-- automdrs:contributors author='A B' -->", "contributors");
    // Quoted values do not protect spaces: items split on whitespace first.
    assert_eq!(opts.get("author").map(String::as_str), Some("'A"));
    let opts = parse_tag_options("<!-- automdrs:contributors author='AB' -->", "contributors");
    assert_eq!(opts.get("author").map(String::as_str), Some("AB"));
}
