use std::sync::atomic::{AtomicU32, Ordering};

use automd_rs::dispatch::{assign_and_generate, update_readme, update_readme_with_default};
use automd_rs::error::Error;
use automd_rs::handler::{BlockHandler, DefaultHandler, UpdateContext};
use automd_rs::manifest::ParsedManifest;
use automd_rs::scan::{parse_block_name, parse_readme_blocks};
use automd_rs::render::replace_blocks_once;

fn context() -> UpdateContext {
    UpdateContext::new(ParsedManifest {
        name: "test-crate".to_string(),
        description: String::new(),
        username: "u".to_string(),
        repository_name: "r".to_string(),
    })
}

#[test]
fn test_parse_block_name() {
    assert_eq!(parse_block_name("  <!-- automdrs:badges version -->  "), Some("badges"));
    assert_eq!(parse_block_name("<!-- automdrs:contributors -->"), Some("contributors"));
    assert_eq!(parse_block_name("<!-- automdrs:foo a b -->"), Some("foo"));
    assert_eq!(parse_block_name("<!-- other:tag -->"), None);
    assert_eq!(parse_block_name("not a tag"), None);
}

#[test]
fn test_parse_readme_blocks_order() {
    let content = "A\n<!-- automdrs:badges version -->\n<!-- /automdrs -->\nB\n<!-- automdrs:contributors -->\n<!-- /automdrs -->\n";
    let reqs = parse_readme_blocks(content);
    assert_eq!(reqs.len(), 2);
    assert_eq!(reqs[0].name, "badges");
    assert_eq!(reqs[1].name, "contributors");
}

#[test]
fn test_replace_blocks_once() {
    let content = "Title\n\n<!-- automdrs:badges version -->\n<!-- /automdrs -->\n\nRest";
    let generated = vec![vec!["line1".to_string(), "line2".to_string()]];
    let out = replace_blocks_once(content, &generated);
    assert!(out.contains("<!-- automdrs:badges version -->"));
    assert!(out.contains("line1"));
    assert!(out.contains("line2"));
    assert!(out.contains("<!-- /automdrs -->"));
    assert!(out.contains("Rest"));
}

#[test]
fn readme_test_parse_block_name() {
    assert_eq!(parse_block_name("  <!-- automdrs:badges version -->  "), Some("badges"));
    assert_eq!(parse_block_name("<!-- automdrs:contributors -->"), Some("contributors"));
    assert_eq!(parse_block_name("<!-- automdrs:foo a b -->"), Some("foo"));
    assert_eq!(parse_block_name("<!-- other:tag -->"), None);
    assert_eq!(parse_block_name("not a tag"), None);
}

#[test]
fn readme_test_parse_readme_blocks_order() {
    let content = "A\n<!-- automdrs:badges version -->\n<!-- /automdrs -->\nB\n<!-- automdrs:contributors -->\n<!-- /automdrs -->\n";
    let reqs = parse_readme_blocks(content);
    assert_eq!(reqs.len(), 2);
    assert_eq!(reqs[0].name, "badges");
    assert_eq!(reqs[1].name, "contributors");
}

#[test]
fn readme_test_replace_blocks_once() {
    let content = "Title\n\n<!-- automdrs:badges version -->\n<!-- /automdrs -->\n\nRest";
    let generated = vec![vec!["line1".to_string(), "line2".to_string()]];
    let out = replace_blocks_once(content, &generated);
    assert!(out.contains("<!-- automdrs:badges version -->"));
    assert!(out.contains("line1"));
    assert!(out.contains("line2"));
    assert!(out.contains("<!-- /automdrs -->"));
    assert!(out.contains("Rest"));
}

// A document without opening markers comes back byte-identical, whatever
// the generated lists are.
#[test]
fn test_identity_without_markers() {
    let content = "Title\r\n\nsome text\nno markers here\n";
    let out = replace_blocks_once(content, &[vec!["junk".to_string()]]);
    assert_eq!(out, content);
    let out = update_readme(content, &DefaultHandler, &context()).unwrap();
    assert_eq!(out, content);
    let no_trailing = "Title\nno trailing newline";
    let out = replace_blocks_once(no_trailing, &[]);
    assert_eq!(out, no_trailing);
}

// A block whose generator returns k lines becomes: unchanged opening
// line, exactly those k lines, unchanged closing line, contiguously; the
// old body is gone.
#[test]
fn test_splice_exact() {
    let content = "A\n<!-- automdrs:badges v -->\nOLD1\nOLD2\n<!-- /automdrs -->\nB\n";
    let generated = vec![vec!["X".to_string(), "Y".to_string()]];
    let out = replace_blocks_once(content, &generated);
    assert_eq!(out, "A\n<!-- automdrs:badges v -->\nX\nY\n<!-- /automdrs -->\nB\n");
}

// An opening marker inside an open block is ignored: no nesting.
#[test]
fn test_no_nesting() {
    let content = "<!-- automdrs:a -->\n<!-- automdrs:b -->\n<!-- /automdrs -->\n";
    let reqs = parse_readme_blocks(content);
    assert_eq!(reqs.len(), 1);
    assert_eq!(reqs[0].name, "a");
}

struct FailOnB {
    calls: AtomicU32,
}

impl BlockHandler for FailOnB {
    fn generate(
        &self,
        block_name: &str,
        _open_tag_line: &str,
        _context: &UpdateContext,
    ) -> Result<Vec<String>, Error> {
        self.calls.fetch_add(1, Ordering::SeqCst);
        if block_name == "b" {
            Err(Error::BlockHandler("b".to_string(), "boom".to_string()))
        } else {
            Ok(vec!["X".to_string()])
        }
    }
}

// When block 2 of 3 fails, no document is produced and the handler for
// block 3 is never invoked.
#[test]
fn test_fail_fast() {
    let content = "<!-- automdrs:a -->\n<!-- /automdrs -->\n<!-- automdrs:b -->\n<!-- /automdrs -->\n<!-- automdrs:c -->\n<!-- /automdrs -->\n";
    let handler = FailOnB { calls: AtomicU32::new(0) };
    let reqs = parse_readme_blocks(content);
    assert_eq!(reqs.len(), 3);
    let r = assign_and_generate(&reqs, &handler, &context());
    assert!(matches!(r, Err(Error::HandlerGenerationFailed(ref n, _)) if n == "b"));
    assert_eq!(handler.calls.load(Ordering::SeqCst), 2);
    let handler = FailOnB { calls: AtomicU32::new(0) };
    let r = update_readme(content, &handler, &context());
    assert!(r.is_err());
}

struct OneLine;

impl BlockHandler for OneLine {
    fn generate(
        &self,
        _block_name: &str,
        _open_tag_line: &str,
        _context: &UpdateContext,
    ) -> Result<Vec<String>, Error> {
        Ok(vec!["LINE1".to_string()])
    }
}

// A handler returning one line yields exactly that line between the
// unchanged markers, and the final newline is kept.
#[test]
fn test_single_badge_line_scenario() {
    let content = "Title\n\n<!-- automdrs:badges version -->\n<!-- /automdrs -->\n";
    let out = update_readme(content, &OneLine, &context()).unwrap();
    assert_eq!(out, "Title\n\n<!-- automdrs:badges version -->\nLINE1\n<!-- /automdrs -->\n");
}

// The built-in pipeline end to end: real badge lines spliced in.
#[test]
fn test_update_readme_with_default_exact() {
    let content = "Title\n\n<!-- automdrs:badges version -->\n<!-- /automdrs -->\n";
    let out = update_readme_with_default(content, &context());
    assert_eq!(
        out,
        "Title\n\n<!-- automdrs:badges version -->\n![Crates.io Version](https://img.shields.io/crates/v/test-crate)\n<!-- /automdrs -->\n"
    );
}

// An unknown block name is cleared by the built-in handler, not failed.
#[test]
fn test_update_readme_with_default_unknown_cleared() {
    let content = "<!-- automdrs:mystery -->\nold\n<!-- /automdrs -->\n";
    let out = update_readme_with_default(content, &context());
    assert_eq!(out, "<!-- automdrs:mystery -->\n<!-- /automdrs -->\n");
}

// Blocks past the last generated list keep nothing between their markers.
#[test]
fn test_more_blocks_than_generated() {
    let content = "<!-- automdrs:a -->\nold\n<!-- /automdrs -->\n<!-- automdrs:b -->\nold2\n<!-- /automdrs -->\n";
    let generated = vec![vec!["X".to_string()]];
    let out = replace_blocks_once(content, &generated);
    assert_eq!(
        out,
        "<!-- automdrs:a -->\nX\n<!-- /automdrs -->\n<!-- automdrs:b -->\n<!-- /automdrs -->\n"
    );
}

// Markers are trimmed with the Unicode white-space set: a no-break-space
// indented marker line is still recognized.
#[test]
fn test_unicode_whitespace_trim() {
    assert_eq!(parse_block_name("\u{a0}<!-- automdrs:badges version -->\u{2003}"), Some("badges"));
    assert_eq!(parse_block_name("<!-- automdrs:badges\u{a0}version -->"), Some("badges"));
}
