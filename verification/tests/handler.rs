use automd_rs::handler::{BlockHandler, DefaultHandler, UpdateContext};
use automd_rs::manifest::ParsedManifest;

fn context() -> UpdateContext {
    UpdateContext::new(ParsedManifest {
        name: "test-crate".to_string(),
        description: String::new(),
        username: "u".to_string(),
        repository_name: "r".to_string(),
    })
}

#[test]
fn test_update_context_new() {
    let ctx = context();
    assert_eq!(ctx.config.name, "test-crate");
}

#[test]
fn test_generate_badges() {
    let h = DefaultHandler::default();
    let out = h
        .generate("badges", "<!-- automdrs:badges version docs -->", &context())
        .unwrap();
    assert!(!out.is_empty());
    assert!(out[0].contains("crates/v/test-crate"));
}

#[test]
fn test_generate_contributors() {
    let h = DefaultHandler::default();
    let out = h
        .generate(
            "contributors",
            "<!-- automdrs:contributors author=\"A\" license=\"MIT\" -->",
            &context(),
        )
        .unwrap();
    assert_eq!(out.len(), 1);
    assert!(out[0].contains("A"));
    assert!(out[0].contains("MIT"));
}

#[test]
fn test_generate_with_automdrs() {
    let h = DefaultHandler::default();
    let out = h
        .generate("with-automdrs", "<!-- automdrs:with-automdrs -->", &context())
        .unwrap();
    assert_eq!(out.len(), 1);
    assert!(out[0].contains("automd-rs"));
}

#[test]
fn test_generate_unknown_block() {
    let h = DefaultHandler::default();
    let out = h
        .generate("unknown", "<!-- automdrs:unknown -->", &context())
        .unwrap();
    assert_eq!(out, Vec::<String>::new());
}

#[test]
fn test_generate_cargo_install_block() {
    let h = DefaultHandler::default();
    let out = h
        .generate("cargo-install", "<!-- automdrs:cargo-install -->", &context())
        .unwrap();
    assert_eq!(out, vec!["\n```sh\ncargo install test-crate\n```\n".to_string()]);
}

// Aliased option keys drive the same switch as the bare flags.
#[test]
fn test_generate_badges_aliased_keys() {
    let h = DefaultHandler::default();
    let out = h
        .generate(
            "badges",
            "<!-- automdrs:badges showCrateVersion=\"true\" showCrateDocs=\"yes\" -->",
            &context(),
        )
        .unwrap();
    assert_eq!(out.len(), 2);
    assert!(out[0].contains("crates/v/test-crate"));
    assert!(out[1].contains("docsrs/test-crate"));
}
