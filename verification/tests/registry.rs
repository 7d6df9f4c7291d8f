use automd_rs::badges::{generate_all, insert_badges_into_readme, Badges, BadgesHandler};
use automd_rs::contributors::ContributorsHandler;
use automd_rs::error::Error;
use automd_rs::handler::UpdateContext;
use automd_rs::manifest::ParsedManifest;
use automd_rs::registry::{update_readme, NamedBlockHandler};

fn context() -> UpdateContext {
    UpdateContext::new(ParsedManifest {
        name: "test-crate".to_string(),
        description: String::new(),
        username: "u".to_string(),
        repository_name: "r".to_string(),
    })
}

#[test]
fn test_registry_handler_names() {
    assert_eq!(BadgesHandler.name(), "badges");
    assert_eq!(ContributorsHandler.name(), "contributors");
}

// An unregistered block name is a hard failure in the strict registry,
// and no document is produced.
#[test]
fn test_handler_not_found() {
    let content = "<!-- automdrs:foo -->\nold\n<!-- /automdrs -->\n";
    let badges = BadgesHandler;
    let contributors = ContributorsHandler;
    let handlers: [&dyn NamedBlockHandler; 2] = [&badges, &contributors];
    let r = update_readme(content, &handlers, &context());
    assert!(matches!(r, Err(Error::HandlerNotFound(ref n)) if n == "foo"));
}

#[test]
fn test_registry_update() {
    let content = "<!-- automdrs:badges version -->\nold\n<!-- /automdrs -->\n";
    let badges = BadgesHandler;
    let handlers: [&dyn NamedBlockHandler; 1] = [&badges];
    let out = update_readme(content, &handlers, &context()).unwrap();
    assert_eq!(
        out,
        "<!-- automdrs:badges version -->\n![Crates.io Version](https://img.shields.io/crates/v/test-crate)\n<!-- /automdrs -->\n"
    );
}

#[test]
fn test_registry_contributors_placeholder() {
    let content = "<!-- automdrs:contributors -->\n<!-- /automdrs -->\n";
    let contributors = ContributorsHandler;
    let handlers: [&dyn NamedBlockHandler; 1] = [&contributors];
    let out = update_readme(content, &handlers, &context()).unwrap();
    assert!(out.contains("<!-- contributors list will be generated here -->"));
}

#[test]
fn test_generate_all_order() {
    let manifest = ParsedManifest {
        name: "my-crate".to_string(),
        description: "d".to_string(),
        username: "user".to_string(),
        repository_name: "repo".to_string(),
    };
    let badges = Badges {
        version: true,
        downloads: true,
        docs: false,
        commit_activity: false,
        repo_stars: true,
    };
    let out = generate_all(&manifest, &badges);
    assert_eq!(out.len(), 3);
    assert!(out[0].contains("crates/v/my-crate"));
    assert!(out[1].contains("crates/d/my-crate"));
    assert!(out[2].contains("github/stars/user/repo"));
}

#[test]
fn test_insert_badges_into_readme() {
    let readme = "Top\n<!-- automdrs:badges version -->\nstale\n<!-- /automdrs -->\nBottom\n";
    let badge_lines = vec!["B1".to_string(), "B2".to_string()];
    let out = insert_badges_into_readme(readme, &badge_lines);
    assert_eq!(
        out,
        "Top\n<!-- automdrs:badges version -->\nB1\nB2\n<!-- /automdrs -->\nBottom\n"
    );
}

#[test]
fn test_insert_badges_leaves_other_blocks() {
    let readme = "<!-- automdrs:contributors -->\nkept?\n<!-- /automdrs -->\n";
    let out = insert_badges_into_readme(readme, &["B".to_string()]);
    assert_eq!(out, readme);
}
