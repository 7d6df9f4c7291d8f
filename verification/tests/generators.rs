use automd_rs::generators::badges::{generate, BadgesConfig};
use automd_rs::generators::contributors::ContributorsConfig;
use automd_rs::generators::file::infer_lang;
use automd_rs::generators::with_automdrs::WithAutomdrsConfig;
use automd_rs::manifest::ParsedManifest;

fn manifest() -> ParsedManifest {
    ParsedManifest {
        name: "my-crate".to_string(),
        description: "d".to_string(),
        username: "user".to_string(),
        repository_name: "repo".to_string(),
    }
}

#[test]
fn test_generate_empty() {
    let config = BadgesConfig::default();
    let out = generate(&config, &manifest());
    assert_eq!(out, Vec::<String>::new());
}

#[test]
fn test_generate_version_docs_repo_stars() {
    let config = BadgesConfig {
        version: true,
        downloads: false,
        docs: true,
        commit_activity: false,
        repo_stars: true,
    };
    let out = generate(&config, &manifest());
    assert_eq!(out.len(), 3);
    assert!(out[0].contains("crates/v/my-crate"));
    assert!(out[1].contains("docsrs/my-crate"));
    assert!(out[2].contains("github/stars/user/repo"));
}

#[test]
fn test_generate_downloads_commit_activity() {
    let config = BadgesConfig {
        version: false,
        downloads: true,
        docs: false,
        commit_activity: true,
        repo_stars: false,
    };
    let out = generate(&config, &manifest());
    assert_eq!(out.len(), 2);
    assert!(out[0].contains("crates/d/my-crate"));
    assert!(out[1].contains("commit-activity/m/user/repo"));
}

#[test]
fn contributors_test_generate() {
    let config = ContributorsConfig {
        author: "YONGQI".to_string(),
        license: "MIT".to_string(),
    };
    let manifest = ParsedManifest {
        name: "automd-rs".to_string(),
        description: "d".to_string(),
        username: "betterhyq".to_string(),
        repository_name: "automd-rs".to_string(),
    };
    let out = automd_rs::generators::contributors::generate(&config, &manifest);
    assert_eq!(out.len(), 1);
    assert!(out[0].contains("YONGQI"));
    assert!(out[0].contains("MIT"));
    assert!(out[0].contains("betterhyq/automd-rs"));
}

#[test]
fn with_automdrs_test_generate() {
    let config = WithAutomdrsConfig::default();
    let out = automd_rs::generators::with_automdrs::generate(&config);
    assert_eq!(out.len(), 1);
    assert!(out[0].contains("automd-rs"));
}

#[test]
fn test_infer_lang() {
    assert_eq!(infer_lang("foo.rs"), "rust");
    assert_eq!(infer_lang("a/b.toml"), "toml");
    assert_eq!(infer_lang("x"), "");
}

#[test]
fn test_infer_lang_more() {
    assert_eq!(infer_lang("doc/readme.md"), "markdown");
    assert_eq!(infer_lang("conf.yaml"), "yaml");
    assert_eq!(infer_lang("conf.yml"), "yaml");
    assert_eq!(infer_lang("run.sh"), "bash");
    assert_eq!(infer_lang("run.bash"), "bash");
    assert_eq!(infer_lang("a.py"), "python");
    assert_eq!(infer_lang("a.js"), "javascript");
    assert_eq!(infer_lang("a.ts"), "typescript");
    assert_eq!(infer_lang("a.json"), "json");
    assert_eq!(infer_lang(".gitignore"), "");
    assert_eq!(infer_lang("dir.rs/file"), "");
}

#[test]
fn test_generate_empty_src() {
    let out = automd_rs::generators::file::generate("", "fn main() {}\n");
    assert!(out.is_err());
}

#[test]
fn test_generate_file() {
    let content = "use automd_rs::scan;\n\nfn main() {}\n";
    let out = automd_rs::generators::file::generate("src/main.rs", content).unwrap();
    assert!(!out.is_empty());
    assert_eq!(out[0], "```rust");
    assert!(out.iter().any(|l| l.contains("automd_rs")));
    assert_eq!(out.last(), Some(&"```".to_string()));
}

#[test]
fn test_generate_file_no_fence() {
    let out = automd_rs::generators::file::generate("LICENSE", "MIT\n").unwrap();
    assert_eq!(out, vec!["MIT".to_string()]);
}

#[test]
fn test_generate_cargo_add() {
    let out = automd_rs::generators::cargo_add::generate(&manifest());
    assert_eq!(out, vec!["\n```sh\ncargo add my-crate\n```\n".to_string()]);
}

#[test]
fn test_generate_cargo_install() {
    let out = automd_rs::generators::cargo_install::generate(&manifest());
    assert_eq!(out, vec!["\n```sh\ncargo install my-crate\n```\n".to_string()]);
}

#[test]
fn test_generate_description() {
    let out = automd_rs::generators::description::generate(&manifest());
    assert_eq!(out, vec!["\nd\n".to_string()]);
}
