use automd_rs::error::Error;
use automd_rs::github::{parse_repository_url, split_user_repo};
use automd_rs::manifest::{
    parse_cargo_toml_content, parse_manifest_content, project_config_from_cargo_content,
};

#[test]
fn test_parse_github_url() {
    let (user, repo) = parse_repository_url("https://github.com/betterhyq/automd-rs.git").unwrap();
    assert_eq!(user, "betterhyq");
    assert_eq!(repo, "automd-rs");
}

#[test]
fn test_parse_github_url_no_git_suffix() {
    let (user, repo) = parse_repository_url("https://github.com/foo/bar").unwrap();
    assert_eq!(user, "foo");
    assert_eq!(repo, "bar");
}

#[test]
fn test_parse_repository_url() {
    let (user, repo) = parse_repository_url("https://github.com/betterhyq/automd-rs.git").unwrap();
    assert_eq!(user, "betterhyq");
    assert_eq!(repo, "automd-rs");
    let (user, repo) = parse_repository_url("https://github.com/foo/bar").unwrap();
    assert_eq!(user, "foo");
    assert_eq!(repo, "bar");
}

#[test]
fn test_parse_repository_url_invalid() {
    assert!(parse_repository_url("not-a-url").is_err());
    assert!(parse_repository_url("https://github.com/onlyone").is_err());
}

#[test]
fn test_parse_repository_url_error_kind() {
    let e = parse_repository_url("https://github.com/onlyone").unwrap_err();
    assert!(matches!(e, Error::InvalidRepoUrl(_)));
}

#[test]
fn test_split_user_repo() {
    assert_eq!(
        split_user_repo("/betterhyq/automd-rs.git"),
        Some(("betterhyq".to_string(), "automd-rs".to_string()))
    );
    assert_eq!(split_user_repo("//foo///bar//"), Some(("foo".to_string(), "bar".to_string())));
    assert_eq!(split_user_repo("/onlyone"), None);
    assert_eq!(split_user_repo(""), None);
}

#[test]
fn test_parse_cargo_toml_content() {
    let content = "\n[package]\nname = \"automd-rs\"\nrepository = \"https://github.com/betterhyq/automd-rs.git\"\n";
    let (name, repo) = parse_cargo_toml_content(content).unwrap();
    assert_eq!(name, "automd-rs");
    assert_eq!(repo, "https://github.com/betterhyq/automd-rs.git");
}

#[test]
fn test_parse_cargo_toml_content_missing_field() {
    let e = parse_cargo_toml_content("[package]\nname = \"x\"\n").unwrap_err();
    assert!(matches!(e, Error::CargoParse(_)));
}

// Only entries inside [package] count; a later duplicate key wins;
// single quotes work like double quotes; text after the closing quote is
// dropped.
#[test]
fn test_parse_cargo_toml_content_sections_and_quotes() {
    let content = "name = \"top-level\"\n[dependencies]\nname = \"dep\"\n[package]\nname = 'first'\nname = \"second\" # comment\nrepository = \"https://github.com/a/b\"\n";
    let (name, repo) = parse_cargo_toml_content(content).unwrap();
    assert_eq!(name, "second");
    assert_eq!(repo, "https://github.com/a/b");
}

#[test]
fn test_parse_manifest_content() {
    let content = "[package]\nname = \"automd-rs\"\ndescription = \"keep docs fresh\"\nrepository = \"https://github.com/betterhyq/automd-rs.git\"\n";
    let m = parse_manifest_content(content).unwrap();
    assert_eq!(m.name, "automd-rs");
    assert_eq!(m.description, "keep docs fresh");
    assert_eq!(m.username, "betterhyq");
    assert_eq!(m.repository_name, "automd-rs");
}

#[test]
fn test_parse_manifest_content_missing_description() {
    let content = "[package]\nname = \"x\"\nrepository = \"https://github.com/a/b\"\n";
    assert!(matches!(parse_manifest_content(content), Err(Error::CargoParse(_))));
}

#[test]
fn test_parse_manifest_content_bad_url() {
    let content = "[package]\nname = \"x\"\ndescription = \"d\"\nrepository = \"not-a-url\"\n";
    assert!(matches!(parse_manifest_content(content), Err(Error::InvalidRepoUrl(_))));
}

#[test]
fn test_project_config_from_cargo_content() {
    let content = "[package]\nname = \"automd-rs\"\nrepository = \"https://github.com/betterhyq/automd-rs.git\"\n";
    let pc = project_config_from_cargo_content(content).unwrap();
    assert_eq!(pc.crate_name, "automd-rs");
    assert_eq!(pc.repository_url, "https://github.com/betterhyq/automd-rs.git");
    assert_eq!(pc.github_user, "betterhyq");
    assert_eq!(pc.github_repo, "automd-rs");
}

#[test]
fn test_error_messages() {
    assert_eq!(Error::CargoTomlNotFound.message(), "Cargo.toml not found");
    assert_eq!(Error::Io("gone".to_string()).message(), "IO error: gone");
    assert_eq!(
        Error::BlockHandler("file".to_string(), "bad".to_string()).message(),
        "Block handler 'file': bad"
    );
    assert_eq!(
        Error::HandlerNotFound("foo".to_string()).message(),
        "No handler registered for block 'foo'"
    );
}
