//! Dispatch by block name to the content generators.
//!
//! [`BlockHandler`] is the capability a dispatcher drives: given a block's
//! name, its opening line and the shared context, it yields the block's
//! replacement lines or a failure. [`DefaultHandler`] is this library's
//! built-in implementation; unknown block names yield an empty
//! replacement, a documented permissive choice. For the strict alternative
//! that fails on an unknown name, see the registry dispatcher.

use vstd::prelude::*;
use vstd::string::StringExecFns;

use crate::error::Error;
use crate::generators::badges::spec_generate;
use crate::generators::badges::BadgesConfig;
use crate::generators::cargo_install::cargo_install_text;
use crate::generators::contributors::contributors_text;
use crate::generators::contributors::ContributorsConfig;
use crate::generators::with_automdrs::with_automdrs_text;
use crate::generators::with_automdrs::WithAutomdrsConfig;
use crate::manifest::ParsedManifest;
use crate::tag_options::coerce_bool;
use crate::tag_options::option_bool;
use crate::tag_options::parse_tag_options;
use crate::tag_options::tag_options_map;
use crate::text::str_eq;

verus! {

/// The externally supplied metadata threaded through one whole document
/// update; the dispatcher never interprets it, handlers read it.
#[derive(Debug, Clone)]
pub struct UpdateContext {
    pub config: ParsedManifest,
}

impl UpdateContext {
    /// Wrap the project metadata for one update run.
    pub fn new(config: ParsedManifest) -> (r: Self)
        ensures
            r.config == config,
    {
        UpdateContext { config }
    }
}

/// A content-generation capability, selected by block name. Handlers read
/// the context and must not mutate shared state.
pub trait BlockHandler: Send + Sync {
    /// Produce the replacement lines for one block, or fail.
    fn generate(&self, block_name: &str, open_tag_line: &str, context: &UpdateContext) -> Result<
        Vec<String>,
        Error,
    >;
}

/// The value read for one option key, or empty when the key is absent.
pub open spec fn opt_or_empty(m: Map<Seq<char>, Seq<char>>, key: Seq<char>) -> Seq<char> {
    if m.contains_key(key) {
        m[key]
    } else {
        Seq::empty()
    }
}

/// The badge switches of a badges opening line, through the option
/// grammar: each switch through its two key aliases.
pub open spec fn spec_badges_config(line: Seq<char>) -> BadgesConfig {
    let m = tag_options_map(line, "badges"@);
    BadgesConfig {
        version: coerce_bool(m, seq!["showCrateVersion"@, "version"@]),
        downloads: coerce_bool(m, seq!["showCrateDownloads"@, "downloads"@]),
        docs: coerce_bool(m, seq!["showCrateDocs"@, "docs"@]),
        commit_activity: coerce_bool(m, seq!["showCommitActivity"@, "commit_activity"@]),
        repo_stars: coerce_bool(m, seq!["showRepoStars"@, "repo_stars"@]),
    }
}

/// Read the badge switches out of a badges opening line.
fn parse_badges_config(open_tag: &str) -> (r: BadgesConfig)
    ensures
        r == spec_badges_config(open_tag@),
{
    let opts = parse_tag_options(open_tag, "badges");
    let version_keys: Vec<&str> = vec!["showCrateVersion", "version"];
    let downloads_keys: Vec<&str> = vec!["showCrateDownloads", "downloads"];
    let docs_keys: Vec<&str> = vec!["showCrateDocs", "docs"];
    let commit_keys: Vec<&str> = vec!["showCommitActivity", "commit_activity"];
    let stars_keys: Vec<&str> = vec!["showRepoStars", "repo_stars"];
    let vks = version_keys.as_slice();
    let dks = downloads_keys.as_slice();
    let oks = docs_keys.as_slice();
    let cks = commit_keys.as_slice();
    let sks = stars_keys.as_slice();
    proof {
        assert(vks.deep_view() =~= seq!["showCrateVersion"@, "version"@]);
        assert(dks.deep_view() =~= seq!["showCrateDownloads"@, "downloads"@]);
        assert(oks.deep_view() =~= seq!["showCrateDocs"@, "docs"@]);
        assert(cks.deep_view() =~= seq!["showCommitActivity"@, "commit_activity"@]);
        assert(sks.deep_view() =~= seq!["showRepoStars"@, "repo_stars"@]);
    }
    BadgesConfig {
        version: option_bool(&opts, vks),
        downloads: option_bool(&opts, dks),
        docs: option_bool(&opts, oks),
        commit_activity: option_bool(&opts, cks),
        repo_stars: option_bool(&opts, sks),
    }
}

/// The author and license of a contributors opening line; absent options
/// read as empty.
pub open spec fn spec_contributors_config(line: Seq<char>) -> (Seq<char>, Seq<char>) {
    let m = tag_options_map(line, "contributors"@);
    (opt_or_empty(m, "author"@), opt_or_empty(m, "license"@))
}

/// Read author and license out of a contributors opening line.
fn parse_contributors_config(open_tag: &str) -> (r: ContributorsConfig)
    ensures
        r.author@ == spec_contributors_config(open_tag@).0,
        r.license@ == spec_contributors_config(open_tag@).1,
{
    let opts = parse_tag_options(open_tag, "contributors");
    let author: String = match opts.get("author") {
        Some(v) => v.clone(),
        None => String::new(),
    };
    let license: String = match opts.get("license") {
        Some(v) => v.clone(),
        None => String::new(),
    };
    ContributorsConfig { author, license }
}

/// The message of a footer opening line; absent reads as empty.
pub open spec fn spec_with_automdrs_config(line: Seq<char>) -> Seq<char> {
    opt_or_empty(tag_options_map(line, "with-automdrs"@), "message"@)
}

/// Read the message out of a footer opening line.
fn parse_with_automdrs_config(open_tag: &str) -> (r: WithAutomdrsConfig)
    ensures
        r.message@ == spec_with_automdrs_config(open_tag@),
{
    let opts = parse_tag_options(open_tag, "with-automdrs");
    let message: String = match opts.get("message") {
        Some(v) => v.clone(),
        None => String::new(),
    };
    WithAutomdrsConfig { message }
}

/// What the built-in handler generates for one block: badge lines for
/// `badges`, the contributors fragment for `contributors`, the fixed
/// footer for `with-automdrs`, the install snippet for `cargo-install`,
/// and nothing for any other name.
pub open spec fn spec_default_generate(
    name: Seq<char>,
    line: Seq<char>,
    m: ParsedManifest,
) -> Seq<Seq<char>> {
    if name == "badges"@ {
        spec_generate(spec_badges_config(line), m)
    } else if name == "contributors"@ {
        seq![
            contributors_text(
                spec_contributors_config(line).0,
                spec_contributors_config(line).1,
                m.username@,
                m.repository_name@,
            ),
        ]
    } else if name == "with-automdrs"@ {
        seq![with_automdrs_text()]
    } else if name == "cargo-install"@ {
        seq![cargo_install_text(m.name@)]
    } else {
        Seq::empty()
    }
}

/// The built-in block handler. A block name it does not know yields an
/// empty replacement: unknown blocks are cleared, not failed.
#[derive(Debug, Default)]
pub struct DefaultHandler;

impl BlockHandler for DefaultHandler {
    /// Generate the built-in replacement lines for one block; never
    /// fails.
    fn generate(&self, block_name: &str, open_tag_line: &str, context: &UpdateContext) -> (r:
        Result<Vec<String>, Error>)
        ensures
            r matches Ok(v) && v.deep_view() == spec_default_generate(
                block_name@,
                open_tag_line@,
                context.config,
            ),
    {
        if str_eq(block_name, "badges") {
            let config = parse_badges_config(open_tag_line);
            Ok(crate::generators::badges::generate(&config, &context.config))
        } else if str_eq(block_name, "contributors") {
            let config = parse_contributors_config(open_tag_line);
            Ok(crate::generators::contributors::generate(&config, &context.config))
        } else if str_eq(block_name, "with-automdrs") {
            let config = parse_with_automdrs_config(open_tag_line);
            Ok(crate::generators::with_automdrs::generate(&config))
        } else if str_eq(block_name, "cargo-install") {
            Ok(crate::generators::cargo_install::generate(&context.config))
        } else {
            let r: Vec<String> = Vec::new();
            proof {
                assert(r.deep_view() =~= Seq::<Seq<char>>::empty());
            }
            Ok(r)
        }
    }
}

} // verus!
