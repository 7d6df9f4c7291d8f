//! Badge block generator: one markdown image line per enabled badge.

use vstd::prelude::*;

use crate::badges::generate_commit_activity_badge;
use crate::badges::generate_crate_docs_badge;
use crate::badges::generate_crate_downloads_badge;
use crate::badges::generate_crate_version_badge;
use crate::badges::generate_repo_stars_badge;
use crate::badges::commit_activity_badge;
use crate::badges::crate_docs_badge;
use crate::badges::crate_downloads_badge;
use crate::badges::crate_version_badge;
use crate::badges::repo_stars_badge;
use crate::manifest::ParsedManifest;

verus! {

/// Which badges a badge block shows.
#[derive(Debug, Default, Clone, Copy, PartialEq, Eq, Structural)]
pub struct BadgesConfig {
    pub version: bool,
    pub downloads: bool,
    pub docs: bool,
    pub commit_activity: bool,
    pub repo_stars: bool,
}

/// The badge lines for the given switches, in their fixed order: version,
/// downloads, docs, commit activity, repository stars.
pub open spec fn badge_lines(
    version: bool,
    downloads: bool,
    docs: bool,
    commit_activity: bool,
    repo_stars: bool,
    name: Seq<char>,
    username: Seq<char>,
    repository_name: Seq<char>,
) -> Seq<Seq<char>> {
    (if version {
        seq![crate_version_badge(name)]
    } else {
        Seq::empty()
    }) + (if downloads {
        seq![crate_downloads_badge(name)]
    } else {
        Seq::empty()
    }) + (if docs {
        seq![crate_docs_badge(name)]
    } else {
        Seq::empty()
    }) + (if commit_activity {
        seq![commit_activity_badge(username, repository_name)]
    } else {
        Seq::empty()
    }) + (if repo_stars {
        seq![repo_stars_badge(username, repository_name)]
    } else {
        Seq::empty()
    })
}

/// The badge lines of a badge block, from its configuration and the
/// project metadata.
pub open spec fn spec_generate(config: BadgesConfig, manifest: ParsedManifest) -> Seq<Seq<char>> {
    badge_lines(
        config.version,
        config.downloads,
        config.docs,
        config.commit_activity,
        config.repo_stars,
        manifest.name@,
        manifest.username@,
        manifest.repository_name@,
    )
}

/// Generate the badge lines for one badge block, in their fixed order.
pub fn generate(config: &BadgesConfig, manifest: &ParsedManifest) -> (r: Vec<String>)
    ensures
        r.deep_view() == spec_generate(*config, *manifest),
{
    let mut lines: Vec<String> = Vec::new();
    let ghost s1: Seq<Seq<char>> = if config.version {
        seq![crate_version_badge(manifest.name@)]
    } else {
        Seq::empty()
    };
    let ghost s2: Seq<Seq<char>> = if config.downloads {
        seq![crate_downloads_badge(manifest.name@)]
    } else {
        Seq::empty()
    };
    let ghost s3: Seq<Seq<char>> = if config.docs {
        seq![crate_docs_badge(manifest.name@)]
    } else {
        Seq::empty()
    };
    let ghost s4: Seq<Seq<char>> = if config.commit_activity {
        seq![commit_activity_badge(manifest.username@, manifest.repository_name@)]
    } else {
        Seq::empty()
    };
    let ghost s5: Seq<Seq<char>> = if config.repo_stars {
        seq![repo_stars_badge(manifest.username@, manifest.repository_name@)]
    } else {
        Seq::empty()
    };
    if config.version {
        lines.push(generate_crate_version_badge(manifest.name.as_str()));
    }
    proof {
        assert(lines.deep_view() =~= s1);
    }
    if config.downloads {
        lines.push(generate_crate_downloads_badge(manifest.name.as_str()));
    }
    proof {
        assert(lines.deep_view() =~= s1 + s2);
    }
    if config.docs {
        lines.push(generate_crate_docs_badge(manifest.name.as_str()));
    }
    proof {
        assert(lines.deep_view() =~= s1 + s2 + s3);
    }
    if config.commit_activity {
        lines.push(
            generate_commit_activity_badge(
                manifest.username.as_str(),
                manifest.repository_name.as_str(),
            ),
        );
    }
    proof {
        assert(lines.deep_view() =~= s1 + s2 + s3 + s4);
    }
    if config.repo_stars {
        lines.push(
            generate_repo_stars_badge(
                manifest.username.as_str(),
                manifest.repository_name.as_str(),
            ),
        );
    }
    proof {
        assert(lines.deep_view() =~= s1 + s2 + s3 + s4 + s5);
    }
    lines
}

} // verus!
