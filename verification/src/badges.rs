//! Badge lines, one function per badge, and a block handler for
//! `<!-- automdrs:badges ... -->`.

use vstd::prelude::*;
use vstd::string::StrSliceExecFns;
use vstd::string::StringExecFns;

use crate::error::Error;
use crate::generators::badges::badge_lines;
use crate::generators::badges::BadgesConfig;
use crate::handler::UpdateContext;
use crate::lines::fit_final_newline;
use crate::lines::has_final_newline;
use crate::lines::lemma_unlines_cons;
use crate::lines::spec_lines;
use crate::lines::split_lines;
use crate::lines::unlines;
use crate::manifest::ParsedManifest;
use crate::registry::NamedBlockHandler;
use crate::scan::is_close_line;
use crate::text::ends_with;
use crate::text::has_token;
use crate::text::starts_with;
use crate::text::str_ends_with;
use crate::text::str_eq;
use crate::text::str_starts_with;
use crate::text::tokens;
use crate::text::trim;
use crate::text::trim_str;

verus! {

broadcast use vstd::string::group_string_axioms;

/// The crates.io version badge line for a crate name.
pub open spec fn crate_version_badge(name: Seq<char>) -> Seq<char> {
    "![Crates.io Version](https://img.shields.io/crates/v/"@ + name + ")"@
}

/// The crates.io total downloads badge line for a crate name.
pub open spec fn crate_downloads_badge(name: Seq<char>) -> Seq<char> {
    "![Crates.io Total Downloads](https://img.shields.io/crates/d/"@ + name + ")"@
}

/// The docs.rs badge line for a crate name.
pub open spec fn crate_docs_badge(name: Seq<char>) -> Seq<char> {
    "![docs.rs](https://img.shields.io/docsrs/"@ + name + ")"@
}

/// The commit activity badge line for a repository.
pub open spec fn commit_activity_badge(username: Seq<char>, repository: Seq<char>) -> Seq<char> {
    "![GitHub commit activity](https://img.shields.io/github/commit-activity/m/"@ + username
        + "/"@ + repository + ")"@
}

/// The repository stars badge line for a repository.
pub open spec fn repo_stars_badge(username: Seq<char>, repository: Seq<char>) -> Seq<char> {
    "![GitHub Repo stars](https://img.shields.io/github/stars/"@ + username + "/"@ + repository
        + ")"@
}

/// Render the crates.io version badge line.
pub fn generate_crate_version_badge(name: &str) -> (r: String)
    ensures
        r@ == crate_version_badge(name@),
{
    String::from_str("![Crates.io Version](https://img.shields.io/crates/v/").concat(
        name,
    ).concat(")")
}

/// Render the crates.io total downloads badge line.
pub fn generate_crate_downloads_badge(name: &str) -> (r: String)
    ensures
        r@ == crate_downloads_badge(name@),
{
    String::from_str("![Crates.io Total Downloads](https://img.shields.io/crates/d/").concat(
        name,
    ).concat(")")
}

/// Render the docs.rs badge line.
pub fn generate_crate_docs_badge(name: &str) -> (r: String)
    ensures
        r@ == crate_docs_badge(name@),
{
    String::from_str("![docs.rs](https://img.shields.io/docsrs/").concat(name).concat(")")
}

/// Render the commit activity badge line.
pub fn generate_commit_activity_badge(username: &str, repository: &str) -> (r: String)
    ensures
        r@ == commit_activity_badge(username@, repository@),
{
    String::from_str("![GitHub commit activity](https://img.shields.io/github/commit-activity/m/")
        .concat(username).concat("/").concat(repository).concat(")")
}

/// Render the repository stars badge line.
pub fn generate_repo_stars_badge(username: &str, repository: &str) -> (r: String)
    ensures
        r@ == repo_stars_badge(username@, repository@),
{
    String::from_str("![GitHub Repo stars](https://img.shields.io/github/stars/").concat(
        username,
    ).concat("/").concat(repository).concat(")")
}

/// Which badges a badge block shows; built from the opening tag's bare
/// words.
#[derive(Debug, Default, Clone, Copy, PartialEq, Eq, Structural)]
pub struct Badges {
    pub version: bool,
    pub downloads: bool,
    pub docs: bool,
    pub commit_activity: bool,
    pub repo_stars: bool,
}

/// The words between `<!-- automdrs:badges` and `-->` of a trimmed badge
/// opening tag; empty when the line has no such shape.
pub open spec fn badges_open_tokens(open_tag: Seq<char>) -> Seq<Seq<char>> {
    let t = trim(open_tag);
    if starts_with(t, "<!-- automdrs:badges"@) && ends_with(t, "-->"@) && t.len()
        >= "<!-- automdrs:badges"@.len() + 3 {
        tokens(t.subrange("<!-- automdrs:badges"@.len() as int, t.len() - 3))
    } else {
        Seq::empty()
    }
}

/// The badge switches named by a badge opening tag.
pub open spec fn spec_parse_badges(open_tag: Seq<char>) -> Badges {
    let toks = badges_open_tokens(open_tag);
    Badges {
        version: toks.contains("version"@),
        downloads: toks.contains("downloads"@),
        docs: toks.contains("docs"@),
        commit_activity: toks.contains("commit_activity"@),
        repo_stars: toks.contains("repo_stars"@),
    }
}

/// Read the badge switches out of a badge opening tag line: each bare
/// word between the sentinels switches the badge of that name on.
fn parse_badges_from_open_tag(open_tag: &str) -> (r: Badges)
    ensures
        r == spec_parse_badges(open_tag@),
{
    proof {
        reveal_strlit("<!-- automdrs:badges");
    }
    let t = trim_str(open_tag);
    let tn = t.unicode_len();
    if !str_starts_with(t, "<!-- automdrs:badges") || !str_ends_with(t, "-->") || tn < 23 {
        return Badges {
            version: false,
            downloads: false,
            docs: false,
            commit_activity: false,
            repo_stars: false,
        };
    }
    let inner = t.substring_char(20, tn - 3);
    proof {
        assert(inner@ =~= trim(open_tag@).subrange(20, trim(open_tag@).len() - 3));
    }
    Badges {
        version: has_token(inner, "version"),
        downloads: has_token(inner, "downloads"),
        docs: has_token(inner, "docs"),
        commit_activity: has_token(inner, "commit_activity"),
        repo_stars: has_token(inner, "repo_stars"),
    }
}

/// Generate every enabled badge line, in the fixed badge order.
pub fn generate_all(config: &ParsedManifest, badges: &Badges) -> (r: Vec<String>)
    ensures
        r.deep_view() == badge_lines(
            badges.version,
            badges.downloads,
            badges.docs,
            badges.commit_activity,
            badges.repo_stars,
            config.name@,
            config.username@,
            config.repository_name@,
        ),
{
    let cfg = BadgesConfig {
        version: badges.version,
        downloads: badges.downloads,
        docs: badges.docs,
        commit_activity: badges.commit_activity,
        repo_stars: badges.repo_stars,
    };
    crate::generators::badges::generate(&cfg, config)
}

/// Whether `line` opens a badges block: trimmed, it starts with
/// `<!-- automdrs:badges` and ends with `-->`.
pub open spec fn is_badges_open_line(line: Seq<char>) -> bool {
    starts_with(trim(line), "<!-- automdrs:badges"@) && ends_with(trim(line), "-->"@)
}

/// The badges-only rendering of the document's lines: after every badges
/// opening line the badge lines are spliced and the old body dropped up
/// to the closing marker; every other line is kept. A badges opening
/// line is recognized even inside a block and re-opens it.
pub open spec fn insert_lines(
    ls: Seq<Seq<char>>,
    badge_text: Seq<Seq<char>>,
    inside: bool,
) -> Seq<char>
    decreases ls.len(),
{
    if ls.len() == 0 {
        Seq::empty()
    } else if is_badges_open_line(ls[0]) {
        ls[0] + seq!['\n'] + unlines(badge_text) + insert_lines(ls.drop_first(), badge_text, true)
    } else if inside {
        if is_close_line(ls[0]) {
            ls[0] + seq!['\n'] + insert_lines(ls.drop_first(), badge_text, false)
        } else {
            insert_lines(ls.drop_first(), badge_text, true)
        }
    } else {
        ls[0] + seq!['\n'] + insert_lines(ls.drop_first(), badge_text, false)
    }
}

/// The badges-only rendering of a whole document, with the final line
/// terminator kept exactly when the input had one.
pub open spec fn spec_insert_badges(content: Seq<char>, badge_text: Seq<Seq<char>>) -> Seq<char> {
    fit_final_newline(
        insert_lines(spec_lines(content), badge_text, false),
        has_final_newline(content),
    )
}

/// Splice the given badge lines into every badges block of the document,
/// dropping each block's old body, in one pass.
pub fn insert_badges_into_readme(readme: &str, badge_lines: &[String]) -> (r: String)
    ensures
        r@ == spec_insert_badges(readme@, badge_lines.deep_view()),
{
    let ls = split_lines(readme);
    let ghost lsv = spec_lines(readme@);
    let ghost bv = badge_lines.deep_view();
    proof {
        reveal_strlit("\n");
        assert("\n"@ =~= seq!['\n']);
    }
    let mut out = String::new();
    let mut in_block = false;
    let mut i: usize = 0;
    proof {
        assert(lsv.skip(0) =~= lsv);
        assert(out@ + insert_lines(lsv, bv, false) =~= insert_lines(lsv, bv, false));
    }
    while i < ls.len()
        invariant
            ls.deep_view() == lsv,
            bv == badge_lines.deep_view(),
            0 <= i <= ls@.len(),
            ls@.len() == lsv.len(),
            insert_lines(lsv, bv, false) =~= out@ + insert_lines(
                lsv.skip(i as int),
                bv,
                in_block,
            ),
        decreases ls@.len() - i,
    {
        let line: &String = &ls[i];
        proof {
            assert(line@ == lsv[i as int]);
            assert(lsv.skip(i as int)[0] == lsv[i as int]);
            assert(lsv.skip(i as int).drop_first() =~= lsv.skip(i as int + 1));
            reveal_strlit("\n");
            assert("\n"@ =~= seq!['\n']);
        }
        let t = trim_str(line.as_str());
        if str_starts_with(t, "<!-- automdrs:badges") && str_ends_with(t, "-->") {
            out.append(line.as_str());
            out.append("\n");
            let ghost base = out@;
            let mut j: usize = 0;
            proof {
                assert(bv.skip(0) =~= bv);
            }
            while j < badge_lines.len()
                invariant
                    bv == badge_lines.deep_view(),
                    0 <= j <= badge_lines@.len(),
                    badge_lines@.len() == bv.len(),
                    out@ + unlines(bv.skip(j as int)) =~= base + unlines(bv),
                decreases badge_lines@.len() - j,
            {
                proof {
                    reveal_strlit("\n");
                    assert("\n"@ =~= seq!['\n']);
                    assert(bv.skip(j as int) =~= seq![bv[j as int]] + bv.skip(j as int + 1));
                    lemma_unlines_cons(bv[j as int], bv.skip(j as int + 1));
                }
                let gline: &String = vstd::slice::slice_index_get(badge_lines, j);
                proof {
                    assert(gline@ == bv[j as int]);
                }
                out.append(gline.as_str());
                out.append("\n");
                j = j + 1;
            }
            proof {
                assert(bv.skip(bv.len() as int) =~= Seq::<Seq<char>>::empty());
                assert(out@ =~= base + unlines(bv));
            }
            in_block = true;
        } else if in_block {
            if str_eq(t, "<!-- /automdrs -->") {
                in_block = false;
                out.append(line.as_str());
                out.append("\n");
            }
        } else {
            out.append(line.as_str());
            out.append("\n");
        }
        i = i + 1;
        proof {
            assert(insert_lines(lsv, bv, false) =~= out@ + insert_lines(
                lsv.skip(i as int),
                bv,
                in_block,
            ));
        }
    }
    proof {
        assert(lsv.skip(lsv.len() as int) =~= Seq::<Seq<char>>::empty());
        assert(out@ =~= insert_lines(lsv, bv, false));
    }
    let cn = readme.unicode_len();
    let had_newline = cn > 0 && readme.get_char(cn - 1) == '\n';
    if !had_newline {
        let on = out.as_str().unicode_len();
        if on > 0 && out.as_str().get_char(on - 1) == '\n' {
            let trimmed = out.as_str().substring_char(0, on - 1).to_owned();
            proof {
                assert(trimmed@ =~= out@.drop_last());
            }
            return trimmed;
        }
    }
    out
}

/// Block handler for `<!-- automdrs:badges ... -->`.
#[derive(Debug, Default)]
pub struct BadgesHandler;

impl NamedBlockHandler for BadgesHandler {
    open spec fn spec_name(&self) -> Seq<char> {
        "badges"@
    }

    fn name(&self) -> (r: &str) {
        "badges"
    }

    fn generate(&self, open_tag_line: &str, context: &UpdateContext) -> (r: Result<
        Vec<String>,
        Error,
    >)
        ensures
            r matches Ok(v) && v.deep_view() == badge_lines(
                spec_parse_badges(open_tag_line@).version,
                spec_parse_badges(open_tag_line@).downloads,
                spec_parse_badges(open_tag_line@).docs,
                spec_parse_badges(open_tag_line@).commit_activity,
                spec_parse_badges(open_tag_line@).repo_stars,
                context.config.name@,
                context.config.username@,
                context.config.repository_name@,
            ),
    {
        let opts = parse_badges_from_open_tag(open_tag_line);
        Ok(generate_all(&context.config, &opts))
    }
}

} // verus!
