//! Reading project metadata out of manifest text.
//!
//! The library reads the common manifest shape directly: line-based
//! `[section]` headers, and inside `[package]` entries of the form
//! `key = "value"` or `key = 'value'`, with surrounding whitespace ignored
//! and anything after the closing quote (such as a trailing comment)
//! dropped. Lines of any other shape are inert. On a repeated key the last
//! entry wins. Richer manifest syntax (multi-line strings, escapes, arrays,
//! dotted keys) is out of this grammar; such lines are simply not read.

use vstd::prelude::*;
use vstd::string::StrSliceExecFns;
use vstd::string::StringExecFns;

use crate::error::Error;
use crate::github::names_user_repo;
use crate::github::parse_repository_url;
use crate::github::url_path_of;
use crate::github::user_repo_of_path;
use crate::lines::spec_lines;
use crate::lines::split_lines;
use crate::tag_options::opts_map_of_entries;
use crate::tag_options::TagOptions;
use crate::text::index_of_char;
use crate::text::lemma_index_of_char;
use crate::text::trim;
use crate::text::trim_str;

verus! {

broadcast use vstd::string::group_string_axioms;

/// Whether trimmed line `t` is a section header `[name]`.
pub open spec fn is_header_line(t: Seq<char>) -> bool {
    t.len() >= 2 && t[0] == '[' && t.last() == ']'
}

/// The section named by header line `t`, surrounding whitespace ignored.
pub open spec fn header_name(t: Seq<char>) -> Seq<char> {
    trim(t.subrange(1, t.len() - 1))
}

/// The quoted string value at the start of `vp`: the text between the
/// opening quote and the next matching quote. Nothing when `vp` does not
/// start with a quote or the quote never closes.
pub open spec fn string_value(vp: Seq<char>) -> Option<Seq<char>> {
    if vp.len() >= 1 && (vp[0] == '"' || vp[0] == '\'') {
        let k = index_of_char(vp.skip(1), vp[0]);
        if k == vp.len() - 1 {
            None
        } else {
            Some(vp.skip(1).take(k))
        }
    } else {
        None
    }
}

/// The key and string value of trimmed line `t`, when `t` reads
/// `key = "value"`: the key is the trimmed text before the first `=`, the
/// value the quoted string after it.
pub open spec fn entry_of(t: Seq<char>) -> Option<(Seq<char>, Seq<char>)> {
    let e = index_of_char(t, '=');
    if e == t.len() {
        None
    } else {
        let key = trim(t.subrange(0, e));
        let vp = trim(t.subrange(e + 1, t.len() as int));
        if key.len() == 0 {
            None
        } else {
            match string_value(vp) {
                Some(v) => Some((key, v)),
                None => None,
            }
        }
    }
}

/// The `[package]` entries of the document's lines, in order. `in_pkg`
/// says whether the walk currently stands inside the `[package]` section.
pub open spec fn package_entries(ls: Seq<Seq<char>>, in_pkg: bool) -> Seq<(Seq<char>, Seq<char>)>
    decreases ls.len(),
{
    if ls.len() == 0 {
        Seq::empty()
    } else {
        let t = trim(ls[0]);
        if is_header_line(t) {
            package_entries(ls.drop_first(), header_name(t) == "package"@)
        } else if in_pkg && entry_of(t) is Some {
            seq![entry_of(t)->Some_0] + package_entries(ls.drop_first(), true)
        } else {
            package_entries(ls.drop_first(), in_pkg)
        }
    }
}

/// The `[package]` table of a manifest document, later entries winning.
pub open spec fn package_table(content: Seq<char>) -> Map<Seq<char>, Seq<char>> {
    opts_map_of_entries(package_entries(spec_lines(content), false))
}

/// Read one trimmed line as a `key = "value"` entry, if it is one.
fn parse_entry(t: &str) -> (r: Option<(String, String)>)
    ensures
        match r {
            Some(kv) => entry_of(t@) matches Some(sv) && kv.0@ == sv.0 && kv.1@ == sv.1,
            None => entry_of(t@) is None,
        },
{
    let n = t.unicode_len();
    let mut e: usize = 0;
    while e < n && t.get_char(e) != '='
        invariant
            n == t@.len(),
            0 <= e <= n,
            forall|i: int| 0 <= i < e ==> t@[i] != '=',
        decreases n - e,
    {
        e = e + 1;
    }
    proof {
        lemma_index_of_char(t@, '=');
        assert(index_of_char(t@, '=') == e);
    }
    if e == n {
        return None;
    }
    let key = trim_str(t.substring_char(0, e));
    proof {
        assert(key@ == trim(t@.subrange(0, e as int)));
    }
    if key.unicode_len() == 0 {
        return None;
    }
    let vp = trim_str(t.substring_char(e + 1, n));
    proof {
        assert(vp@ == trim(t@.subrange(e as int + 1, t@.len() as int)));
    }
    let vpn = vp.unicode_len();
    if vpn == 0 {
        return None;
    }
    let q = vp.get_char(0);
    if q != '"' && q != '\'' {
        return None;
    }
    let mut j: usize = 1;
    while j < vpn && vp.get_char(j) != q
        invariant
            vpn == vp@.len(),
            1 <= j <= vpn,
            forall|i: int| 1 <= i < j ==> vp@[i] != q,
        decreases vpn - j,
    {
        j = j + 1;
    }
    proof {
        lemma_index_of_char(vp@.skip(1), q);
        assert(forall|i: int| 0 <= i < j - 1 ==> vp@.skip(1)[i] != q);
        if j < vpn {
            assert(vp@.skip(1)[j - 1] == q);
        }
        assert(index_of_char(vp@.skip(1), q) == j - 1);
    }
    if j == vpn {
        return None;
    }
    let value = vp.substring_char(1, j);
    proof {
        assert(value@ =~= vp@.skip(1).take(j - 1));
        assert(string_value(vp@) matches Some(v) && v == value@);
    }
    Some((key.to_owned(), value.to_owned()))
}

/// Collect the `[package]` table of a manifest document.
fn package_table_of(content: &str) -> (r: TagOptions)
    ensures
        r@ == package_table(content@),
{
    let ls = split_lines(content);
    let ghost lsv = spec_lines(content@);
    let ghost full = package_entries(lsv, false);
    let mut out = TagOptions::new();
    let mut in_pkg = false;
    let mut i: usize = 0;
    let ghost mut c: int = 0;
    proof {
        assert(lsv.skip(0) =~= lsv);
        assert(full.take(0) =~= Seq::<(Seq<char>, Seq<char>)>::empty());
    }
    while i < ls.len()
        invariant
            ls.deep_view() == lsv,
            0 <= i <= ls@.len(),
            ls@.len() == lsv.len(),
            0 <= c <= full.len(),
            out@ == opts_map_of_entries(full.take(c)),
            full =~= full.take(c) + package_entries(lsv.skip(i as int), in_pkg),
        decreases ls@.len() - i,
    {
        let line: &String = &ls[i];
        proof {
            assert(line@ == lsv[i as int]);
            assert(lsv.skip(i as int)[0] == lsv[i as int]);
            assert(lsv.skip(i as int).drop_first() =~= lsv.skip(i as int + 1));
        }
        let t = trim_str(line.as_str());
        let tn = t.unicode_len();
        if tn >= 2 && t.get_char(0) == '[' && t.get_char(tn - 1) == ']' {
            proof {
                assert(is_header_line(trim(lsv[i as int])));
            }
            let name = trim_str(t.substring_char(1, tn - 1));
            proof {
                assert(name@ == header_name(trim(lsv[i as int])));
            }
            in_pkg = crate::text::str_eq(name, "package");
        } else {
            proof {
                assert(!is_header_line(trim(lsv[i as int])));
            }
            if in_pkg {
                match parse_entry(t) {
                    Some(kv) => {
                        let ghost kvv = entry_of(trim(lsv[i as int]))->Some_0;
                        proof {
                            assert(package_entries(lsv.skip(i as int), true) =~= seq![kvv]
                                + package_entries(lsv.skip(i as int + 1), true));
                            assert(full =~= full.take(c) + (seq![kvv] + package_entries(
                                lsv.skip(i as int + 1),
                                true,
                            )));
                            assert(full.take(c).len() == c);
                            assert(full.len() >= c + 1);
                            assert(full[c] == kvv);
                            assert(full.take(c).push(kvv) =~= full.take(c + 1));
                            assert(full.take(c + 1).drop_last() =~= full.take(c));
                        }
                        let (k, v) = kv;
                        out.insert(k, v);
                        proof {
                            c = c + 1;
                        }
                    },
                    None => {
                    },
                }
            }
        }
        i = i + 1;
    }
    proof {
        assert(package_entries(lsv.skip(lsv.len() as int), in_pkg).len() == 0);
        assert(full.take(c) =~= full);
    }
    out
}

/// Package metadata read from a manifest: crate name, description, and the
/// repository's user and repository names.
#[derive(Debug, Clone)]
pub struct ParsedManifest {
    pub name: String,
    pub description: String,
    pub username: String,
    pub repository_name: String,
}

/// Project metadata read from a manifest: crate name, the repository URL,
/// and the hosting user and repository names it points at.
#[derive(Debug, Clone)]
pub struct ProjectConfig {
    pub crate_name: String,
    pub repository_url: String,
    pub github_user: String,
    pub github_repo: String,
}

/// Read a manifest's package name and repository URL. Fails with
/// [`Error::CargoParse`] exactly when the `[package]` table lacks `name`
/// or `repository`.
pub fn parse_cargo_toml_content(content: &str) -> (r: Result<(String, String), Error>)
    ensures
        match r {
            Ok(nr) => package_table(content@).contains_key("name"@) && package_table(
                content@,
            ).contains_key("repository"@) && nr.0@ == package_table(content@)["name"@]
                && nr.1@ == package_table(content@)["repository"@],
            Err(e) => e is CargoParse && !(package_table(content@).contains_key("name"@)
                && package_table(content@).contains_key("repository"@)),
        },
{
    let table = package_table_of(content);
    let name: String = match table.get("name") {
        Some(v) => v.clone(),
        None => {
            return Err(Error::CargoParse(String::from_str("missing package.name")));
        },
    };
    let repository: String = match table.get("repository") {
        Some(v) => v.clone(),
        None => {
            return Err(Error::CargoParse(String::from_str("missing package.repository")));
        },
    };
    Ok((name, repository))
}

/// Whether the `[package]` table holds everything [`parse_manifest_content`]
/// needs.
pub open spec fn manifest_fields_present(content: Seq<char>) -> bool {
    &&& package_table(content).contains_key("name"@)
    &&& package_table(content).contains_key("description"@)
    &&& package_table(content).contains_key("repository"@)
}

/// Read a manifest into a [`ParsedManifest`]: name and description from
/// the `[package]` table, user and repository names from its repository
/// URL. Fails with [`Error::CargoParse`] when `name`, `description` or
/// `repository` is missing, and with [`Error::InvalidRepoUrl`] when the
/// repository URL does not name a user and a repository.
pub fn parse_manifest_content(content: &str) -> (r: Result<ParsedManifest, Error>)
    ensures
        match r {
            Ok(m) => {
                &&& manifest_fields_present(content@)
                &&& m.name@ == package_table(content@)["name"@]
                &&& m.description@ == package_table(content@)["description"@]
                &&& url_path_of(package_table(content@)["repository"@]) matches Some(p)
                &&& user_repo_of_path(p) matches Some(sp) && m.username@ == sp.0
                    && m.repository_name@ == sp.1
            },
            Err(e) => {
                ||| (e is CargoParse && !manifest_fields_present(content@))
                ||| (e is InvalidRepoUrl && manifest_fields_present(content@)
                    && !names_user_repo(package_table(content@)["repository"@]))
            },
        },
{
    let table = package_table_of(content);
    let name: String = match table.get("name") {
        Some(v) => v.clone(),
        None => {
            return Err(Error::CargoParse(String::from_str("missing package.name")));
        },
    };
    let description: String = match table.get("description") {
        Some(v) => v.clone(),
        None => {
            return Err(Error::CargoParse(String::from_str("missing package.description")));
        },
    };
    let repository: String = match table.get("repository") {
        Some(v) => v.clone(),
        None => {
            return Err(Error::CargoParse(String::from_str("missing package.repository")));
        },
    };
    match parse_repository_url(repository.as_str()) {
        Ok(ur) => {
            let (username, repository_name) = ur;
            Ok(ParsedManifest { name, description, username, repository_name })
        },
        Err(e) => Err(e),
    }
}

/// Build a [`ProjectConfig`] from manifest text: crate name and repository
/// URL from the `[package]` table, user and repository names from that
/// URL. Fails with [`Error::CargoParse`] when `name` or `repository` is
/// missing, and with [`Error::InvalidRepoUrl`] when the URL does not name
/// a user and a repository.
pub fn project_config_from_cargo_content(content: &str) -> (r: Result<ProjectConfig, Error>)
    ensures
        match r {
            Ok(pc) => {
                &&& package_table(content@).contains_key("name"@)
                &&& package_table(content@).contains_key("repository"@)
                &&& pc.crate_name@ == package_table(content@)["name"@]
                &&& pc.repository_url@ == package_table(content@)["repository"@]
                &&& url_path_of(pc.repository_url@) matches Some(p)
                &&& user_repo_of_path(p) matches Some(sp) && pc.github_user@ == sp.0
                    && pc.github_repo@ == sp.1
            },
            Err(e) => {
                ||| (e is CargoParse && !(package_table(content@).contains_key("name"@)
                    && package_table(content@).contains_key("repository"@)))
                ||| (e is InvalidRepoUrl && package_table(content@).contains_key("name"@)
                    && package_table(content@).contains_key("repository"@)
                    && !names_user_repo(package_table(content@)["repository"@]))
            },
        },
{
    let nr = parse_cargo_toml_content(content);
    match nr {
        Ok(nr) => {
            let (crate_name, repository_url) = nr;
            match parse_repository_url(repository_url.as_str()) {
                Ok(ur) => {
                    let (github_user, github_repo) = ur;
                    Ok(ProjectConfig { crate_name, repository_url, github_user, github_repo })
                },
                Err(e) => Err(e),
            }
        },
        Err(e) => Err(e),
    }
}

} // verus!
