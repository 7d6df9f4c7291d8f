//! Reading a repository URL as a hosting user name and repository name.
//!
//! The URL itself is parsed by the `url` crate; this module splits the
//! resulting path into its first two non-empty segments and strips a
//! trailing `.git` from the repository name.

use vstd::prelude::*;
use vstd::string::StrSliceExecFns;
use vstd::string::StringExecFns;

use crate::error::Error;
use crate::text::ends_with;
use crate::text::index_of_char;
use crate::text::lemma_index_of_char;
use crate::text::str_ends_with;

verus! {

broadcast use vstd::string::group_string_axioms;

/// The path of the URL that `s` parses to, or nothing when `s` is no
/// absolute URL. The parse depends on the input string alone.
pub uninterp spec fn url_path_of(s: Seq<char>) -> Option<Seq<char>>;

/// Relies on `url::Url::parse` and `url::Url::path`: parsing either yields
/// a URL or fails, deterministically in the input string alone, and the
/// path of the parsed URL is again a function of that string; the error
/// text is the parse error's own message.
#[verifier::external_body]
fn parse_url_path(s: &str) -> (r: Result<String, String>)
    ensures
        r is Ok <==> url_path_of(s@) is Some,
        r is Ok ==> r->Ok_0@ == url_path_of(s@)->Some_0,
{
    match url::Url::parse(s) {
        Ok(u) => Ok(u.path().to_string()),
        Err(e) => Err(e.to_string()),
    }
}

/// The non-empty `/`-separated segments of `p`, in order.
pub open spec fn split_slash_nonempty(p: Seq<char>) -> Seq<Seq<char>>
    decreases p.len(),
    via split_slash_nonempty_decreases
{
    if p.len() == 0 {
        Seq::empty()
    } else if p[0] == '/' {
        split_slash_nonempty(p.drop_first())
    } else {
        let k = index_of_char(p, '/');
        seq![p.subrange(0, k)] + split_slash_nonempty(p.skip(k))
    }
}

#[via_fn]
proof fn split_slash_nonempty_decreases(p: Seq<char>) {
    if p.len() > 0 && p[0] != '/' {
        lemma_index_of_char(p, '/');
    }
}

/// `p` without a trailing `.git`, if it carries one.
pub open spec fn strip_git_suffix(p: Seq<char>) -> Seq<char> {
    if ends_with(p, ".git"@) {
        p.take(p.len() - 4)
    } else {
        p
    }
}

/// The user and repository named by a URL path: its first two non-empty
/// segments, the second without a trailing `.git`; nothing when the path
/// has fewer than two.
pub open spec fn user_repo_of_path(p: Seq<char>) -> Option<(Seq<char>, Seq<char>)> {
    let parts = split_slash_nonempty(p);
    if parts.len() >= 2 {
        Some((parts[0], strip_git_suffix(parts[1])))
    } else {
        None
    }
}

/// Whether `s` parses as a URL whose path names a user and a repository:
/// exactly the condition under which [`parse_repository_url`] succeeds.
pub open spec fn names_user_repo(s: Seq<char>) -> bool {
    match url_path_of(s) {
        Some(p) => user_repo_of_path(p) is Some,
        None => false,
    }
}

/// Skipping separator characters does not change the segments.
proof fn lemma_split_skip_slash(s: Seq<char>, p: int, q: int)
    requires
        0 <= p <= q <= s.len(),
        forall|i: int| p <= i < q ==> #[trigger] s[i] == '/',
    ensures
        split_slash_nonempty(s.skip(p)) == split_slash_nonempty(s.skip(q)),
    decreases q - p,
{
    if p < q {
        assert(s.skip(p)[0] == s[p]);
        assert(s.skip(p).drop_first() =~= s.skip(p + 1));
        lemma_split_skip_slash(s, p + 1, q);
    }
}

/// Consuming one whole segment peels the first element off the list.
proof fn lemma_split_take_segment(s: Seq<char>, p: int, q: int)
    requires
        0 <= p < q <= s.len(),
        forall|i: int| p <= i < q ==> #[trigger] s[i] != '/',
        q < s.len() ==> s[q] == '/',
    ensures
        split_slash_nonempty(s.skip(p)) == seq![s.subrange(p, q)] + split_slash_nonempty(
            s.skip(q),
        ),
{
    let u = s.skip(p);
    assert(u[0] == s[p]);
    lemma_index_of_char(u, '/');
    assert(forall|i: int| 0 <= i < q - p ==> u[i] != '/');
    if q < s.len() {
        assert(u[q - p] == '/');
    }
    assert(index_of_char(u, '/') == q - p);
    assert(u.subrange(0, q - p) =~= s.subrange(p, q));
    assert(u.skip(q - p) =~= s.skip(q));
}

/// Split a URL path into its user and repository segments, when it has
/// two; the repository segment loses a trailing `.git`.
pub fn split_user_repo(path: &str) -> (r: Option<(String, String)>)
    ensures
        match r {
            Some(ur) => user_repo_of_path(path@) matches Some(sp) && ur.0@ == sp.0 && ur.1@
                == sp.1,
            None => user_repo_of_path(path@) is None,
        },
{
    let ghost parts = split_slash_nonempty(path@);
    let n = path.unicode_len();
    let mut segs: Vec<String> = Vec::new();
    let mut pos: usize = 0;
    proof {
        assert(path@.skip(0) =~= path@);
        assert(segs.deep_view() =~= Seq::<Seq<char>>::empty());
        assert(segs.deep_view() + split_slash_nonempty(path@.skip(0)) =~= parts);
    }
    while pos < n && segs.len() < 2
        invariant
            n == path@.len(),
            0 <= pos <= n,
            segs@.len() == segs.deep_view().len(),
            segs.deep_view().len() <= 2,
            parts =~= segs.deep_view() + split_slash_nonempty(path@.skip(pos as int)),
        decreases n - pos,
    {
        let mut a: usize = pos;
        while a < n && path.get_char(a) == '/'
            invariant
                n == path@.len(),
                pos <= a <= n,
                forall|i: int| pos <= i < a ==> #[trigger] path@[i] == '/',
            decreases n - a,
        {
            a = a + 1;
        }
        proof {
            lemma_split_skip_slash(path@, pos as int, a as int);
        }
        if a == n {
            pos = a;
            continue ;
        }
        let mut b: usize = a;
        while b < n && path.get_char(b) != '/'
            invariant
                n == path@.len(),
                a <= b <= n,
                forall|i: int| a <= i < b ==> #[trigger] path@[i] != '/',
            decreases n - b,
        {
            b = b + 1;
        }
        proof {
            lemma_split_take_segment(path@, a as int, b as int);
        }
        let ghost prev = segs.deep_view();
        segs.push(path.substring_char(a, b).to_owned());
        pos = b;
        proof {
            assert(segs.deep_view() =~= prev.push(path@.subrange(a as int, b as int)));
            assert(parts =~= segs.deep_view() + split_slash_nonempty(path@.skip(pos as int)));
        }
    }
    if segs.len() < 2 {
        proof {
            assert(pos == n);
            assert(split_slash_nonempty(path@.skip(n as int)).len() == 0);
            assert(parts =~= segs.deep_view());
        }
        return None;
    }
    proof {
        assert(parts.len() >= 2);
        assert(parts[0] == segs.deep_view()[0]);
        assert(parts[1] == segs.deep_view()[1]);
    }
    let user = segs[0].clone();
    let repo_raw: &String = &segs[1];
    let rn = repo_raw.as_str().unicode_len();
    if str_ends_with(repo_raw.as_str(), ".git") {
        proof {
            reveal_strlit(".git");
        }
        let repo = repo_raw.as_str().substring_char(0, rn - 4);
        proof {
            assert(repo@ =~= strip_git_suffix(parts[1]));
        }
        Some((user, repo.to_owned()))
    } else {
        Some((user, repo_raw.clone()))
    }
}

/// Read a repository URL as `(user name, repository name)`: the first two
/// non-empty path segments of the parsed URL, the second without a
/// trailing `.git`. Fails with [`Error::InvalidRepoUrl`] exactly when the
/// URL does not parse or its path has fewer than two such segments.
pub fn parse_repository_url(repository: &str) -> (r: Result<(String, String), Error>)
    ensures
        match r {
            Ok(ur) => url_path_of(repository@) matches Some(p) && user_repo_of_path(p)
                matches Some(sp) && ur.0@ == sp.0 && ur.1@ == sp.1,
            Err(e) => e is InvalidRepoUrl && !names_user_repo(repository@),
        },
{
    match parse_url_path(repository) {
        Ok(path) => {
            match split_user_repo(path.as_str()) {
                Some(ur) => Ok(ur),
                None => Err(
                    Error::InvalidRepoUrl(
                        String::from_str("expected user/repo, got: ").concat(repository),
                    ),
                ),
            }
        },
        Err(msg) => Err(Error::InvalidRepoUrl(msg)),
    }
}

} // verus!
