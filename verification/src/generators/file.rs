//! File block generator: a file's content as block body, wrapped in a
//! markdown code fence whose language is inferred from the file name.
//!
//! Reading the file from disk is the caller's responsibility; this module
//! validates the source option and shapes the content.

use vstd::prelude::*;
use vstd::string::StrSliceExecFns;
use vstd::string::StringExecFns;

use crate::error::Error;
use crate::lines::spec_lines;
use crate::lines::split_lines;
use crate::text::last_index_of;
use crate::text::lemma_last_index_of;
use crate::text::str_eq;

verus! {

broadcast use vstd::string::group_string_axioms;

/// The extension of a path: the part of its final component after the
/// last dot, unless the component has no dot past its first character.
pub open spec fn extension_of(path: Seq<char>) -> Option<Seq<char>> {
    let name = path.skip(last_index_of(path, '/') + 1);
    let d = last_index_of(name, '.');
    if d <= 0 {
        None
    } else {
        Some(name.skip(d + 1))
    }
}

/// The code fence language for a path, by its extension; empty when the
/// extension names no known language.
pub open spec fn spec_infer_lang(path: Seq<char>) -> Seq<char> {
    match extension_of(path) {
        Some(e) => {
            if e == "rs"@ {
                "rust"@
            } else if e == "toml"@ {
                "toml"@
            } else if e == "md"@ {
                "markdown"@
            } else if e == "json"@ {
                "json"@
            } else if e == "yaml"@ || e == "yml"@ {
                "yaml"@
            } else if e == "sh"@ || e == "bash"@ {
                "bash"@
            } else if e == "py"@ {
                "python"@
            } else if e == "js"@ {
                "javascript"@
            } else if e == "ts"@ {
                "typescript"@
            } else {
                ""@
            }
        },
        None => ""@,
    }
}

/// Infer the code fence language from a file path's extension.
pub fn infer_lang(path: &str) -> (r: &'static str)
    ensures
        r@ == spec_infer_lang(path@),
{
    let n = path.unicode_len();
    let mut s: usize = n;
    while s > 0 && path.get_char(s - 1) != '/'
        invariant
            n == path@.len(),
            0 <= s <= n,
            forall|i: int| s <= i < n ==> path@[i] != '/',
        decreases s,
    {
        s = s - 1;
    }
    proof {
        lemma_last_index_of(path@, '/');
        assert(last_index_of(path@, '/') == s - 1);
    }
    let name = path.substring_char(s, n);
    proof {
        assert(name@ =~= path@.skip(last_index_of(path@, '/') + 1));
    }
    let m = name.unicode_len();
    let mut d: usize = m;
    while d > 0 && name.get_char(d - 1) != '.'
        invariant
            m == name@.len(),
            0 <= d <= m,
            forall|i: int| d <= i < m ==> name@[i] != '.',
        decreases d,
    {
        d = d - 1;
    }
    proof {
        lemma_last_index_of(name@, '.');
        assert(last_index_of(name@, '.') == d - 1);
    }
    if d <= 1 {
        return "";
    }
    let ext = name.substring_char(d, m);
    proof {
        assert(ext@ =~= name@.skip(last_index_of(name@, '.') + 1));
    }
    if str_eq(ext, "rs") {
        "rust"
    } else if str_eq(ext, "toml") {
        "toml"
    } else if str_eq(ext, "md") {
        "markdown"
    } else if str_eq(ext, "json") {
        "json"
    } else if str_eq(ext, "yaml") || str_eq(ext, "yml") {
        "yaml"
    } else if str_eq(ext, "sh") || str_eq(ext, "bash") {
        "bash"
    } else if str_eq(ext, "py") {
        "python"
    } else if str_eq(ext, "js") {
        "javascript"
    } else if str_eq(ext, "ts") {
        "typescript"
    } else {
        ""
    }
}

/// The block body for a file: its lines, wrapped in a code fence when the
/// path names a known language.
pub open spec fn spec_file_lines(src: Seq<char>, content: Seq<char>) -> Seq<Seq<char>> {
    let lang = spec_infer_lang(src);
    if lang.len() > 0 {
        seq!["```"@ + lang] + spec_lines(content) + seq!["```"@]
    } else {
        spec_lines(content)
    }
}

/// Shape a file's content into block body lines, given the `src` option
/// it was read from. Fails with [`Error::BlockHandler`] exactly when
/// `src` is empty.
pub fn generate(src: &str, content: &str) -> (r: Result<Vec<String>, Error>)
    ensures
        match r {
            Ok(v) => src@.len() > 0 && v.deep_view() == spec_file_lines(src@, content@),
            Err(e) => {
                &&& src@.len() == 0
                &&& e matches Error::BlockHandler(n, m) && n@ == "file"@ && m@
                    == "missing required option: src"@
            },
        },
{
    if src.unicode_len() == 0 {
        return Err(
            Error::BlockHandler(
                String::from_str("file"),
                String::from_str("missing required option: src"),
            ),
        );
    }
    let lang = infer_lang(src);
    let body = split_lines(content);
    let fenced = lang.unicode_len() > 0;
    let mut out: Vec<String> = Vec::new();
    if fenced {
        out.push(String::from_str("```").concat(lang));
    }
    let ghost fence_open: Seq<Seq<char>> = if fenced {
        seq!["```"@ + spec_infer_lang(src@)]
    } else {
        Seq::empty()
    };
    proof {
        assert(out.deep_view() =~= fence_open);
    }
    let mut i: usize = 0;
    while i < body.len()
        invariant
            body.deep_view() == spec_lines(content@),
            0 <= i <= body@.len(),
            body@.len() == spec_lines(content@).len(),
            out.deep_view() =~= fence_open + spec_lines(content@).take(i as int),
        decreases body@.len() - i,
    {
        let line: &String = &body[i];
        proof {
            assert(line@ == spec_lines(content@)[i as int]);
        }
        let ghost prev = out.deep_view();
        out.push(line.clone());
        i = i + 1;
        proof {
            assert(out.deep_view() =~= prev.push(spec_lines(content@)[i - 1]));
            assert(out.deep_view() =~= fence_open + spec_lines(content@).take(i as int));
        }
    }
    proof {
        assert(spec_lines(content@).take(spec_lines(content@).len() as int) =~= spec_lines(
            content@,
        ));
    }
    if fenced {
        let ghost prev = out.deep_view();
        out.push(String::from_str("```"));
        proof {
            assert(out.deep_view() =~= prev.push("```"@));
            assert(out.deep_view() =~= spec_file_lines(src@, content@));
        }
    } else {
        proof {
            assert(out.deep_view() =~= spec_file_lines(src@, content@));
        }
    }
    Ok(out)
}

} // verus!
