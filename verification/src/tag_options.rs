//! Option parsing for the free text inside one opening marker line.
//!
//! The text after the block name and before the closing sentinel is a run
//! of whitespace-separated items: `key=value` pairs, where the value may be
//! wrapped in matching single or double quotes (stripped, with no escape
//! processing), and bare flags, recorded as `key -> "true"`. Keys are
//! unique; on a duplicate the last occurrence wins. When the name token in
//! the line is not the expected block name, the mapping is empty: a
//! mismatched parse yields no options rather than partial ones.

use vstd::prelude::*;
use vstd::string::StrSliceExecFns;
use vstd::string::StringExecFns;

use crate::scan::has_open_shape;
use crate::scan::lemma_open_shape_len;
use crate::scan::marker_inner;
use crate::text::index_of_char;
use crate::text::is_ws;
use crate::text::is_ws_char;
use crate::text::lemma_index_of_char;
use crate::text::lemma_tokens_skip_ws;
use crate::text::lemma_tokens_take_token;
use crate::text::str_ends_with;
use crate::text::str_eq;
use crate::text::str_starts_with;
use crate::text::tokens;
use crate::text::trim;
use crate::text::trim_str;

verus! {

broadcast use vstd::string::group_string_axioms;

/// A value with its surrounding matching quotes removed, if it has them.
pub open spec fn unquote(v: Seq<char>) -> Seq<char> {
    if v.len() >= 2 && v[0] == '"' && v.last() == '"' {
        v.subrange(1, v.len() - 1)
    } else if v.len() >= 2 && v[0] == '\'' && v.last() == '\'' {
        v.subrange(1, v.len() - 1)
    } else {
        v
    }
}

/// The key of one option item: the part before the first `=`, or the whole
/// item for a bare flag.
pub open spec fn opt_key(tok: Seq<char>) -> Seq<char> {
    let e = index_of_char(tok, '=');
    if e == tok.len() {
        tok
    } else {
        tok.subrange(0, e)
    }
}

/// The value of one option item: the unquoted part after the first `=`, or
/// `"true"` for a bare flag.
pub open spec fn opt_val(tok: Seq<char>) -> Seq<char> {
    let e = index_of_char(tok, '=');
    if e == tok.len() {
        "true"@
    } else {
        unquote(tok.subrange(e + 1, tok.len() as int))
    }
}

/// The mapping built from option items in order; a later item with the
/// same key overrides an earlier one.
pub open spec fn opts_map(toks: Seq<Seq<char>>) -> Map<Seq<char>, Seq<char>>
    decreases toks.len(),
{
    if toks.len() == 0 {
        Map::empty()
    } else {
        opts_map(toks.drop_last()).insert(opt_key(toks.last()), opt_val(toks.last()))
    }
}

/// The option mapping of one opening marker line, for the expected block
/// name: empty unless the line has the marker shape and its name token is
/// exactly `name`.
pub open spec fn tag_options_map(line: Seq<char>, name: Seq<char>) -> Map<Seq<char>, Seq<char>> {
    let t = trim(line);
    if !has_open_shape(t) {
        Map::empty()
    } else {
        let toks = tokens(marker_inner(t));
        if toks.len() == 0 || toks[0] != name {
            Map::empty()
        } else {
            opts_map(toks.drop_first())
        }
    }
}

/// The options of one marker line: insertion-ordered keys with unique,
/// last-wins values, looked up by key.
#[derive(Debug)]
pub struct TagOptions {
    entries: Vec<(String, String)>,
}

impl View for TagOptions {
    type V = Map<Seq<char>, Seq<char>>;

    closed spec fn view(&self) -> Map<Seq<char>, Seq<char>> {
        opts_map_of_entries(self.entries.deep_view())
    }
}

/// The mapping held by a list of key–value entries, later entries winning.
pub open spec fn opts_map_of_entries(es: Seq<(Seq<char>, Seq<char>)>) -> Map<Seq<char>, Seq<char>>
    decreases es.len(),
{
    if es.len() == 0 {
        Map::empty()
    } else {
        opts_map_of_entries(es.drop_last()).insert(es.last().0, es.last().1)
    }
}

impl TagOptions {
    /// An empty mapping.
    pub fn new() -> (r: TagOptions)
        ensures
            r@ == Map::<Seq<char>, Seq<char>>::empty(),
    {
        let r = TagOptions { entries: Vec::new() };
        proof {
            assert(r.entries.deep_view() =~= Seq::<(Seq<char>, Seq<char>)>::empty());
        }
        r
    }

    /// Record `key -> value`, overriding any earlier value for `key`.
    pub fn insert(&mut self, key: String, value: String)
        ensures
            final (self)@ == old(self)@.insert(key@, value@),
    {
        let ghost prev = self.entries.deep_view();
        self.entries.push((key, value));
        proof {
            assert(self.entries.deep_view() =~= prev.push((key@, value@)));
            assert(self.entries.deep_view().drop_last() =~= prev);
        }
    }

    /// Look up the value recorded for `key`.
    pub fn get(&self, key: &str) -> (r: Option<&String>)
        ensures
            match r {
                Some(v) => self@.contains_key(key@) && v@ == self@[key@],
                None => !self@.contains_key(key@),
            },
    {
        let ghost es = self.entries.deep_view();
        let mut j: usize = self.entries.len();
        proof {
            assert(es.take(es.len() as int) =~= es);
        }
        while j > 0
            invariant
                es == self.entries.deep_view(),
                0 <= j <= self.entries@.len(),
                self.entries@.len() == es.len(),
                self@.contains_key(key@) == opts_map_of_entries(es.take(j as int)).contains_key(
                    key@,
                ),
                self@.contains_key(key@) ==> self@[key@] == opts_map_of_entries(
                    es.take(j as int),
                )[key@],
            decreases j,
        {
            j = j - 1;
            proof {
                assert(es.take(j as int + 1).drop_last() =~= es.take(j as int));
                assert(es.take(j as int + 1).last() == es[j as int]);
            }
            let pair: &(String, String) = &self.entries[j];
            if str_eq(pair.0.as_str(), key) {
                proof {
                    assert(es[j as int].0 == key@);
                    assert(opts_map_of_entries(es.take(j as int + 1))[key@] == es[j as int].1);
                }
                return Some(&self.entries[j].1);
            }
            proof {
                assert(es[j as int].0 != key@);
            }
        }
        proof {
            assert(es.take(0) =~= Seq::<(Seq<char>, Seq<char>)>::empty());
        }
        None
    }

    /// Whether no option was recorded.
    pub fn is_empty(&self) -> (r: bool)
        ensures
            r == (self@ == Map::<Seq<char>, Seq<char>>::empty()),
    {
        let ghost es = self.entries.deep_view();
        if self.entries.len() == 0 {
            proof {
                assert(es =~= Seq::<(Seq<char>, Seq<char>)>::empty());
            }
            true
        } else {
            proof {
                assert(self@.contains_key(es.last().0));
                assert(!Map::<Seq<char>, Seq<char>>::empty().contains_key(es.last().0));
            }
            false
        }
    }
}

/// Parse the options of one opening marker line, given the expected block
/// name.
pub fn parse_tag_options(open_tag_line: &str, block_name: &str) -> (r: TagOptions)
    ensures
        r@ == tag_options_map(open_tag_line@, block_name@),
{
    let mut out = TagOptions::new();
    let t = trim_str(open_tag_line);
    if !str_starts_with(t, "<!-- automdrs:") || !str_ends_with(t, "-->") {
        return out;
    }
    proof {
        lemma_open_shape_len(t@);
    }
    let tn = t.unicode_len();
    let inner = t.substring_char(14, tn - 3);
    proof {
        assert(inner@ =~= marker_inner(trim(open_tag_line@)));
    }
    let n = inner.unicode_len();
    let ghost toks = tokens(inner@);
    proof {
        assert(inner@.skip(0) =~= inner@);
    }

    // The name token.
    let mut p: usize = 0;
    while p < n && is_ws_char(inner.get_char(p))
        invariant
            n == inner@.len(),
            0 <= p <= n,
            forall|i: int| 0 <= i < p ==> is_ws(#[trigger] inner@[i]),
        decreases n - p,
    {
        p = p + 1;
    }
    proof {
        lemma_tokens_skip_ws(inner@, 0, p as int);
    }
    if p == n {
        proof {
            assert(inner@.skip(n as int).len() == 0);
            assert(toks.len() == 0);
        }
        return out;
    }
    let mut q: usize = p;
    while q < n && !is_ws_char(inner.get_char(q))
        invariant
            n == inner@.len(),
            p <= q <= n,
            forall|i: int| p <= i < q ==> !is_ws(#[trigger] inner@[i]),
        decreases n - q,
    {
        q = q + 1;
    }
    proof {
        lemma_tokens_take_token(inner@, p as int, q as int);
    }
    let name_tok = inner.substring_char(p, q);
    if !str_eq(name_tok, block_name) {
        proof {
            assert(toks[0] != block_name@);
        }
        return out;
    }
    proof {
        assert(toks[0] == block_name@);
        assert(toks.drop_first() =~= tokens(inner@.skip(q as int)));
    }
    let ghost rest_toks = toks.drop_first();

    // The option items after the name.
    let mut pos: usize = q;
    let ghost mut c: int = 0;
    proof {
        assert(rest_toks.take(0) =~= Seq::<Seq<char>>::empty());
    }
    while pos < n
        invariant
            n == inner@.len(),
            0 <= pos <= n,
            0 <= c <= rest_toks.len(),
            out@ == opts_map(rest_toks.take(c)),
            rest_toks =~= rest_toks.take(c) + tokens(inner@.skip(pos as int)),
        decreases n - pos,
    {
        let mut a: usize = pos;
        while a < n && is_ws_char(inner.get_char(a))
            invariant
                n == inner@.len(),
                pos <= a <= n,
                forall|i: int| pos <= i < a ==> is_ws(#[trigger] inner@[i]),
            decreases n - a,
        {
            a = a + 1;
        }
        proof {
            lemma_tokens_skip_ws(inner@, pos as int, a as int);
        }
        if a == n {
            pos = a;
            continue ;
        }
        let mut b: usize = a;
        while b < n && !is_ws_char(inner.get_char(b))
            invariant
                n == inner@.len(),
                a <= b <= n,
                forall|i: int| a <= i < b ==> !is_ws(#[trigger] inner@[i]),
            decreases n - b,
        {
            b = b + 1;
        }
        proof {
            lemma_tokens_take_token(inner@, a as int, b as int);
        }
        let tok = inner.substring_char(a, b);
        let ghost tokv = inner@.subrange(a as int, b as int);
        proof {
            assert(tokens(inner@.skip(pos as int)) =~= seq![tokv] + tokens(
                inner@.skip(b as int),
            ));
            assert(rest_toks =~= rest_toks.take(c) + (seq![tokv] + tokens(
                inner@.skip(b as int),
            )));
            assert(rest_toks.take(c).len() == c);
            assert(rest_toks.len() >= c + 1);
            assert(rest_toks[c] == tokv);
            assert(rest_toks.take(c).push(tokv) =~= rest_toks.take(c + 1));
            assert(rest_toks.take(c + 1).drop_last() =~= rest_toks.take(c));
            assert(rest_toks =~= rest_toks.take(c + 1) + tokens(inner@.skip(b as int)));
        }

        // Split the item at its first `=`, if any.
        let m = tok.unicode_len();
        let mut e: usize = 0;
        while e < m && tok.get_char(e) != '='
            invariant
                m == tok@.len(),
                0 <= e <= m,
                forall|i: int| 0 <= i < e ==> tok@[i] != '=',
            decreases m - e,
        {
            e = e + 1;
        }
        proof {
            lemma_index_of_char(tok@, '=');
            assert(index_of_char(tok@, '=') == e);
        }
        if e == m {
            out.insert(tok.to_owned(), String::from_str("true"));
            proof {
                assert(opt_key(tokv) == tokv);
                assert(opt_val(tokv) == "true"@);
            }
        } else {
            let key = tok.substring_char(0, e);
            let raw = tok.substring_char(e + 1, m);
            proof {
                assert(key@ =~= opt_key(tokv));
                assert(raw@ =~= tokv.subrange(e + 1, tokv.len() as int));
            }
            let rn = raw.unicode_len();
            let value = if rn >= 2 && raw.get_char(0) == '"' && raw.get_char(rn - 1) == '"' {
                raw.substring_char(1, rn - 1)
            } else if rn >= 2 && raw.get_char(0) == '\'' && raw.get_char(rn - 1) == '\'' {
                raw.substring_char(1, rn - 1)
            } else {
                raw
            };
            proof {
                assert(value@ =~= unquote(raw@));
                assert(value@ == opt_val(tokv));
            }
            out.insert(key.to_owned(), value.to_owned());
        }
        proof {
            c = c + 1;
            assert(out@ == opts_map(rest_toks.take(c)));
        }
        pos = b;
    }
    proof {
        assert(tokens(inner@.skip(pos as int)).len() == 0);
        assert(rest_toks.take(c) =~= rest_toks);
        assert(out@ == tag_options_map(open_tag_line@, block_name@));
    }
    out
}

/// The lowercase form of an ASCII letter; any other character is kept.
pub open spec fn lower_char(c: char) -> char {
    if 'A' <= c && c <= 'Z' {
        ((c as u8) + 32) as char
    } else {
        c
    }
}

/// `s` with ASCII letters lowered.
pub open spec fn lower(s: Seq<char>) -> Seq<char> {
    s.map_values(|c: char| lower_char(c))
}

/// The values that mean "on", compared without ASCII case.
pub open spec fn truthy(v: Seq<char>) -> bool {
    lower(v) == "true"@ || lower(v) == "yes"@ || lower(v) == "1"@
}

/// The values that mean "off", compared without ASCII case.
pub open spec fn falsy(v: Seq<char>) -> bool {
    lower(v) == "false"@ || lower(v) == "no"@ || lower(v) == "0"@
}

/// The two-tier alias lookup: the first alias with a recognized value
/// decides; an alias that is absent, or whose value is recognized neither
/// way, is skipped, and with no alias left the answer is `false`.
pub open spec fn coerce_bool(m: Map<Seq<char>, Seq<char>>, keys: Seq<Seq<char>>) -> bool
    decreases keys.len(),
{
    if keys.len() == 0 {
        false
    } else if m.contains_key(keys[0]) && truthy(m[keys[0]]) {
        true
    } else if m.contains_key(keys[0]) && falsy(m[keys[0]]) {
        false
    } else {
        coerce_bool(m, keys.drop_first())
    }
}

/// Lower one character at runtime.
fn lower_char_exec(c: char) -> (d: char)
    ensures
        d == lower_char(c),
{
    if c >= 'A' && c <= 'Z' {
        ((c as u8) + 32) as char
    } else {
        c
    }
}

/// Whether `v`, with ASCII letters lowered, reads exactly `w`.
fn eq_lower(v: &str, w: &str) -> (r: bool)
    ensures
        r == (lower(v@) == w@),
{
    let vn = v.unicode_len();
    let wn = w.unicode_len();
    if vn != wn {
        return false;
    }
    let mut i: usize = 0;
    while i < vn
        invariant
            vn == v@.len(),
            vn == w@.len(),
            0 <= i <= vn,
            forall|j: int| 0 <= j < i ==> lower(v@)[j] == w@[j],
        decreases vn - i,
    {
        if lower_char_exec(v.get_char(i)) != w.get_char(i) {
            proof {
                assert(lower(v@)[i as int] != w@[i as int]);
            }
            return false;
        }
        i = i + 1;
    }
    proof {
        assert(lower(v@) =~= w@);
    }
    true
}

/// Read an option as a boolean through a priority-ordered list of key
/// aliases: the first alias whose value is recognized decides; an
/// unrecognized value does not stop the search; the default is `false`.
pub fn option_bool(options: &TagOptions, keys: &[&str]) -> (r: bool)
    ensures
        r == coerce_bool(options@, keys.deep_view()),
{
    let ghost keysv = keys.deep_view();
    let mut i: usize = 0;
    proof {
        assert(keysv.skip(0) =~= keysv);
    }
    while i < keys.len()
        invariant
            keysv == keys.deep_view(),
            0 <= i <= keys@.len(),
            keys@.len() == keysv.len(),
            coerce_bool(options@, keysv) == coerce_bool(options@, keysv.skip(i as int)),
        decreases keys@.len() - i,
    {
        proof {
            assert(keysv.skip(i as int)[0] == keysv[i as int]);
            assert(keysv.skip(i as int).drop_first() =~= keysv.skip(i as int + 1));
        }
        let key = keys[i];
        proof {
            assert(key@ == keysv[i as int]);
        }
        match options.get(key) {
            Some(v) => {
                if eq_lower(v.as_str(), "true") || eq_lower(v.as_str(), "yes") || eq_lower(
                    v.as_str(),
                    "1",
                ) {
                    return true;
                }
                if eq_lower(v.as_str(), "false") || eq_lower(v.as_str(), "no") || eq_lower(
                    v.as_str(),
                    "0",
                ) {
                    return false;
                }
            },
            None => {
            },
        }
        i = i + 1;
    }
    proof {
        assert(keysv.skip(keysv.len() as int).len() == 0);
    }
    false
}

} // verus!
