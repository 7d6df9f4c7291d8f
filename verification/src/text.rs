//! Character-level text primitives: whitespace, trimming, prefix and suffix
//! tests, and whitespace-delimited tokens.
//!
//! Everything is specified over `Seq<char>` views. The whitespace set is
//! the Unicode white-space set — the characters `char::is_whitespace`
//! reports — written out below; the marker grammar of this library trims
//! and tokenizes over that set.

use vstd::prelude::*;

verus! {

/// The whitespace characters recognized by this library's grammar: the
/// Unicode white-space set, written out.
pub open spec fn is_ws(c: char) -> bool {
    c == ' ' || c == '\t' || c == '\n' || c == '\r' || c == '\u{b}' || c == '\u{c}' || c
        == '\u{85}' || c == '\u{a0}' || c == '\u{1680}' || ('\u{2000}' <= c && c <= '\u{200a}')
        || c == '\u{2028}' || c == '\u{2029}' || c == '\u{202f}' || c == '\u{205f}' || c
        == '\u{3000}'
}

/// Runtime test for [`is_ws`].
pub fn is_ws_char(c: char) -> (b: bool)
    ensures
        b == is_ws(c),
{
    c == ' ' || c == '\t' || c == '\n' || c == '\r' || c == '\u{b}' || c == '\u{c}' || c
        == '\u{85}' || c == '\u{a0}' || c == '\u{1680}' || (c >= '\u{2000}' && c <= '\u{200a}')
        || c == '\u{2028}' || c == '\u{2029}' || c == '\u{202f}' || c == '\u{205f}' || c
        == '\u{3000}'
}

/// `s` with leading whitespace removed.
pub open spec fn trim_front(s: Seq<char>) -> Seq<char>
    decreases s.len(),
{
    if s.len() > 0 && is_ws(s[0]) {
        trim_front(s.drop_first())
    } else {
        s
    }
}

/// `s` with trailing whitespace removed.
pub open spec fn trim_back(s: Seq<char>) -> Seq<char>
    decreases s.len(),
{
    if s.len() > 0 && is_ws(s.last()) {
        trim_back(s.drop_last())
    } else {
        s
    }
}

/// `s` with surrounding whitespace removed.
pub open spec fn trim(s: Seq<char>) -> Seq<char> {
    trim_back(trim_front(s))
}

/// `trim_front` keeps exactly the part after the leading run of whitespace.
pub proof fn lemma_trim_front_subrange(s: Seq<char>, k: int)
    requires
        0 <= k <= s.len(),
        forall|i: int| 0 <= i < k ==> is_ws(#[trigger] s[i]),
        k < s.len() ==> !is_ws(s[k]),
    ensures
        trim_front(s) =~= s.subrange(k, s.len() as int),
    decreases k,
{
    if k == 0 {
    } else {
        lemma_trim_front_subrange(s.drop_first(), k - 1);
        assert(s.drop_first().subrange(k - 1, s.drop_first().len() as int) =~= s.subrange(
            k,
            s.len() as int,
        ));
    }
}

/// `trim_back` keeps exactly the part before the trailing run of whitespace.
pub proof fn lemma_trim_back_subrange(s: Seq<char>, k: int)
    requires
        0 <= k <= s.len(),
        forall|i: int| k <= i < s.len() ==> is_ws(#[trigger] s[i]),
        k > 0 ==> !is_ws(s[k - 1]),
    ensures
        trim_back(s) =~= s.subrange(0, k),
    decreases s.len() - k,
{
    if k == s.len() {
    } else {
        lemma_trim_back_subrange(s.drop_last(), k);
        assert(s.drop_last().subrange(0, k) =~= s.subrange(0, k));
    }
}

/// `p` is an initial segment of `s`.
pub open spec fn starts_with(s: Seq<char>, p: Seq<char>) -> bool {
    p.len() <= s.len() && s.subrange(0, p.len() as int) == p
}

/// `p` is a final segment of `s`.
pub open spec fn ends_with(s: Seq<char>, p: Seq<char>) -> bool {
    p.len() <= s.len() && s.subrange(s.len() - p.len(), s.len() as int) == p
}

/// Runtime equality of two string slices, by character.
pub fn str_eq(a: &str, b: &str) -> (r: bool)
    ensures
        r == (a@ == b@),
{
    let an = a.unicode_len();
    let bn = b.unicode_len();
    if an != bn {
        return false;
    }
    let mut i: usize = 0;
    while i < an
        invariant
            an == a@.len(),
            an == b@.len(),
            0 <= i <= an,
            forall|j: int| 0 <= j < i ==> a@[j] == b@[j],
        decreases an - i,
    {
        if a.get_char(i) != b.get_char(i) {
            return false;
        }
        i = i + 1;
    }
    proof {
        assert(a@ =~= b@);
    }
    true
}

/// Runtime test for [`starts_with`] on string slices.
pub fn str_starts_with(s: &str, p: &str) -> (r: bool)
    ensures
        r == starts_with(s@, p@),
{
    let sn = s.unicode_len();
    let pn = p.unicode_len();
    if pn > sn {
        return false;
    }
    let mut i: usize = 0;
    while i < pn
        invariant
            sn == s@.len(),
            pn == p@.len(),
            pn <= sn,
            0 <= i <= pn,
            forall|j: int| 0 <= j < i ==> s@[j] == p@[j],
        decreases pn - i,
    {
        if s.get_char(i) != p.get_char(i) {
            proof {
                assert(s@.subrange(0, p@.len() as int)[i as int] != p@[i as int]);
            }
            return false;
        }
        i = i + 1;
    }
    proof {
        assert(s@.subrange(0, p@.len() as int) =~= p@);
    }
    true
}

/// Runtime test for [`ends_with`] on string slices.
pub fn str_ends_with(s: &str, p: &str) -> (r: bool)
    ensures
        r == ends_with(s@, p@),
{
    let sn = s.unicode_len();
    let pn = p.unicode_len();
    if pn > sn {
        return false;
    }
    let off = sn - pn;
    let mut i: usize = 0;
    while i < pn
        invariant
            sn == s@.len(),
            pn == p@.len(),
            pn <= sn,
            off == sn - pn,
            0 <= i <= pn,
            forall|j: int| 0 <= j < i ==> s@[off + j] == p@[j],
        decreases pn - i,
    {
        if s.get_char(off + i) != p.get_char(i) {
            proof {
                assert(s@.subrange(s@.len() - p@.len(), s@.len() as int)[i as int] != p@[
                    i as int
                ]);
            }
            return false;
        }
        i = i + 1;
    }
    proof {
        assert(s@.subrange(s@.len() - p@.len(), s@.len() as int) =~= p@);
    }
    true
}

/// Trim surrounding whitespace from a string slice.
pub fn trim_str(s: &str) -> (r: &str)
    ensures
        r@ == trim(s@),
{
    let n = s.unicode_len();
    let mut lo: usize = 0;
    while lo < n && is_ws_char(s.get_char(lo))
        invariant
            n == s@.len(),
            0 <= lo <= n,
            forall|i: int| 0 <= i < lo ==> is_ws(#[trigger] s@[i]),
        decreases n - lo,
    {
        lo = lo + 1;
    }
    let mut hi: usize = n;
    while hi > lo && is_ws_char(s.get_char(hi - 1))
        invariant
            n == s@.len(),
            0 <= lo <= hi <= n,
            forall|i: int| 0 <= i < lo ==> is_ws(#[trigger] s@[i]),
            lo < n ==> !is_ws(s@[lo as int]),
            forall|i: int| hi <= i < n ==> is_ws(#[trigger] s@[i]),
        decreases hi,
    {
        hi = hi - 1;
    }
    proof {
        lemma_trim_front_subrange(s@, lo as int);
        let t = s@.subrange(lo as int, s@.len() as int);
        lemma_trim_back_subrange(t, hi - lo);
        assert(t.subrange(0, hi - lo) =~= s@.subrange(lo as int, hi as int));
    }
    s.substring_char(lo, hi)
}

/// The longest whitespace-free initial segment of `s`.
pub open spec fn take_non_ws(s: Seq<char>) -> Seq<char>
    decreases s.len(),
{
    if s.len() > 0 && !is_ws(s[0]) {
        seq![s[0]] + take_non_ws(s.drop_first())
    } else {
        Seq::empty()
    }
}

/// `take_non_ws` keeps exactly the characters before the first whitespace.
pub proof fn lemma_take_non_ws_subrange(s: Seq<char>, k: int)
    requires
        0 <= k <= s.len(),
        forall|i: int| 0 <= i < k ==> !is_ws(#[trigger] s[i]),
        k < s.len() ==> is_ws(s[k]),
    ensures
        take_non_ws(s) =~= s.subrange(0, k),
    decreases k,
{
    if k == 0 {
    } else {
        lemma_take_non_ws_subrange(s.drop_first(), k - 1);
        assert(take_non_ws(s) =~= seq![s[0]] + s.drop_first().subrange(0, k - 1));
        assert(seq![s[0]] + s.drop_first().subrange(0, k - 1) =~= s.subrange(0, k));
    }
}

/// The first whitespace-delimited token of `s`, if any.
pub open spec fn first_token(s: Seq<char>) -> Option<Seq<char>> {
    if trim_front(s).len() == 0 {
        None
    } else {
        Some(take_non_ws(trim_front(s)))
    }
}

/// A token never outgrows the text it was taken from.
pub proof fn lemma_take_non_ws_len(s: Seq<char>)
    ensures
        take_non_ws(s).len() <= s.len(),
    decreases s.len(),
{
    if s.len() > 0 && !is_ws(s[0]) {
        lemma_take_non_ws_len(s.drop_first());
    }
}

/// All whitespace-delimited tokens of `s`, in order. Tokens are never empty.
pub open spec fn tokens(s: Seq<char>) -> Seq<Seq<char>>
    decreases s.len(),
    via tokens_decreases
{
    if s.len() == 0 {
        Seq::empty()
    } else if is_ws(s[0]) {
        tokens(s.drop_first())
    } else {
        seq![take_non_ws(s)] + tokens(s.skip(take_non_ws(s).len() as int))
    }
}

#[via_fn]
proof fn tokens_decreases(s: Seq<char>) {
    if s.len() > 0 && !is_ws(s[0]) {
        lemma_take_non_ws_len(s);
    }
}

/// Whether `w` stands among the whitespace-delimited tokens of `s`.
pub fn has_token(s: &str, w: &str) -> (r: bool)
    ensures
        r == tokens(s@).contains(w@),
{
    let ghost toks = tokens(s@);
    let n = s.unicode_len();
    let mut pos: usize = 0;
    let ghost mut c: int = 0;
    proof {
        assert(s@.skip(0) =~= s@);
        assert(toks.take(0) =~= Seq::<Seq<char>>::empty());
    }
    while pos < n
        invariant
            n == s@.len(),
            toks == tokens(s@),
            0 <= pos <= n,
            0 <= c <= toks.len(),
            forall|i: int| 0 <= i < c ==> toks[i] != w@,
            toks =~= toks.take(c) + tokens(s@.skip(pos as int)),
        decreases n - pos,
    {
        let mut a: usize = pos;
        while a < n && is_ws_char(s.get_char(a))
            invariant
                n == s@.len(),
                pos <= a <= n,
                forall|i: int| pos <= i < a ==> is_ws(#[trigger] s@[i]),
            decreases n - a,
        {
            a = a + 1;
        }
        proof {
            lemma_tokens_skip_ws(s@, pos as int, a as int);
        }
        if a == n {
            pos = a;
            continue ;
        }
        let mut b: usize = a;
        while b < n && !is_ws_char(s.get_char(b))
            invariant
                n == s@.len(),
                a <= b <= n,
                forall|i: int| a <= i < b ==> !is_ws(#[trigger] s@[i]),
            decreases n - b,
        {
            b = b + 1;
        }
        proof {
            lemma_tokens_take_token(s@, a as int, b as int);
            assert(toks =~= toks.take(c) + (seq![s@.subrange(a as int, b as int)] + tokens(
                s@.skip(b as int),
            )));
            assert(toks.take(c).len() == c);
            assert(toks[c] == s@.subrange(a as int, b as int));
        }
        let tok = s.substring_char(a, b);
        if str_eq(tok, w) {
            proof {
                assert(toks.len() >= c + 1);
                assert(0 <= c < tokens(s@).len());
                assert(tokens(s@)[c] == w@);
                assert(tokens(s@).contains(w@));
            }
            return true;
        }
        proof {
            assert(toks.take(c).push(toks[c]) =~= toks.take(c + 1));
            c = c + 1;
        }
        pos = b;
    }
    proof {
        assert(tokens(s@.skip(pos as int)).len() == 0);
        assert(toks.take(c) =~= toks);
        assert(forall|i: int| 0 <= i < toks.len() ==> toks[i] != w@);
    }
    false
}

/// Skipping whitespace does not change the remaining tokens.
pub proof fn lemma_tokens_skip_ws(s: Seq<char>, p: int, q: int)
    requires
        0 <= p <= q <= s.len(),
        forall|i: int| p <= i < q ==> is_ws(#[trigger] s[i]),
    ensures
        tokens(s.skip(p)) == tokens(s.skip(q)),
    decreases q - p,
{
    if p < q {
        assert(s.skip(p)[0] == s[p]);
        assert(s.skip(p).drop_first() =~= s.skip(p + 1));
        lemma_tokens_skip_ws(s, p + 1, q);
    }
}

/// Consuming one whole token peels the first element off the token list.
pub proof fn lemma_tokens_take_token(s: Seq<char>, p: int, q: int)
    requires
        0 <= p < q <= s.len(),
        forall|i: int| p <= i < q ==> !is_ws(#[trigger] s[i]),
        q < s.len() ==> is_ws(s[q]),
    ensures
        tokens(s.skip(p)) == seq![s.subrange(p, q)] + tokens(s.skip(q)),
{
    let u = s.skip(p);
    assert(u[0] == s[p]);
    lemma_take_non_ws_subrange(u, q - p);
    assert(take_non_ws(u) =~= s.subrange(p, q));
    assert(u.skip(q - p) =~= s.skip(q));
    assert(tokens(s.skip(p)) =~= seq![s.subrange(p, q)] + tokens(s.skip(q)));
}

/// The last index at which `c` occurs in `s`, or `-1` if it does not.
pub open spec fn last_index_of(s: Seq<char>, c: char) -> int
    decreases s.len(),
{
    if s.len() == 0 {
        -1
    } else if s.last() == c {
        s.len() - 1
    } else {
        last_index_of(s.drop_last(), c)
    }
}

/// Characterization of [`last_index_of`]: it is the greatest occurrence
/// index.
pub proof fn lemma_last_index_of(s: Seq<char>, c: char)
    ensures
        -1 <= last_index_of(s, c) < s.len(),
        last_index_of(s, c) >= 0 ==> s[last_index_of(s, c)] == c,
        forall|i: int| last_index_of(s, c) < i < s.len() ==> s[i] != c,
    decreases s.len(),
{
    if s.len() == 0 {
    } else if s.last() == c {
    } else {
        lemma_last_index_of(s.drop_last(), c);
        assert forall|i: int| last_index_of(s, c) < i < s.len() implies s[i] != c by {
            if i < s.len() - 1 {
                assert(s.drop_last()[i] != c);
            }
        }
    }
}

/// The first index at which `c` occurs in `s`, or `s.len()` if it does not.
pub open spec fn index_of_char(s: Seq<char>, c: char) -> int
    decreases s.len(),
{
    if s.len() == 0 {
        0
    } else if s[0] == c {
        0
    } else {
        1 + index_of_char(s.drop_first(), c)
    }
}

/// Characterization of [`index_of_char`]: it is the least occurrence index.
pub proof fn lemma_index_of_char(s: Seq<char>, c: char)
    ensures
        0 <= index_of_char(s, c) <= s.len(),
        index_of_char(s, c) < s.len() ==> s[index_of_char(s, c)] == c,
        forall|i: int| 0 <= i < index_of_char(s, c) ==> s[i] != c,
    decreases s.len(),
{
    if s.len() == 0 {
    } else if s[0] == c {
    } else {
        lemma_index_of_char(s.drop_first(), c);
        assert forall|i: int| 0 <= i < index_of_char(s, c) implies s[i] != c by {
            if i > 0 {
                assert(s.drop_first()[i - 1] != c);
            }
        }
    }
}

} // verus!
