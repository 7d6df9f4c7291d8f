//! Splitting a document into lines and joining lines back into a document.
//!
//! A document is split at `'\n'`; the terminator is not part of any line, and
//! a final fragment without a terminator is still a line. Joining emits every
//! line followed by `'\n'` and then drops the last terminator when the
//! original document did not end with one, so splitting and joining give the
//! document back unchanged.

use vstd::prelude::*;
use vstd::string::StrSliceExecFns;

use crate::text::index_of_char;
use crate::text::lemma_index_of_char;

verus! {

/// The lines of `s`, split at `'\n'`.
pub open spec fn spec_lines(s: Seq<char>) -> Seq<Seq<char>>
    decreases s.len(),
    via spec_lines_decreases
{
    if s.len() == 0 {
        Seq::empty()
    } else {
        let k = index_of_char(s, '\n');
        if k == s.len() {
            seq![s]
        } else {
            seq![s.subrange(0, k)] + spec_lines(s.skip(k + 1))
        }
    }
}

#[via_fn]
proof fn spec_lines_decreases(s: Seq<char>) {
    if s.len() > 0 {
        lemma_index_of_char(s, '\n');
    }
}

/// Joining a first line onto joined remaining lines.
pub proof fn lemma_unlines_cons(x: Seq<char>, rest: Seq<Seq<char>>)
    ensures
        unlines(seq![x] + rest) == x + seq!['\n'] + unlines(rest),
{
    assert((seq![x] + rest).drop_first() =~= rest);
    assert((seq![x] + rest)[0] == x);
}

/// Whether `s` ends with a line terminator.
pub open spec fn has_final_newline(s: Seq<char>) -> bool {
    s.len() > 0 && s.last() == '\n'
}

/// The lines joined back together, each followed by `'\n'`.
pub open spec fn unlines(ls: Seq<Seq<char>>) -> Seq<char>
    decreases ls.len(),
{
    if ls.len() == 0 {
        Seq::empty()
    } else {
        ls[0] + seq!['\n'] + unlines(ls.drop_first())
    }
}

/// Adjust a joined document to the original final-newline convention: when
/// the source had no final terminator, the last emitted one is dropped.
pub open spec fn fit_final_newline(out: Seq<char>, had_newline: bool) -> Seq<char> {
    if !had_newline && out.len() > 0 && out.last() == '\n' {
        out.drop_last()
    } else {
        out
    }
}

/// Splitting and joining reconstruct the document, up to the final
/// terminator that joining always emits after a non-empty document.
pub proof fn lemma_unlines_of_lines(s: Seq<char>)
    ensures
        has_final_newline(s) ==> unlines(spec_lines(s)) =~= s,
        !has_final_newline(s) && s.len() > 0 ==> unlines(spec_lines(s)) =~= s + seq!['\n'],
        s.len() == 0 ==> unlines(spec_lines(s)) =~= s,
    decreases s.len(),
{
    if s.len() == 0 {
    } else {
        let k = index_of_char(s, '\n');
        lemma_index_of_char(s, '\n');
        if k == s.len() {
            assert(!has_final_newline(s));
            assert(seq![s] + Seq::<Seq<char>>::empty() =~= seq![s]);
            lemma_unlines_cons(s, Seq::empty());
            assert(unlines(spec_lines(s)) =~= s + seq!['\n']);
        } else {
            let rest = s.skip(k + 1);
            lemma_unlines_of_lines(rest);
            lemma_unlines_cons(s.subrange(0, k), spec_lines(rest));
            if rest.len() == 0 {
                assert(k + 1 == s.len());
                assert(s.last() == '\n');
                assert(unlines(spec_lines(s)) =~= s.subrange(0, k) + seq!['\n']);
                assert(s.subrange(0, k) + seq!['\n'] =~= s);
            } else {
                assert(rest.last() == s.last());
                if has_final_newline(s) {
                    assert(unlines(spec_lines(s)) =~= s.subrange(0, k) + seq!['\n'] + unlines(
                        spec_lines(rest),
                    ));
                    assert(s.subrange(0, k) + seq!['\n'] + rest =~= s);
                } else {
                    assert(s.subrange(0, k) + seq!['\n'] + (rest + seq!['\n']) =~= s + seq![
                        '\n'
                    ]);
                }
            }
        }
    }
}

/// Split a document into its lines.
pub fn split_lines(s: &str) -> (r: Vec<String>)
    ensures
        r.deep_view() == spec_lines(s@),
{
    let n = s.unicode_len();
    let mut r: Vec<String> = Vec::new();
    let mut start: usize = 0;
    proof {
        assert(r.deep_view() =~= Seq::<Seq<char>>::empty());
        assert(s@.skip(0) =~= s@);
        assert(spec_lines(s@) =~= r.deep_view() + spec_lines(s@.skip(start as int)));
    }
    while start < n
        invariant
            n == s@.len(),
            0 <= start <= n,
            spec_lines(s@) =~= r.deep_view() + spec_lines(s@.skip(start as int)),
        decreases n - start,
    {
        let mut i: usize = start;
        while i < n && s.get_char(i) != '\n'
            invariant
                n == s@.len(),
                start <= i <= n,
                forall|j: int| start <= j < i ==> s@[j] != '\n',
            decreases n - i,
        {
            i = i + 1;
        }
        let line = s.substring_char(start, i).to_owned();
        proof {
            let rest = s@.skip(start as int);
            lemma_index_of_char_subrange(s@, start as int, i as int);
            assert(index_of_char(rest, '\n') == i - start);
            if i < n {
                assert(spec_lines(rest) =~= seq![rest.subrange(0, i - start)] + spec_lines(
                    rest.skip(i - start + 1),
                ));
                assert(rest.subrange(0, i - start) =~= s@.subrange(start as int, i as int));
                assert(rest.skip(i - start + 1) =~= s@.skip(i + 1));
            } else {
                assert(spec_lines(rest) =~= seq![rest]);
                assert(rest =~= s@.subrange(start as int, i as int));
            }
        }
        let ghost prev = r.deep_view();
        r.push(line);
        if i < n {
            start = i + 1;
        } else {
            start = i;
        }
        proof {
            assert(r.deep_view() =~= prev.push(line@));
            assert(spec_lines(s@) =~= r.deep_view() + spec_lines(s@.skip(start as int)));
        }
    }
    proof {
        assert(spec_lines(s@.skip(start as int)) =~= Seq::<Seq<char>>::empty());
        assert(r.deep_view() =~= spec_lines(s@));
    }
    r
}

/// `index_of_char` on a suffix whose first occurrence is known.
proof fn lemma_index_of_char_subrange(s: Seq<char>, start: int, i: int)
    requires
        0 <= start <= i <= s.len(),
        forall|j: int| start <= j < i ==> s[j] != '\n',
        i < s.len() ==> s[i] == '\n',
    ensures
        index_of_char(s.skip(start), '\n') == i - start,
    decreases i - start,
{
    if start == i {
        if i < s.len() {
            assert(s.skip(start)[0] == '\n');
        } else {
            assert(s.skip(start).len() == 0);
        }
    } else {
        lemma_index_of_char_subrange(s, start + 1, i);
        assert(s.skip(start)[0] != '\n');
        assert(s.skip(start).drop_first() =~= s.skip(start + 1));
    }
}

} // verus!
