//! The marker grammar and the tag scanner.
//!
//! A line is an opening marker iff, after trimming surrounding whitespace, it
//! starts with `<!-- automdrs:` and ends with `-->`, and the text in between
//! holds at least one whitespace-delimited token; the first such token is the
//! block name. A line is a closing marker iff it trims to exactly
//! `<!-- /automdrs -->`.
//!
//! The scanner walks a document line by line with a single `Outside` /
//! `Inside` state. Outside a block, an opening marker starts a block and is
//! recorded; inside a block, only the closing marker is recognized. An
//! opening marker seen while already inside a block is ignored: nested
//! regions are unsupported by design. A block opened but never closed is
//! still reported; nothing signals the missing close.

use vstd::prelude::*;
use vstd::string::StrSliceExecFns;

use crate::text::ends_with;
use crate::text::first_token;
use crate::text::is_ws;
use crate::text::is_ws_char;
use crate::text::lemma_take_non_ws_subrange;
use crate::text::lemma_trim_front_subrange;
use crate::text::starts_with;
use crate::text::str_ends_with;
use crate::text::str_eq;
use crate::text::str_starts_with;
use crate::text::take_non_ws;
use crate::text::trim;
use crate::text::trim_front;
use crate::text::trim_str;
use crate::lines::spec_lines;
use crate::lines::split_lines;

verus! {

broadcast use vstd::string::group_string_axioms;

/// The sentinel that an opening marker starts with, after trimming.
pub open spec fn open_prefix() -> Seq<char> {
    "<!-- automdrs:"@
}

/// The sentinel that an opening marker ends with, after trimming.
pub open spec fn open_suffix() -> Seq<char> {
    "-->"@
}

/// The closing marker, compared after trimming.
pub open spec fn close_marker() -> Seq<char> {
    "<!-- /automdrs -->"@
}

/// Whether trimmed line `t` carries both opening sentinels.
pub open spec fn has_open_shape(t: Seq<char>) -> bool {
    starts_with(t, open_prefix()) && ends_with(t, open_suffix())
}

/// The text of trimmed line `t` between the two opening sentinels.
pub open spec fn marker_inner(t: Seq<char>) -> Seq<char> {
    t.subrange(open_prefix().len() as int, t.len() - open_suffix().len())
}

/// Whether `line` is an opening marker.
pub open spec fn is_open_line(line: Seq<char>) -> bool {
    has_open_shape(trim(line)) && first_token(marker_inner(trim(line))) is Some
}

/// The block name of an opening marker: the first token between the sentinels.
pub open spec fn open_line_name(line: Seq<char>) -> Seq<char> {
    first_token(marker_inner(trim(line)))->Some_0
}

/// Whether `line` is the closing marker.
pub open spec fn is_close_line(line: Seq<char>) -> bool {
    trim(line) == close_marker()
}

/// A line that carries both opening sentinels is at least as long as the two
/// sentinels together: they cannot overlap.
pub proof fn lemma_open_shape_len(t: Seq<char>)
    requires
        has_open_shape(t),
    ensures
        open_prefix().len() == 14,
        open_suffix().len() == 3,
        t.len() >= 17,
{
    reveal_strlit("<!-- automdrs:");
    reveal_strlit("-->");
    let n = t.len() as int;
    assert(open_prefix().len() == 14);
    assert(open_suffix().len() == 3);
    assert(t.subrange(0, 14) == open_prefix());
    assert(t.subrange(n - 3, n) == open_suffix());
    if n < 17 {
        assert(open_prefix()[13] == ':');
        assert(t.subrange(0, 14)[13] == t[13]);
        assert(t[13] == ':');
        if n == 16 {
            assert(open_suffix()[0] == '-');
            assert(t.subrange(n - 3, n)[0] == t[13]);
        } else if n == 15 {
            assert(open_suffix()[1] == '-');
            assert(t.subrange(n - 3, n)[1] == t[13]);
        } else {
            assert(open_suffix()[2] == '>');
            assert(t.subrange(n - 3, n)[2] == t[13]);
        }
        assert(false);
    }
}

/// One recognized block region: its name and its full opening line,
/// exactly as it stands in the document.
#[derive(Debug, Clone)]
pub struct BlockRequest {
    pub name: String,
    pub open_tag_line: String,
}

impl View for BlockRequest {
    type V = (Seq<char>, Seq<char>);

    open spec fn view(&self) -> (Seq<char>, Seq<char>) {
        (self.name@, self.open_tag_line@)
    }
}

/// The requests that scanning `ls` yields, starting in the given state.
pub open spec fn scan_lines(ls: Seq<Seq<char>>, inside: bool) -> Seq<(Seq<char>, Seq<char>)>
    decreases ls.len(),
{
    if ls.len() == 0 {
        Seq::empty()
    } else if !inside {
        if is_open_line(ls[0]) {
            seq![(open_line_name(ls[0]), ls[0])] + scan_lines(ls.drop_first(), true)
        } else {
            scan_lines(ls.drop_first(), false)
        }
    } else {
        if is_close_line(ls[0]) {
            scan_lines(ls.drop_first(), false)
        } else {
            scan_lines(ls.drop_first(), true)
        }
    }
}

/// The scanner state after walking `ls`, starting in the given state.
pub open spec fn scan_end_state(ls: Seq<Seq<char>>, inside: bool) -> bool
    decreases ls.len(),
{
    if ls.len() == 0 {
        inside
    } else if !inside {
        scan_end_state(ls.drop_first(), is_open_line(ls[0]))
    } else {
        scan_end_state(ls.drop_first(), !is_close_line(ls[0]))
    }
}

/// The requests of a whole document, in document order.
pub open spec fn spec_scan(ls: Seq<Seq<char>>) -> Seq<(Seq<char>, Seq<char>)> {
    scan_lines(ls, false)
}

/// Scanning a concatenation scans both parts in turn: every block of the
/// earlier part comes, in order, before every block of the later part. For a
/// document whose blocks are named `A`, `B`, `C` in that order, the scan
/// therefore reports `A`, `B`, `C` in that order, whatever the blocks hold.
pub proof fn lemma_scan_concat(l1: Seq<Seq<char>>, l2: Seq<Seq<char>>, inside: bool)
    ensures
        scan_lines(l1 + l2, inside) == scan_lines(l1, inside) + scan_lines(
            l2,
            scan_end_state(l1, inside),
        ),
    decreases l1.len(),
{
    if l1.len() == 0 {
        assert(l1 + l2 =~= l2);
        assert(scan_lines(l1, inside) + scan_lines(l2, inside) =~= scan_lines(l2, inside));
    } else {
        assert((l1 + l2).drop_first() =~= l1.drop_first() + l2);
        assert((l1 + l2)[0] == l1[0]);
        if !inside {
            lemma_scan_concat(l1.drop_first(), l2, is_open_line(l1[0]));
            if is_open_line(l1[0]) {
                assert(scan_lines(l1 + l2, inside) =~= scan_lines(l1, inside) + scan_lines(
                    l2,
                    scan_end_state(l1, inside),
                ));
            }
        } else {
            lemma_scan_concat(l1.drop_first(), l2, !is_close_line(l1[0]));
        }
    }
}

/// Nesting is unsupported by design: inside a block, opening markers are
/// ignored, so as long as no closing marker comes, a scan inside a block
/// reports no block at all, whatever opening markers stand there.
pub proof fn lemma_scan_inside_ignores_opens(ls: Seq<Seq<char>>)
    requires
        forall|i: int| 0 <= i < ls.len() ==> !is_close_line(#[trigger] ls[i]),
    ensures
        scan_lines(ls, true).len() == 0,
    decreases ls.len(),
{
    if ls.len() > 0 {
        assert(!is_close_line(ls[0]));
        assert forall|i: int|
            0 <= i < ls.drop_first().len() implies !is_close_line(
            #[trigger] ls.drop_first()[i],
        ) by {
            assert(ls.drop_first()[i] == ls[i + 1]);
        }
        lemma_scan_inside_ignores_opens(ls.drop_first());
    }
}

/// A scan that found no block saw no opening marker at all.
pub proof fn lemma_scan_empty_no_open(ls: Seq<Seq<char>>)
    requires
        scan_lines(ls, false).len() == 0,
    ensures
        forall|i: int| 0 <= i < ls.len() ==> !is_open_line(#[trigger] ls[i]),
    decreases ls.len(),
{
    if ls.len() > 0 {
        assert(!is_open_line(ls[0]));
        lemma_scan_empty_no_open(ls.drop_first());
        assert forall|i: int| 0 <= i < ls.len() implies !is_open_line(#[trigger] ls[i]) by {
            if i > 0 {
                assert(!is_open_line(ls.drop_first()[i - 1]));
            }
        }
    }
}

/// Parse the block name out of an opening marker line, if the line is one.
pub fn parse_block_name(line: &str) -> (r: Option<&str>)
    ensures
        match r {
            Some(name) => is_open_line(line@) && name@ == open_line_name(line@),
            None => !is_open_line(line@),
        },
{
    let t = trim_str(line);
    if !str_starts_with(t, "<!-- automdrs:") || !str_ends_with(t, "-->") {
        return None;
    }
    proof {
        lemma_open_shape_len(t@);
    }
    let tn = t.unicode_len();
    let inner = t.substring_char(14, tn - 3);
    proof {
        assert(inner@ =~= marker_inner(trim(line@)));
    }
    let n = inner.unicode_len();
    let mut a: usize = 0;
    while a < n && is_ws_char(inner.get_char(a))
        invariant
            n == inner@.len(),
            0 <= a <= n,
            forall|i: int| 0 <= i < a ==> is_ws(#[trigger] inner@[i]),
        decreases n - a,
    {
        a = a + 1;
    }
    proof {
        lemma_trim_front_subrange(inner@, a as int);
    }
    if a == n {
        proof {
            assert(trim_front(inner@).len() == 0);
        }
        return None;
    }
    let mut b: usize = a;
    while b < n && !is_ws_char(inner.get_char(b))
        invariant
            n == inner@.len(),
            a <= b <= n,
            forall|i: int| a <= i < b ==> !is_ws(#[trigger] inner@[i]),
        decreases n - b,
    {
        b = b + 1;
    }
    proof {
        let u = inner@.subrange(a as int, n as int);
        assert(trim_front(inner@) =~= u);
        lemma_take_non_ws_subrange(u, b - a);
        assert(u.subrange(0, b - a) =~= inner@.subrange(a as int, b as int));
        assert(first_token(inner@) is Some);
        assert(first_token(inner@)->Some_0 =~= inner@.subrange(a as int, b as int));
    }
    Some(inner.substring_char(a, b))
}

/// Scan a document and collect one request per recognized block, in
/// document order.
pub fn parse_readme_blocks(content: &str) -> (r: Vec<BlockRequest>)
    ensures
        r@.map_values(|b: BlockRequest| b@) == spec_scan(spec_lines(content@)),
{
    let ls = split_lines(content);
    let ghost lsv = spec_lines(content@);
    let mut requests: Vec<BlockRequest> = Vec::new();
    let mut in_block = false;
    let mut i: usize = 0;
    proof {
        assert(lsv.skip(0) =~= lsv);
        assert(requests@.map_values(|b: BlockRequest| b@) =~= Seq::<(Seq<char>, Seq<
            char,
        >)>::empty());
    }
    while i < ls.len()
        invariant
            ls.deep_view() == lsv,
            0 <= i <= ls@.len(),
            ls@.len() == lsv.len(),
            spec_scan(lsv) =~= requests@.map_values(|b: BlockRequest| b@) + scan_lines(
                lsv.skip(i as int),
                in_block,
            ),
        decreases ls@.len() - i,
    {
        let line: &String = &ls[i];
        proof {
            assert(line@ == lsv[i as int]);
            assert(lsv.skip(i as int)[0] == lsv[i as int]);
            assert(lsv.skip(i as int).drop_first() =~= lsv.skip(i as int + 1));
        }
        if !in_block {
            let name = parse_block_name(line.as_str());
            match name {
                Some(name) => {
                    let ghost prev = requests@.map_values(|b: BlockRequest| b@);
                    let req = BlockRequest {
                        name: name.to_owned(),
                        open_tag_line: line.clone(),
                    };
                    requests.push(req);
                    in_block = true;
                    proof {
                        assert(requests@.map_values(|b: BlockRequest| b@) =~= prev.push(
                            (open_line_name(lsv[i as int]), lsv[i as int]),
                        ));
                        assert(prev + (seq![
                            (open_line_name(lsv[i as int]), lsv[i as int]),
                        ] + scan_lines(lsv.skip(i as int + 1), true)) =~= prev.push(
                            (open_line_name(lsv[i as int]), lsv[i as int]),
                        ) + scan_lines(lsv.skip(i as int + 1), true));
                    }
                },
                None => {
                },
            }
        } else {
            if str_eq(trim_str(line.as_str()), "<!-- /automdrs -->") {
                in_block = false;
            }
        }
        i = i + 1;
    }
    proof {
        assert(lsv.skip(lsv.len() as int) =~= Seq::<Seq<char>>::empty());
        assert(requests@.map_values(|b: BlockRequest| b@) =~= spec_scan(lsv));
    }
    requests
}

} // verus!
