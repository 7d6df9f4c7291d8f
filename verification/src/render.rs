//! The renderer: one pass over the document, splicing generated lines into
//! each recognized block.
//!
//! The renderer re-runs the scanner's state machine with the same marker
//! grammar, so the two passes agree on block boundaries. Lines outside any
//! block, and the marker lines themselves, are emitted unchanged. When an
//! opening marker is recognized, the next not-yet-consumed generated line
//! list is emitted right after it, and the old body lines are dropped until
//! the closing marker. The output gains no final line terminator that the
//! input did not have.
//!
//! A block left open at the end of the document keeps nothing after its
//! opening line: the unmatched remainder is replaced content with no
//! closing marker to emit. Nothing signals the missing close; callers who
//! care should scan first and compare.

use vstd::prelude::*;
use vstd::string::StrSliceExecFns;
use vstd::string::StringExecFns;

use crate::lines::fit_final_newline;
use crate::lines::has_final_newline;
use crate::lines::lemma_unlines_cons;
use crate::lines::lemma_unlines_of_lines;
use crate::lines::spec_lines;
use crate::lines::split_lines;
use crate::lines::unlines;
use crate::scan::is_close_line;
use crate::scan::is_open_line;
use crate::scan::parse_block_name;
use crate::text::str_eq;
use crate::text::trim_str;

verus! {

/// The lines spliced for the next block: the first not-yet-consumed list,
/// or nothing when every list has been consumed.
pub open spec fn head_gen(gen: Seq<Seq<Seq<char>>>) -> Seq<char> {
    if gen.len() > 0 {
        unlines(gen[0])
    } else {
        Seq::empty()
    }
}

/// The generated line lists left after consuming one.
pub open spec fn tail_gen(gen: Seq<Seq<Seq<char>>>) -> Seq<Seq<Seq<char>>> {
    if gen.len() > 0 {
        gen.drop_first()
    } else {
        gen
    }
}

/// The rendered text of `ls`, with `gen` the not-yet-consumed generated
/// line lists, starting in the given state. Every emitted line is followed
/// by a line terminator.
pub open spec fn render_lines(ls: Seq<Seq<char>>, gen: Seq<Seq<Seq<char>>>, inside: bool) -> Seq<
    char,
>
    decreases ls.len(),
{
    if ls.len() == 0 {
        Seq::empty()
    } else if !inside {
        if is_open_line(ls[0]) {
            ls[0] + seq!['\n'] + head_gen(gen) + render_lines(ls.drop_first(), tail_gen(gen), true)
        } else {
            ls[0] + seq!['\n'] + render_lines(ls.drop_first(), gen, false)
        }
    } else {
        if is_close_line(ls[0]) {
            ls[0] + seq!['\n'] + render_lines(ls.drop_first(), gen, false)
        } else {
            render_lines(ls.drop_first(), gen, true)
        }
    }
}

/// The rendered document: the rendered lines, with the final line
/// terminator kept exactly when the input document had one.
pub open spec fn spec_render(content: Seq<char>, gen: Seq<Seq<Seq<char>>>) -> Seq<char> {
    fit_final_newline(render_lines(spec_lines(content), gen, false), has_final_newline(content))
}

/// Rendering a part without opening markers emits it verbatim and renders
/// the remainder with the same generated lists.
pub proof fn lemma_render_no_open(
    pre: Seq<Seq<char>>,
    rest: Seq<Seq<char>>,
    gen: Seq<Seq<Seq<char>>>,
)
    requires
        forall|i: int| 0 <= i < pre.len() ==> !is_open_line(#[trigger] pre[i]),
    ensures
        render_lines(pre + rest, gen, false) == unlines(pre) + render_lines(rest, gen, false),
    decreases pre.len(),
{
    if pre.len() == 0 {
        assert(pre + rest =~= rest);
        assert(unlines(pre) + render_lines(rest, gen, false) =~= render_lines(rest, gen, false));
    } else {
        assert((pre + rest).drop_first() =~= pre.drop_first() + rest);
        assert((pre + rest)[0] == pre[0]);
        lemma_render_no_open(pre.drop_first(), rest, gen);
        assert(render_lines(pre + rest, gen, false) =~= unlines(pre) + render_lines(
            rest,
            gen,
            false,
        ));
    }
}

/// Inside a block, lines before the closing marker are dropped.
pub proof fn lemma_render_drop_body(
    body: Seq<Seq<char>>,
    rest: Seq<Seq<char>>,
    gen: Seq<Seq<Seq<char>>>,
)
    requires
        forall|i: int| 0 <= i < body.len() ==> !is_close_line(#[trigger] body[i]),
    ensures
        render_lines(body + rest, gen, true) == render_lines(rest, gen, true),
    decreases body.len(),
{
    if body.len() == 0 {
        assert(body + rest =~= rest);
    } else {
        assert((body + rest).drop_first() =~= body.drop_first() + rest);
        assert((body + rest)[0] == body[0]);
        lemma_render_drop_body(body.drop_first(), rest, gen);
    }
}

/// The splice shape of one block: a document made of marker-free text, an
/// opening marker, a body without closing marker, the closing marker, and a
/// remainder renders to the text, the opening line, exactly the generated
/// lines for that block, the closing line, and the rendered remainder —
/// contiguously, with the original body fully removed.
pub proof fn lemma_render_splice(
    pre: Seq<Seq<char>>,
    open_line: Seq<char>,
    body: Seq<Seq<char>>,
    close_line: Seq<char>,
    post: Seq<Seq<char>>,
    g: Seq<Seq<char>>,
    gs: Seq<Seq<Seq<char>>>,
)
    requires
        forall|i: int| 0 <= i < pre.len() ==> !is_open_line(#[trigger] pre[i]),
        is_open_line(open_line),
        forall|i: int| 0 <= i < body.len() ==> !is_close_line(#[trigger] body[i]),
        is_close_line(close_line),
    ensures
        render_lines(
            pre + seq![open_line] + body + seq![close_line] + post,
            seq![g] + gs,
            false,
        ) == unlines(pre) + open_line + seq!['\n'] + unlines(g) + close_line + seq!['\n']
            + render_lines(post, gs, false),
{
    let doc_tail = seq![open_line] + body + seq![close_line] + post;
    let gen = seq![g] + gs;
    assert(pre + seq![open_line] + body + seq![close_line] + post =~= pre + doc_tail);
    lemma_render_no_open(pre, doc_tail, gen);
    assert(doc_tail[0] == open_line);
    assert(doc_tail.drop_first() =~= body + (seq![close_line] + post));
    assert(head_gen(gen) == unlines(g));
    assert(tail_gen(gen) =~= gs);
    lemma_render_drop_body(body, seq![close_line] + post, gs);
    assert((seq![close_line] + post)[0] == close_line);
    assert((seq![close_line] + post).drop_first() =~= post);
    assert(render_lines(doc_tail, gen, false) =~= open_line + seq!['\n'] + unlines(g)
        + close_line + seq!['\n'] + render_lines(post, gs, false));
}

/// A document without opening markers renders to itself, whatever the
/// generated lists are.
pub proof fn lemma_render_identity(content: Seq<char>, gen: Seq<Seq<Seq<char>>>)
    requires
        forall|i: int|
            0 <= i < spec_lines(content).len() ==> !is_open_line(
                #[trigger] spec_lines(content)[i],
            ),
    ensures
        spec_render(content, gen) == content,
{
    let ls = spec_lines(content);
    assert(ls + Seq::<Seq<char>>::empty() =~= ls);
    lemma_render_no_open(ls, Seq::empty(), gen);
    assert(unlines(ls) + render_lines(Seq::empty(), gen, false) =~= unlines(ls));
    lemma_unlines_of_lines(content);
    if has_final_newline(content) {
        assert(fit_final_newline(content, true) =~= content);
    } else if content.len() > 0 {
        assert(unlines(ls) =~= content + seq!['\n']);
        assert(unlines(ls).last() == '\n');
        assert(fit_final_newline(unlines(ls), false) =~= content);
    } else {
        assert(ls.len() == 0);
    }
}

/// Replace each block body with the corresponding generated lines, in one
/// pass. The i-th recognized block receives the i-th list; blocks beyond
/// the last list keep nothing between their markers.
pub fn replace_blocks_once(content: &str, generated: &[Vec<String>]) -> (r: String)
    ensures
        r@ == spec_render(content@, generated.deep_view()),
{
    let ls = split_lines(content);
    let ghost lsv = spec_lines(content@);
    let ghost genv = generated.deep_view();
    proof {
        reveal_strlit("\n");
        assert("\n"@ =~= seq!['\n']);
    }
    let mut out = String::new();
    let mut in_block = false;
    let mut k: usize = 0;
    let ghost mut grest = genv;
    let mut i: usize = 0;
    proof {
        assert(lsv.skip(0) =~= lsv);
        assert(out@ + render_lines(lsv, grest, false) =~= render_lines(lsv, genv, false));
    }
    while i < ls.len()
        invariant
            ls.deep_view() == lsv,
            genv == generated.deep_view(),
            0 <= i <= ls@.len(),
            ls@.len() == lsv.len(),
            k <= i,
            k <= genv.len() ==> grest =~= genv.skip(k as int),
            k > genv.len() ==> grest.len() == 0,
            render_lines(lsv, genv, false) =~= out@ + render_lines(
                lsv.skip(i as int),
                grest,
                in_block,
            ),
        decreases ls@.len() - i,
    {
        let line: &String = &ls[i];
        proof {
            assert(line@ == lsv[i as int]);
            assert(lsv.skip(i as int)[0] == lsv[i as int]);
            assert(lsv.skip(i as int).drop_first() =~= lsv.skip(i as int + 1));
            reveal_strlit("\n");
            assert("\n"@ =~= seq!['\n']);
        }
        if !in_block {
            if parse_block_name(line.as_str()).is_some() {
                out.append(line.as_str());
                out.append("\n");
                if k < generated.len() {
                    let g: &Vec<String> = &generated[k];
                    let ghost gv = genv[k as int];
                    proof {
                        assert(g.deep_view() == gv);
                        assert(grest[0] == gv);
                        assert(head_gen(grest) == unlines(gv));
                    }
                    let ghost base = out@;
                    let mut j: usize = 0;
                    proof {
                        assert(gv.skip(0) =~= gv);
                    }
                    while j < g.len()
                        invariant
                            g.deep_view() == gv,
                            0 <= j <= g@.len(),
                            g@.len() == gv.len(),
                            out@ + unlines(gv.skip(j as int)) =~= base + unlines(gv),
                        decreases g@.len() - j,
                    {
                        proof {
                            reveal_strlit("\n");
                            assert("\n"@ =~= seq!['\n']);
                            assert(gv.skip(j as int) =~= seq![gv[j as int]] + gv.skip(
                                j as int + 1,
                            ));
                            lemma_unlines_cons(gv[j as int], gv.skip(j as int + 1));
                            assert(g@[j as int]@ == gv[j as int]);
                        }
                        let gline: &String = &g[j];
                        out.append(gline.as_str());
                        out.append("\n");
                        j = j + 1;
                    }
                    proof {
                        assert(gv.skip(gv.len() as int) =~= Seq::<Seq<char>>::empty());
                        assert(out@ =~= base + unlines(gv));
                    }
                } else {
                    proof {
                        assert(head_gen(grest) =~= Seq::<char>::empty());
                    }
                }
                k = k + 1;
                proof {
                    grest = tail_gen(grest);
                    if k <= genv.len() {
                        assert(grest =~= genv.skip(k as int));
                    }
                }
                in_block = true;
            } else {
                out.append(line.as_str());
                out.append("\n");
            }
        } else {
            if str_eq(trim_str(line.as_str()), "<!-- /automdrs -->") {
                in_block = false;
                out.append(line.as_str());
                out.append("\n");
            }
        }
        i = i + 1;
        proof {
            assert(render_lines(lsv, genv, false) =~= out@ + render_lines(
                lsv.skip(i as int),
                grest,
                in_block,
            ));
        }
    }
    proof {
        assert(lsv.skip(lsv.len() as int) =~= Seq::<Seq<char>>::empty());
        assert(out@ =~= render_lines(lsv, genv, false));
    }
    let cn = content.unicode_len();
    let had_newline = cn > 0 && content.get_char(cn - 1) == '\n';
    if !had_newline {
        let on = out.as_str().unicode_len();
        if on > 0 && out.as_str().get_char(on - 1) == '\n' {
            let trimmed = out.as_str().substring_char(0, on - 1).to_owned();
            proof {
                assert(trimmed@ =~= out@.drop_last());
            }
            return trimmed;
        }
    }
    out
}

} // verus!
