//! The single-handler dispatcher and the full update pipeline.
//!
//! One handler serves every block; it decides by block name what to
//! generate. Dispatch walks the scanned requests in document order and
//! stops at the first failure, which it reports as
//! [`Error::HandlerGenerationFailed`] with the block's name: a failed
//! dispatch produces no document. The scanned requests and the generated
//! line lists are index-aligned; the renderer relies on that positional
//! correspondence.

use vstd::prelude::*;
use vstd::pervasive::unreached;
use vstd::slice::slice_index_get;

use crate::error::Error;
use crate::handler::spec_default_generate;
use crate::handler::BlockHandler;
use crate::handler::DefaultHandler;
use crate::handler::UpdateContext;
use crate::lines::spec_lines;
use crate::manifest::ParsedManifest;
use crate::render::lemma_render_identity;
use crate::render::replace_blocks_once;
use crate::render::spec_render;
use crate::scan::lemma_scan_empty_no_open;
use crate::scan::parse_readme_blocks;
use crate::scan::spec_scan;
use crate::scan::BlockRequest;

verus! {

/// Run the handler on every request, in document order, and collect the
/// generated line lists, index-aligned with the requests. The first
/// handler failure stops the dispatch and is reported as
/// [`Error::HandlerGenerationFailed`] with that block's name.
pub fn assign_and_generate<H: BlockHandler>(
    requests: &[BlockRequest],
    handler: &H,
    context: &UpdateContext,
) -> (r: Result<Vec<Vec<String>>, Error>)
    ensures
        match r {
            Ok(g) => g@.len() == requests@.len(),
            Err(e) => e matches Error::HandlerGenerationFailed(n, c) && exists|i: int|
                0 <= i < requests@.len() && (#[trigger] requests@[i])@.0 == n@,
        },
{
    let mut out: Vec<Vec<String>> = Vec::new();
    let mut i: usize = 0;
    while i < requests.len()
        invariant
            0 <= i <= requests@.len(),
            out@.len() == i,
        decreases requests@.len() - i,
    {
        let req: &BlockRequest = slice_index_get(requests, i);
        match handler.generate(req.name.as_str(), req.open_tag_line.as_str(), context) {
            Ok(lines) => {
                out.push(lines);
            },
            Err(e) => {
                let cause = e.message();
                proof {
                    assert(requests@[i as int]@.0 == req.name@);
                }
                return Err(Error::HandlerGenerationFailed(req.name.clone(), cause));
            },
        }
        i = i + 1;
    }
    Ok(out)
}

/// Update a document with one handler: scan it, dispatch every block in
/// order, and render the result in one pass. A dispatch failure yields
/// that failure and no document; a document without recognized blocks
/// comes back unchanged.
pub fn update_readme<H: BlockHandler>(content: &str, handler: &H, context: &UpdateContext) -> (r:
    Result<String, Error>)
    ensures
        match r {
            Ok(out) => exists|g: Seq<Seq<Seq<char>>>|
                g.len() == spec_scan(spec_lines(content@)).len() && out@ == spec_render(
                    content@,
                    g,
                ),
            Err(e) => e matches Error::HandlerGenerationFailed(n, c) && exists|i: int|
                0 <= i < spec_scan(spec_lines(content@)).len() && (#[trigger] spec_scan(
                    spec_lines(content@),
                )[i]).0 == n@,
        },
        spec_scan(spec_lines(content@)).len() == 0 ==> (r matches Ok(out) && out@ == content@),
{
    let requests = parse_readme_blocks(content);
    let ghost scanned = spec_scan(spec_lines(content@));
    proof {
        assert(requests@.map_values(|b: BlockRequest| b@) == scanned);
        assert forall|i: int| 0 <= i < requests@.len() implies (#[trigger] requests@[i])@
            == scanned[i] by {
            assert(requests@.map_values(|b: BlockRequest| b@)[i] == requests@[i]@);
        }
    }
    let generated = match assign_and_generate(requests.as_slice(), handler, context) {
        Ok(g) => g,
        Err(e) => {
            return Err(e);
        },
    };
    let gslice = generated.as_slice();
    let out = replace_blocks_once(content, gslice);
    proof {
        let g = gslice.deep_view();
        assert(g =~= generated.deep_view());
        assert(g.len() == spec_scan(spec_lines(content@)).len());
        if spec_scan(spec_lines(content@)).len() == 0 {
            lemma_scan_empty_no_open(spec_lines(content@));
            lemma_render_identity(content@, g);
        }
    }
    Ok(out)
}

/// What the built-in handler generates for each scanned request, in
/// order.
pub open spec fn default_generated(
    reqs: Seq<(Seq<char>, Seq<char>)>,
    m: ParsedManifest,
) -> Seq<Seq<Seq<char>>> {
    reqs.map_values(|rq: (Seq<char>, Seq<char>)| spec_default_generate(rq.0, rq.1, m))
}

/// Update a document with the built-in handler. This never fails, and
/// the result is pinned down completely: the one-pass rendering of the
/// document with, for each scanned block in order, exactly what the
/// built-in handler generates from its name and opening line.
pub fn update_readme_with_default(content: &str, context: &UpdateContext) -> (r: String)
    ensures
        r@ == spec_render(
            content@,
            default_generated(spec_scan(spec_lines(content@)), context.config),
        ),
{
    let ghost reqsv = spec_scan(spec_lines(content@));
    let ghost expected = default_generated(reqsv, context.config);
    let requests = parse_readme_blocks(content);
    let handler = DefaultHandler;
    let mut generated: Vec<Vec<String>> = Vec::new();
    let mut i: usize = 0;
    proof {
        assert(requests@.map_values(|b: BlockRequest| b@).len() == requests@.len());
        assert(generated.deep_view() =~= expected.take(0));
    }
    while i < requests.len()
        invariant
            requests@.map_values(|b: BlockRequest| b@) == reqsv,
            expected == default_generated(reqsv, context.config),
            0 <= i <= requests@.len(),
            requests@.len() == reqsv.len(),
            generated.deep_view() =~= expected.take(i as int),
        decreases requests@.len() - i,
    {
        let req: &BlockRequest = &requests[i];
        proof {
            assert(requests@.map_values(|b: BlockRequest| b@)[i as int] == requests@[
                i as int
            ]@);
            assert(req@ == reqsv[i as int]);
        }
        let lines = match handler.generate(
            req.name.as_str(),
            req.open_tag_line.as_str(),
            context,
        ) {
            Ok(lines) => lines,
            Err(_) => unreached(),
        };
        let ghost prev = generated.deep_view();
        generated.push(lines);
        i = i + 1;
        proof {
            assert(generated.deep_view() =~= prev.push(
                spec_default_generate(
                    reqsv[i - 1].0,
                    reqsv[i - 1].1,
                    context.config,
                ),
            ));
            assert(expected[i - 1] == spec_default_generate(
                reqsv[i - 1].0,
                reqsv[i - 1].1,
                context.config,
            ));
            assert(generated.deep_view() =~= expected.take(i as int));
        }
    }
    let gslice = generated.as_slice();
    proof {
        assert(expected.take(reqsv.len() as int) =~= expected);
        assert(gslice.deep_view() =~= expected);
    }
    replace_blocks_once(content, gslice)
}

} // verus!
