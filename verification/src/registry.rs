//! The strict, registry-based dispatcher: handlers declare their block
//! name, the dispatcher searches the registry for each request in order,
//! and a discovered block name with no registered handler is a hard
//! failure. Nothing is generated past the first failure, and no document
//! is produced from a failed dispatch.

use vstd::prelude::*;
use vstd::slice::slice_index_get;

use crate::error::Error;
use crate::handler::UpdateContext;
use crate::lines::spec_lines;
use crate::render::replace_blocks_once;
use crate::render::spec_render;
use crate::scan::lemma_scan_empty_no_open;
use crate::scan::parse_readme_blocks;
use crate::scan::spec_scan;
use crate::scan::BlockRequest;
use crate::text::str_eq;

verus! {

/// A named content-generation capability for the registry dispatcher.
/// Implementations are owned by the caller for the duration of one run;
/// the dispatcher holds them by reference.
pub trait NamedBlockHandler: Send + Sync {
    /// The block name this handler serves, as the dispatcher knows it.
    spec fn spec_name(&self) -> Seq<char>;

    /// The declared block name; the dispatcher matches requests against
    /// it.
    fn name(&self) -> (r: &str)
        ensures
            r@ == self.spec_name(),
    ;

    /// Produce the replacement lines for one block, or fail.
    fn generate(&self, open_tag_line: &str, context: &UpdateContext) -> Result<Vec<String>, Error>;
}

/// Whether some registered handler declares `name`.
pub open spec fn registry_has(handlers: Seq<&dyn NamedBlockHandler>, name: Seq<char>) -> bool {
    exists|j: int| 0 <= j < handlers.len() && handlers[j].spec_name() == name
}

/// Dispatch every request, in order, to the handler declaring its name,
/// and collect the generated line lists, index-aligned with the requests.
/// The first failure stops the dispatch: an unregistered name as
/// [`Error::HandlerNotFound`], a failing handler as
/// [`Error::HandlerGenerationFailed`], each carrying a discovered block
/// name.
pub fn assign_and_generate<'a>(
    requests: &[BlockRequest],
    handlers: &[&'a dyn NamedBlockHandler],
    context: &UpdateContext,
) -> (r: Result<Vec<Vec<String>>, Error>)
    ensures
        match r {
            Ok(g) => g@.len() == requests@.len() && forall|i: int|
                0 <= i < requests@.len() ==> registry_has(
                    handlers@,
                    (#[trigger] requests@[i])@.0,
                ),
            Err(e) => {
                ||| (e matches Error::HandlerNotFound(n) && exists|i: int|
                    0 <= i < requests@.len() && (#[trigger] requests@[i])@.0 == n@
                        && !registry_has(handlers@, n@) && forall|j: int|
                        0 <= j < i ==> registry_has(handlers@, (#[trigger] requests@[j])@.0))
                ||| (e matches Error::HandlerGenerationFailed(n, c) && exists|i: int|
                    0 <= i < requests@.len() && (#[trigger] requests@[i])@.0 == n@
                        && registry_has(handlers@, n@) && forall|j: int|
                        0 <= j < i ==> registry_has(handlers@, (#[trigger] requests@[j])@.0))
            },
        },
{
    let mut out: Vec<Vec<String>> = Vec::new();
    let mut i: usize = 0;
    while i < requests.len()
        invariant
            0 <= i <= requests@.len(),
            out@.len() == i,
            forall|ii: int|
                0 <= ii < i ==> registry_has(handlers@, (#[trigger] requests@[ii])@.0),
        decreases requests@.len() - i,
    {
        let req: &BlockRequest = slice_index_get(requests, i);
        let mut found: Option<usize> = None;
        let mut j: usize = 0;
        while j < handlers.len() && found.is_none()
            invariant
                0 <= j <= handlers@.len(),
                match found {
                    Some(jj) => jj < handlers@.len() && (#[trigger] handlers@[
                        jj as int
                    ]).spec_name() == req.name@,
                    None => forall|jj: int|
                        0 <= jj < j ==> (#[trigger] handlers@[jj]).spec_name() != req.name@,
                },
            decreases handlers@.len() - j,
        {
            let h: &&dyn NamedBlockHandler = slice_index_get(handlers, j);
            if str_eq(h.name(), req.name.as_str()) {
                found = Some(j);
            }
            j = j + 1;
        }
        match found {
            Some(jj) => {
                let h: &&dyn NamedBlockHandler = slice_index_get(handlers, jj);
                proof {
                    assert(handlers@[jj as int].spec_name() == requests@[i as int]@.0);
                    assert(registry_has(handlers@, requests@[i as int]@.0));
                }
                match h.generate(req.open_tag_line.as_str(), context) {
                    Ok(lines) => {
                        out.push(lines);
                    },
                    Err(e) => {
                        let cause = e.message();
                        proof {
                            assert(requests@[i as int]@.0 == req.name@);
                        }
                        return Err(Error::HandlerGenerationFailed(req.name.clone(), cause));
                    },
                }
            },
            None => {
                proof {
                    assert(!registry_has(handlers@, req.name@));
                    assert(requests@[i as int]@.0 == req.name@);
                }
                return Err(Error::HandlerNotFound(req.name.clone()));
            },
        }
        i = i + 1;
    }
    Ok(out)
}

/// Update a document through the strict registry: scan it, dispatch every
/// block in order, and render the result in one pass. Success is owed
/// only to documents whose every scanned block name is registered: a
/// scanned name with no registered handler yields
/// [`Error::HandlerNotFound`] with that name, a failing handler yields
/// [`Error::HandlerGenerationFailed`], and either way no document is
/// produced. A document without recognized blocks comes back unchanged.
pub fn update_readme<'a>(
    content: &str,
    handlers: &[&'a dyn NamedBlockHandler],
    context: &UpdateContext,
) -> (r: Result<String, Error>)
    ensures
        match r {
            Ok(out) => (exists|g: Seq<Seq<Seq<char>>>|
                g.len() == spec_scan(spec_lines(content@)).len() && out@ == spec_render(
                    content@,
                    g,
                )) && forall|i: int|
                0 <= i < spec_scan(spec_lines(content@)).len() ==> registry_has(
                    handlers@,
                    (#[trigger] spec_scan(spec_lines(content@))[i]).0,
                ),
            Err(e) => {
                ||| (e matches Error::HandlerNotFound(n) && exists|i: int|
                    0 <= i < spec_scan(spec_lines(content@)).len() && (#[trigger] spec_scan(
                        spec_lines(content@),
                    )[i]).0 == n@ && !registry_has(handlers@, n@))
                ||| (e matches Error::HandlerGenerationFailed(n, c) && exists|i: int|
                    0 <= i < spec_scan(spec_lines(content@)).len() && (#[trigger] spec_scan(
                        spec_lines(content@),
                    )[i]).0 == n@ && registry_has(handlers@, n@))
            },
        },
        spec_scan(spec_lines(content@)).len() == 0 ==> (r matches Ok(out) && out@ == content@),
{
    let requests = parse_readme_blocks(content);
    let ghost scanned = spec_scan(spec_lines(content@));
    proof {
        assert(requests@.map_values(|b: BlockRequest| b@) == scanned);
        assert forall|i: int| 0 <= i < requests@.len() implies (#[trigger] requests@[i])@
            == scanned[i] by {
            assert(requests@.map_values(|b: BlockRequest| b@)[i] == requests@[i]@);
        }
    }
    let generated = match assign_and_generate(requests.as_slice(), handlers, context) {
        Ok(g) => g,
        Err(e) => {
            return Err(e);
        },
    };
    proof {
        assert forall|i: int| 0 <= i < scanned.len() implies registry_has(
            handlers@,
            (#[trigger] scanned[i]).0,
        ) by {
            assert(registry_has(handlers@, requests@[i]@.0));
        }
    }
    let gslice = generated.as_slice();
    let out = replace_blocks_once(content, gslice);
    proof {
        let g = gslice.deep_view();
        assert(g =~= generated.deep_view());
        assert(g.len() == scanned.len());
        assert(out@ == spec_render(content@, g));
        if scanned.len() == 0 {
            lemma_scan_empty_no_open(spec_lines(content@));
            crate::render::lemma_render_identity(content@, g);
        }
    }
    Ok(out)
}

} // verus!
