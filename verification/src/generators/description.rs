//! Description block generator: the package description on its own line.

use vstd::prelude::*;
use vstd::string::StringExecFns;

use crate::manifest::ParsedManifest;

verus! {

/// The description fragment for a package description.
pub open spec fn description_text(description: Seq<char>) -> Seq<char> {
    "\n"@ + description + "\n"@
}

/// Generate the description fragment as a single replacement line.
pub fn generate(manifest: &ParsedManifest) -> (r: Vec<String>)
    ensures
        r.deep_view() == seq![description_text(manifest.description@)],
{
    let text = String::from_str("\n").concat(manifest.description.as_str()).concat("\n");
    let mut r: Vec<String> = Vec::new();
    r.push(text);
    proof {
        assert(r.deep_view() =~= seq![description_text(manifest.description@)]);
    }
    r
}

} // verus!
