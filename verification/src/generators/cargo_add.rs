//! Cargo add block generator: a fenced shell snippet.

use vstd::prelude::*;
use vstd::string::StringExecFns;

use crate::manifest::ParsedManifest;

verus! {

/// The fenced `cargo add` snippet for a crate name.
pub open spec fn cargo_add_text(name: Seq<char>) -> Seq<char> {
    "\n```sh\ncargo add "@ + name + "\n```\n"@
}

/// Generate the `cargo add` snippet as a single replacement line.
pub fn generate(manifest: &ParsedManifest) -> (r: Vec<String>)
    ensures
        r.deep_view() == seq![cargo_add_text(manifest.name@)],
{
    let text = String::from_str("\n```sh\ncargo add ").concat(manifest.name.as_str()).concat(
        "\n```\n",
    );
    let mut r: Vec<String> = Vec::new();
    r.push(text);
    proof {
        assert(r.deep_view() =~= seq![cargo_add_text(manifest.name@)]);
    }
    r
}

} // verus!
