//! Footer block generator: the fixed auto-update notice.

use vstd::prelude::*;
use vstd::string::StringExecFns;

verus! {

/// Configuration of a footer block. The message is accepted for forward
/// compatibility; the generated footer is fixed and does not read it.
#[derive(Debug, Default, Clone)]
pub struct WithAutomdrsConfig {
    pub message: String,
}

/// The fixed auto-update footer fragment.
pub open spec fn with_automdrs_text() -> Seq<char> {
    "\n---\n\n_🛠️ auto updated with [automd-rs](https://github.com/betterhyq/automd-rs)_\n"@
}

/// Generate the footer fragment as a single replacement line.
pub fn generate(config: &WithAutomdrsConfig) -> (r: Vec<String>)
    ensures
        r.deep_view() == seq![with_automdrs_text()],
{
    let text = String::from_str(
        "\n---\n\n_🛠️ auto updated with [automd-rs](https://github.com/betterhyq/automd-rs)_\n",
    );
    let mut r: Vec<String> = Vec::new();
    r.push(text);
    proof {
        assert(r.deep_view() =~= seq![with_automdrs_text()]);
    }
    r
}

} // verus!
