//! Placeholder block handler for `<!-- automdrs:contributors ... -->` in
//! the registry design: it marks where a generated contributor list will
//! stand.

use vstd::prelude::*;
use vstd::string::StringExecFns;

use crate::error::Error;
use crate::handler::UpdateContext;
use crate::registry::NamedBlockHandler;

verus! {

/// Block handler for `<!-- automdrs:contributors ... -->`.
#[derive(Debug, Default)]
pub struct ContributorsHandler;

impl NamedBlockHandler for ContributorsHandler {
    open spec fn spec_name(&self) -> Seq<char> {
        "contributors"@
    }

    fn name(&self) -> (r: &str) {
        "contributors"
    }

    fn generate(&self, open_tag_line: &str, context: &UpdateContext) -> (r: Result<
        Vec<String>,
        Error,
    >)
        ensures
            r matches Ok(v) && v.deep_view() == seq![
                "<!-- contributors list will be generated here -->"@,
            ],
    {
        let mut v: Vec<String> = Vec::new();
        v.push(String::from_str("<!-- contributors list will be generated here -->"));
        proof {
            assert(v.deep_view() =~= seq![
                "<!-- contributors list will be generated here -->"@,
            ]);
        }
        Ok(v)
    }
}

} // verus!
