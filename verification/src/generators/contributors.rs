//! Contributors block generator: license, author, and a contributors
//! image, as one multi-line markdown fragment.

use vstd::prelude::*;
use vstd::string::StringExecFns;

use crate::manifest::ParsedManifest;

verus! {

/// Configuration of a contributors block: the author and license shown.
#[derive(Debug, Default, Clone)]
pub struct ContributorsConfig {
    pub author: String,
    pub license: String,
}

/// The contributors fragment for the given author, license and
/// repository.
pub open spec fn contributors_text(
    author: Seq<char>,
    license: Seq<char>,
    username: Seq<char>,
    repository_name: Seq<char>,
) -> Seq<char> {
    "Published under the ["@ + license + "](./LICENSE) license.\nMade by [@"@ + author
        + "](https://github.com/"@ + username + ") 💛\n<br><br>\n<a href=\"https://github.com/"@
        + username + "/"@ + repository_name
        + "/graphs/contributors\">\n<img src=\"https://contrib.rocks/image?repo="@ + username
        + "/"@ + repository_name + "\" />\n</a>"@
}

/// Generate the contributors fragment as a single replacement line.
pub fn generate(config: &ContributorsConfig, manifest: &ParsedManifest) -> (r: Vec<String>)
    ensures
        r.deep_view() == seq![
            contributors_text(
                config.author@,
                config.license@,
                manifest.username@,
                manifest.repository_name@,
            ),
        ],
{
    let text = String::from_str("Published under the [").concat(config.license.as_str()).concat(
        "](./LICENSE) license.\nMade by [@",
    ).concat(config.author.as_str()).concat("](https://github.com/").concat(
        manifest.username.as_str(),
    ).concat(") 💛\n<br><br>\n<a href=\"https://github.com/").concat(
        manifest.username.as_str(),
    ).concat("/").concat(manifest.repository_name.as_str()).concat(
        "/graphs/contributors\">\n<img src=\"https://contrib.rocks/image?repo=",
    ).concat(manifest.username.as_str()).concat("/").concat(
        manifest.repository_name.as_str(),
    ).concat("\" />\n</a>");
    let mut r: Vec<String> = Vec::new();
    r.push(text);
    proof {
        assert(r.deep_view() =~= seq![
            contributors_text(
                config.author@,
                config.license@,
                manifest.username@,
                manifest.repository_name@,
            ),
        ]);
    }
    r
}

} // verus!
