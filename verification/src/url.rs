//! Addresses of the registry and of peers.

use vstd::prelude::*;
use vstd::string::StringExecFns;

verus! {

pub const CRATES_API: &'static str = "https://crates.io/api/v1/crates/";

/// What the URL parser makes of a text: the URL in its normal form, or the
/// reason why the text is no URL.
pub uninterp spec fn parsed_url(text: Seq<char>) -> Result<Seq<char>, Seq<char>>;

/// What a result of two strings holds.
pub open spec fn texts_of(r: Result<String, String>) -> Result<Seq<char>, Seq<char>> {
    match r {
        Ok(a) => Ok(a@),
        Err(e) => Err(e@),
    }
}

/// Calls `reqwest::Url::parse`. Claimed of it: whether a text is a URL, the
/// normal form of the URL and the reason of a failure depend on the text
/// alone.
#[verifier::external_body]
pub(crate) fn parse_url(text: &str) -> (r: Result<String, String>)
    ensures
        texts_of(r) == parsed_url(text@),
{
    reqwest::Url::parse(text).map(|url| url.to_string()).map_err(|error| error.to_string())
}

/// The address at which the registry tells about a package.
pub open spec fn crate_url(name: Seq<char>) -> Seq<char> {
    "https://crates.io/api/v1/crates/"@ + name
}

/// The address from which the registry hands out a version of a package.
pub open spec fn download_url(name: Seq<char>, version: Seq<char>) -> Seq<char> {
    "https://crates.io/api/v1/crates/"@ + name + "/"@ + version + "/download"@
}

/// The text of the address at which the registry tells about a package.
pub fn crate_url_text(name: &str) -> (r: String)
    ensures
        r@ == crate_url(name@),
{
    String::from_str(CRATES_API).concat(name)
}

/// The text of the address from which the registry hands out a version of
/// a package.
pub fn download_url_text(name: &str, version: &str) -> (r: String)
    ensures
        r@ == download_url(name@, version@),
{
    String::from_str(CRATES_API).concat(name).concat("/").concat(version).concat("/download")
}

} // verus!
