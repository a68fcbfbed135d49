//! Unified diffs of two texts, made by `similar`.

use vstd::prelude::*;

verus! {

/// The number of context lines around a change of a criterion's description.
pub const DESCRIPTION_CONTEXT: usize = 5;

/// The number of context lines around a change of a document's formatting.
pub const FORMAT_CONTEXT: usize = 3;

/// The unified diff that `similar` makes of two texts by Myers' algorithm,
/// line by line, with `radius` lines of context and, where `header` names
/// the two sides, that header before the first hunk.
pub uninterp spec fn unified_diff_text(
    old_text: Seq<char>,
    new_text: Seq<char>,
    radius: usize,
    header: Option<(Seq<char>, Seq<char>)>,
) -> Seq<char>;

pub open spec fn header_view(header: Option<(&str, &str)>) -> Option<(Seq<char>, Seq<char>)> {
    match header {
        Some((a, b)) => Some((a@, b@)),
        None => None,
    }
}

/// Calls `similar::udiff::unified_diff`. Claimed of it: the text it returns
/// depends on the two texts, the radius and the header alone.
#[verifier::external_body]
pub(crate) fn unified_diff(
    old_text: &str,
    new_text: &str,
    radius: usize,
    header: Option<(&str, &str)>,
) -> (r: String)
    requires
        radius <= 1000,
    ensures
        r@ == unified_diff_text(old_text@, new_text@, radius, header_view(header)),
{
    similar::udiff::unified_diff(similar::Algorithm::Myers, old_text, new_text, radius, header)
}

} // verus!
