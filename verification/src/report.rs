//! The unified diff shown for a file that changes.
use vstd::prelude::*;

use crate::text::{chars_of, push_all, string_of};

verus! {

/// The unified line diff that `similar` prints for two texts, with the given context
/// radius and file headers.
pub uninterp spec fn similar_unified_diff(
    before: Seq<char>,
    after: Seq<char>,
    radius: nat,
    old_header: Seq<char>,
    new_header: Seq<char>,
) -> Seq<char>;

/// Line diff of two texts in unified format, via `similar::TextDiff::from_lines` and
/// its `unified_diff` printer.
///
/// Trusted: the text is named by `similar_unified_diff` of the arguments; nothing more
/// is stated of its format.
#[verifier::external_body]
fn unified_line_diff(before: &str, after: &str, radius: usize, old_header: &str, new_header: &str) -> (r:
    String)
    ensures
        r@ == similar_unified_diff(before@, after@, radius as nat, old_header@, new_header@),
{
    similar::TextDiff::from_lines(before, after).unified_diff().context_radius(radius).header(
        old_header,
        new_header,
    ).to_string()
}

fn prefixed(prefix: &str, path: &str) -> (r: String)
    ensures
        r@ == prefix@ + path@,
{
    let mut c = chars_of(prefix);
    let p = chars_of(path);
    push_all(&mut c, p.as_slice());
    string_of(c.as_slice())
}

/// The unified diff of a file's text before and after normalization, with three lines of
/// context and `a/` and `b/` headers.
pub fn diff_report(path: &str, before: &str, after: &str) -> (r: String)
    ensures
        r@ == similar_unified_diff(before@, after@, 3, "a/"@ + path@, "b/"@ + path@),
{
    let old_header = prefixed("a/", path);
    let new_header = prefixed("b/", path);
    unified_line_diff(before, after, 3, old_header.as_str(), new_header.as_str())
}

} // verus!
