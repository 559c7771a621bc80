//! Which directory entries a run looks at.
use vstd::prelude::*;

use crate::text::{chars_of, same_chars};

verus! {

/// A file name whose extension (`Path::extension`) is `rs`: it ends in `.rs` and has at
/// least one character before that.
pub open spec fn spec_is_rust_source_name(name: Seq<char>) -> bool {
    name.len() >= 4 && name.skip(name.len() - 3) == ".rs"@
}

/// Whether a file name has the extension `rs`.
pub fn is_rust_source_name(name: &str) -> (r: bool)
    ensures
        r == spec_is_rust_source_name(name@),
{
    let c = chars_of(name);
    if c.len() < 4 {
        return false;
    }
    let n = c.len();
    let tail = crate::text::slice_chars(c.as_slice(), n - 3, n);
    let ext = chars_of(".rs");
    let r = same_chars(tail.as_slice(), ext.as_slice());
    assert(c@.subrange((n - 3) as int, n as int) =~= c@.skip(n - 3));
    r
}

/// Directories a walk does not enter: build output and version control data.
pub open spec fn spec_is_skipped_dir_name(name: Seq<char>) -> bool {
    name == "target"@ || name == ".git"@
}

/// Whether the walk skips an entry with this name.
pub fn is_skipped_dir_name(name: &str) -> (r: bool)
    ensures
        r == spec_is_skipped_dir_name(name@),
{
    let c = chars_of(name);
    let target = chars_of("target");
    let git = chars_of(".git");
    same_chars(c.as_slice(), target.as_slice()) || same_chars(c.as_slice(), git.as_slice())
}

} // verus!
