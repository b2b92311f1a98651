//! Path arithmetic on `/`-separated SHV paths.
//!
//! A path names a node in the tree; a prefix counts as matching only
//! when the match point falls on a segment boundary.

use vstd::prelude::*;
use vstd::string::StrSliceExecFns;
use vstd::string::StringExecFns;

verus! {

/// `prefix` is a prefix of `path` ending on a segment boundary: either
/// the two are equal, or `path` continues with a `/` right after it.
pub open spec fn starts_on_boundary(prefix: Seq<char>, path: Seq<char>) -> bool {
    &&& path.len() >= prefix.len()
    &&& path.subrange(0, prefix.len() as int) == prefix
    &&& (path.len() == prefix.len() || path[prefix.len() as int] == '/')
}

/// What remains of `path` after a boundary prefix `prefix`: empty when
/// they are equal, else everything past the separating `/`.
pub open spec fn strip_on_boundary(prefix: Seq<char>, path: Seq<char>) -> Seq<char> {
    if path.len() == prefix.len() {
        Seq::empty()
    } else {
        path.subrange(prefix.len() as int + 1, path.len() as int)
    }
}

/// Decides `starts_on_boundary(prefix@, path@)`.
pub fn path_starts_on_boundary(prefix: &str, path: &str) -> (r: bool)
    ensures
        r == starts_on_boundary(prefix@, path@),
{
    let plen = prefix.unicode_len();
    let slen = path.unicode_len();
    if slen < plen {
        return false;
    }
    for i in 0..plen
        invariant
            plen == prefix@.len(),
            slen == path@.len(),
            plen <= slen,
            forall|j: int| 0 <= j < i ==> path@[j] == prefix@[j],
    {
        if path.get_char(i) != prefix.get_char(i) {
            assert(path@.subrange(0, plen as int)[i as int] == path@[i as int]);
            return false;
        }
    }
    assert(path@.subrange(0, plen as int) =~= prefix@);
    if slen == plen {
        true
    } else {
        path.get_char(plen) == '/'
    }
}

/// Computes `strip_on_boundary(prefix@, path@)`.
pub fn strip_path_on_boundary(prefix: &str, path: &str) -> (r: String)
    requires
        starts_on_boundary(prefix@, path@),
    ensures
        r@ == strip_on_boundary(prefix@, path@),
{
    let plen = prefix.unicode_len();
    let slen = path.unicode_len();
    if slen == plen {
        String::new()
    } else {
        path.substring_char(plen + 1, slen).to_owned()
    }
}

/// The index of the first `/` in `path`, or its length when it has none.
pub open spec fn is_first_slash(path: Seq<char>, i: int) -> bool {
    &&& 0 <= i <= path.len()
    &&& (i == path.len() || path[i] == '/')
    &&& forall|j: int| 0 <= j < i ==> path[j] != '/'
}

/// The leading segment of `path`: everything before the first `/`.
pub open spec fn is_first_segment(path: Seq<char>, seg: Seq<char>) -> bool {
    exists|i: int| is_first_slash(path, i) && seg == path.subrange(0, i)
}

/// Returns the leading segment of `path`.
pub fn first_segment(path: &str) -> (r: String)
    ensures
        is_first_segment(path@, r@),
{
    let slen = path.unicode_len();
    for i in 0..slen
        invariant
            slen == path@.len(),
            forall|j: int| 0 <= j < i ==> path@[j] != '/',
    {
        if path.get_char(i) == '/' {
            let r = path.substring_char(0, i).to_owned();
            assert(is_first_slash(path@, i as int));
            return r;
        }
    }
    let r = path.to_owned();
    assert(is_first_slash(path@, path@.len() as int));
    assert(r@ == path@.subrange(0, path@.len() as int));
    return r;
}

} // verus!
