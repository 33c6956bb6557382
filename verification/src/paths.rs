//! Paths as text.

use vstd::prelude::*;
use vstd::string::*;

verus! {

/// A relative path below a directory. No separator is added below the empty path or
/// after one that is already there.
pub open spec fn joined(base: Seq<char>, relative: Seq<char>) -> Seq<char> {
    if base.len() == 0 {
        relative
    } else if base.last() == '/' {
        base + relative
    } else {
        base + "/"@ + relative
    }
}

/// Joins a relative path to a directory.
pub fn join(base: &str, relative: &str) -> (path: String)
    ensures
        path@ == joined(base@, relative@),
{
    let len = base.unicode_len();
    if len == 0 {
        return relative.to_owned();
    }
    let mut path = base.to_owned();
    if base.get_char(len - 1) != '/' {
        path.append("/");
    }
    path.append(relative);
    path
}

/// A path below a directory starts with the directory and ends with what was joined to it,
/// with one separator between the two, be it the directory's own.
pub proof fn joined_paths_are_below(base: Seq<char>, relative: Seq<char>)
    ensures
        base.is_prefix_of(joined(base, relative)),
        relative.is_suffix_of(joined(base, relative)),
        base.len() == 0 ==> joined(base, relative) == relative,
        base.len() > 0 ==> ({
            let path = joined(base, relative);
            &&& path[path.len() - relative.len() - 1] == '/'
            &&& path.len() - relative.len() == if base.last() == '/' {
                base.len()
            } else {
                base.len() + 1
            }
        }),
{
    reveal_strlit("/");
}

} // verus!
