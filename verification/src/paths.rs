//! Local-filesystem path resolution, over plain values.
//!
//! The environment reads live with the caller: the current working
//! directory and the home directory come in as arguments, and paths are
//! `/`-separated strings.  A leading `~` component expands to the home
//! directory, a rooted path stands as it is, and a relative one resolves
//! `.` and `..` against the working directory's segments; empty segments
//! vanish, as component normalization does.

use vstd::prelude::*;
use vstd::string::StrSliceExecFns;
use vstd::string::StringExecFns;

use crate::dirtree::{
    filtered_segments, join_slash, join_with_root, keep_nonempty, normalize, normalize_onto,
    split_slash,
};

verus! {

/// The absolute form of a local path: `~` expanded to `home`, a rooted
/// path unchanged, a relative one resolved against `cwd`.
pub open spec fn spec_local_absolute_path(
    path: Seq<char>,
    cwd: Seq<char>,
    home: Seq<char>,
) -> Seq<char> {
    let p = if path.len() >= 1 && path[0] == '~' && (path.len() == 1 || path[1] == '/') {
        home + path.skip(1)
    } else {
        path
    };
    if p.len() > 0 && p[0] == '/' {
        p
    } else {
        seq!['/'] + join_slash(normalize(keep_nonempty(split_slash(cwd)), keep_nonempty(split_slash(p))))
    }
}

/// Resolve a local path against the given working and home directories: a
/// leading `~` component expands to `home`, a rooted path stands as it is,
/// and a relative one resolves `.` and `..` against `cwd`'s segments.
pub fn get_absolute_path(path: &str, cwd: &str, home: &str) -> (r: String)
    ensures
        r@ == spec_local_absolute_path(path@, cwd@, home@),
{
    let n = path.unicode_len();
    let tilde = n >= 1 && path.get_char(0) == '~' && (n == 1 || path.get_char(1) == '/');
    let p: String = if tilde {
        let mut h = home.to_owned();
        let rest = path.substring_char(1, n);
        h.append(rest);
        proof {
            assert(path@.subrange(1, n as int) =~= path@.skip(1));
        }
        h
    } else {
        path.to_owned()
    };
    if p.as_str().unicode_len() > 0 && p.as_str().get_char(0) == '/' {
        return p;
    }
    let base = filtered_segments(cwd);
    let rel = filtered_segments(p.as_str());
    let resolved = normalize_onto(base, &rel);
    join_with_root(&resolved)
}

} // verus!
