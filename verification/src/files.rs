//! File-name helpers.

use vstd::prelude::*;
use vstd::string::StrSliceExecFns;
use vstd::string::StringExecFns;

verus! {

/// A path with its size for display: the path, and the rendered size in
/// parentheses when one is known.
pub fn get_file_str(path_str: &str, filesize: Option<u64>) -> (r: String)
    ensures
        r@ == path_str@ + match filesize {
            Some(s) => " ("@ + crate::x2str::spec_bytes_str(s) + ")"@,
            None => Seq::<char>::empty(),
        },
{
    proof {
        reveal_strlit(" (");
        reveal_strlit(")");
    }
    let mut out = path_str.to_owned();
    match filesize {
        Some(s) => {
            out.append(" (");
            let size = crate::x2str::bytes2str(s);
            out.append(size.as_str());
            out.append(")");
        },
        None => {},
    }
    proof {
        assert(out@ =~= path_str@ + match filesize {
            Some(s) => " ("@ + crate::x2str::spec_bytes_str(s) + ")"@,
            None => Seq::<char>::empty(),
        });
    }
    out
}

/// The extension of a file name: whatever follows the last dot, or the
/// whole name when it has no dot.
pub fn get_file_ext(filename: &str) -> (r: String)
    ensures
        filename@.contains('.') ==> (filename@.index_of_last('.') matches Some(i) && r@
            == filename@.skip(i + 1)),
        !filename@.contains('.') ==> r@ == filename@,
{
    let n = filename.unicode_len();
    let mut b: usize = n;
    while b > 0 && filename.get_char(b - 1) != '.'
        invariant
            b <= n,
            n == filename@.len(),
            forall|k: int| b <= k < n ==> filename@[k] != '.',
        decreases b,
    {
        b = b - 1;
    }
    proof {
        filename@.index_of_last_ensures('.');
        if b > 0 {
            assert(filename@.contains('.')) by {
                assert(filename@[b - 1] == '.');
            }
            match filename@.index_of_last('.') {
                Some(i) => {
                    assert(i == b - 1) by {
                        if i < b - 1 {
                            assert(filename@[b - 1] != '.');
                        }
                    }
                },
                None => {
                    assert(false);
                },
            }
        } else {
            if filename@.contains('.') {
                let w = choose|w: int| 0 <= w < filename@.len() && filename@[w] == '.';
                assert(false);
            }
        }
    }
    if b == 0 {
        return filename.to_owned();
    }
    let r = filename.substring_char(b, n).to_owned();
    proof {
        assert(filename@.subrange(b as int, n as int) =~= filename@.skip(b as int));
    }
    r
}

} // verus!
