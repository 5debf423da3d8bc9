//! Generated file names.

use vstd::prelude::*;
use vstd::string::StrSliceExecFns;
use vstd::string::StringExecFns;

use rand::distributions::DistString;

use crate::constants::RANDOM_FILENAME_LEN;

verus! {

/// Relies on `rand::distributions::Alphanumeric::sample_string`: a fresh
/// random string of exactly `len` alphanumeric ASCII characters.  Nothing
/// else can be said of its value.
#[verifier::external_body]
fn random_alphanumeric(len: usize) -> (r: String)
    ensures
        r@.len() == len,
{
    rand::distributions::Alphanumeric.sample_string(&mut rand::thread_rng(), len)
}

/// A fresh random file name: random alphanumeric characters and the
/// unknown-type extension.
pub fn get_random_filename() -> (r: String)
    ensures
        r@.len() == RANDOM_FILENAME_LEN + 4,
        r@.skip(RANDOM_FILENAME_LEN as int) == ".bin"@,
{
    proof {
        reveal_strlit(".bin");
    }
    let mut out = random_alphanumeric(RANDOM_FILENAME_LEN);
    out.append(".bin");
    proof {
        assert(out@.skip(RANDOM_FILENAME_LEN as int) =~= ".bin"@);
    }
    out
}

} // verus!
