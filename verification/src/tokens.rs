//! Access-token permission letters and access-control-path entries.

use vstd::prelude::*;
use vstd::string::StrSliceExecFns;
use vstd::string::StringExecFns;

verus! {

/// A malformed permission string.
#[derive(Debug, Clone, Copy, PartialEq, Eq, Structural)]
pub enum TokenError {
    /// A character other than `c`, `r`, `u` or `d`.
    InvalidPermissionChar,
    /// An empty permission string, or one longer than four characters.
    InvalidPermissionLength,
}

/// One permission letter of an access-control path.
#[derive(Debug, Clone, Copy, PartialEq, Eq, Structural)]
pub enum PermissionChar {
    Create,
    Read,
    Update,
    Delete,
}

impl PermissionChar {
    /// The letter this permission is written as.
    pub open spec fn spec_char(self) -> char {
        match self {
            PermissionChar::Create => 'c',
            PermissionChar::Read => 'r',
            PermissionChar::Update => 'u',
            PermissionChar::Delete => 'd',
        }
    }

    /// The permission a letter denotes, if any.
    pub open spec fn spec_of_char(c: char) -> Option<PermissionChar> {
        if c == 'c' {
            Some(PermissionChar::Create)
        } else if c == 'r' {
            Some(PermissionChar::Read)
        } else if c == 'u' {
            Some(PermissionChar::Update)
        } else if c == 'd' {
            Some(PermissionChar::Delete)
        } else {
            None
        }
    }

    /// Render this permission as its letter.
    pub fn as_str(&self) -> (r: &'static str)
        ensures
            r@ == seq![self.spec_char()],
    {
        proof {
            reveal_strlit("c");
            reveal_strlit("r");
            reveal_strlit("u");
            reveal_strlit("d");
        }
        let s = match self {
            PermissionChar::Create => "c",
            PermissionChar::Read => "r",
            PermissionChar::Update => "u",
            PermissionChar::Delete => "d",
        };
        proof {
            assert(s@ =~= seq![self.spec_char()]);
        }
        s
    }

    /// Parse one permission letter.
    pub fn from_char(c: char) -> (r: Result<PermissionChar, TokenError>)
        ensures
            match r {
                Ok(p) => Self::spec_of_char(c) == Some(p),
                Err(e) => Self::spec_of_char(c) is None && e
                    == TokenError::InvalidPermissionChar,
            },
    {
        if c == 'c' {
            Ok(PermissionChar::Create)
        } else if c == 'r' {
            Ok(PermissionChar::Read)
        } else if c == 'u' {
            Ok(PermissionChar::Update)
        } else if c == 'd' {
            Ok(PermissionChar::Delete)
        } else {
            Err(TokenError::InvalidPermissionChar)
        }
    }
}

/// All characters of `s` are permission letters.
pub open spec fn all_permission_chars(s: Seq<char>) -> bool {
    forall|i: int| 0 <= i < s.len() ==> PermissionChar::spec_of_char(#[trigger] s[i]) is Some
}

/// The permission part of an access-control path: one to four permission
/// letters.
#[derive(Debug, Clone)]
pub struct AccessTokenPermission {
    perm_str: String,
}

impl AccessTokenPermission {
    /// The permission letters.
    pub closed spec fn view(self) -> Seq<char> {
        self.perm_str@
    }

    /// Parse a permission string: one to four permission letters.
    pub fn from_str(s: &str) -> (r: Result<AccessTokenPermission, TokenError>)
        ensures
            match r {
                Ok(p) => {
                    &&& p.view() == s@
                    &&& 1 <= s@.len() <= 4
                    &&& all_permission_chars(s@)
                },
                Err(e) => {
                    &&& (e == TokenError::InvalidPermissionLength <==> !(1 <= s@.len() <= 4))
                    &&& (e == TokenError::InvalidPermissionChar ==> !all_permission_chars(s@))
                },
            },
    {
        let n = s.unicode_len();
        if n < 1 || n > 4 {
            return Err(TokenError::InvalidPermissionLength);
        }
        let mut out = String::new();
        let mut i: usize = 0;
        while i < n
            invariant
                i <= n,
                n == s@.len(),
                1 <= n <= 4,
                out@ == s@.take(i as int),
                forall|j: int|
                    0 <= j < i ==> PermissionChar::spec_of_char(#[trigger] s@[j]) is Some,
            decreases n - i,
        {
            let c = s.get_char(i);
            let p = match PermissionChar::from_char(c) {
                Ok(p) => p,
                Err(e) => {
                    proof {
                        assert(PermissionChar::spec_of_char(s@[i as int]) is None);
                        assert(!all_permission_chars(s@));
                    }
                    return Err(e);
                },
            };
            out.append(p.as_str());
            proof {
                assert(s@.take(i + 1) =~= s@.take(i as int).push(s@[i as int]));
                assert(out@ =~= s@.take(i + 1));
            }
            i = i + 1;
        }
        proof {
            assert(s@.take(n as int) =~= s@);
        }
        Ok(AccessTokenPermission { perm_str: out })
    }

    /// Render the permission letters.
    pub fn as_str(&self) -> (r: &str)
        ensures
            r@ == self.view(),
    {
        self.perm_str.as_str()
    }
}

/// One access-control-path entry: the permission letters, a colon, and the
/// path pattern they grant access to.
pub fn get_acp(permission: AccessTokenPermission, path_pattern: &str) -> (r: String)
    ensures
        r@ == permission.view() + ":"@ + path_pattern@,
{
    proof {
        reveal_strlit(":");
    }
    let mut out = String::new();
    out.append(permission.as_str());
    out.append(":");
    out.append(path_pattern);
    out
}

} // verus!
