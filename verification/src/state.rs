//! The CLI's persistent local state: saved access tokens by tag, the active
//! token, and the remote working directory.  Loading and saving the state
//! file is the caller's business; this type holds and transforms the values.

use vstd::prelude::*;
use vstd::string::StrSliceExecFns;
use vstd::string::StringExecFns;

verus! {

/// Which access token requests are made with: the account's root token, or
/// a locally saved token picked by tag.
#[derive(Debug, Clone)]
pub enum ActiveToken {
    RootAccessToken,
    Tag(String),
}

impl ActiveToken {
    /// How the active token is displayed.
    pub open spec fn spec_label(self) -> Seq<char> {
        match self {
            ActiveToken::RootAccessToken => "RootAccessToken"@,
            ActiveToken::Tag(t) => "Tag("@ + t@ + ")"@,
        }
    }

    /// Render the active token for display.
    pub fn label(&self) -> (r: String)
        ensures
            r@ == self.spec_label(),
    {
        proof {
            reveal_strlit("RootAccessToken");
            reveal_strlit("Tag(");
            reveal_strlit(")");
        }
        match self {
            ActiveToken::RootAccessToken => "RootAccessToken".to_owned(),
            ActiveToken::Tag(t) => {
                let mut out = String::new();
                out.append("Tag(");
                out.append(t.as_str());
                out.append(")");
                out
            },
        }
    }
}

/// `s` without its trailing slashes.
pub open spec fn trim_end_slashes(s: Seq<char>) -> Seq<char>
    decreases s.len(),
{
    if s.len() == 0 || s.last() != '/' {
        s
    } else {
        trim_end_slashes(s.drop_last())
    }
}

/// A prefix of `s` whose remainder is all slashes, and which does not end
/// in a slash, is exactly `s` without its trailing slashes.
pub(crate) proof fn lemma_trim_end_slashes(s: Seq<char>, e: int)
    requires
        0 <= e <= s.len(),
        forall|k: int| e <= k < s.len() ==> s[k] == '/',
        e > 0 ==> s[e - 1] != '/',
    ensures
        trim_end_slashes(s) == s.take(e),
    decreases s.len(),
{
    if s.len() == 0 {
        assert(trim_end_slashes(s) =~= s.take(e));
    } else if e == s.len() {
        assert(s.last() != '/');
        assert(s.take(e) =~= s);
    } else {
        assert(s.last() == '/');
        lemma_trim_end_slashes(s.drop_last(), e);
        assert(s.drop_last().take(e) =~= s.take(e));
    }
}

/// How many of the saved tokens' tags start with `prefix`.
pub open spec fn count_tags_with_prefix(tokens: Seq<(String, String)>, prefix: Seq<char>) -> int
    decreases tokens.len(),
{
    if tokens.len() == 0 {
        0int
    } else {
        count_tags_with_prefix(tokens.drop_last(), prefix) + if has_prefix(
            tokens.last().0@,
            prefix,
        ) {
            1int
        } else {
            0int
        }
    }
}

/// `s` starts with `prefix`.
pub open spec fn has_prefix(s: Seq<char>, prefix: Seq<char>) -> bool {
    s.len() >= prefix.len() && s.take(prefix.len() as int) == prefix
}

/// Whether one string starts with another.
fn str_has_prefix(s: &str, prefix: &str) -> (r: bool)
    ensures
        r == has_prefix(s@, prefix@),
{
    let n = s.unicode_len();
    let p = prefix.unicode_len();
    if n < p {
        proof {
            assert(!has_prefix(s@, prefix@));
        }
        return false;
    }
    let mut i: usize = 0;
    while i < p
        invariant
            i <= p,
            p == prefix@.len(),
            p <= n == s@.len(),
            forall|j: int| 0 <= j < i ==> s@[j] == prefix@[j],
        decreases p - i,
    {
        if s.get_char(i) != prefix.get_char(i) {
            proof {
                assert(s@.take(p as int)[i as int] != prefix@[i as int]);
            }
            return false;
        }
        i = i + 1;
    }
    proof {
        assert(s@.take(p as int) =~= prefix@);
    }
    true
}

/// The CLI's persistent values: saved access tokens by tag, the active
/// token, and the remote working directory.
pub struct PersistentState {
    /// Saved access tokens, as (tag, token) pairs with unique tags.
    pub tokens: Vec<(String, String)>,
    pub active_token: ActiveToken,
    pub working_directory: String,
}

impl Default for PersistentState {
    /// A fresh state: no saved tokens, the root token active, the root
    /// directory selected.
    fn default() -> (r: Self)
        ensures
            r.tokens@ == Seq::<(String, String)>::empty(),
            r.active_token is RootAccessToken,
            r.working_directory@ == "/"@,
    {
        PersistentState {
            tokens: Vec::new(),
            active_token: ActiveToken::RootAccessToken,
            working_directory: "/".to_owned(),
        }
    }
}

impl PersistentState {
    /// Where the state file lives, relative to the home directory.
    pub fn get_state_filepath() -> (r: String)
        ensures
            r@ == "~/.sfs/state.json"@,
    {
        "~/.sfs/state.json".to_owned()
    }

    /// The selected remote working directory.
    pub fn get_wd(&self) -> (r: &str)
        ensures
            r@ == self.working_directory@,
    {
        self.working_directory.as_str()
    }

    /// Select a remote working directory.  Anything but the root loses its
    /// trailing slashes.  Persisting the change is the caller's business.
    pub fn set_wd(&mut self, wd: &str) -> (r: ())
        ensures
            final (self).working_directory@ == if wd@ == "/"@ {
                wd@
            } else {
                trim_end_slashes(wd@)
            },
            final (self).tokens == old(self).tokens,
            final (self).active_token == old(self).active_token,
    {
        proof {
            reveal_strlit("/");
        }
        let n = wd.unicode_len();
        if n == 1 && wd.get_char(0) == '/' {
            proof {
                assert(wd@ =~= "/"@);
            }
            self.working_directory = wd.to_owned();
            return ;
        }
        proof {
            if wd@ =~= "/"@ {
                assert(wd@.len() == 1 && wd@[0] == '/');
                assert(false);
            }
        }
        let mut e: usize = n;
        while e > 0 && wd.get_char(e - 1) == '/'
            invariant
                e <= n == wd@.len(),
                forall|k: int| e <= k < n ==> wd@[k] == '/',
            decreases e,
        {
            e = e - 1;
        }
        proof {
            lemma_trim_end_slashes(wd@, e as int);
        }
        self.working_directory = wd.substring_char(0, e).to_owned();
        proof {
            assert(wd@.subrange(0, e as int) =~= wd@.take(e as int));
        }
    }

    /// The tag a newly saved, unnamed token gets: the untitled prefix and
    /// one more than the number of untitled tags already present.
    pub fn get_untitled_token_tag(&self) -> (r: String)
        requires
            self.tokens@.len() < usize::MAX,
        ensures
            r@ == "untitled_"@ + crate::x2str::dec_str(
                count_tags_with_prefix(self.tokens@, "untitled_"@) + 1,
            ),
    {
        let prefix = "untitled_";
        let mut counter: usize = 0;
        let mut i: usize = 0;
        while i < self.tokens.len()
            invariant
                i <= self.tokens@.len() < usize::MAX,
                counter == count_tags_with_prefix(self.tokens@.take(i as int), prefix@),
                counter <= i,
            decreases self.tokens@.len() - i,
        {
            if str_has_prefix(self.tokens[i].0.as_str(), prefix) {
                counter = counter + 1;
            }
            proof {
                assert(self.tokens@.take(i + 1).drop_last() =~= self.tokens@.take(i as int));
                assert(self.tokens@.take(i + 1).last() == self.tokens@[i as int]);
            }
            i = i + 1;
        }
        proof {
            assert(self.tokens@.take(self.tokens@.len() as int) =~= self.tokens@);
        }
        let mut out = prefix.to_owned();
        let num = crate::x2str::u64_to_string((counter as u64) + 1);
        out.append(num.as_str());
        out
    }

    /// The saved token of a tag, if one exists.
    pub fn get_token(&self, tag: &str) -> (r: Option<String>)
        ensures
            match r {
                Some(t) => exists|i: int|
                    0 <= i < self.tokens@.len() && (#[trigger] self.tokens@[i]).0@ == tag@
                        && self.tokens@[i].1@ == t@,
                None => forall|i: int|
                    0 <= i < self.tokens@.len() ==> (#[trigger] self.tokens@[i]).0@ != tag@,
            },
    {
        let mut i: usize = 0;
        while i < self.tokens.len()
            invariant
                i <= self.tokens@.len(),
                forall|j: int| 0 <= j < i ==> (#[trigger] self.tokens@[j]).0@ != tag@,
            decreases self.tokens@.len() - i,
        {
            if str_equal(self.tokens[i].0.as_str(), tag) {
                return Some(self.tokens[i].1.clone());
            }
            i = i + 1;
        }
        None
    }
}

/// Whether two strings hold the same characters.
pub fn str_equal(a: &str, b: &str) -> (r: bool)
    ensures
        r == (a@ == b@),
{
    let n = a.unicode_len();
    let m = b.unicode_len();
    if n != m {
        return false;
    }
    let mut i: usize = 0;
    while i < n
        invariant
            i <= n,
            n == a@.len() == b@.len(),
            forall|j: int| 0 <= j < i ==> a@[j] == b@[j],
        decreases n - i,
    {
        if a.get_char(i) != b.get_char(i) {
            return false;
        }
        i = i + 1;
    }
    proof {
        assert(a@ =~= b@);
    }
    true
}

} // verus!
