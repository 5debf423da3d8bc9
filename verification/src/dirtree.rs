//! Remote-path arithmetic: absolute paths, splitting, joining, and the
//! options of the directory-tree display.
//!
//! Remote paths are plain `/`-separated strings; the root is `/`.

use vstd::prelude::*;
use vstd::string::StrSliceExecFns;
use vstd::string::StringExecFns;

use crate::state::str_equal;

verus! {

/// The `/`-separated segments of `s`, empty segments included: splitting
/// `"a//b"` gives `a`, an empty segment, and `b`.
pub open spec fn split_slash(s: Seq<char>) -> Seq<Seq<char>>
    decreases s.len(),
{
    if s.len() == 0 {
        seq![Seq::<char>::empty()]
    } else if s[0] == '/' {
        seq![Seq::<char>::empty()] + split_slash(s.drop_first())
    } else {
        let rest = split_slash(s.drop_first());
        seq![seq![s[0]] + rest[0]] + rest.drop_first()
    }
}

/// Splitting yields at least one segment.
pub proof fn lemma_split_slash_len(s: Seq<char>)
    ensures
        split_slash(s).len() >= 1,
    decreases s.len(),
{
    if s.len() > 0 {
        lemma_split_slash_len(s.drop_first());
    }
}

/// A segment prefixed onto the first piece of a split.
pub open spec fn prepend_seg(c: Seq<char>, ss: Seq<Seq<char>>) -> Seq<Seq<char>>
    recommends
        ss.len() >= 1,
{
    seq![c + ss[0]] + ss.drop_first()
}

/// The segments of `s` with the empty ones dropped.
pub open spec fn keep_nonempty(ss: Seq<Seq<char>>) -> Seq<Seq<char>>
    decreases ss.len(),
{
    if ss.len() == 0 {
        Seq::empty()
    } else {
        keep_nonempty(ss.drop_last()) + if ss.last().len() > 0 {
            seq![ss.last()]
        } else {
            Seq::empty()
        }
    }
}

/// One step of path normalization: `..` discards the last segment, `.`
/// changes nothing, anything else is appended.
pub open spec fn normalize_step(acc: Seq<Seq<char>>, seg: Seq<char>) -> Seq<Seq<char>> {
    if seg == ".."@ {
        if acc.len() > 0 {
            acc.drop_last()
        } else {
            acc
        }
    } else if seg == "."@ {
        acc
    } else {
        acc.push(seg)
    }
}

/// Normalization of a relative path's segments against a base segment
/// stack.
pub open spec fn normalize(acc: Seq<Seq<char>>, segs: Seq<Seq<char>>) -> Seq<Seq<char>>
    decreases segs.len(),
{
    if segs.len() == 0 {
        acc
    } else {
        normalize(normalize_step(acc, segs[0]), segs.drop_first())
    }
}

/// Segments joined with `/` between them.
pub open spec fn join_slash(ss: Seq<Seq<char>>) -> Seq<char>
    decreases ss.len(),
{
    if ss.len() == 0 {
        Seq::empty()
    } else if ss.len() == 1 {
        ss[0]
    } else {
        join_slash(ss.drop_last()) + seq!['/'] + ss.last()
    }
}

/// `s` without leading and trailing slashes.
pub open spec fn trim_slashes(s: Seq<char>) -> Seq<char>
    decreases s.len(),
{
    if s.len() == 0 {
        s
    } else if s[0] == '/' {
        trim_slashes(s.drop_first())
    } else if s.last() == '/' {
        trim_slashes(s.drop_last())
    } else {
        s
    }
}

/// The absolute form of `path` against the working directory `wd`: an
/// already absolute path stands as it is; a relative one is resolved
/// segment by segment against `wd`'s segments, `..` going up one level and
/// `.` staying, and rendered with a leading slash.
pub open spec fn spec_absolute_path(path: Seq<char>, wd: Seq<char>) -> Seq<char> {
    if path.len() > 0 && path[0] == '/' {
        path
    } else {
        seq!['/'] + join_slash(
            normalize(keep_nonempty(split_slash(wd)), split_slash(trim_slashes(path))),
        )
    }
}

/// Split a string into its `/`-separated segments.
pub(crate) fn split_on_slash(s: &str) -> (r: Vec<String>)
    ensures
        r@.map_values(|v: String| v@) == split_slash(s@),
{
    let n = s.unicode_len();
    let mut done: Vec<String> = Vec::new();
    let ghost mut doneviews: Seq<Seq<char>> = Seq::empty();
    let mut cur: String = String::new();
    proof {
        lemma_split_slash_len(s@);
        assert(s@.skip(0) =~= s@);
        assert(doneviews + prepend_seg(cur@, split_slash(s@)) =~~= split_slash(s@));
    }
    let mut k: usize = 0;
    while k < n
        invariant
            k <= n,
            n == s@.len(),
            doneviews.len() == done@.len(),
            forall|j: int| 0 <= j < done@.len() ==> (#[trigger] done@[j])@ == doneviews[j],
            split_slash(s@) == doneviews + prepend_seg(cur@, split_slash(s@.skip(k as int))),
        decreases n - k,
    {
        let ghost tail = s@.skip(k as int);
        proof {
            lemma_split_slash_len(s@.skip(k + 1));
            assert(tail.len() > 0);
            assert(tail[0] == s@[k as int]);
            assert(tail.drop_first() =~= s@.skip(k + 1));
        }
        let c = s.get_char(k);
        if c == '/' {
            proof {
                assert(split_slash(tail) =~= seq![Seq::<char>::empty()] + split_slash(
                    s@.skip(k + 1),
                ));
                assert(prepend_seg(cur@, split_slash(tail)) =~~= seq![cur@] + split_slash(
                    s@.skip(k + 1),
                ));
                doneviews = doneviews.push(cur@);
                assert(doneviews + prepend_seg(Seq::<char>::empty(), split_slash(s@.skip(k + 1)))
                    =~~= doneviews.drop_last() + (seq![cur@] + split_slash(s@.skip(k + 1))));
            }
            done.push(cur);
            cur = String::new();
        } else {
            let ghost oldcur = cur@;
            cur.push(c);
            proof {
                let rest = split_slash(s@.skip(k + 1));
                assert(split_slash(tail) =~= prepend_seg(seq![c], rest));
                assert(prepend_seg(oldcur, prepend_seg(seq![c], rest)) =~~= prepend_seg(
                    oldcur + seq![c],
                    rest,
                ));
                assert(cur@ =~= oldcur + seq![c]);
            }
        }
        k = k + 1;
    }
    proof {
        assert(s@.skip(n as int) =~= Seq::<char>::empty());
        assert(prepend_seg(cur@, split_slash(Seq::<char>::empty())) =~~= seq![cur@]);
    }
    done.push(cur);
    proof {
        assert(done@.map_values(|v: String| v@) =~= doneviews + seq![done@.last()@]);
    }
    done
}

/// Options of the directory-tree display.
pub struct PrintDirTreeOpts {
    /// File counts by directory id, shown beside each directory.
    pub file_counts: Option<Vec<(String, u32)>>,
    pub indent: usize,
    pub level: i16,
    pub print_note: bool,
    pub cwd_dir_path: String,
}

impl PrintDirTreeOpts {
    /// The stock options: two-space indent, unlimited depth, no counts, no
    /// note.
    pub fn get_default_opts() -> (r: Self)
        ensures
            r.file_counts is None,
            r.indent == 2,
            r.level == i16::MAX,
            r.print_note == false,
            r.cwd_dir_path@ == Seq::<char>::empty(),
    {
        PrintDirTreeOpts {
            file_counts: None,
            indent: 2,
            level: 32767,
            print_note: false,
            cwd_dir_path: String::new(),
        }
    }
}

/// The non-empty `/`-separated segments of a string.
pub(crate) fn filtered_segments(s: &str) -> (r: Vec<String>)
    ensures
        r@.map_values(|v: String| v@) == keep_nonempty(split_slash(s@)),
{
    let segs = split_on_slash(s);
    let mut out: Vec<String> = Vec::new();
    let ghost mut outviews: Seq<Seq<char>> = Seq::empty();
    let mut i: usize = 0;
    while i < segs.len()
        invariant
            i <= segs@.len(),
            outviews.len() == out@.len(),
            forall|j: int| 0 <= j < out@.len() ==> (#[trigger] out@[j])@ == outviews[j],
            outviews == keep_nonempty(segs@.map_values(|v: String| v@).take(i as int)),
        decreases segs@.len() - i,
    {
        let ghost pre = segs@.map_values(|v: String| v@).take(i as int);
        proof {
            assert(segs@.map_values(|v: String| v@).take(i + 1).drop_last() =~= pre);
            assert(segs@.map_values(|v: String| v@).take(i + 1).last() == segs@[i as int]@);
        }
        if segs[i].as_str().unicode_len() > 0 {
            proof {
                outviews = outviews.push(segs@[i as int]@);
            }
            out.push(segs[i].clone());
        }
        i = i + 1;
    }
    proof {
        assert(segs@.map_values(|v: String| v@).take(segs@.len() as int) =~= segs@.map_values(
            |v: String| v@,
        ));
        assert(out@.map_values(|v: String| v@) =~= outviews);
    }
    out
}

/// Fold the segments onto a base stack: `..` pops, `.` stays, anything
/// else is pushed.
pub(crate) fn normalize_onto(base: Vec<String>, segs: &Vec<String>) -> (r: Vec<String>)
    ensures
        r@.map_values(|v: String| v@) == normalize(
            base@.map_values(|v: String| v@),
            segs@.map_values(|v: String| v@),
        ),
{
    let ghost init = base@.map_values(|v: String| v@);
    let ghost all_segs = segs@.map_values(|v: String| v@);
    let mut stack = base;
    let ghost mut stackviews = init;
    proof {
        assert(all_segs.skip(0) =~= all_segs);
    }
    let mut i: usize = 0;
    while i < segs.len()
        invariant
            i <= segs@.len(),
            all_segs == segs@.map_values(|v: String| v@),
            stackviews.len() == stack@.len(),
            forall|j: int| 0 <= j < stack@.len() ==> (#[trigger] stack@[j])@ == stackviews[j],
            normalize(stackviews, all_segs.skip(i as int)) == normalize(init, all_segs),
        decreases segs@.len() - i,
    {
        let ghost tail = all_segs.skip(i as int);
        proof {
            reveal_strlit(".");
            reveal_strlit("..");
            assert(tail[0] == all_segs[i as int]);
            assert(tail.drop_first() =~= all_segs.skip(i + 1));
        }
        let seg = &segs[i];
        if str_equal(seg.as_str(), "..") {
            if stack.len() > 0 {
                proof {
                    stackviews = stackviews.drop_last();
                }
                stack.pop();
            }
        } else if str_equal(seg.as_str(), ".") {
        } else {
            proof {
                stackviews = stackviews.push(seg@);
            }
            stack.push(seg.clone());
        }
        i = i + 1;
    }
    proof {
        assert(all_segs.skip(all_segs.len() as int) =~= Seq::<Seq<char>>::empty());
        assert(stack@.map_values(|v: String| v@) =~= stackviews);
    }
    stack
}

/// Render a segment stack as an absolute path: a leading slash, then the
/// segments joined with slashes.
pub(crate) fn join_with_root(stack: &Vec<String>) -> (r: String)
    ensures
        r@ == seq!['/'] + join_slash(stack@.map_values(|v: String| v@)),
{
    proof {
        reveal_strlit("/");
    }
    let ghost stackviews = stack@.map_values(|v: String| v@);
    let mut out = "/".to_owned();
    let mut i: usize = 0;
    while i < stack.len()
        invariant
            i <= stack@.len(),
            stackviews == stack@.map_values(|v: String| v@),
            out@ == seq!['/'] + join_slash(stackviews.take(i as int)),
        decreases stack@.len() - i,
    {
        proof {
            reveal_strlit("/");
            assert(stackviews.take(i + 1).drop_last() =~= stackviews.take(i as int));
            assert(stackviews.take(i + 1).last() == stackviews[i as int]);
        }
        if i > 0 {
            out.append("/");
        }
        out.append(stack[i].as_str());
        proof {
            if i == 0 {
                assert(join_slash(stackviews.take(1)) == stackviews[0]);
            }
            assert(out@ =~= seq!['/'] + join_slash(stackviews.take(i + 1)));
        }
        i = i + 1;
    }
    proof {
        assert(stackviews.take(stackviews.len() as int) =~= stackviews);
    }
    out
}

/// Resolve a path against the working directory: an absolute path stands
/// as it is; a relative one is resolved segment by segment, `..` going up
/// one level and `.` staying.
pub fn get_absolute_path(path: &str, wd: &str) -> (r: String)
    ensures
        r@ == spec_absolute_path(path@, wd@),
{
    if path.unicode_len() > 0 && path.get_char(0) == '/' {
        return path.to_owned();
    }
    let base = filtered_segments(wd);
    let trimmed = trim_slash_ends(path);
    let rel = split_on_slash(trimmed.as_str());
    let resolved = normalize_onto(base, &rel);
    join_with_root(&resolved)
}

/// Strip leading and trailing slashes.
fn trim_slash_ends(s: &str) -> (r: String)
    ensures
        r@ == trim_slashes(s@),
{
    let n = s.unicode_len();
    let mut a: usize = 0;
    while a < n && s.get_char(a) == '/'
        invariant
            a <= n,
            n == s@.len(),
            forall|k: int| 0 <= k < a ==> s@[k] == '/',
        decreases n - a,
    {
        a = a + 1;
    }
    let mut b: usize = n;
    while b > a && s.get_char(b - 1) == '/'
        invariant
            a <= b <= n,
            n == s@.len(),
            forall|k: int| 0 <= k < a ==> s@[k] == '/',
            forall|k: int| b <= k < n ==> s@[k] == '/',
        decreases b,
    {
        b = b - 1;
    }
    let r = s.substring_char(a, b).to_owned();
    proof {
        lemma_trim_slashes(s@, a as int, b as int);
    }
    r
}

/// A middle piece that neither starts nor ends with a slash, surrounded by
/// slashes only, is exactly the string with its slash ends trimmed.
proof fn lemma_trim_slashes(s: Seq<char>, a: int, b: int)
    requires
        0 <= a <= b <= s.len(),
        forall|k: int| 0 <= k < a ==> s[k] == '/',
        forall|k: int| b <= k < s.len() ==> s[k] == '/',
        a < b ==> s[a] != '/',
        a < b ==> s[b - 1] != '/',
    ensures
        trim_slashes(s) == s.subrange(a, b),
    decreases s.len(),
{
    if s.len() == 0 {
        assert(trim_slashes(s) =~= s.subrange(a, b));
    } else if s[0] == '/' {
        if a == 0 {
            assert(b == 0 || s[a] != '/');
            assert(b == 0);
            assert(forall|k: int| 0 <= k < s.len() ==> s[k] == '/');
            lemma_all_slashes_trim_empty(s);
            assert(trim_slashes(s) =~= s.subrange(a, b));
        } else {
            lemma_trim_slashes(s.drop_first(), a - 1, b - 1);
            assert(s.drop_first().subrange(a - 1, b - 1) =~= s.subrange(a, b));
        }
    } else if s.last() == '/' {
        assert(b < s.len());
        lemma_trim_slashes(s.drop_last(), a, b);
        assert(s.drop_last().subrange(a, b) =~= s.subrange(a, b));
    } else {
        assert(a == 0 && b == s.len());
        assert(trim_slashes(s) =~= s.subrange(a, b));
    }
}

/// Trimming a string of slashes leaves nothing.
proof fn lemma_all_slashes_trim_empty(s: Seq<char>)
    requires
        forall|k: int| 0 <= k < s.len() ==> s[k] == '/',
    ensures
        trim_slashes(s) == Seq::<char>::empty(),
    decreases s.len(),
{
    if s.len() > 0 {
        lemma_all_slashes_trim_empty(s.drop_first());
    }
}

/// Split a path into its directory part and its file name at the last
/// slash: the directory part keeps the slash, and a path without any slash
/// is all directory.
pub fn split_path(path: &str) -> (r: (String, String))
    ensures
        path@.contains('/') ==> {
            &&& path@.index_of_last('/') matches Some(i) && r.0@ == path@.take(i + 1) && r.1@
                == path@.skip(i + 1)
        },
        !path@.contains('/') ==> r.0@ == path@ && r.1@.len() == 0,
{
    let n = path.unicode_len();
    let mut b: usize = n;
    while b > 0 && path.get_char(b - 1) != '/'
        invariant
            b <= n,
            n == path@.len(),
            forall|k: int| b <= k < n ==> path@[k] != '/',
        decreases b,
    {
        b = b - 1;
    }
    proof {
        path@.index_of_last_ensures('/');
        if b > 0 {
            assert(path@.contains('/')) by {
                assert(path@[b - 1] == '/');
            }
            match path@.index_of_last('/') {
                Some(i) => {
                    assert(i == b - 1) by {
                        if i < b - 1 {
                            assert(path@[b - 1] != '/');
                        }
                    }
                },
                None => {
                    assert(false);
                },
            }
        } else {
            if path@.contains('/') {
                let w = choose|w: int| 0 <= w < path@.len() && path@[w] == '/';
                assert(false);
            }
        }
    }
    if b == 0 {
        return (path.to_owned(), String::new());
    }
    let dir = path.substring_char(0, b).to_owned();
    let file = path.substring_char(b, n).to_owned();
    proof {
        assert(path@.subrange(0, b as int) =~= path@.take(b as int));
        assert(path@.subrange(b as int, n as int) =~= path@.skip(b as int));
    }
    (dir, file)
}

/// The joined segments: the first keeps everything but trailing slashes,
/// every later non-empty segment is appended after a single slash, with
/// its own slash and whitespace ends trimmed.  An empty list joins to `/`.
pub open spec fn spec_join_paths(paths: Seq<Seq<char>>) -> Seq<char>
    decreases paths.len(),
{
    if paths.len() == 0 {
        "/"@
    } else if paths.len() == 1 {
        crate::state::trim_end_slashes(paths[0])
    } else {
        let seg = trim_slashes(trim_spaces(paths.last()));
        spec_join_paths(paths.drop_last()) + if seg.len() > 0 {
            seq!['/'] + seg
        } else {
            Seq::empty()
        }
    }
}

/// `s` without leading and trailing ASCII whitespace.
pub open spec fn trim_spaces(s: Seq<char>) -> Seq<char>
    decreases s.len(),
{
    if s.len() == 0 {
        s
    } else if is_space(s[0]) {
        trim_spaces(s.drop_first())
    } else if is_space(s.last()) {
        trim_spaces(s.drop_last())
    } else {
        s
    }
}

pub open spec fn is_space(c: char) -> bool {
    c == ' ' || c == '\t' || c == '\n' || c == '\r'
}

/// Whether `c` is ASCII whitespace.
fn is_space_char(c: char) -> (r: bool)
    ensures
        r == is_space(c),
{
    c == ' ' || c == '\t' || c == '\n' || c == '\r'
}

/// Strip leading and trailing ASCII whitespace.
fn trim_space_ends(s: &str) -> (r: String)
    ensures
        r@ == trim_spaces(s@),
{
    let n = s.unicode_len();
    let mut a: usize = 0;
    while a < n && is_space_char(s.get_char(a))
        invariant
            a <= n,
            n == s@.len(),
            forall|k: int| 0 <= k < a ==> is_space(s@[k]),
        decreases n - a,
    {
        a = a + 1;
    }
    let mut b: usize = n;
    while b > a && is_space_char(s.get_char(b - 1))
        invariant
            a <= b <= n,
            n == s@.len(),
            forall|k: int| 0 <= k < a ==> is_space(s@[k]),
            forall|k: int| b <= k < n ==> is_space(s@[k]),
        decreases b,
    {
        b = b - 1;
    }
    let r = s.substring_char(a, b).to_owned();
    proof {
        lemma_trim_spaces(s@, a as int, b as int);
    }
    r
}

proof fn lemma_trim_spaces(s: Seq<char>, a: int, b: int)
    requires
        0 <= a <= b <= s.len(),
        forall|k: int| 0 <= k < a ==> is_space(s[k]),
        forall|k: int| b <= k < s.len() ==> is_space(s[k]),
        a < b ==> !is_space(s[a]),
        a < b ==> !is_space(s[b - 1]),
    ensures
        trim_spaces(s) == s.subrange(a, b),
    decreases s.len(),
{
    if s.len() == 0 {
        assert(trim_spaces(s) =~= s.subrange(a, b));
    } else if is_space(s[0]) {
        if a == 0 {
            assert(b == 0);
            assert(forall|k: int| 0 <= k < s.len() ==> is_space(s[k]));
            lemma_all_spaces_trim_empty(s);
            assert(trim_spaces(s) =~= s.subrange(a, b));
        } else {
            lemma_trim_spaces(s.drop_first(), a - 1, b - 1);
            assert(s.drop_first().subrange(a - 1, b - 1) =~= s.subrange(a, b));
        }
    } else if is_space(s.last()) {
        assert(b < s.len());
        lemma_trim_spaces(s.drop_last(), a, b);
        assert(s.drop_last().subrange(a, b) =~= s.subrange(a, b));
    } else {
        assert(a == 0 && b == s.len());
        assert(trim_spaces(s) =~= s.subrange(a, b));
    }
}

proof fn lemma_all_spaces_trim_empty(s: Seq<char>)
    requires
        forall|k: int| 0 <= k < s.len() ==> is_space(s[k]),
    ensures
        trim_spaces(s) == Seq::<char>::empty(),
    decreases s.len(),
{
    if s.len() > 0 {
        lemma_all_spaces_trim_empty(s.drop_first());
    }
}

/// Join path pieces into one path: the first piece loses its trailing
/// slashes, every later piece is trimmed of whitespace and slashes and, if
/// anything remains, appended after a single slash.
pub fn join_paths(paths: &Vec<String>) -> (r: String)
    ensures
        r@ == spec_join_paths(paths@.map_values(|v: String| v@)),
{
    proof {
        reveal_strlit("/");
    }
    let ghost views = paths@.map_values(|v: String| v@);
    if paths.len() == 0 {
        return "/".to_owned();
    }
    let mut out = trim_end_slash_string(paths[0].as_str());
    let mut i: usize = 1;
    while i < paths.len()
        invariant
            1 <= i <= paths@.len(),
            views == paths@.map_values(|v: String| v@),
            views.len() == paths@.len(),
            out@ == spec_join_paths(views.take(i as int)),
        decreases paths@.len() - i,
    {
        proof {
            reveal_strlit("/");
            assert(views.take(i + 1).drop_last() =~= views.take(i as int));
            assert(views.take(i + 1).last() == views[i as int]);
            assert(views.take(i + 1).len() >= 2);
        }
        let spaced = trim_space_ends(paths[i].as_str());
        let seg = trim_slash_ends(spaced.as_str());
        if seg.as_str().unicode_len() > 0 {
            out.append("/");
            out.append(seg.as_str());
        }
        proof {
            assert(out@ =~= spec_join_paths(views.take(i + 1)));
        }
        i = i + 1;
    }
    proof {
        assert(views.take(views.len() as int) =~= views);
    }
    out
}

/// Strip trailing slashes.
fn trim_end_slash_string(s: &str) -> (r: String)
    ensures
        r@ == crate::state::trim_end_slashes(s@),
{
    let n = s.unicode_len();
    let mut e: usize = n;
    while e > 0 && s.get_char(e - 1) == '/'
        invariant
            e <= n == s@.len(),
            forall|k: int| e <= k < n ==> s@[k] == '/',
        decreases e,
    {
        e = e - 1;
    }
    proof {
        crate::state::lemma_trim_end_slashes(s@, e as int);
    }
    let r = s.substring_char(0, e).to_owned();
    proof {
        assert(s@.subrange(0, e as int) =~= s@.take(e as int));
    }
    r
}

} // verus!
