//! The names of remote directory entries, and the paths built from them.
use vstd::prelude::*;
use vstd::string::*;
use crate::text::{
    chars_of, ends_with, has_prefix, has_suffix, last_segment, lemma_last_segment_is_suffix,
    lemma_trim_end_is_prefix, lemma_trim_end_keeps, lemma_trim_start_is_suffix, starts_with,
    trim_end_slashes, trim_start_slashes,
};

verus! {

/// The name of an entry that a listing of `dir` returned, relative to `dir`:
/// a listing may give names with the directory in front, with some other
/// path in front, or bare. Entries that end in `/.` or `/..`, and names that
/// come out empty, `.` or `..`, are none of the directory's own.
pub open spec fn entry_name(dir: Seq<char>, entry: Seq<char>) -> Option<Seq<char>> {
    if ends_with(entry, "/."@) || ends_with(entry, "/.."@) {
        None
    } else {
        let name = if starts_with(entry, dir) {
            trim_start_slashes(entry.skip(dir.len() as int))
        } else if entry.contains('/') {
            last_segment(entry)
        } else {
            entry
        };
        if name.len() == 0 || name == "."@ || name == ".."@ {
            None
        } else {
            Some(name)
        }
    }
}

/// The path of the entry `name` of `dir`: `dir` without trailing slashes,
/// a slash, and the name.
pub open spec fn child_path(dir: Seq<char>, name: Seq<char>) -> Seq<char> {
    trim_end_slashes(dir) + seq!['/'] + name
}

/// `path` lies strictly inside the directory `root`: it begins with `root`
/// (without trailing slashes) and one slash, and goes on with a character
/// other than a slash.
pub open spec fn within(root: Seq<char>, path: Seq<char>) -> bool {
    let t = trim_end_slashes(root);
    &&& path.len() > t.len() + 1
    &&& path.subrange(0, t.len() as int) == t
    &&& path[t.len() as int] == '/'
    &&& path[t.len() as int + 1] != '/'
}

/// A name that `entry_name` gives is never empty and never begins with a
/// slash.
pub proof fn lemma_entry_name_shape(dir: Seq<char>, entry: Seq<char>)
    ensures
        entry_name(dir, entry) matches Some(n) ==> n.len() > 0 && n[0] != '/',
{
    if starts_with(entry, dir) {
        lemma_trim_start_is_suffix(entry.skip(dir.len() as int));
    } else if entry.contains('/') {
        lemma_last_segment_is_suffix(entry);
        if entry_name(dir, entry) is Some {
            let n = last_segment(entry);
            if n[0] == '/' {
                assert(n.contains('/'));
            }
        }
    } else {
        if entry_name(dir, entry) is Some && entry[0] == '/' {
            assert(entry.contains('/'));
        }
    }
}

proof fn lemma_slash_free_ends(e: Seq<char>, suffix: Seq<char>)
    requires
        !e.contains('/'),
        suffix.len() > 0,
        suffix[0] == '/',
    ensures
        !ends_with(e, suffix),
{
    if ends_with(e, suffix) {
        let k = e.len() - suffix.len();
        assert(e.subrange(k, e.len() as int)[0] == e[k]);
        assert(e[k] == '/');
    }
}

/// A listing entry that is a bare name (no slash, and not beginning with the
/// listed directory's path) is the entry's name as it is: every non-empty
/// name is kept, hidden names such as `.env` among them, except `.` and
/// `..`.
pub proof fn lemma_bare_entry_kept(dir: Seq<char>, e: Seq<char>)
    requires
        !e.contains('/'),
        !starts_with(e, dir),
    ensures
        entry_name(dir, e) == (if e.len() == 0 || e == "."@ || e == ".."@ { None::<Seq<char>> } else { Some(e) }),
{
    reveal_strlit("/.");
    reveal_strlit("/..");
    reveal_strlit(".");
    reveal_strlit("..");
    lemma_slash_free_ends(e, "/."@);
    lemma_slash_free_ends(e, "/.."@);
}

/// A listing entry that is the listed directory's path, a slash and a name
/// without slashes is that name: every non-empty name is kept, hidden names
/// among them, except `.` and `..`.
pub proof fn lemma_prefixed_entry_kept(dir: Seq<char>, n: Seq<char>)
    requires
        n.len() > 0,
        !n.contains('/'),
    ensures
        entry_name(dir, dir + seq!['/'] + n) == (if n == "."@ || n == ".."@ { None::<Seq<char>> } else { Some(n) }),
{
    reveal_strlit("/.");
    reveal_strlit("/..");
    reveal_strlit(".");
    reveal_strlit("..");
    let e = dir + seq!['/'] + n;
    let m = e.len();
    assert(e.subrange(0, dir.len() as int) =~= dir);
    let rest = e.skip(dir.len() as int);
    assert(rest =~= seq!['/'] + n);
    assert(rest.drop_first() =~= n);
    assert(n[0] != '/') by {
        if n[0] == '/' {
            assert(n.contains('/'));
        }
    }
    assert(trim_start_slashes(rest.drop_first()) == n);
    assert(trim_start_slashes(rest) == n);
    assert(forall|i: int| 0 <= i < n.len() ==> e[dir.len() + 1 + i] == #[trigger] n[i]);
    if !(n == "."@ || n == ".."@) {
        if ends_with(e, "/."@) {
            assert(e.subrange(m - 2, m as int)[0] == e[m - 2]);
            assert(e.subrange(m - 2, m as int)[1] == e[m - 1]);
            if n.len() >= 2 {
                assert(e[m - 2] == n[n.len() - 2]);
                assert(n[n.len() - 2] == '/');
                assert(n.contains('/'));
            } else {
                assert(e[m - 1] == n[0]);
                assert(n =~= "."@);
            }
        }
        if ends_with(e, "/.."@) {
            assert(m >= 3);
            assert(e.subrange(m - 3, m as int)[0] == e[m - 3]);
            assert(e.subrange(m - 3, m as int)[1] == e[m - 2]);
            assert(e.subrange(m - 3, m as int)[2] == e[m - 1]);
            if n.len() >= 3 {
                assert(e[m - 3] == n[n.len() - 3]);
                assert(n[n.len() - 3] == '/');
                assert(n.contains('/'));
            } else if n.len() == 2 {
                assert(e[m - 2] == n[0]);
                assert(e[m - 1] == n[1]);
                assert(n =~= ".."@);
            } else {
                assert(e[m - 2] == seq!['/'][0]);
            }
        }
    }
}

/// An entry of the directory `root` lies inside it.
pub proof fn lemma_child_of_root_within(root: Seq<char>, name: Seq<char>)
    requires
        name.len() > 0,
        name[0] != '/',
    ensures
        within(root, child_path(root, name)),
{
    let t = trim_end_slashes(root);
    let p = child_path(root, name);
    assert(p.subrange(0, t.len() as int) =~= t);
    assert(p[t.len() as int] == '/');
    assert(p[t.len() as int + 1] == name[0]);
}

/// An entry of a directory inside `root` lies inside `root`.
pub proof fn lemma_child_within(root: Seq<char>, dir: Seq<char>, name: Seq<char>)
    requires
        within(root, dir),
        name.len() > 0,
        name[0] != '/',
    ensures
        within(root, child_path(dir, name)),
{
    let t = trim_end_slashes(root);
    let k: int = t.len() as int + 1;
    lemma_trim_end_keeps(dir, k);
    lemma_trim_end_is_prefix(dir);
    let d = trim_end_slashes(dir);
    let p = child_path(dir, name);
    assert(d[k] == dir[k]);
    assert(d[t.len() as int] == dir[t.len() as int]);
    assert(p.subrange(0, t.len() as int) =~= dir.subrange(0, t.len() as int)) by {
        assert forall|i: int| 0 <= i < t.len() implies p[i] == dir[i] by {
            assert(p[i] == d[i]);
        }
    }
    assert(p[t.len() as int] == d[t.len() as int]);
    assert(p[k] == d[k]);
}

fn same_chars(a: &Vec<char>, b: &Vec<char>) -> (r: bool)
    ensures
        r == (a@ == b@),
{
    if a.len() != b.len() {
        return false;
    }
    let mut i: usize = 0;
    while i < a.len()
        invariant
            a.len() == b.len(),
            i <= a.len(),
            forall|j: int| 0 <= j < i ==> a@[j] == b@[j],
        decreases a.len() - i,
    {
        if a[i] != b[i] {
            return false;
        }
        i = i + 1;
    }
    assert(a@ =~= b@);
    true
}

/// The name of a listed entry of `dir`; see `entry_name`.
pub fn listed_entry_name(dir: &str, entry: &str) -> (r: Option<String>)
    ensures
        r is Some <==> entry_name(dir@, entry@) is Some,
        r matches Some(n) ==> n@ == entry_name(dir@, entry@)->0,
{
    let cs = chars_of(entry);
    let ds = chars_of(dir);
    let dot_end = chars_of("/.");
    let dotdot_end = chars_of("/..");
    if has_suffix(&cs, &dot_end) || has_suffix(&cs, &dotdot_end) {
        return None;
    }
    let n = cs.len();
    let ghost e = entry@;
    let mut start: usize;
    if has_prefix(&cs, &ds) {
        start = ds.len();
        proof {
            lemma_trim_start_is_suffix(e.skip(ds.len() as int));
        }
        while start < n && cs[start] == '/'
            invariant
                cs@ == e,
                n == e.len(),
                ds.len() <= start <= n,
                trim_start_slashes(e.skip(ds.len() as int)) == trim_start_slashes(e.skip(start as int)),
            decreases n - start,
        {
            assert(e.skip(start as int).drop_first() =~= e.skip(start + 1));
            start = start + 1;
        }
        assert(trim_start_slashes(e.skip(start as int)) == e.skip(start as int));
    } else {
        let mut k: usize = n;
        let mut found = false;
        while k > 0 && !found
            invariant
                cs@ == e,
                n == e.len(),
                k <= n,
                found ==> k > 0 && e[k - 1] == '/',
                forall|j: int| k <= j < n ==> e[j] != '/',
            decreases k + (if found { 0int } else { 1int }),
        {
            if cs[k - 1] == '/' {
                found = true;
            } else {
                k = k - 1;
            }
        }
        if found {
            assert(e.contains('/'));
            start = k;
            proof {
                lemma_last_segment_is_suffix(e);
                let l = last_segment(e);
                if l.len() == e.len() {
                    assert(e.skip(0) =~= e);
                    assert(l.contains('/')) by {
                        assert(l[k - 1] == '/');
                    }
                } else {
                    let m = e.len() - l.len() - 1;
                    if m < k - 1 {
                        assert(l[k - 1 - m - 1] == e[k - 1]);
                        assert(l.contains('/'));
                    }
                    assert(m == k - 1);
                }
                assert(l =~= e.skip(k as int));
            }
        } else {
            assert(!e.contains('/'));
            start = 0;
            assert(e.skip(0) =~= e);
        }
    }
    let name = entry.substring_char(start, n);
    let nc = chars_of(name);
    let dot = chars_of(".");
    let dotdot = chars_of("..");
    if nc.len() == 0 || same_chars(&nc, &dot) || same_chars(&nc, &dotdot) {
        return None;
    }
    Some(String::from_str(name))
}

/// The path of the entry `name` of `dir` (`child_path`).
pub fn entry_path(dir: &str, name: &str) -> (r: String)
    ensures
        r@ == child_path(dir@, name@),
{
    let ds = chars_of(dir);
    let mut k: usize = ds.len();
    assert(dir@.subrange(0, k as int) =~= dir@);
    while k > 0 && ds[k - 1] == '/'
        invariant
            ds@ == dir@,
            k <= ds.len(),
            trim_end_slashes(dir@) == trim_end_slashes(dir@.subrange(0, k as int)),
        decreases k,
    {
        assert(dir@.subrange(0, k as int).drop_last() =~= dir@.subrange(0, k - 1));
        k = k - 1;
    }
    let head = dir.substring_char(0, k);
    let mut r = String::from_str(head);
    r.append("/");
    proof {
        reveal_strlit("/");
    }
    r.append(name);
    assert(r@ =~= child_path(dir@, name@));
    r
}

} // verus!
