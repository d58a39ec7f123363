//! Rebasing of the resource paths a document refers to.
//!
//! A document refers to its resources by paths relative to its own location,
//! so the decoder derives the document's parent directory once and joins it
//! onto every reference. Paths are strings with `/` as the separator.

use vstd::prelude::*;
use vstd::string::StrSliceExecFns;
use vstd::string::StringExecFns;

verus! {

/// `p` without its trailing separators.
pub open spec fn strip_trailing_slashes(p: Seq<char>) -> Seq<char>
    decreases p.len(),
{
    if p.len() > 0 && p.last() == '/' {
        strip_trailing_slashes(p.drop_last())
    } else {
        p
    }
}

/// The index of the last separator of `q`, if it has one.
pub open spec fn last_slash(q: Seq<char>) -> Option<int>
    decreases q.len(),
{
    if q.len() == 0 {
        None
    } else if q.last() == '/' {
        Some(q.len() - 1)
    } else {
        last_slash(q.drop_last())
    }
}

/// The parent directory of `p`: the prefix before the final separator, the
/// trailing separators ignored. An empty path and a path of separators alone
/// (a root) have none; a bare file name has the empty parent.
pub open spec fn parent_dir_of(p: Seq<char>) -> Option<Seq<char>> {
    let q = strip_trailing_slashes(p);
    if q.len() == 0 {
        None
    } else {
        match last_slash(q) {
            None => Some(""@),
            Some(i) => if i == 0 {
                Some("/"@)
            } else {
                Some(q.subrange(0, i))
            },
        }
    }
}

/// `rel` resolved against the directory `base`: `rel` itself when it is
/// absolute or `base` is empty, otherwise the two joined with a separator.
pub open spec fn join_of(base: Seq<char>, rel: Seq<char>) -> Seq<char> {
    if rel.len() > 0 && rel[0] == '/' {
        rel
    } else if base.len() == 0 {
        rel
    } else if base.last() == '/' {
        base + rel
    } else {
        base + "/"@ + rel
    }
}

/// The parent directory of `p`, or `None` when `p` is empty or names a root.
pub fn parent_dir(p: &str) -> (r: Option<String>)
    ensures
        match r {
            Some(d) => parent_dir_of(p@) == Some(d@),
            None => parent_dir_of(p@) is None,
        },
{
    let n = p.unicode_len();
    assert(p@.subrange(0, n as int) =~= p@);
    let mut e: usize = n;
    while e > 0 && p.get_char(e - 1) == '/'
        invariant
            e <= n,
            n == p@.len(),
            strip_trailing_slashes(p@) == strip_trailing_slashes(p@.subrange(0, e as int)),
        decreases e,
    {
        assert(p@.subrange(0, e as int).drop_last() =~= p@.subrange(0, e - 1));
        e -= 1;
    }
    let ghost q = strip_trailing_slashes(p@);
    proof {
        assert(q =~= p@.subrange(0, e as int));
    }
    if e == 0 {
        return None;
    }
    let mut j: usize = e;
    while j > 0 && p.get_char(j - 1) != '/'
        invariant
            j <= e,
            e <= n,
            n == p@.len(),
            last_slash(p@.subrange(0, e as int)) == last_slash(p@.subrange(0, j as int)),
        decreases j,
    {
        assert(p@.subrange(0, j as int).drop_last() =~= p@.subrange(0, j - 1));
        j -= 1;
    }
    if j == 0 {
        assert(last_slash(q) is None);
        proof {
            reveal_strlit("");
            assert(""@ =~= Seq::<char>::empty());
        }
        Some(String::new())
    } else if j == 1 {
        assert(last_slash(q) == Some(0int));
        Some("/".to_owned())
    } else {
        assert(last_slash(q) == Some(j - 1));
        let d = p.substring_char(0, j - 1).to_owned();
        assert(q.subrange(0, j - 1) =~= p@.subrange(0, j - 1));
        Some(d)
    }
}

/// Joins `rel` onto the directory `base`.
pub fn join_path(base: &str, rel: &str) -> (r: String)
    ensures
        r@ == join_of(base@, rel@),
{
    if rel.unicode_len() > 0 && rel.get_char(0) == '/' {
        return rel.to_owned();
    }
    let bn = base.unicode_len();
    if bn == 0 {
        return rel.to_owned();
    }
    let mut s = base.to_owned();
    if base.get_char(bn - 1) != '/' {
        s.append("/");
    }
    s.append(rel);
    s
}

} // verus!
