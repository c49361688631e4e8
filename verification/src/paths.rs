//! Paths as text: components are separated by `/`. Separators at the end
//! of a path do not count; apart from that a path is taken as written.
use crate::text::{chars_of, has_prefix, matches_at, string_of};
use vstd::prelude::*;
use vstd::string::*;

verus! {

/// Index of the last `/` in `p`, or -1 where it has none.
pub open spec fn last_separator(p: Seq<char>) -> int
    decreases p.len(),
{
    if p.len() == 0 {
        -1
    } else if p.last() == '/' {
        p.len() - 1
    } else {
        last_separator(p.drop_last())
    }
}

/// `p` without the separators at its end; the root stays as it is.
pub open spec fn stripped(p: Seq<char>) -> Seq<char>
    decreases p.len(),
{
    if p.len() > 1 && p.last() == '/' {
        stripped(p.drop_last())
    } else {
        p
    }
}

/// The last component of `p`: what follows the last `/` inside it.
pub open spec fn file_name(p: Seq<char>) -> Seq<char> {
    let q = stripped(p);
    q.subrange(last_separator(q) + 1, q.len() as int)
}

/// The directory that holds `p`: what precedes the last `/` inside it, the
/// root `/` for a top-level entry. A bare name and the root itself have
/// none.
pub open spec fn parent(p: Seq<char>) -> Option<Seq<char>> {
    let q = stripped(p);
    let i = last_separator(q);
    if i < 0 || q.len() == 1 {
        None
    } else if i == 0 {
        Some(seq!['/'])
    } else {
        Some(q.subrange(0, i))
    }
}

/// `rel` appended to `base` as a further component; an absolute `rel`
/// stands for itself.
pub open spec fn joined(base: Seq<char>, rel: Seq<char>) -> Seq<char> {
    if base.len() == 0 || (rel.len() > 0 && rel[0] == '/') {
        rel
    } else if base.last() == '/' {
        base + rel
    } else {
        base + seq!['/'] + rel
    }
}

/// `path` is `root` or lies below it.
pub open spec fn is_within(path: Seq<char>, root: Seq<char>) -> bool {
    &&& has_prefix(path, root)
    &&& (path.len() == root.len() || (root.len() > 0 && root.last() == '/') || path[root.len() as int]
        == '/')
}

/// What `pathdiff::diff_paths` returns for `path` relative to `base`.
pub uninterp spec fn relative_path(path: Seq<char>, base: Seq<char>) -> Option<Seq<char>>;

/// Calls `pathdiff::diff_paths`: the relative path that leads from `base` to
/// `path`, if there is one. The contract only names the outcome.
#[verifier::external_body]
pub(crate) fn diff_paths(path: &str, base: &str) -> (res: Option<String>)
    ensures
        res is Some == relative_path(path@, base@) is Some,
        res is Some ==> res->0@ == relative_path(path@, base@)->0,
{
    match pathdiff::diff_paths(path, base) {
        Some(p) => Some(p.to_string_lossy().into_owned()),
        None => None,
    }
}

/// A `/` at `i` with none behind it is the last separator.
pub proof fn lemma_last_separator_at(p: Seq<char>, i: int)
    requires
        0 <= i < p.len(),
        p[i] == '/',
        forall|k: int| i < k < p.len() ==> #[trigger] p[k] != '/',
    ensures
        last_separator(p) == i,
    decreases p.len(),
{
    if p.last() != '/' {
        let q = p.drop_last();
        assert(q[i] == p[i]);
        assert forall|k: int| i < k < q.len() implies #[trigger] q[k] != '/' by {
            assert(q[k] == p[k]);
        }
        lemma_last_separator_at(q, i);
    }
}

/// A path without any `/` has no last separator.
pub proof fn lemma_last_separator_none(p: Seq<char>)
    requires
        forall|k: int| 0 <= k < p.len() ==> #[trigger] p[k] != '/',
    ensures
        last_separator(p) == -1,
    decreases p.len(),
{
    if p.len() > 0 {
        let q = p.drop_last();
        assert forall|k: int| 0 <= k < q.len() implies #[trigger] q[k] != '/' by {
            assert(q[k] == p[k]);
        }
        lemma_last_separator_none(q);
    }
}

/// Splitting a directory and a name apart again: the name of `dir/name` is
/// `name` and its parent is `dir`, for a non-empty `name` without `/` and
/// a non-empty `dir` that does not end in `/`.
pub proof fn lemma_split_joined(dir: Seq<char>, name: Seq<char>)
    requires
        dir.len() > 0,
        dir.last() != '/',
        name.len() > 0,
        forall|k: int| 0 <= k < name.len() ==> #[trigger] name[k] != '/',
    ensures
        file_name(dir + seq!['/'] + name) == name,
        parent(dir + seq!['/'] + name) == Some(dir),
{
    let p = dir + seq!['/'] + name;
    assert(p.last() == name.last());
    assert(stripped(p) == p);
    assert(p[dir.len() as int] == '/');
    assert forall|k: int| dir.len() < k < p.len() implies #[trigger] p[k] != '/' by {
        assert(p[k] == name[k - dir.len() - 1]);
    }
    lemma_last_separator_at(p, dir.len() as int);
    assert(p.subrange(dir.len() as int + 1, p.len() as int) =~= name);
    assert(p.subrange(0, dir.len() as int) =~= dir);
}

/// The length of `v` without the separators at its end.
pub fn stripped_length(v: &Vec<char>) -> (n: usize)
    ensures
        n <= v@.len(),
        v@.subrange(0, n as int) == stripped(v@),
{
    let mut n: usize = v.len();
    assert(v@.subrange(0, n as int) =~= v@);
    while n > 1 && v[n - 1] == '/'
        invariant
            n <= v@.len(),
            stripped(v@) == stripped(v@.subrange(0, n as int)),
        decreases n,
    {
        assert(v@.subrange(0, n as int).drop_last() =~= v@.subrange(0, n - 1));
        n -= 1;
    }
    n
}

/// Position of the last `/` in `v[..end]`.
pub fn find_last_separator(v: &Vec<char>, end: usize) -> (res: Option<usize>)
    requires
        end <= v@.len(),
    ensures
        res is None <==> last_separator(v@.subrange(0, end as int)) == -1,
        res is Some ==> res->0 == last_separator(v@.subrange(0, end as int)) && res->0 < end
            && v@[res->0 as int] == '/',
{
    let ghost p = v@.subrange(0, end as int);
    let mut i: usize = end;
    while i > 0
        invariant
            i <= end <= v@.len(),
            p == v@.subrange(0, end as int),
            forall|k: int| i <= k < end ==> #[trigger] p[k] != '/',
        decreases i,
    {
        if v[i - 1] == '/' {
            proof {
                assert(p[i - 1] == '/');
                lemma_last_separator_at(p, i - 1);
            }
            return Some(i - 1);
        }
        i -= 1;
    }
    proof {
        lemma_last_separator_none(p);
    }
    None
}

/// The last component of `path`.
pub fn name_of(path: &str) -> (res: String)
    ensures
        res@ == file_name(path@),
{
    let v = chars_of(path);
    let n = stripped_length(&v);
    let ghost q = v@.subrange(0, n as int);
    match find_last_separator(&v, n) {
        Some(i) => {
            assert(q.subrange(i + 1, n as int) =~= v@.subrange(i + 1, n as int));
            string_of(&v, i + 1, n)
        },
        None => {
            assert(q.subrange(0, n as int) =~= v@.subrange(0, n as int));
            string_of(&v, 0, n)
        },
    }
}

/// The directory that holds `path`, if it has one.
pub fn parent_of(path: &str) -> (res: Option<String>)
    ensures
        res is Some == parent(path@) is Some,
        res is Some ==> res->0@ == parent(path@)->0,
{
    let v = chars_of(path);
    let n = stripped_length(&v);
    let ghost q = v@.subrange(0, n as int);
    match find_last_separator(&v, n) {
        Some(i) => {
            if n == 1 {
                None
            } else if i == 0 {
                let root = string_of(&v, 0, 1);
                assert(root@ =~= seq!['/']);
                Some(root)
            } else {
                assert(q.subrange(0, i as int) =~= v@.subrange(0, i as int));
                Some(string_of(&v, 0, i))
            }
        },
        None => None,
    }
}

/// `rel` below `base`.
pub fn join(base: &str, rel: &str) -> (res: String)
    ensures
        res@ == joined(base@, rel@),
{
    let b = chars_of(base);
    let r = chars_of(rel);
    if b.len() == 0 || (r.len() > 0 && r[0] == '/') {
        return string_of(&r, 0, r.len());
    }
    let mut out = string_of(&b, 0, b.len());
    if b[b.len() - 1] != '/' {
        out.push('/');
    }
    let ghost head = out@;
    let mut k: usize = 0;
    while k < r.len()
        invariant
            k <= r@.len(),
            out@ == head + r@.subrange(0, k as int),
        decreases r@.len() - k,
    {
        out.push(r[k]);
        assert(out@ =~= head + r@.subrange(0, k + 1));
        k += 1;
    }
    assert(r@.subrange(0, r@.len() as int) =~= r@);
    assert(b@.push('/') =~= b@ + seq!['/']);
    out
}

/// Tests whether `path` is `root` or lies below it.
pub fn lies_within(path: &str, root: &str) -> (res: bool)
    ensures
        res == is_within(path@, root@),
{
    let p = chars_of(path);
    let r = chars_of(root);
    if !matches_at(&p, &r, 0) {
        return false;
    }
    p.len() == r.len() || (r.len() > 0 && r[r.len() - 1] == '/') || p[r.len()] == '/'
}

} // verus!
