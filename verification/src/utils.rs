//! What the tools that the workflows run hand back, and the comparison of
//! files.
use crate::error::ToolError;
use crate::text::{chars_of, string_of};
use vstd::prelude::*;

verus! {

/// Number of characters of `s` before its first line feed (the whole length
/// where it has none).
pub open spec fn first_newline(s: Seq<char>) -> nat
    decreases s.len(),
{
    if s.len() == 0 || s[0] == '\n' {
        0
    } else {
        1 + first_newline(s.drop_first())
    }
}

/// The lines of `s`: the pieces between line feeds, without a last empty
/// piece after a closing line feed.
pub open spec fn lines_of(s: Seq<char>) -> Seq<Seq<char>>
    decreases s.len(),
{
    if s.len() == 0 {
        Seq::empty()
    } else {
        let i = first_newline(s) as int;
        if i >= s.len() {
            seq![s]
        } else {
            seq![s.subrange(0, i)] + lines_of(s.subrange(i + 1, s.len() as int))
        }
    }
}

fn find_newline(v: &Vec<char>, from: usize) -> (res: usize)
    requires
        from <= v@.len(),
    ensures
        from <= res <= v@.len(),
        res - from == first_newline(v@.subrange(from as int, v@.len() as int)),
{
    let n = v.len();
    let mut k: usize = from;
    while k < n && v[k] != '\n'
        invariant
            from <= k <= n == v@.len(),
            first_newline(v@.subrange(from as int, n as int)) == (k - from) + first_newline(
                v@.subrange(k as int, n as int),
            ),
        decreases n - k,
    {
        assert(v@.subrange(k as int, n as int).drop_first() =~= v@.subrange(k + 1, n as int));
        k += 1;
    }
    k
}

/// Splits the output of a tool into its lines.
pub fn split_lines(text: &str) -> (res: Vec<String>)
    ensures
        res.deep_view() == lines_of(text@),
{
    let v = chars_of(text);
    let n = v.len();
    let mut out: Vec<String> = Vec::new();
    let mut a: usize = 0;
    assert(v@.subrange(0, n as int) =~= v@);
    assert(out.deep_view() + lines_of(v@) =~= lines_of(v@));
    while a < n
        invariant
            a <= n == v@.len(),
            out.deep_view() + lines_of(v@.subrange(a as int, n as int)) == lines_of(v@),
        decreases n - a,
    {
        let b = find_newline(&v, a);
        let ghost rest = v@.subrange(a as int, n as int);
        let ghost before = out.deep_view();
        let line = string_of(&v, a, b);
        out.push(line);
        assert(rest.subrange(0, b - a) =~= v@.subrange(a as int, b as int));
        assert(out.deep_view() =~= before.push(v@.subrange(a as int, b as int)));
        if b == n {
            assert(rest.subrange(0, b - a) =~= rest);
            assert(lines_of(rest) =~= seq![rest]);
            assert(v@.subrange(n as int, n as int).len() == 0);
            assert(out.deep_view() + lines_of(v@.subrange(n as int, n as int)) =~= before
                + lines_of(rest));
            a = n;
        } else {
            assert(rest.subrange(b - a + 1, rest.len() as int) =~= v@.subrange(b + 1, n as int));
            assert(out.deep_view() + lines_of(v@.subrange(b + 1, n as int)) =~= before + lines_of(
                rest,
            ));
            a = b + 1;
        }
    }
    assert(v@.subrange(a as int, n as int).len() == 0);
    assert(out.deep_view() + lines_of(v@.subrange(a as int, n as int)) =~= out.deep_view());
    out
}

/// What a run of an external tool amounts to: the lines that it wrote
/// where it succeeded, else a failure that holds all it said.
pub fn command_result(
    command: String,
    success: bool,
    status: String,
    stdout: String,
    stderr: String,
) -> (res: Result<Vec<String>, ToolError>)
    ensures
        res is Ok <==> success,
        res is Ok ==> res->Ok_0.deep_view() == lines_of(stdout@),
        res is Err ==> res->Err_0 == (ToolError::Command { command, status, stderr, stdout }),
{
    if success {
        Ok(split_lines(stdout.as_str()))
    } else {
        Err(ToolError::Command { command, status, stderr, stdout })
    }
}

/// Tests whether two files hold the same bytes: the same number of them
/// first, then each.
pub fn is_same(first: &[u8], second: &[u8]) -> (res: bool)
    ensures
        res == (first@ == second@),
{
    if first.len() != second.len() {
        return false;
    }
    let mut i: usize = 0;
    while i < first.len()
        invariant
            i <= first@.len() == second@.len(),
            forall|k: int| 0 <= k < i ==> first@[k] == second@[k],
        decreases first@.len() - i,
    {
        if first[i] != second[i] {
            return false;
        }
        i += 1;
    }
    assert(first@ =~= second@);
    true
}

/// What a copy that keeps symbolic links does with a file-system entry.
#[derive(Debug, Clone, Copy, PartialEq, Eq, Structural)]
pub enum CopyPlan {
    /// A symbolic link: recreated as a link, not followed.
    Link,
    /// A directory: created, then copied entry by entry.
    Descend,
    /// Anything else: copied as a file.
    CopyFile,
}

/// Decides how an entry is copied. A link stays a link whatever it leads
/// to; of the rest, directories are descended into and files are copied.
pub fn plan_copy(is_symlink: bool, is_dir: bool) -> (res: CopyPlan)
    ensures
        res == (if is_symlink {
            CopyPlan::Link
        } else if is_dir {
            CopyPlan::Descend
        } else {
            CopyPlan::CopyFile
        }),
{
    if is_symlink {
        CopyPlan::Link
    } else if is_dir {
        CopyPlan::Descend
    } else {
        CopyPlan::CopyFile
    }
}

} // verus!
