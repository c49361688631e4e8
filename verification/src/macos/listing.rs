//! The dependency listing of a binary: the lines that the inspection tool
//! prints, and the references that they hold.
use crate::error::ToolError;
use crate::macos::bundle::{texts, ModulePath};
use crate::text::{chars_of, find_space, first_space, string_of, trim_bounds, trimmed};
use vstd::prelude::*;
use vstd::string::*;

verus! {

/// The link metadata of one binary: where it is and what it refers to.
#[derive(Debug)]
pub struct Module {
    pub path: String,
    pub dependencies: Vec<ModulePath>,
}

/// A module with the identity that it declares for itself.
#[derive(Debug)]
pub struct Library {
    pub module: Module,
    pub install_name: ModulePath,
}

/// The reference that a line of a dependency listing holds: the line
/// without surrounding white space, up to its first white space. A line
/// that has none inside holds no reference.
pub open spec fn module_path_of_line(line: Seq<char>) -> Option<Seq<char>> {
    let t = trimmed(line);
    let i = first_space(t);
    if i < t.len() {
        Some(t.subrange(0, i))
    } else {
        None
    }
}

/// Reads the reference at the start of one line of a dependency listing.
pub fn extract_module_path(line: &str) -> (res: Result<ModulePath, ToolError>)
    ensures
        match res {
            Ok(m) => module_path_of_line(line@) == Some(m@),
            Err(e) => module_path_of_line(line@) is None && (e matches ToolError::MalformedOutput {
                details,
            } && details@ == trimmed(line@)),
        },
{
    let v = chars_of(line);
    let (a, b) = trim_bounds(&v);
    let i = find_space(&v, a, b);
    let ghost t = trimmed(line@);
    assert(t.len() == b - a);
    if i < b {
        let m = string_of(&v, a, i);
        assert(t.subrange(0, i - a) =~= v@.subrange(a as int, i as int));
        Ok(ModulePath(m))
    } else {
        Err(ToolError::MalformedOutput { details: string_of(&v, a, b) })
    }
}

/// The lines of a listing that hold references: all but the first, which
/// names the binary that was listed.
pub open spec fn entry_lines(lines: Seq<String>) -> Seq<String> {
    if lines.len() == 0 {
        lines
    } else {
        lines.subrange(1, lines.len() as int)
    }
}

/// Every entry line of the listing holds a reference.
pub open spec fn listing_well_formed(lines: Seq<String>) -> bool {
    forall|i: int|
        0 <= i < entry_lines(lines).len() ==> module_path_of_line(
            #[trigger] entry_lines(lines)[i]@,
        ) is Some
}

/// The references that a well-formed listing holds, in order.
pub open spec fn listing_entries(lines: Seq<String>) -> Seq<Seq<char>> {
    Seq::new(entry_lines(lines).len(), |i: int| module_path_of_line(entry_lines(lines)[i]@)->0)
}

/// The entry line at `i` is the first that holds no reference.
pub open spec fn is_first_malformed(lines: Seq<String>, i: int) -> bool {
    &&& 0 <= i < entry_lines(lines).len()
    &&& module_path_of_line(entry_lines(lines)[i]@) is None
    &&& forall|j: int| 0 <= j < i ==> module_path_of_line(#[trigger] entry_lines(lines)[j]@) is Some
}

/// The first entry line that holds no reference, without surrounding
/// white space.
pub open spec fn first_malformed_line(lines: Seq<String>) -> Seq<char> {
    trimmed(entry_lines(lines)[choose|i: int| is_first_malformed(lines, i)]@)
}

/// What is reported where the listing of the binary at `path` cannot be
/// used: its first malformed entry line, or the path where it has no
/// entries.
pub open spec fn listing_failure(lines: Seq<String>, path: Seq<char>) -> Seq<char> {
    if listing_well_formed(lines) {
        path
    } else {
        first_malformed_line(lines)
    }
}

/// There is one first malformed entry line at most.
pub proof fn lemma_first_malformed_unique(lines: Seq<String>, i: int)
    requires
        is_first_malformed(lines, i),
    ensures
        (choose|j: int| is_first_malformed(lines, j)) == i,
        !listing_well_formed(lines),
{
    let j = choose|j: int| is_first_malformed(lines, j);
    assert(is_first_malformed(lines, j));
    if j < i {
        assert(module_path_of_line(entry_lines(lines)[j]@) is Some);
    }
    if i < j {
        assert(module_path_of_line(entry_lines(lines)[i]@) is Some);
    }
}

/// Reads the references out of the dependency listing of a binary. The
/// first malformed entry line is the error.
pub fn find_module_paths(lines: &Vec<String>) -> (res: Result<Vec<ModulePath>, ToolError>)
    ensures
        res is Ok <==> listing_well_formed(lines@),
        res is Ok ==> texts(res->Ok_0@) == listing_entries(lines@),
        res is Err ==> (res->Err_0 matches ToolError::MalformedOutput { details } && details@
            == first_malformed_line(lines@)),
{
    let mut out: Vec<ModulePath> = Vec::new();
    let ghost entries = entry_lines(lines@);
    let mut i: usize = 1;
    while i < lines.len()
        invariant
            1 <= i,
            entries == entry_lines(lines@),
            lines@.len() > 0 ==> i <= lines@.len(),
            lines@.len() > 0 ==> out@.len() == i - 1,
            lines@.len() == 0 ==> out@.len() == 0,
            forall|k: int|
                0 <= k < out@.len() ==> module_path_of_line(#[trigger] entries[k]@) == Some(
                    out@[k]@,
                ),
        decreases lines@.len() - i,
    {
        assert(entries[i - 1] == lines@[i as int]);
        match extract_module_path(lines[i].as_str()) {
            Ok(m) => {
                out.push(m);
            },
            Err(e) => {
                assert(is_first_malformed(lines@, i - 1));
                proof {
                    lemma_first_malformed_unique(lines@, i - 1);
                }
                return Err(e);
            },
        }
        i += 1;
    }
    assert(texts(out@) =~= listing_entries(lines@));
    Ok(out)
}

/// Reads the listing of an executable: every entry is a dependency. A
/// listing without entries is malformed.
pub fn load_executable(path: String, lines: &Vec<String>) -> (res: Result<Module, ToolError>)
    ensures
        res is Ok <==> listing_well_formed(lines@) && listing_entries(lines@).len() > 0,
        res is Ok ==> res->Ok_0.path == path && texts(res->Ok_0.dependencies@) == listing_entries(
            lines@,
        ),
        res is Err ==> (res->Err_0 matches ToolError::MalformedOutput { details } && details@
            == listing_failure(lines@, path@)),
{
    match find_module_paths(lines) {
        Ok(paths) => {
            assert(texts(paths@).len() == paths@.len());
            if paths.len() == 0 {
                Err(ToolError::MalformedOutput { details: path })
            } else {
                Ok(Module { path, dependencies: paths })
            }
        },
        Err(e) => Err(e),
    }
}

/// Reads the listing of a library: the first entry is its own identity, the
/// others are its dependencies. A listing without entries is malformed.
pub fn load_library(path: String, lines: &Vec<String>) -> (res: Result<Library, ToolError>)
    ensures
        res is Ok <==> listing_well_formed(lines@) && listing_entries(lines@).len() > 0,
        res is Ok ==> res->Ok_0.module.path == path && res->Ok_0.install_name@ == listing_entries(
            lines@,
        )[0] && texts(res->Ok_0.module.dependencies@) == listing_entries(lines@).drop_first(),
        res is Err ==> (res->Err_0 matches ToolError::MalformedOutput { details } && details@
            == listing_failure(lines@, path@)),
{
    match find_module_paths(lines) {
        Ok(paths) => {
            assert(texts(paths@).len() == paths@.len());
            if paths.len() == 0 {
                Err(ToolError::MalformedOutput { details: path })
            } else {
                let mut paths = paths;
                let ghost all = paths@;
                let install_name = paths.remove(0);
                assert(texts(all)[0] == install_name@);
                assert(texts(paths@) =~= texts(all).drop_first());
                Ok(Library { install_name, module: Module { path, dependencies: paths } })
            }
        },
        Err(e) => Err(e),
    }
}

} // verus!
