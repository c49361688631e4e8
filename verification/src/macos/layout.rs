//! Where things lie: the unit that a dependency is copied as, its place
//! in the bundle, and what of the source bundle is mirrored.
use crate::error::ToolError;
use crate::macos::bundle::ModulePath;
use crate::paths::{
    diff_paths, file_name, is_within, join, joined, lemma_split_joined, lies_within, name_of,
    parent, parent_of, relative_path,
};
use crate::text::{chars_of, ends_with, has_suffix, same_text, string_of};
use vstd::prelude::*;
use vstd::string::*;

verus! {

/// A directory name that marks a framework.
pub open spec fn is_framework_name(name: Seq<char>) -> bool {
    has_suffix(name, ".framework"@)
}

/// What has to be copied as one unit for the file at `path`: the framework
/// directory that holds the file directly, else the one that holds it under
/// `Versions/<version>/`, else the file alone.
pub open spec fn dependency_root(path: Seq<char>) -> Seq<char> {
    match parent(path) {
        None => path,
        Some(dir) => if is_framework_name(file_name(dir)) {
            dir
        } else {
            match parent(dir) {
                None => path,
                Some(versions) => match parent(versions) {
                    None => path,
                    Some(framework) => if file_name(versions) == "Versions"@ && is_framework_name(
                        file_name(framework),
                    ) {
                        framework
                    } else {
                        path
                    },
                },
            }
        },
    }
}

/// Finds the unit that the file at `path` belongs to.
pub fn find_dependency_root(path: &str) -> (res: String)
    ensures
        res@ == dependency_root(path@),
{
    let v = chars_of(path);
    let whole = string_of(&v, 0, v.len());
    assert(whole@ =~= path@);
    match parent_of(path) {
        None => whole,
        Some(dir) => {
            let dir_name = name_of(dir.as_str());
            if ends_with(dir_name.as_str(), ".framework") {
                return dir;
            }
            match parent_of(dir.as_str()) {
                None => whole,
                Some(versions) => match parent_of(versions.as_str()) {
                    None => whole,
                    Some(framework) => {
                        let versions_name = name_of(versions.as_str());
                        let framework_name = name_of(framework.as_str());
                        if same_text(versions_name.as_str(), "Versions") && ends_with(
                            framework_name.as_str(),
                            ".framework",
                        ) {
                            framework
                        } else {
                            whole
                        }
                    },
                },
            }
        },
    }
}

/// The shared-library directory of the bundle at `out_path`.
pub open spec fn frameworks_dir(out_path: Seq<char>) -> Seq<char> {
    joined(joined(out_path, "Contents"@), "Frameworks"@)
}

/// The shared-library directory of the bundle at `out_path`.
pub fn frameworks_path(out_path: &str) -> (res: String)
    ensures
        res@ == frameworks_dir(out_path@),
{
    let contents = join(out_path, "Contents");
    join(contents.as_str(), "Frameworks")
}

/// Where a resolved dependency goes inside the bundle.
#[derive(Debug)]
pub struct DependencyPlan {
    /// The file that the reference resolved to.
    pub resolved: String,
    /// The unit to copy: the file, or the framework around it.
    pub root: String,
    /// The file's path from the directory that holds the root.
    pub relative: String,
    /// The reference under which the bundle knows the dependency.
    pub new_path: ModulePath,
    /// Where the root is copied to.
    pub copy_target: String,
    /// Where the file itself then lies.
    pub target: String,
}

/// The plan for `resolved` in the bundle at `out_path`, where the root has
/// a directory around it and the file can be reached from there.
pub open spec fn plan_exists(resolved: Seq<char>) -> bool {
    &&& parent(dependency_root(resolved)) is Some
    &&& relative_path(resolved, parent(dependency_root(resolved))->0) is Some
}

/// The file's path from the directory that holds its root.
pub open spec fn plan_relative(resolved: Seq<char>) -> Seq<char> {
    relative_path(resolved, parent(dependency_root(resolved))->0)->0
}

/// The reference that the bundle gives to the file at `resolved`.
pub open spec fn plan_new_path(resolved: Seq<char>) -> Seq<char> {
    "@rpath/"@ + plan_relative(resolved)
}

impl DependencyPlan {
    /// The plan for the file at `resolved` in the bundle at `out_path`,
    /// given its root and its path from the directory that holds the root:
    /// the root goes into the shared-library directory under its own name,
    /// the file keeps its place inside the root, and the bundle refers to
    /// it by that place, from the search path on.
    pub fn new(out_path: &str, resolved: String, root: String, relative: String) -> (res: Self)
        ensures
            res.resolved == resolved,
            res.root == root,
            res.relative == relative,
            res.new_path@ == "@rpath/"@ + relative@,
            res.copy_target@ == joined(frameworks_dir(out_path@), file_name(root@)),
            res.target@ == joined(frameworks_dir(out_path@), relative@),
    {
        let mut new_path = String::from_str("@rpath/");
        new_path.append(relative.as_str());
        let frameworks = frameworks_path(out_path);
        let root_name = name_of(root.as_str());
        let copy_target = join(frameworks.as_str(), root_name.as_str());
        let target = join(frameworks.as_str(), relative.as_str());
        DependencyPlan {
            resolved,
            root,
            relative,
            new_path: ModulePath(new_path),
            copy_target,
            target,
        }
    }

    /// The plan is the one for `resolved` in the bundle at `out_path`.
    pub open spec fn is_for(&self, out_path: Seq<char>, resolved: Seq<char>) -> bool {
        &&& self.resolved@ == resolved
        &&& self.root@ == dependency_root(resolved)
        &&& self.relative@ == plan_relative(resolved)
        &&& self.new_path@ == plan_new_path(resolved)
        &&& self.copy_target@ == joined(frameworks_dir(out_path), file_name(self.root@))
        &&& self.target@ == joined(frameworks_dir(out_path), self.relative@)
    }
}

/// Plans where the dependency at `resolved` goes. Fails where the root has
/// no directory around it, or no relative path leads from there to the file.
pub fn plan_dependency(out_path: &str, resolved: String) -> (res: Result<DependencyPlan, ToolError>)
    ensures
        res is Ok <==> plan_exists(resolved@),
        res is Ok ==> res->Ok_0.is_for(out_path@, resolved@),
        res is Err ==> (res->Err_0 matches ToolError::PathResolve { path, rpaths } && path@
            == resolved@ && rpaths@.len() == 0),
{
    let root = find_dependency_root(resolved.as_str());
    let base = match parent_of(root.as_str()) {
        Some(b) => b,
        None => {
            return Err(ToolError::PathResolve { path: resolved, rpaths: Vec::new() });
        },
    };
    let relative = match diff_paths(resolved.as_str(), base.as_str()) {
        Some(r) => r,
        None => {
            return Err(ToolError::PathResolve { path: resolved, rpaths: Vec::new() });
        },
    };
    Ok(DependencyPlan::new(out_path, resolved, root, relative))
}

/// The search path to add to the executable at `target`, so that it finds
/// the shared-library directory of the bundle at `out_path` from wherever
/// the bundle lies.
pub open spec fn executable_rpath(out_path: Seq<char>, target: Seq<char>) -> Option<Seq<char>> {
    match parent(target) {
        None => None,
        Some(dir) => match relative_path(frameworks_dir(out_path), dir) {
            None => None,
            Some(rel) => Some(joined("@executable_path"@, rel)),
        },
    }
}

/// The search path that leads from an executable to the shared-library
/// directory, given the relative path from the directory of the one to the
/// other.
pub fn search_path_from(relative: &str) -> (res: String)
    ensures
        res@ == joined("@executable_path"@, relative@),
{
    join("@executable_path", relative)
}

/// Computes the search path to add to the executable at `target`.
pub fn rpath_for_executable(out_path: &str, target: &str) -> (res: Option<String>)
    ensures
        res is Some == executable_rpath(out_path@, target@) is Some,
        res is Some ==> res->0@ == executable_rpath(out_path@, target@)->0,
{
    let dir = match parent_of(target) {
        Some(d) => d,
        None => {
            return None;
        },
    };
    let frameworks = frameworks_path(out_path);
    match diff_paths(frameworks.as_str(), dir.as_str()) {
        Some(rel) => Some(search_path_from(rel.as_str())),
        None => None,
    }
}

/// Where the file at `mirror`, in the bundle being built at `out_path`, was
/// copied from: the same place in the source bundle at `source_path`.
pub open spec fn mirrored_from(source_path: Seq<char>, out_path: Seq<char>, mirror: Seq<char>) -> Option<
    Seq<char>,
> {
    match relative_path(mirror, out_path) {
        None => None,
        Some(relative) => Some(joined(source_path, relative)),
    }
}

/// Finds the file that the one at `mirror` was copied from.
pub fn source_of_mirror(source_path: &str, out_path: &str, mirror: &str) -> (res: Option<String>)
    ensures
        res is Some == mirrored_from(source_path@, out_path@, mirror@) is Some,
        res is Some ==> res->0@ == mirrored_from(source_path@, out_path@, mirror@)->0,
{
    match diff_paths(mirror, out_path) {
        Some(relative) => Some(join(source_path, relative.as_str())),
        None => None,
    }
}

/// The directory that dependencies are gathered in is not copied with the
/// rest of the bundle: an entry named `Frameworks` directly inside a
/// directory named `Contents`.
pub open spec fn reserved_bundle_path(dir: Seq<char>, entry: Seq<char>) -> bool {
    file_name(dir) == "Contents"@ && entry == "Frameworks"@
}

/// Tests whether the entry `entry_name` of the directory `src_dir` is left
/// out when the bundle is copied.
pub fn is_reserved_bundle_path(src_dir: &str, entry_name: &str) -> (res: bool)
    ensures
        res == reserved_bundle_path(src_dir@, entry_name@),
{
    let dir_name = name_of(src_dir);
    same_text(dir_name.as_str(), "Contents") && same_text(entry_name, "Frameworks")
}

/// Tests whether a symbolic link of the source stays a link in the copy:
/// it does where the copied link, resolved, leads into the bundle being
/// built, itself resolved. Otherwise the file or directory that the link
/// leads to is copied in its place.
pub fn preserves_symlink(resolved_link: &str, resolved_bundle: &str) -> (res: bool)
    ensures
        res == is_within(resolved_link@, resolved_bundle@),
{
    lies_within(resolved_link, resolved_bundle)
}

/// A file inside a versioned framework belongs to the whole framework:
/// for `<dir>/<name>/Versions/<version>/<file>`, where `<name>` ends in
/// `.framework`, the root is `<dir>/<name>`.
pub proof fn lemma_root_of_versioned_framework(
    dir: Seq<char>,
    name: Seq<char>,
    version: Seq<char>,
    file: Seq<char>,
)
    requires
        dir.len() > 0,
        dir.last() != '/',
        name.len() > 0,
        version.len() > 0,
        file.len() > 0,
        is_framework_name(name),
        !is_framework_name(version),
        forall|k: int| 0 <= k < name.len() ==> #[trigger] name[k] != '/',
        forall|k: int| 0 <= k < version.len() ==> #[trigger] version[k] != '/',
        forall|k: int| 0 <= k < file.len() ==> #[trigger] file[k] != '/',
    ensures
        dependency_root(
            dir + seq!['/'] + name + seq!['/'] + "Versions"@ + seq!['/'] + version + seq!['/'] + file,
        ) == dir + seq!['/'] + name,
{
    reveal_strlit("Versions");
    let framework = dir + seq!['/'] + name;
    let versions = framework + seq!['/'] + "Versions"@;
    let inner = versions + seq!['/'] + version;
    let path = inner + seq!['/'] + file;
    assert(framework.last() == name.last());
    assert(versions.last() == "Versions"@.last());
    assert(inner.last() == version.last());
    lemma_split_joined(dir, name);
    lemma_split_joined(framework, "Versions"@);
    lemma_split_joined(versions, version);
    lemma_split_joined(inner, file);
}

/// A file directly inside a framework directory belongs to that
/// framework: for `<dir>/<name>/<file>`, where `<name>` ends in
/// `.framework`, the root is `<dir>/<name>`.
pub proof fn lemma_root_of_flat_framework(dir: Seq<char>, name: Seq<char>, file: Seq<char>)
    requires
        dir.len() > 0,
        dir.last() != '/',
        name.len() > 0,
        file.len() > 0,
        is_framework_name(name),
        forall|k: int| 0 <= k < name.len() ==> #[trigger] name[k] != '/',
        forall|k: int| 0 <= k < file.len() ==> #[trigger] file[k] != '/',
    ensures
        dependency_root(dir + seq!['/'] + name + seq!['/'] + file) == dir + seq!['/'] + name,
{
    let framework = dir + seq!['/'] + name;
    assert(framework.last() == name.last());
    lemma_split_joined(dir, name);
    lemma_split_joined(framework, file);
}

} // verus!
