//! Signing a self-contained bundle: which files are signed, in which order
//! of nesting, and with which arguments.
use crate::error::ToolError;
use crate::macos::bundle::{dependency_root, find_dependency_root};
use crate::paths::{file_name, join, joined, name_of, parent, parent_of};
use crate::property_list::{error_text, parse_bytes, plist_string_entries, string_entry};
use crate::text::{ends_with, has_suffix, push_text, same_text};
use vstd::prelude::*;
use vstd::string::*;

verus! {

/// What is to be signed, and as whom.
#[derive(Debug)]
pub struct Options {
    /// The self-contained bundle.
    pub bundle_path: String,
    /// The entitlements file for application bundles.
    pub entitlements: String,
    /// The identity to sign with.
    pub identity: String,
}

/// The signing run: its options and what it has signed.
#[derive(Debug)]
pub struct CodeSign {
    pub options: Options,
    /// The resolved paths that were signed, each once.
    pub done: Vec<String>,
}

/// The arguments of the signing tool for the file or bundle at `resolved`.
/// Only application bundles get the entitlements.
pub open spec fn codesign_arguments(
    options: Options,
    resolved: Seq<char>,
    is_app_bundle: bool,
) -> Seq<Seq<char>> {
    seq!["-o"@, "runtime"@, "--timestamp"@] + (if is_app_bundle {
        seq!["--entitlements"@, options.entitlements@]
    } else {
        Seq::empty()
    }) + seq!["-f"@, "-s"@, options.identity@, resolved]
}

impl CodeSign {
    pub fn new(options: Options) -> (res: Self)
        ensures
            res.options == options,
            res.done@.len() == 0,
            res.signed() == Set::<Seq<char>>::empty(),
    {
        let res = Self { options, done: Vec::new() };
        assert(res.signed() =~= Set::<Seq<char>>::empty());
        res
    }

    /// The resolved paths that were signed.
    pub open spec fn signed(&self) -> Set<Seq<char>> {
        Set::new(|p: Seq<char>| exists|i: int| 0 <= i < self.done@.len() && self.done@[i]@ == p)
    }

    /// Tests whether `resolved` was signed already.
    pub fn is_done(&self, resolved: &str) -> (res: bool)
        ensures
            res == self.signed().contains(resolved@),
    {
        let mut i: usize = 0;
        while i < self.done.len()
            invariant
                i <= self.done@.len(),
                forall|k: int| 0 <= k < i ==> self.done@[k]@ != resolved@,
            decreases self.done@.len() - i,
        {
            if same_text(self.done[i].as_str(), resolved) {
                return true;
            }
            i += 1;
        }
        false
    }

    /// Signs `resolved` unless it was signed already: gives the arguments
    /// for the signing tool and notes the path as signed.
    pub fn codesign(&mut self, resolved: String, is_app_bundle: bool) -> (res: Option<Vec<String>>)
        ensures
            res is None <==> old(self).signed().contains(resolved@),
            res is None ==> *final(self) == *old(self),
            res is Some ==> res->0.deep_view() == codesign_arguments(
                old(self).options,
                resolved@,
                is_app_bundle,
            ) && final(self).options == old(self).options && final(self).signed() == old(
                self,
            ).signed().insert(resolved@),
    {
        if self.is_done(resolved.as_str()) {
            return None;
        }
        let mut args: Vec<String> = Vec::new();
        assert(args.deep_view() =~= Seq::<Seq<char>>::empty());
        push_text(&mut args, "-o");
        push_text(&mut args, "runtime");
        push_text(&mut args, "--timestamp");
        if is_app_bundle {
            push_text(&mut args, "--entitlements");
            push_text(&mut args, self.options.entitlements.as_str());
        }
        push_text(&mut args, "-f");
        push_text(&mut args, "-s");
        push_text(&mut args, self.options.identity.as_str());
        push_text(&mut args, resolved.as_str());
        assert(args.deep_view() =~= codesign_arguments(self.options, resolved@, is_app_bundle));
        let ghost before = self.done@;
        self.done.push(resolved);
        assert(self.signed() =~= old(self).signed().insert(resolved@)) by {
            assert forall|p: Seq<char>| self.signed().contains(p) <==> old(self).signed().insert(
                resolved@,
            ).contains(p) by {
                if self.signed().contains(p) {
                    let i = choose|i: int| 0 <= i < self.done@.len() && self.done@[i]@ == p;
                    if i < before.len() {
                        assert(before[i]@ == p);
                    }
                }
                if old(self).signed().contains(p) {
                    let i = choose|i: int| 0 <= i < before.len() && before[i]@ == p;
                    assert(self.done@[i]@ == p);
                }
                if p == resolved@ {
                    assert(self.done@[before.len() as int]@ == p);
                }
            }
        }
        Some(args)
    }
}

/// `path` is `tail`, or ends with `tail` as whole components.
pub open spec fn ends_with_components(path: Seq<char>, tail: Seq<char>) -> bool {
    path == tail || has_suffix(path, seq!['/'] + tail)
}

/// The file name of `path` has the extension `ext`.
pub open spec fn has_extension(path: Seq<char>, ext: Seq<char>) -> bool {
    has_suffix(file_name(path), seq!['.'] + ext) && file_name(path).len() > ext.len() + 1
}

/// `path` lies directly inside a shared-library directory.
pub open spec fn in_framework(path: Seq<char>) -> bool {
    parent(path) is Some && ends_with_components(parent(path)->0, "Contents/Frameworks"@)
}

/// Tests whether `path` lies directly inside a shared-library directory.
pub fn is_in_framework(path: &str) -> (res: bool)
    ensures
        res == in_framework(path@),
{
    match parent_of(path) {
        None => false,
        Some(dir) => {
            proof {
                reveal_strlit("/");
                assert("/"@ =~= seq!['/']);
            }
            let mut tail = String::from_str("/");
            tail.append("Contents/Frameworks");
            same_text(dir.as_str(), "Contents/Frameworks") || ends_with(dir.as_str(), tail.as_str())
        },
    }
}

/// Tests whether `path` is a library that belongs to a framework or lies
/// loose in a shared-library directory: whether its root lies directly
/// inside such a directory.
pub fn is_framework_dylib(path: &str) -> (res: bool)
    ensures
        res == in_framework(dependency_root(path@)),
{
    let root = find_dependency_root(path);
    is_in_framework(root.as_str())
}

/// Tests whether the directory at `path` is an application bundle: it is
/// named `*.app` and holds `Contents/Info.plist`.
pub fn is_app_bundle(path: &str, has_info_plist: bool) -> (res: bool)
    ensures
        res == (has_extension(path@, "app"@) && has_info_plist),
{
    has_info_plist && extension_is(path, "app")
}

/// Tests whether the directory at `path` is a framework bundle: it is
/// named `*.framework`.
pub fn is_framework_bundle(path: &str) -> (res: bool)
    ensures
        res == has_extension(path@, "framework"@),
{
    extension_is(path, "framework")
}

/// Tests whether the file name of `path` has the extension `ext`.
pub fn extension_is(path: &str, ext: &str) -> (res: bool)
    ensures
        res == has_extension(path@, ext@),
{
    proof {
        reveal_strlit(".");
        assert("."@ =~= seq!['.']);
    }
    let name = name_of(path);
    let mut dotted = String::from_str(".");
    dotted.append(ext);
    let n = name.as_str().unicode_len();
    let d = dotted.as_str().unicode_len();
    ends_with(name.as_str(), dotted.as_str()) && n > d
}

/// The property list that names the executable of the bundle which `path`
/// would be the executable of: `Info.plist` beside the directory `MacOS`
/// that holds `path`, inside a directory `Contents`.
pub open spec fn info_plist_of(path: Seq<char>) -> Option<Seq<char>> {
    match parent(path) {
        None => None,
        Some(dir) => match parent(dir) {
            None => None,
            Some(contents) => if file_name(dir) == "MacOS"@ && file_name(contents) == "Contents"@ {
                Some(joined(contents, "Info.plist"@))
            } else {
                None
            },
        },
    }
}

/// Finds the property list to consult about the file at `path`.
pub fn info_plist_for(path: &str) -> (res: Option<String>)
    ensures
        res is Some == info_plist_of(path@) is Some,
        res is Some ==> res->0@ == info_plist_of(path@)->0,
{
    let dir = match parent_of(path) {
        Some(d) => d,
        None => {
            return None;
        },
    };
    let contents = match parent_of(dir.as_str()) {
        Some(c) => c,
        None => {
            return None;
        },
    };
    let dir_name = name_of(dir.as_str());
    let contents_name = name_of(contents.as_str());
    if same_text(dir_name.as_str(), "MacOS") && same_text(contents_name.as_str(), "Contents") {
        Some(join(contents.as_str(), "Info.plist"))
    } else {
        None
    }
}

/// The bundle that `path` would be the executable of: the directory around
/// the `Contents` that holds its `MacOS`.
pub open spec fn bundle_of(path: Seq<char>) -> Option<Seq<char>> {
    if info_plist_of(path) is Some {
        parent(parent(parent(path)->0)->0)
    } else {
        None
    }
}

/// Finds the bundle that the file at `path` would be the executable of.
pub fn bundle_for(path: &str) -> (res: Option<String>)
    ensures
        res is Some == bundle_of(path@) is Some,
        res is Some ==> res->0@ == bundle_of(path@)->0,
{
    if info_plist_for(path).is_none() {
        return None;
    }
    let dir = match parent_of(path) {
        Some(d) => d,
        None => {
            return None;
        },
    };
    let contents = match parent_of(dir.as_str()) {
        Some(c) => c,
        None => {
            return None;
        },
    };
    parent_of(contents.as_str())
}

/// Tests whether the file at `path` is the executable of an application
/// bundle, given the executable that the property list names and whether
/// the directory around `Contents` is an application bundle.
pub fn is_bundle_executable(path: &str, bundle_executable: &str, bundle_is_app: bool) -> (res: bool)
    ensures
        res == (info_plist_of(path@) is Some && bundle_executable@ == file_name(path@)
            && bundle_is_app),
{
    match info_plist_for(path) {
        None => false,
        Some(_) => {
            let name = name_of(path);
            same_text(bundle_executable, name.as_str()) && bundle_is_app
        },
    }
}

/// What the signing run does with an entry of a folder.
#[derive(Debug, Clone, Copy, PartialEq, Eq, Structural)]
pub enum FolderEntry {
    /// An application bundle: its contents first, then the bundle, with entitlements.
    AppBundle,
    /// A framework bundle: its contents first, then the bundle.
    FrameworkBundle,
    /// Any other directory: its contents.
    Folder,
    /// A linked binary to sign by itself.
    Sign,
    /// Nothing to sign here.
    Skip,
}

/// Decides what to do with an entry. Directories are told apart by their
/// names; of the files, linked binaries are signed, but for the executable
/// of a bundle and the library of a framework, which are signed with what
/// holds them.
pub fn classify_entry(
    path: &str,
    is_dir: bool,
    has_info_plist: bool,
    is_binary: bool,
    is_bundle_executable: bool,
) -> (res: FolderEntry)
    ensures
        res == (if is_dir {
            if has_extension(path@, "app"@) && has_info_plist {
                FolderEntry::AppBundle
            } else if has_extension(path@, "framework"@) {
                FolderEntry::FrameworkBundle
            } else {
                FolderEntry::Folder
            }
        } else if is_binary && !is_bundle_executable && !in_framework(dependency_root(path@)) {
            FolderEntry::Sign
        } else {
            FolderEntry::Skip
        }),
{
    if is_dir {
        if is_app_bundle(path, has_info_plist) {
            FolderEntry::AppBundle
        } else if is_framework_bundle(path) {
            FolderEntry::FrameworkBundle
        } else {
            FolderEntry::Folder
        }
    } else if is_binary && !is_bundle_executable && !is_framework_dylib(path) {
        FolderEntry::Sign
    } else {
        FolderEntry::Skip
    }
}

/// The executable that a property list names, given its entry
/// `CFBundleExecutable`. A list without that entry is malformed.
pub fn named_executable(entry: Option<String>) -> (res: Result<String, ToolError>)
    ensures
        res is Ok <==> entry is Some,
        res is Ok ==> res->Ok_0 == entry->0,
        res is Err ==> (res->Err_0 matches ToolError::OtherError(m) && m@
            == "Malformed info.plist"@),
{
    match entry {
        Some(name) => Ok(name),
        None => Err(ToolError::OtherError(String::from_str("Malformed info.plist"))),
    }
}

/// Reads the name of a bundle's executable out of `info_plist`, the
/// content of the property list at `path`.
pub fn get_bundle_executable(info_plist: &[u8], path: &str) -> (res: Result<String, ToolError>)
    ensures
        match plist_string_entries(info_plist@) {
            None => (res matches Err(ToolError::Plist { path: p, error }) && p is Some && p->0@
                == path@),
            Some(entries) => if entries.dom().contains("CFBundleExecutable"@) {
                res matches Ok(name) && name@ == entries["CFBundleExecutable"@]
            } else {
                res matches Err(ToolError::OtherError(m)) && m@ == "Malformed info.plist"@
            },
        },
{
    match parse_bytes(info_plist) {
        Err(e) => Err(ToolError::Plist { path: Some(String::from_str(path)), error: error_text(&e) }),
        Ok(value) => named_executable(string_entry(&value, "CFBundleExecutable")),
    }
}

} // verus!
