//! Merging the bundles built for several architectures into one.
use crate::error::ToolError;
use crate::macos::bundle::found;
use crate::paths::{join, joined};
use crate::text::push_text;
use vstd::prelude::*;
use vstd::string::*;

verus! {

/// What is to be merged, and where to.
#[derive(Debug)]
pub struct Options {
    /// The bundles to merge, one for each architecture.
    pub paths_in: Vec<String>,
    /// Where the merged bundle is built.
    pub out: String,
    /// Remove what is at the output path already.
    pub delete_existing_bundle: bool,
}

/// The merging run.
#[derive(Debug)]
pub struct Universal {
    pub options: Options,
}

/// Every size is that of the first.
pub open spec fn same_sizes(sizes: Seq<u64>) -> bool {
    forall|i: int| 0 <= i < sizes.len() ==> #[trigger] sizes[i] == sizes[0]
}

/// What the merge does with an entry that every input has.
#[derive(Debug, Clone, Copy, PartialEq, Eq, Structural)]
pub enum EntryPlan {
    /// Recreate the symbolic link.
    Link,
    /// Create the directory and merge its entries.
    Descend,
    /// A linked binary: compare the sizes of the files of all inputs, then
    /// decide.
    Compare,
    /// Merge the binaries of all inputs into one.
    Merge,
    /// Copy the file of the first input.
    Copy,
}

impl Universal {
    pub fn new(options: Options) -> (res: Self)
        ensures
            res.options == options,
    {
        Self { options }
    }

    /// The message for an input that is missing.
    pub open spec fn missing_message(path: Seq<char>) -> Seq<char> {
        "Path '"@ + path + "' does not exist"@
    }

    /// The message for an output path that is taken.
    pub open spec fn target_exists_message(&self) -> Seq<char> {
        "Target folder '"@ + self.options.out@ + "' already exists. Please delete it first."@
    }

    /// Checks that every input exists, given for each whether it does. The
    /// first that is missing is the error.
    pub fn check_inputs(&self, present: &Vec<bool>) -> (res: Result<(), ToolError>)
        ensures
            res is Ok <==> forall|i: int| 0 <= i < self.options.paths_in@.len() ==> found(present@, i),
            res is Err ==> exists|i: int|
                0 <= i < self.options.paths_in@.len() && !found(present@, i) && (forall|j: int|
                    0 <= j < i ==> found(present@, j)) && (res->Err_0 matches ToolError::OtherError(
                    m,
                ) && m@ == Self::missing_message(self.options.paths_in@[i]@)),
    {
        let mut i: usize = 0;
        while i < self.options.paths_in.len()
            invariant
                i <= self.options.paths_in@.len(),
                forall|j: int| 0 <= j < i ==> found(present@, j),
            decreases self.options.paths_in@.len() - i,
        {
            if !(i < present.len() && present[i]) {
                let mut m = String::from_str("Path '");
                m.append(self.options.paths_in[i].as_str());
                m.append("' does not exist");
                assert(!found(present@, i as int));
                return Err(ToolError::OtherError(m));
            }
            i += 1;
        }
        Ok(())
    }

    /// Decides what to do about the output path: nothing where it is free,
    /// removal where something is in the way and may be deleted, failure
    /// where it may not.
    pub fn check_target(&self, present: bool) -> (res: Result<bool, ToolError>)
        ensures
            res is Ok <==> !present || self.options.delete_existing_bundle,
            res is Ok ==> res->Ok_0 == present,
            res is Err ==> (res->Err_0 matches ToolError::OtherError(m) && m@
                == self.target_exists_message()),
    {
        if !present {
            Ok(false)
        } else if self.options.delete_existing_bundle {
            Ok(true)
        } else {
            let mut m = String::from_str("Target folder '");
            m.append(self.options.out.as_str());
            m.append("' already exists. Please delete it first.");
            Err(ToolError::OtherError(m))
        }
    }

    /// Tests whether the files of all inputs have one size, which is taken
    /// to mean that they are one file.
    pub fn are_files_same(sizes: &Vec<u64>) -> (res: bool)
        ensures
            res == same_sizes(sizes@),
    {
        let mut i: usize = 1;
        while i < sizes.len()
            invariant
                1 <= i,
                forall|k: int| 0 <= k < i && k < sizes@.len() ==> #[trigger] sizes@[k] == sizes@[0],
            decreases sizes@.len() - i,
        {
            if sizes[i] != sizes[0] {
                return false;
            }
            i += 1;
        }
        true
    }

    /// Where the entry `entry_name` lies in each of the inputs `paths_in`.
    pub fn entry_paths(paths_in: &Vec<String>, entry_name: &str) -> (res: Vec<String>)
        ensures
            res@.len() == paths_in@.len(),
            forall|i: int| 0 <= i < res@.len() ==> #[trigger] res@[i]@ == joined(paths_in@[i]@, entry_name@),
    {
        let mut out: Vec<String> = Vec::new();
        let mut i: usize = 0;
        while i < paths_in.len()
            invariant
                i <= paths_in@.len(),
                out@.len() == i,
                forall|k: int| 0 <= k < i ==> #[trigger] out@[k]@ == joined(paths_in@[k]@, entry_name@),
            decreases paths_in@.len() - i,
        {
            out.push(join(paths_in[i].as_str(), entry_name));
            i += 1;
        }
        out
    }

    /// Decides what to do with an entry of the first input, given for each
    /// of the `inputs` whether it has the entry. An entry that an input
    /// lacks ends the run. Of the files, linked binaries are compared before
    /// anything is done with them.
    pub fn plan_entry(
        inputs: usize,
        present: &Vec<bool>,
        is_symlink: bool,
        is_dir: bool,
        is_binary: bool,
    ) -> (res: Result<EntryPlan, ToolError>)
        ensures
            res is Ok <==> forall|i: int| 0 <= i < inputs ==> found(present@, i),
            res is Ok ==> res->Ok_0 == (if is_symlink {
                EntryPlan::Link
            } else if is_dir {
                EntryPlan::Descend
            } else if is_binary {
                EntryPlan::Compare
            } else {
                EntryPlan::Copy
            }),
            res is Err ==> res->Err_0 is BundlesNotIdentical,
    {
        let mut i: usize = 0;
        while i < inputs
            invariant
                i <= inputs,
                forall|j: int| 0 <= j < i ==> found(present@, j),
            decreases inputs - i,
        {
            if !(i < present.len() && present[i]) {
                assert(!found(present@, i as int));
                return Err(ToolError::BundlesNotIdentical);
            }
            i += 1;
        }
        if is_symlink {
            Ok(EntryPlan::Link)
        } else if is_dir {
            Ok(EntryPlan::Descend)
        } else if is_binary {
            Ok(EntryPlan::Compare)
        } else {
            Ok(EntryPlan::Copy)
        }
    }

    /// Decides what to do with a linked binary, given the sizes of the
    /// files of all inputs: files of one size are taken to be one file,
    /// which is copied; others are merged.
    pub fn plan_binary(sizes: &Vec<u64>) -> (res: EntryPlan)
        ensures
            res == (if same_sizes(sizes@) {
                EntryPlan::Copy
            } else {
                EntryPlan::Merge
            }),
    {
        if Self::are_files_same(sizes) {
            EntryPlan::Copy
        } else {
            EntryPlan::Merge
        }
    }

    /// The arguments of the tool that merges the binaries at `paths` into
    /// the one at `dest`.
    pub fn lipo_arguments(paths: &Vec<String>, dest: &str) -> (res: Vec<String>)
        ensures
            res.deep_view() == seq!["-create"@] + paths.deep_view() + seq!["-output"@, dest@],
    {
        let mut args: Vec<String> = Vec::new();
        assert(args.deep_view() =~= Seq::<Seq<char>>::empty());
        push_text(&mut args, "-create");
        let mut i: usize = 0;
        while i < paths.len()
            invariant
                i <= paths@.len(),
                args.deep_view() == seq!["-create"@] + paths.deep_view().subrange(0, i as int),
            decreases paths@.len() - i,
        {
            let ghost before = args.deep_view();
            push_text(&mut args, paths[i].as_str());
            assert(args.deep_view() =~= seq!["-create"@] + paths.deep_view().subrange(0, i + 1));
            i += 1;
        }
        assert(paths.deep_view().subrange(0, paths@.len() as int) =~= paths.deep_view());
        push_text(&mut args, "-output");
        push_text(&mut args, dest);
        assert(args.deep_view() =~= seq!["-create"@] + paths.deep_view() + seq!["-output"@, dest@]);
        args
    }
}

} // verus!
