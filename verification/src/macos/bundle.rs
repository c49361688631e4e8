//! Making an application bundle self-contained: link references, their
//! resolution, and the bundler that walks the dependencies of every binary.
use crate::error::ToolError;
use crate::paths::{file_name, join, joined, name_of, parent, parent_of};
use crate::text::{has_prefix, push_text, replace_all, replaced, same_text, starts_with};
use vstd::pervasive::unreached;
use vstd::prelude::*;
use vstd::std_specs::cmp::PartialEqSpecImpl;
use vstd::string::*;

pub use crate::macos::layout::{
    dependency_root, executable_rpath, find_dependency_root, frameworks_dir, frameworks_path,
    is_framework_name, is_reserved_bundle_path, mirrored_from, plan_dependency, plan_exists, plan_new_path,
    plan_relative, preserves_symlink, reserved_bundle_path, rpath_for_executable, search_path_from,
    source_of_mirror, DependencyPlan,
};
pub use crate::macos::listing::{
    entry_lines, extract_module_path, find_module_paths, first_malformed_line, listing_entries,
    listing_failure, listing_well_formed, load_executable, load_library, module_path_of_line,
    Library, Module,
};
pub use crate::macos::record::{
    covers, distinct, lemma_record_ignores_order, recorded, ProcessedLibraries,
};

verus! {

/// A reference is a system one where it starts with one of the prefixes
/// under which the operating system keeps its libraries.
pub open spec fn is_system_path(p: Seq<char>) -> bool {
    has_prefix(p, "/usr/"@) || has_prefix(p, "/lib/"@) || has_prefix(p, "/System/"@)
}

/// A link reference: an absolute path, or one that starts with the
/// `@rpath` token. Two references are equal when their text is.
#[derive(Debug)]
pub struct ModulePath(pub String);

impl View for ModulePath {
    type V = Seq<char>;

    open spec fn view(&self) -> Seq<char> {
        self.0@
    }
}

impl Clone for ModulePath {
    fn clone(&self) -> (res: Self)
        ensures
            res == *self,
    {
        ModulePath(self.0.clone())
    }
}

impl PartialEq for ModulePath {
    fn eq(&self, other: &Self) -> (res: bool) {
        self.0 == other.0
    }
}

impl PartialEqSpecImpl for ModulePath {
    open spec fn obeys_eq_spec() -> bool {
        true
    }

    open spec fn eq_spec(&self, other: &Self) -> bool {
        self.0@ == other.0@
    }
}

impl ModulePath {
    pub fn new(path: String) -> (res: Self)
        ensures
            res@ == path@,
    {
        ModulePath(path)
    }

    /// The reference as text.
    pub fn as_str(&self) -> (res: &str)
        ensures
            res@ == self@,
    {
        self.0.as_str()
    }

    /// Whether the reference names a library of the operating system.
    pub fn is_system(&self) -> (res: bool)
        ensures
            res == is_system_path(self@),
    {
        starts_with(self.0.as_str(), "/usr/") || starts_with(self.0.as_str(), "/lib/")
            || starts_with(self.0.as_str(), "/System/")
    }
}

/// The references of a sequence of link references.
pub open spec fn texts(v: Seq<ModulePath>) -> Seq<Seq<char>> {
    Seq::new(v.len(), |i: int| v[i]@)
}

/// The `k`-th place where `reference` is looked for: as written first, then
/// with the `@rpath` token replaced by each search root in turn.
pub open spec fn candidate(reference: Seq<char>, rpaths: Seq<String>, k: int) -> Seq<char> {
    if k == 0 {
        reference
    } else {
        replaced(reference, "@rpath"@, rpaths[k - 1]@)
    }
}

/// Whether the `k`-th candidate was found to exist; a candidate without an
/// answer counts as missing.
pub open spec fn found(exists: Seq<bool>, k: int) -> bool {
    0 <= k < exists.len() && exists[k]
}

/// Turns link references into paths of files, by a list of search roots.
#[derive(Debug)]
pub struct PathResolver {
    pub rpaths: Vec<String>,
}

impl PathResolver {
    pub fn new(rpaths: Vec<String>) -> (res: Self)
        ensures
            res.rpaths == rpaths,
    {
        Self { rpaths }
    }

    /// The places to look for `path`, in the order in which they count.
    pub fn candidates(&self, path: &ModulePath) -> (res: Vec<String>)
        ensures
            res@.len() == self.rpaths@.len() + 1,
            forall|k: int| 0 <= k < res@.len() ==> #[trigger] res@[k]@ == candidate(path@, self.rpaths@, k),
    {
        let mut out: Vec<String> = Vec::new();
        out.push(path.0.clone());
        let mut i: usize = 0;
        while i < self.rpaths.len()
            invariant
                i <= self.rpaths@.len(),
                out@.len() == i + 1,
                forall|k: int| 0 <= k < out@.len() ==> #[trigger] out@[k]@ == candidate(path@, self.rpaths@, k),
            decreases self.rpaths@.len() - i,
        {
            let r = replace_all(path.0.as_str(), "@rpath", self.rpaths[i].as_str());
            out.push(r);
            i += 1;
        }
        out
    }

    /// The first candidate that counts, given for each candidate whether a
    /// file is there. Fails where none does.
    pub fn resolve(&self, path: &ModulePath, exists: &Vec<bool>) -> (res: Result<String, ToolError>)
        ensures
            res is Ok <==> resolution(path@, self.rpaths@, exists@) is Some,
            res is Ok ==> res->Ok_0@ == resolution(path@, self.rpaths@, exists@)->0,
            res is Err ==> (res->Err_0 matches ToolError::PathResolve { path: p, rpaths: r } && p@
                == path@ && r.deep_view() == self.rpaths.deep_view()),
    {
        proof {
            reveal_strlit("/");
        }
        if exists.len() > 0 && exists[0] && starts_with(path.as_str(), "/") {
            assert(is_first_hit(path@, exists@, self.rpaths@.len() as int, 0));
            proof {
                lemma_first_hit_unique(path@, exists@, self.rpaths@.len() as int, 0);
            }
            return Ok(path.0.clone());
        }
        let mut i: usize = 0;
        while i < self.rpaths.len()
            invariant
                i <= self.rpaths@.len(),
                forall|j: int| 0 <= j <= i ==> !hit(path@, exists@, j),
            decreases self.rpaths@.len() - i,
        {
            if i + 1 < exists.len() && exists[i + 1] {
                assert(is_first_hit(path@, exists@, self.rpaths@.len() as int, i + 1));
                proof {
                    lemma_first_hit_unique(path@, exists@, self.rpaths@.len() as int, i + 1);
                }
                return Ok(replace_all(path.0.as_str(), "@rpath", self.rpaths[i].as_str()));
            }
            i += 1;
        }
        let roots = copy_strings(&self.rpaths);
        Err(ToolError::PathResolve { path: path.0.clone(), rpaths: roots })
    }
}

/// An absolute path starts at the root.
pub open spec fn is_absolute(p: Seq<char>) -> bool {
    has_prefix(p, "/"@)
}

/// The `k`-th candidate counts: a file is there, and the reference as
/// written counts only where it is an absolute path.
pub open spec fn hit(reference: Seq<char>, exists: Seq<bool>, k: int) -> bool {
    found(exists, k) && (k > 0 || is_absolute(reference))
}

/// `k` is the first of the candidates 0 to `last` that counts.
pub open spec fn is_first_hit(reference: Seq<char>, exists: Seq<bool>, last: int, k: int) -> bool {
    &&& 0 <= k <= last
    &&& hit(reference, exists, k)
    &&& forall|j: int| 0 <= j < k ==> !hit(reference, exists, j)
}

/// What a reference resolves to: itself where it is an absolute path that
/// exists, else the first substitution that exists, in the order of the
/// search roots; nothing where none exists.
pub open spec fn resolution(reference: Seq<char>, rpaths: Seq<String>, exists: Seq<bool>) -> Option<
    Seq<char>,
> {
    if exists|k: int| is_first_hit(reference, exists, rpaths.len() as int, k) {
        Some(
            candidate(
                reference,
                rpaths,
                choose|k: int| is_first_hit(reference, exists, rpaths.len() as int, k),
            ),
        )
    } else {
        None
    }
}

/// There is one first candidate at most.
pub proof fn lemma_first_hit_unique(reference: Seq<char>, exists: Seq<bool>, last: int, k: int)
    requires
        is_first_hit(reference, exists, last, k),
    ensures
        (choose|j: int| is_first_hit(reference, exists, last, j)) == k,
{
    let j = choose|j: int| is_first_hit(reference, exists, last, j);
    assert(is_first_hit(reference, exists, last, j));
    if j < k {
        assert(!hit(reference, exists, j));
    }
    if k < j {
        assert(!hit(reference, exists, k));
    }
}

/// A copy of a list of strings.
pub fn copy_strings(v: &Vec<String>) -> (res: Vec<String>)
    ensures
        res.deep_view() == v.deep_view(),
{
    let mut out: Vec<String> = Vec::new();
    let mut i: usize = 0;
    while i < v.len()
        invariant
            i <= v@.len(),
            out@.len() == i,
            forall|k: int| 0 <= k < i ==> out@[k]@ == v@[k]@,
        decreases v@.len() - i,
    {
        out.push(v[i].clone());
        i += 1;
    }
    assert(out.deep_view() =~= v.deep_view());
    out
}

/// The old and new text of a list of reference changes.
pub open spec fn pairs(v: Seq<(ModulePath, ModulePath)>) -> Seq<(Seq<char>, Seq<char>)> {
    Seq::new(v.len(), |i: int| (v[i].0@, v[i].1@))
}

/// A copy of a list of reference changes.
pub fn copy_changes(v: &Vec<(ModulePath, ModulePath)>) -> (res: Vec<(ModulePath, ModulePath)>)
    ensures
        pairs(res@) == pairs(v@),
{
    let mut out: Vec<(ModulePath, ModulePath)> = Vec::new();
    let mut i: usize = 0;
    while i < v.len()
        invariant
            i <= v@.len(),
            out@.len() == i,
            forall|k: int| 0 <= k < i ==> out@[k].0@ == v@[k].0@ && out@[k].1@ == v@[k].1@,
        decreases v@.len() - i,
    {
        out.push((v[i].0.clone(), v[i].1.clone()));
        i += 1;
    }
    assert(pairs(out@) =~= pairs(v@));
    out
}

/// Some reference of `deps` is not a system one.
pub open spec fn has_local(deps: Seq<ModulePath>) -> bool {
    exists|i: int| 0 <= i < deps.len() && !is_system_path(#[trigger] deps[i]@)
}

/// Tests whether a module refers to anything outside the operating system.
pub fn has_local_dependency(deps: &Vec<ModulePath>) -> (res: bool)
    ensures
        res == has_local(deps@),
{
    let mut i: usize = 0;
    while i < deps.len()
        invariant
            i <= deps@.len(),
            forall|k: int| 0 <= k < i ==> is_system_path(#[trigger] deps@[k]@),
        decreases deps@.len() - i,
    {
        if !deps[i].is_system() {
            return true;
        }
        i += 1;
    }
    false
}

/// What is to be bundled, and where.
#[derive(Debug)]
pub struct Options {
    /// Remove the bundle in the output directory if it is there already.
    pub delete_existing_bundle: bool,
    /// The application bundle to start from.
    pub source_path: String,
    /// The directory that receives the self-contained bundle.
    pub out_dir: String,
}

/// Whose dependencies a frame walks.
#[derive(Debug)]
pub enum Owner {
    /// A binary of the bundle itself.
    Executable,
    /// A dependency that was copied into the bundle: the identity that it
    /// declares and the one that the bundle gives it.
    Library { install_name: ModulePath, new_path: ModulePath },
}

/// The walk through the dependencies of one module.
#[derive(Debug)]
pub struct Frame {
    /// Where the module lies in the bundle.
    pub target: String,
    pub dependencies: Vec<ModulePath>,
    /// The dependency that is looked at next.
    pub next: usize,
    /// The references to rewrite in the module, old and new.
    pub changes: Vec<(ModulePath, ModulePath)>,
    pub owner: Owner,
}

impl Frame {
    /// The walk is within bounds and rewrites no system reference.
    pub open spec fn wf(&self) -> bool {
        &&& self.next <= self.dependencies@.len()
        &&& forall|i: int|
            0 <= i < self.changes@.len() ==> !is_system_path((#[trigger] self.changes@[i]).0@)
    }

    /// The walk stands at a dependency that is not a system one.
    pub open spec fn waiting(&self) -> bool {
        &&& self.next < self.dependencies@.len()
        &&& !is_system_path(self.dependencies@[self.next as int]@)
    }

    /// The dependency at which the walk stands.
    pub open spec fn current(&self) -> Seq<char> {
        self.dependencies@[self.next as int]@
    }

    /// `after` is this frame one dependency further, with `change` added to
    /// the references to rewrite where there is one.
    pub open spec fn advanced(&self, after: Frame, change: Option<(Seq<char>, Seq<char>)>) -> bool {
        &&& after.target == self.target
        &&& after.dependencies == self.dependencies
        &&& after.owner == self.owner
        &&& after.next == self.next + 1
        &&& match change {
            None => after.changes == self.changes,
            Some(c) => pairs(after.changes@) == pairs(self.changes@).push(c),
        }
    }

    /// Moves on to the next dependency, noting the change from the current
    /// reference to `new_path` where the two differ.
    pub fn advance(self, new_path: &ModulePath) -> (res: Frame)
        requires
            self.wf(),
            self.waiting(),
        ensures
            res.wf(),
            self.advanced(
                res,
                if new_path@ != self.current() {
                    Some((self.current(), new_path@))
                } else {
                    None
                },
            ),
    {
        let Frame { target, dependencies, next, changes, owner } = self;
        let mut changes = changes;
        let ghost before = changes@;
        assert(next < dependencies.len());
        if !same_text(new_path.as_str(), dependencies[next].as_str()) {
            changes.push((dependencies[next].clone(), new_path.clone()));
            assert(pairs(changes@) =~= pairs(before).push((dependencies@[next as int]@, new_path@)));
            assert forall|i: int| 0 <= i < changes@.len() implies !is_system_path(
                (#[trigger] changes@[i]).0@,
            ) by {
                if i < before.len() {
                    assert(changes@[i] == before[i]);
                }
            }
        }
        Frame { target, dependencies, next: next + 1, changes, owner }
    }
}

/// An instruction for the link editor.
#[derive(Debug)]
pub enum LinkEdit {
    /// Rewrite references of the binary at `target`, each from the first
    /// to the second of a pair, in one run.
    ChangeReferences { target: String, changes: Vec<(ModulePath, ModulePath)> },
    /// Give the library at `target` a new identity.
    SetIdentity { target: String, identity: ModulePath },
    /// Add a search path to the executable at `target`.
    AddRpath { target: String, rpath: String },
}

/// What the bundler asks its driver to do next.
#[derive(Debug)]
pub enum Action {
    /// Nothing; the answer is `Event::Done`.
    Continue,
    /// Resolve `path` to its canonical form; the answer is `Event::Path`.
    Canonicalize { path: String },
    /// Test which of `candidates` exist; the answer is `Event::Existence`,
    /// one flag for each candidate.
    Probe { candidates: Vec<String> },
    /// List the dependencies of the binary at `path`; the answer is
    /// `Event::Lines`.
    Inspect { path: String },
    /// Compare the two files byte by byte; the answer is `Event::Same`.
    Compare { first: String, second: String },
    /// Copy the file or directory at `source` to `target`, creating the
    /// directory around `target`; the answer is `Event::Done`.
    CopyRoot { source: String, target: String },
    /// Run the link editor; the answer is `Event::Done`.
    Edit(LinkEdit),
    /// The bundle is complete.
    Finished,
    /// The run has failed.
    Failed(ToolError),
}

/// What the driver reports back.
#[derive(Debug)]
pub enum Event {
    Done,
    Path(String),
    Existence(Vec<bool>),
    Lines(Vec<String>),
    Same(bool),
}

/// Where the bundler stands.
#[derive(Debug)]
pub enum Stage {
    /// Between two executables.
    Idle,
    /// The canonical path of an executable was asked for.
    AwaitCanonical { executable: String },
    /// The listing of an executable was asked for.
    AwaitExecutable { executable: String, canonical: String },
    /// Looking at the next dependency of the innermost module.
    Walking,
    /// The candidates of the current dependency are being probed.
    AwaitExistence,
    /// The current dependency is known already; the two sources are being compared.
    AwaitComparison { plan: DependencyPlan, existing: String },
    /// The current dependency is new; its listing was asked for.
    AwaitLibrary { plan: DependencyPlan },
    /// The current dependency is being copied into the bundle.
    AwaitCopy { plan: DependencyPlan, library: Library },
    /// The innermost module has no dependency left; its references are rewritten.
    Closing,
    /// The innermost module is done but for its own identity or search path.
    Sealing,
    Finished,
    Failed,
}

/// The bundler: a state machine that is stepped by a driver, which performs
/// each action and reports the outcome as the next event.
#[derive(Debug)]
pub struct SelfContained {
    pub options: Options,
    /// Where the bundle is built.
    pub out_path: String,
    /// The linked binaries of the bundle being built, by their place in it;
    /// each is the root of a walk.
    pub executables: Vec<String>,
    pub processed_libraries: ProcessedLibraries,
    /// The executable to walk next.
    pub next_executable: usize,
    /// The search roots of the executable being walked.
    pub resolver: PathResolver,
    /// The modules being walked, the innermost last.
    pub stack: Vec<Frame>,
    pub stage: Stage,
}

impl SelfContained {
    pub fn new(options: Options) -> (res: Self)
        ensures
            res.options == options,
            res.out_path@.len() == 0,
            res.executables@.len() == 0,
            res.processed_libraries@ == Map::<Seq<char>, Seq<char>>::empty(),
            res.next_executable == 0,
            res.resolver.rpaths@.len() == 0,
            res.stack@.len() == 0,
            res.stage is Idle,
            res.wf(),
    {
        Self {
            options,
            out_path: String::new(),
            executables: Vec::new(),
            processed_libraries: ProcessedLibraries::new(),
            next_executable: 0,
            resolver: PathResolver::new(Vec::new()),
            stack: Vec::new(),
            stage: Stage::Idle,
        }
    }

    /// The innermost module being walked.
    pub open spec fn top(&self) -> Frame {
        self.stack@.last()
    }

    /// The plan in hand is the one for its file in this bundle.
    pub open spec fn holds(&self, plan: DependencyPlan) -> bool {
        plan.is_for(self.out_path@, plan.resolved@)
    }

    /// The state is one that the bundler can be in: every module on the
    /// stack is within bounds, every module but the innermost stands at a
    /// dependency that is not a system one, only the outermost belongs to an
    /// executable, no system reference is marked for rewriting, and every
    /// bundled reference starts with `@rpath/` and is recorded once.
    pub open spec fn wf(&self) -> bool {
        &&& self.next_executable <= self.executables@.len()
        &&& distinct(self.processed_libraries.entries@)
        &&& forall|k: Seq<char>| #[trigger]
            self.processed_libraries@.dom().contains(k) ==> has_prefix(k, "@rpath/"@)
        &&& forall|i: int| 0 <= i < self.stack@.len() ==> (#[trigger] self.stack@[i]).wf()
        &&& forall|i: int| 0 <= i < self.stack@.len() - 1 ==> (#[trigger] self.stack@[i]).waiting()
        &&& forall|i: int|
            0 <= i < self.stack@.len() ==> ((#[trigger] self.stack@[i]).owner is Executable <==> i
                == 0)
        &&& match self.stage {
            Stage::Idle | Stage::AwaitCanonical { .. } | Stage::AwaitExecutable { .. } | Stage::Finished => {
                self.stack@.len() == 0
            },
            Stage::Walking | Stage::Closing | Stage::Sealing => self.stack@.len() > 0,
            Stage::AwaitExistence => self.stack@.len() > 0 && self.top().waiting(),
            Stage::AwaitComparison { plan, existing } => {
                &&& self.stack@.len() > 0
                &&& self.top().waiting()
                &&& self.holds(plan)
                &&& self.processed_libraries@.dom().contains(plan.new_path@)
                &&& self.processed_libraries@[plan.new_path@] == existing@
            },
            Stage::AwaitLibrary { plan } => {
                &&& self.stack@.len() > 0
                &&& self.top().waiting()
                &&& self.holds(plan)
                &&& !self.processed_libraries@.dom().contains(plan.new_path@)
            },
            Stage::AwaitCopy { plan, library } => {
                &&& self.stack@.len() > 0
                &&& self.top().waiting()
                &&& self.holds(plan)
            },
            Stage::Failed => true,
        }
    }

    /// The run stops: only the stage changes, to `Failed`, and the action
    /// reports an error.
    pub open spec fn halted(self, post: Self, action: Action) -> bool {
        &&& post == (SelfContained { stage: Stage::Failed, ..self })
        &&& action is Failed
    }

    /// The run stops because the event is not an answer to what was asked.
    pub open spec fn rejected(self, post: Self, action: Action) -> bool {
        &&& self.halted(post, action)
        &&& (action->Failed_0 matches ToolError::OtherError(m) && m@ == "unexpected event"@)
    }

    /// The run stops because a dependency listing cannot be used.
    pub open spec fn unreadable(self, post: Self, action: Action, details: Seq<char>) -> bool {
        &&& self.halted(post, action)
        &&& (action->Failed_0 matches ToolError::MalformedOutput { details: d } && d@ == details)
    }

    /// The run stops because `path` leads nowhere.
    pub open spec fn lost(self, post: Self, action: Action, path: Seq<char>) -> bool {
        &&& self.halted(post, action)
        &&& (action->Failed_0 matches ToolError::PathResolve { path: p, rpaths: r } && p@ == path
            && r@.len() == 0)
    }

    /// Between executables: the next one is taken up, or the run is over.
    /// An executable is known by its place in the bundle being built; what
    /// is resolved, and later listed, is the file that it was copied from.
    pub open spec fn idle_step(self, post: Self, action: Action) -> bool {
        if self.next_executable < self.executables@.len() {
            let exe = self.executables@[self.next_executable as int]@;
            match mirrored_from(self.options.source_path@, self.out_path@, exe) {
                None => self.lost(post, action, exe),
                Some(source) => {
                    &&& post == (SelfContained {
                        next_executable: (self.next_executable + 1) as usize,
                        stage: post.stage,
                        ..self
                    })
                    &&& (post.stage matches Stage::AwaitCanonical { executable } && executable@
                        == exe)
                    &&& (action matches Action::Canonicalize { path } && path@ == source)
                },
            }
        } else {
            &&& post == (SelfContained { stage: Stage::Finished, ..self })
            &&& action is Finished
        }
    }

    /// The canonical path of the executable arrives: its directory becomes
    /// the one search root, and its listing is asked for.
    pub open spec fn canonical_step(self, event: Event, post: Self, action: Action) -> bool {
        match event {
            Event::Path(canonical) => match parent(canonical@) {
                None => self.lost(post, action, canonical@),
                Some(dir) => {
                    &&& post == (SelfContained { resolver: post.resolver, stage: post.stage, ..self })
                    &&& post.resolver.rpaths@.len() == 1
                    &&& post.resolver.rpaths@[0]@ == dir
                    &&& (post.stage matches Stage::AwaitExecutable { executable, canonical: c }
                        && executable@ == self.stage->AwaitCanonical_executable@ && c@
                        == canonical@)
                    &&& (action matches Action::Inspect { path } && path@ == canonical@)
                },
            },
            _ => self.rejected(post, action),
        }
    }

    /// The listing of the executable arrives: the walk through its
    /// dependencies begins, against the executable in the bundle.
    pub open spec fn executable_step(self, event: Event, post: Self, action: Action) -> bool {
        match event {
            Event::Lines(lines) => {
                let executable = self.stage->AwaitExecutable_executable@;
                if !(listing_well_formed(lines@) && listing_entries(lines@).len() > 0) {
                    self.unreadable(
                        post,
                        action,
                        listing_failure(lines@, self.stage->AwaitExecutable_canonical@),
                    )
                } else {
                    &&& post == (SelfContained { stack: post.stack, stage: Stage::Walking, ..self })
                    &&& post.stack@.len() == 1
                    &&& post.top().target@ == executable
                    &&& texts(post.top().dependencies@) == listing_entries(lines@)
                    &&& post.top().next == 0
                    &&& post.top().changes@.len() == 0
                    &&& post.top().owner is Executable
                    &&& action is Continue
                }
            },
            _ => self.rejected(post, action),
        }
    }

    /// At a dependency: a system one is passed over, any other is looked
    /// for; with none left the module is closed.
    pub open spec fn walking_step(self, post: Self, action: Action) -> bool {
        let top = self.top();
        if top.next < top.dependencies@.len() {
            if is_system_path(top.current()) {
                &&& post == (SelfContained { stack: post.stack, ..self })
                &&& post.stack@.len() == self.stack@.len()
                &&& post.stack@.drop_last() == self.stack@.drop_last()
                &&& top.advanced(post.top(), None)
                &&& action is Continue
            } else {
                &&& post == (SelfContained { stage: Stage::AwaitExistence, ..self })
                &&& (action matches Action::Probe { candidates } && candidates@.len()
                    == self.resolver.rpaths@.len() + 1 && forall|k: int|
                    0 <= k < candidates@.len() ==> #[trigger] candidates@[k]@ == candidate(
                        top.current(),
                        self.resolver.rpaths@,
                        k,
                    ))
            }
        } else {
            &&& post == (SelfContained { stage: Stage::Closing, ..self })
            &&& action is Continue
        }
    }

    /// The probe is answered: the dependency resolves to the first
    /// candidate that exists. One that the bundle holds already is compared
    /// with what was bundled; a new one has its listing asked for.
    pub open spec fn existence_step(self, event: Event, post: Self, action: Action) -> bool {
        match event {
            Event::Existence(flags) => {
                let reference = self.top().current();
                match resolution(reference, self.resolver.rpaths@, flags@) {
                    None => {
                        &&& self.halted(post, action)
                        &&& (action->Failed_0 matches ToolError::PathResolve { path, rpaths }
                            && path@ == reference && rpaths.deep_view()
                            == self.resolver.rpaths.deep_view())
                    },
                    Some(resolved) => if !plan_exists(resolved) {
                        self.lost(post, action, resolved)
                    } else if self.processed_libraries@.dom().contains(plan_new_path(resolved)) {
                        let known = self.processed_libraries@[plan_new_path(resolved)];
                        &&& post == (SelfContained { stage: post.stage, ..self })
                        &&& (post.stage matches Stage::AwaitComparison { plan, existing }
                            && plan.is_for(self.out_path@, resolved) && existing@ == known)
                        &&& (action matches Action::Compare { first, second } && first@ == resolved
                            && second@ == known)
                    } else {
                        &&& post == (SelfContained { stage: post.stage, ..self })
                        &&& (post.stage matches Stage::AwaitLibrary { plan } && plan.is_for(
                            self.out_path@,
                            resolved,
                        ))
                        &&& (action matches Action::Inspect { path } && path@ == resolved)
                    },
                }
            },
            _ => self.rejected(post, action),
        }
    }

    /// The comparison is answered: the same file is not bundled again, and
    /// the walk moves on; a different file under the same reference is a
    /// conflict that ends the run.
    pub open spec fn comparison_step(self, event: Event, post: Self, action: Action) -> bool {
        let plan = self.stage->AwaitComparison_plan;
        let existing = self.stage->AwaitComparison_existing;
        match event {
            Event::Same(same) => if same {
                &&& post == (SelfContained { stack: post.stack, stage: Stage::Walking, ..self })
                &&& post.stack@.len() == self.stack@.len()
                &&& post.stack@.drop_last() == self.stack@.drop_last()
                &&& self.top().advanced(
                    post.top(),
                    if plan.new_path@ != self.top().current() {
                        Some((self.top().current(), plan.new_path@))
                    } else {
                        None
                    },
                )
                &&& action is Continue
            } else {
                &&& self.halted(post, action)
                &&& (action->Failed_0 matches ToolError::VersionConflict {
                    reference,
                    first_source,
                    second_source,
                } && reference@ == plan.new_path@ && first_source@ == plan.resolved@
                    && second_source@ == existing@)
            },
            _ => self.rejected(post, action),
        }
    }

    /// The listing of a new dependency arrives: the dependency is recorded
    /// under its new reference, and its root is copied into the bundle.
    pub open spec fn library_step(self, event: Event, post: Self, action: Action) -> bool {
        let plan = self.stage->AwaitLibrary_plan;
        match event {
            Event::Lines(lines) => {
                if !(listing_well_formed(lines@) && listing_entries(lines@).len() > 0) {
                    self.unreadable(post, action, listing_failure(lines@, plan.resolved@))
                } else {
                    &&& post == (SelfContained {
                        processed_libraries: post.processed_libraries,
                        stage: post.stage,
                        ..self
                    })
                    &&& post.processed_libraries@ == self.processed_libraries@.insert(
                        plan.new_path@,
                        plan.resolved@,
                    )
                    &&& post.processed_libraries.entries@.len()
                        == self.processed_libraries.entries@.len() + 1
                    &&& (post.stage matches Stage::AwaitCopy { plan: kept, library } && kept == plan
                        && library.install_name@ == listing_entries(lines@)[0] && texts(
                        library.module.dependencies@,
                    ) == listing_entries(lines@).drop_first())
                    &&& (action matches Action::CopyRoot { source, target } && source@ == plan.root@
                        && target@ == plan.copy_target@)
                }
            },
            _ => self.rejected(post, action),
        }
    }

    /// The copy is made: the walk goes down into the dependency, against
    /// its place in the bundle.
    pub open spec fn copy_step(self, event: Event, post: Self, action: Action) -> bool {
        let plan = self.stage->AwaitCopy_plan;
        let library = self.stage->AwaitCopy_library;
        match event {
            Event::Done => {
                &&& post == (SelfContained { stack: post.stack, stage: Stage::Walking, ..self })
                &&& post.stack@.len() == self.stack@.len() + 1
                &&& post.stack@.drop_last() == self.stack@
                &&& post.top().target@ == plan.target@
                &&& post.top().dependencies == library.module.dependencies
                &&& post.top().next == 0
                &&& post.top().changes@.len() == 0
                &&& (post.top().owner matches Owner::Library { install_name, new_path }
                    && install_name == library.install_name && new_path == plan.new_path)
                &&& action is Continue
            },
            _ => self.rejected(post, action),
        }
    }

    /// A module without dependencies left has all its changed references
    /// rewritten in one run of the link editor, if any changed.
    pub open spec fn closing_step(self, post: Self, action: Action) -> bool {
        &&& post == (SelfContained { stage: Stage::Sealing, ..self })
        &&& if self.top().changes@.len() > 0 {
            action matches Action::Edit(LinkEdit::ChangeReferences { target, changes }) && target@
                == self.top().target@ && pairs(changes@) == pairs(self.top().changes@)
        } else {
            action is Continue
        }
    }

    /// A module leaves the stack. An executable gets a search path that
    /// leads to the shared-library directory exactly if it has a dependency
    /// that is not a system one. A library gets its new identity unless it
    /// declares that already, and the module that refers to it moves on,
    /// noting the reference to rewrite.
    pub open spec fn sealing_step(self, post: Self, action: Action) -> bool {
        let top = self.top();
        let rest = self.stack@.drop_last();
        match top.owner {
            Owner::Executable => if !has_local(top.dependencies@) {
                &&& post == (SelfContained { stack: post.stack, stage: Stage::Idle, ..self })
                &&& post.stack@ == rest
                &&& action is Continue
            } else {
                match executable_rpath(self.out_path@, top.target@) {
                    None => self.lost(post, action, top.target@),
                    Some(rpath) => {
                        &&& post == (SelfContained { stack: post.stack, stage: Stage::Idle, ..self })
                        &&& post.stack@ == rest
                        &&& (action matches Action::Edit(LinkEdit::AddRpath { target, rpath: r })
                            && target@ == top.target@ && r@ == rpath)
                    },
                }
            },
            Owner::Library { install_name, new_path } => {
                &&& post == (SelfContained { stack: post.stack, stage: Stage::Walking, ..self })
                &&& post.stack@.len() == rest.len()
                &&& post.stack@.drop_last() == rest.drop_last()
                &&& rest.last().advanced(
                    post.top(),
                    if new_path@ != rest.last().current() {
                        Some((rest.last().current(), new_path@))
                    } else {
                        None
                    },
                )
                &&& if install_name@ != new_path@ {
                    action matches Action::Edit(LinkEdit::SetIdentity { target, identity })
                        && target@ == top.target@ && identity@ == new_path@
                } else {
                    action is Continue
                }
            },
        }
    }

    /// What one step does: `post` and `action` are the state and the action
    /// that follow the state `self` on `event`.
    pub open spec fn transition(self, event: Event, post: Self, action: Action) -> bool {
        match self.stage {
            Stage::Idle => self.idle_step(post, action),
            Stage::AwaitCanonical { .. } => self.canonical_step(event, post, action),
            Stage::AwaitExecutable { .. } => self.executable_step(event, post, action),
            Stage::Walking => self.walking_step(post, action),
            Stage::AwaitExistence => self.existence_step(event, post, action),
            Stage::AwaitComparison { .. } => self.comparison_step(event, post, action),
            Stage::AwaitLibrary { .. } => self.library_step(event, post, action),
            Stage::AwaitCopy { .. } => self.copy_step(event, post, action),
            Stage::Closing => self.closing_step(post, action),
            Stage::Sealing => self.sealing_step(post, action),
            Stage::Finished => post == self && action is Finished,
            Stage::Failed => post == self && (action->Failed_0 matches ToolError::OtherError(m)
                && m@ == "the run has failed"@) && action is Failed,
        }
    }
}

impl SelfContained {
    /// Notes a linked binary of the bundle being built, by its place in
    /// it, as the root of a walk.
    pub fn record_executable(&mut self, path: String)
        requires
            old(self).wf(),
        ensures
            *final(self) == (SelfContained { executables: final(self).executables, ..*old(self) }),
            final(self).executables@ == old(self).executables@.push(path),
            final(self).wf(),
    {
        self.executables.push(path);
    }

    /// Takes one step: consumes the answer to the last action and says what
    /// to do next. The first step takes `Event::Done`.
    pub fn step(self, event: Event) -> (next: (Self, Action))
        requires
            self.wf(),
        ensures
            self.transition(event, next.0, next.1),
            next.0.wf(),
    {
        match &self.stage {
            Stage::Idle => self.leave_idle(),
            Stage::AwaitCanonical { .. } => self.take_canonical(event),
            Stage::AwaitExecutable { .. } => self.take_executable(event),
            Stage::Walking => self.walk(),
            Stage::AwaitExistence => self.take_existence(event),
            Stage::AwaitComparison { .. } => self.take_comparison(event),
            Stage::AwaitLibrary { .. } => self.take_library(event),
            Stage::AwaitCopy { .. } => self.take_copy(event),
            Stage::Closing => self.close(),
            Stage::Sealing => self.seal(),
            Stage::Finished => (self, Action::Finished),
            Stage::Failed => {
                let e = ToolError::OtherError(String::from_str("the run has failed"));
                (self, Action::Failed(e))
            },
        }
    }

    fn halt(self, error: ToolError) -> (next: (Self, Action))
        requires
            self.wf(),
        ensures
            next.0 == (SelfContained { stage: Stage::Failed, ..self }),
            next.1 == Action::Failed(error),
            next.0.wf(),
    {
        let SelfContained {
            options,
            out_path,
            executables,
            processed_libraries,
            next_executable,
            resolver,
            stack,
            stage,
        } = self;
        (
            SelfContained {
                options,
                out_path,
                executables,
                processed_libraries,
                next_executable,
                resolver,
                stack,
                stage: Stage::Failed,
            },
            Action::Failed(error),
        )
    }

    fn reject(self) -> (next: (Self, Action))
        requires
            self.wf(),
        ensures
            self.rejected(next.0, next.1),
            next.0.wf(),
    {
        self.halt(ToolError::OtherError(String::from_str("unexpected event")))
    }

    fn lose(self, path: String) -> (next: (Self, Action))
        requires
            self.wf(),
        ensures
            self.lost(next.0, next.1, path@),
            next.0.wf(),
    {
        self.halt(ToolError::PathResolve { path, rpaths: Vec::new() })
    }

    fn leave_idle(self) -> (next: (Self, Action))
        requires
            self.wf(),
            self.stage is Idle,
        ensures
            self.idle_step(next.0, next.1),
            next.0.wf(),
    {
        if self.next_executable >= self.executables.len() {
            let SelfContained {
                options,
                out_path,
                executables,
                processed_libraries,
                next_executable,
                resolver,
                stack,
                stage,
            } = self;
            return (
                SelfContained {
                    options,
                    out_path,
                    executables,
                    processed_libraries,
                    next_executable,
                    resolver,
                    stack,
                    stage: Stage::Finished,
                },
                Action::Finished,
            );
        }
        let executable = self.executables[self.next_executable].clone();
        let path = match source_of_mirror(
            self.options.source_path.as_str(),
            self.out_path.as_str(),
            executable.as_str(),
        ) {
            Some(path) => path,
            None => {
                return self.lose(executable);
            },
        };
        let SelfContained {
            options,
            out_path,
            executables,
            processed_libraries,
            next_executable,
            resolver,
            stack,
            stage,
        } = self;
        (
            SelfContained {
                options,
                out_path,
                executables,
                processed_libraries,
                next_executable: next_executable + 1,
                resolver,
                stack,
                stage: Stage::AwaitCanonical { executable },
            },
            Action::Canonicalize { path },
        )
    }

    fn take_canonical(self, event: Event) -> (next: (Self, Action))
        requires
            self.wf(),
            self.stage is AwaitCanonical,
        ensures
            self.canonical_step(event, next.0, next.1),
            next.0.wf(),
    {
        let canonical = match event {
            Event::Path(canonical) => canonical,
            _ => {
                return self.reject();
            },
        };
        let dir = match parent_of(canonical.as_str()) {
            Some(dir) => dir,
            None => {
                return self.lose(canonical);
            },
        };
        let SelfContained {
            options,
            out_path,
            executables,
            processed_libraries,
            next_executable,
            resolver,
            stack,
            stage,
        } = self;
        let executable = match stage {
            Stage::AwaitCanonical { executable } => executable,
            _ => String::new(),
        };
        let mut roots: Vec<String> = Vec::new();
        roots.push(dir);
        let path = canonical.clone();
        (
            SelfContained {
                options,
                out_path,
                executables,
                processed_libraries,
                next_executable,
                resolver: PathResolver::new(roots),
                stack,
                stage: Stage::AwaitExecutable { executable, canonical },
            },
            Action::Inspect { path },
        )
    }

    fn take_executable(self, event: Event) -> (next: (Self, Action))
        requires
            self.wf(),
            self.stage is AwaitExecutable,
        ensures
            self.executable_step(event, next.0, next.1),
            next.0.wf(),
    {
        let lines = match event {
            Event::Lines(lines) => lines,
            _ => {
                return self.reject();
            },
        };
        let (executable, canonical) = match &self.stage {
            Stage::AwaitExecutable { executable, canonical } => (
                executable.clone(),
                canonical.clone(),
            ),
            _ => (String::new(), String::new()),
        };
        let module = match load_executable(canonical, &lines) {
            Ok(module) => module,
            Err(e) => {
                return self.halt(e);
            },
        };
        let target = executable;
        let SelfContained {
            options,
            out_path,
            executables,
            processed_libraries,
            next_executable,
            resolver,
            stack,
            stage,
        } = self;
        let mut stack = stack;
        let Module { path, dependencies } = module;
        stack.push(
            Frame { target, dependencies, next: 0, changes: Vec::new(), owner: Owner::Executable },
        );
        (
            SelfContained {
                options,
                out_path,
                executables,
                processed_libraries,
                next_executable,
                resolver,
                stack,
                stage: Stage::Walking,
            },
            Action::Continue,
        )
    }

    fn walk(self) -> (next: (Self, Action))
        requires
            self.wf(),
            self.stage is Walking,
        ensures
            self.walking_step(next.0, next.1),
            next.0.wf(),
    {
        let last = self.stack.len() - 1;
        if self.stack[last].next < self.stack[last].dependencies.len() {
            let at = self.stack[last].next;
            if self.stack[last].dependencies[at].is_system() {
                let SelfContained {
                    options,
                    out_path,
                    executables,
                    processed_libraries,
                    next_executable,
                    resolver,
                    stack,
                    stage,
                } = self;
                let mut stack = stack;
                let ghost before = stack@;
                let Frame { target, dependencies, next, changes, owner } = stack.pop().unwrap();
                stack.push(Frame { target, dependencies, next: next + 1, changes, owner });
                assert(stack@.drop_last() =~= before.drop_last());
                let after = SelfContained {
                    options,
                    out_path,
                    executables,
                    processed_libraries,
                    next_executable,
                    resolver,
                    stack,
                    stage: Stage::Walking,
                };
                proof {
                    lemma_replaced_top(before, after.stack@);
                }
                (after, Action::Continue)
            } else {
                let candidates = self.resolver.candidates(&self.stack[last].dependencies[at]);
                let SelfContained {
                    options,
                    out_path,
                    executables,
                    processed_libraries,
                    next_executable,
                    resolver,
                    stack,
                    stage,
                } = self;
                (
                    SelfContained {
                        options,
                        out_path,
                        executables,
                        processed_libraries,
                        next_executable,
                        resolver,
                        stack,
                        stage: Stage::AwaitExistence,
                    },
                    Action::Probe { candidates },
                )
            }
        } else {
            let SelfContained {
                options,
                out_path,
                executables,
                processed_libraries,
                next_executable,
                resolver,
                stack,
                stage,
            } = self;
            (
                SelfContained {
                    options,
                    out_path,
                    executables,
                    processed_libraries,
                    next_executable,
                    resolver,
                    stack,
                    stage: Stage::Closing,
                },
                Action::Continue,
            )
        }
    }
}

/// Replacing the innermost frame by one that is well-formed keeps what
/// holds of the frames below and of who owns which.
pub proof fn lemma_replaced_top(before: Seq<Frame>, after: Seq<Frame>)
    requires
        before.len() > 0,
        after.len() == before.len(),
        after.drop_last() == before.drop_last(),
        after.last().wf(),
        after.last().owner == before.last().owner,
        forall|i: int| 0 <= i < before.len() ==> (#[trigger] before[i]).wf(),
        forall|i: int| 0 <= i < before.len() - 1 ==> (#[trigger] before[i]).waiting(),
        forall|i: int| 0 <= i < before.len() ==> ((#[trigger] before[i]).owner is Executable <==> i == 0),
    ensures
        forall|i: int| 0 <= i < after.len() ==> (#[trigger] after[i]).wf(),
        forall|i: int| 0 <= i < after.len() - 1 ==> (#[trigger] after[i]).waiting(),
        forall|i: int| 0 <= i < after.len() ==> ((#[trigger] after[i]).owner is Executable <==> i == 0),
{
    assert forall|i: int| 0 <= i < after.len() - 1 implies after[i] == before[i] by {
        assert(after.drop_last()[i] == after[i]);
        assert(before.drop_last()[i] == before[i]);
    }
    assert forall|i: int| 0 <= i < after.len() implies (#[trigger] after[i]).wf() by {
        if i < after.len() - 1 {
            assert(after[i] == before[i]);
        }
    }
    assert forall|i: int| 0 <= i < after.len() - 1 implies (#[trigger] after[i]).waiting() by {
        assert(after[i] == before[i]);
    }
    assert forall|i: int| 0 <= i < after.len() implies ((#[trigger] after[i]).owner is Executable <==> i
        == 0) by {
        if i < after.len() - 1 {
            assert(after[i] == before[i]);
        }
    }
}

impl SelfContained {
    fn take_existence(self, event: Event) -> (next: (Self, Action))
        requires
            self.wf(),
            self.stage is AwaitExistence,
        ensures
            self.existence_step(event, next.0, next.1),
            next.0.wf(),
    {
        let flags = match event {
            Event::Existence(flags) => flags,
            _ => {
                return self.reject();
            },
        };
        let last = self.stack.len() - 1;
        let at = self.stack[last].next;
        let resolved = match self.resolver.resolve(&self.stack[last].dependencies[at], &flags) {
            Ok(resolved) => resolved,
            Err(e) => {
                return self.halt(e);
            },
        };
        let plan = match plan_dependency(self.out_path.as_str(), resolved) {
            Ok(plan) => plan,
            Err(e) => {
                return self.halt(e);
            },
        };
        let known = self.processed_libraries.get(&plan.new_path);
        let SelfContained {
            options,
            out_path,
            executables,
            processed_libraries,
            next_executable,
            resolver,
            stack,
            stage,
        } = self;
        match known {
            Some(existing) => {
                let first = plan.resolved.clone();
                let second = existing.clone();
                (
                    SelfContained {
                        options,
                        out_path,
                        executables,
                        processed_libraries,
                        next_executable,
                        resolver,
                        stack,
                        stage: Stage::AwaitComparison { plan, existing },
                    },
                    Action::Compare { first, second },
                )
            },
            None => {
                let path = plan.resolved.clone();
                (
                    SelfContained {
                        options,
                        out_path,
                        executables,
                        processed_libraries,
                        next_executable,
                        resolver,
                        stack,
                        stage: Stage::AwaitLibrary { plan },
                    },
                    Action::Inspect { path },
                )
            },
        }
    }

    fn take_comparison(self, event: Event) -> (next: (Self, Action))
        requires
            self.wf(),
            self.stage is AwaitComparison,
        ensures
            self.comparison_step(event, next.0, next.1),
            next.0.wf(),
    {
        let same = match event {
            Event::Same(same) => same,
            _ => {
                return self.reject();
            },
        };
        let (new_path, resolved, existing) = match &self.stage {
            Stage::AwaitComparison { plan, existing } => (
                plan.new_path.clone(),
                plan.resolved.clone(),
                existing.clone(),
            ),
            _ => unreached(),
        };
        if !same {
            let ModulePath(reference) = new_path;
            return self.halt(
                ToolError::VersionConflict {
                    reference,
                    first_source: resolved,
                    second_source: existing,
                },
            );
        }
        let SelfContained {
            options,
            out_path,
            executables,
            processed_libraries,
            next_executable,
            resolver,
            stack,
            stage,
        } = self;
        let mut stack = stack;
        let ghost before = stack@;
        let top = stack.pop().unwrap();
        stack.push(top.advance(&new_path));
        assert(stack@.drop_last() =~= before.drop_last());
        let after = SelfContained {
            options,
            out_path,
            executables,
            processed_libraries,
            next_executable,
            resolver,
            stack,
            stage: Stage::Walking,
        };
        proof {
            lemma_replaced_top(before, after.stack@);
        }
        (after, Action::Continue)
    }

    fn take_library(self, event: Event) -> (next: (Self, Action))
        requires
            self.wf(),
            self.stage is AwaitLibrary,
        ensures
            self.library_step(event, next.0, next.1),
            next.0.wf(),
    {
        let lines = match event {
            Event::Lines(lines) => lines,
            _ => {
                return self.reject();
            },
        };
        let resolved = match &self.stage {
            Stage::AwaitLibrary { plan } => plan.resolved.clone(),
            _ => unreached(),
        };
        let library = match load_library(resolved, &lines) {
            Ok(library) => library,
            Err(e) => {
                return self.halt(e);
            },
        };
        let SelfContained {
            options,
            out_path,
            executables,
            processed_libraries,
            next_executable,
            resolver,
            stack,
            stage,
        } = self;
        let plan = match stage {
            Stage::AwaitLibrary { plan } => plan,
            _ => unreached(),
        };
        let mut processed_libraries = processed_libraries;
        let ghost before = processed_libraries@;
        processed_libraries.insert(plan.new_path.clone(), plan.resolved.clone());
        assert forall|k: Seq<char>| #[trigger]
            processed_libraries@.dom().contains(k) implies has_prefix(k, "@rpath/"@) by {
            if k == plan.new_path@ {
                assert(k == "@rpath/"@ + plan.relative@);
            } else {
                assert(before.dom().contains(k));
            }
        }
        let source = plan.root.clone();
        let target = plan.copy_target.clone();
        (
            SelfContained {
                options,
                out_path,
                executables,
                processed_libraries,
                next_executable,
                resolver,
                stack,
                stage: Stage::AwaitCopy { plan, library },
            },
            Action::CopyRoot { source, target },
        )
    }

    fn take_copy(self, event: Event) -> (next: (Self, Action))
        requires
            self.wf(),
            self.stage is AwaitCopy,
        ensures
            self.copy_step(event, next.0, next.1),
            next.0.wf(),
    {
        match event {
            Event::Done => {},
            _ => {
                return self.reject();
            },
        }
        let SelfContained {
            options,
            out_path,
            executables,
            processed_libraries,
            next_executable,
            resolver,
            stack,
            stage,
        } = self;
        let (plan, library) = match stage {
            Stage::AwaitCopy { plan, library } => (plan, library),
            _ => unreached(),
        };
        let mut stack = stack;
        let ghost before = stack@;
        let Library { module, install_name } = library;
        let Module { path, dependencies } = module;
        let DependencyPlan { resolved, root, relative, new_path, copy_target, target } = plan;
        stack.push(
            Frame {
                target,
                dependencies,
                next: 0,
                changes: Vec::new(),
                owner: Owner::Library { install_name, new_path },
            },
        );
        assert(stack@.drop_last() =~= before);
        assert forall|i: int| 0 <= i < stack@.len() - 1 implies (#[trigger] stack@[i]).waiting() by {
            assert(stack@[i] == before[i]);
            if i < before.len() - 1 {
            } else {
                assert(before[i] == before.last());
            }
        }
        (
            SelfContained {
                options,
                out_path,
                executables,
                processed_libraries,
                next_executable,
                resolver,
                stack,
                stage: Stage::Walking,
            },
            Action::Continue,
        )
    }

    fn close(self) -> (next: (Self, Action))
        requires
            self.wf(),
            self.stage is Closing,
        ensures
            self.closing_step(next.0, next.1),
            next.0.wf(),
    {
        let last = self.stack.len() - 1;
        let action = if self.stack[last].changes.len() > 0 {
            Action::Edit(
                LinkEdit::ChangeReferences {
                    target: self.stack[last].target.clone(),
                    changes: copy_changes(&self.stack[last].changes),
                },
            )
        } else {
            Action::Continue
        };
        let SelfContained {
            options,
            out_path,
            executables,
            processed_libraries,
            next_executable,
            resolver,
            stack,
            stage,
        } = self;
        (
            SelfContained {
                options,
                out_path,
                executables,
                processed_libraries,
                next_executable,
                resolver,
                stack,
                stage: Stage::Sealing,
            },
            action,
        )
    }

    fn seal(self) -> (next: (Self, Action))
        requires
            self.wf(),
            self.stage is Sealing,
        ensures
            self.sealing_step(next.0, next.1),
            next.0.wf(),
    {
        let last = self.stack.len() - 1;
        let mut rpath: Option<String> = None;
        match &self.stack[last].owner {
            Owner::Executable => {
                if has_local_dependency(&self.stack[last].dependencies) {
                    rpath =
                    rpath_for_executable(self.out_path.as_str(), self.stack[last].target.as_str());
                    if rpath.is_none() {
                        let target = self.stack[last].target.clone();
                        return self.lose(target);
                    }
                }
            },
            _ => {},
        }
        let SelfContained {
            options,
            out_path,
            executables,
            processed_libraries,
            next_executable,
            resolver,
            stack,
            stage,
        } = self;
        let mut stack = stack;
        let ghost before = stack@;
        let Frame { target, dependencies, next, changes, owner } = stack.pop().unwrap();
        match owner {
            Owner::Executable => {
                assert(stack@ =~= before.drop_last());
                let action = match rpath {
                    Some(rpath) => Action::Edit(LinkEdit::AddRpath { target, rpath }),
                    None => Action::Continue,
                };
                (
                    SelfContained {
                        options,
                        out_path,
                        executables,
                        processed_libraries,
                        next_executable,
                        resolver,
                        stack,
                        stage: Stage::Idle,
                    },
                    action,
                )
            },
            Owner::Library { install_name, new_path } => {
                let ghost rest = stack@;
                assert(rest =~= before.drop_last());
                assert(before[last as int].owner is Library);
                assert(rest.len() > 0);
                assert(rest.last() == before[rest.len() - 1]);
                assert forall|i: int| 0 <= i < rest.len() implies (#[trigger] rest[i]).wf() by {
                    assert(rest[i] == before[i]);
                }
                assert forall|i: int| 0 <= i < rest.len() - 1 implies (#[trigger] rest[i]).waiting() by {
                    assert(rest[i] == before[i]);
                }
                assert forall|i: int| 0 <= i < rest.len() implies ((#[trigger] rest[i]).owner is Executable
                    <==> i == 0) by {
                    assert(rest[i] == before[i]);
                }
                let parent = stack.pop().unwrap();
                stack.push(parent.advance(&new_path));
                assert(stack@.drop_last() =~= rest.drop_last());
                let action = if !same_text(install_name.as_str(), new_path.as_str()) {
                    Action::Edit(LinkEdit::SetIdentity { target, identity: new_path })
                } else {
                    Action::Continue
                };
                let after = SelfContained {
                    options,
                    out_path,
                    executables,
                    processed_libraries,
                    next_executable,
                    resolver,
                    stack,
                    stage: Stage::Walking,
                };
                proof {
                    lemma_replaced_top(rest, after.stack@);
                }
                (after, action)
            },
        }
    }
}

/// A reference that starts with the `@rpath` token is no system reference.
pub proof fn lemma_rpath_reference_is_local(k: Seq<char>)
    requires
        has_prefix(k, "@rpath/"@),
    ensures
        !is_system_path(k),
{
    reveal_strlit("@rpath/");
    reveal_strlit("/usr/");
    reveal_strlit("/lib/");
    reveal_strlit("/System/");
    assert(k[0int + 0] == "@rpath/"@[0]);
    if has_prefix(k, "/usr/"@) {
        assert(k[0int + 0] == "/usr/"@[0]);
    }
    if has_prefix(k, "/lib/"@) {
        assert(k[0int + 0] == "/lib/"@[0]);
    }
    if has_prefix(k, "/System/"@) {
        assert(k[0int + 0] == "/System/"@[0]);
    }
}

/// A dependency is copied once at most. Whenever a step asks for a copy,
/// the reference that the bundle gives to the dependency was not bundled
/// before the step and is bundled after it, with the copied file as its
/// source; what is copied is the root of that file, to its own name in the
/// shared-library directory.
pub proof fn lemma_copy_only_of_new_reference(
    pre: SelfContained,
    event: Event,
    post: SelfContained,
    action: Action,
)
    requires
        pre.wf(),
        pre.transition(event, post, action),
        action is CopyRoot,
    ensures
        pre.stage is AwaitLibrary,
        !pre.processed_libraries@.dom().contains(pre.stage->AwaitLibrary_plan.new_path@),
        post.processed_libraries@ == pre.processed_libraries@.insert(
            pre.stage->AwaitLibrary_plan.new_path@,
            pre.stage->AwaitLibrary_plan.resolved@,
        ),
        action->CopyRoot_source@ == dependency_root(pre.stage->AwaitLibrary_plan.resolved@),
        action->CopyRoot_target@ == joined(
            frameworks_dir(pre.out_path@),
            file_name(action->CopyRoot_source@),
        ),
{
}

/// There is one record for each copy: a step that asks for a copy adds one
/// entry to the record of bundled references, and no other step adds or
/// removes one. As no reference is recorded twice, the bundle holds as
/// many copied dependencies as there are bundled references.
pub proof fn lemma_one_record_for_each_copy(
    pre: SelfContained,
    event: Event,
    post: SelfContained,
    action: Action,
)
    requires
        pre.wf(),
        post.wf(),
        pre.transition(event, post, action),
    ensures
        post.processed_libraries.entries@.len() == pre.processed_libraries.entries@.len() + (if action is CopyRoot {
            1int
        } else {
            0int
        }),
        distinct(post.processed_libraries.entries@),
{
}

/// The `i`-th step of a run leads from one well-formed state to the next.
pub open spec fn is_step(
    states: Seq<SelfContained>,
    events: Seq<Event>,
    actions: Seq<Action>,
    i: int,
) -> bool {
    &&& states[i].wf()
    &&& states[i + 1].wf()
    &&& states[i].transition(events[i], states[i + 1], actions[i])
}

/// A run of the bundler: the states that it goes through, with the event
/// that is taken and the action that is asked for between each two.
pub open spec fn is_run(states: Seq<SelfContained>, events: Seq<Event>, actions: Seq<Action>) -> bool {
    &&& states.len() == events.len() + 1
    &&& actions.len() == events.len()
    &&& forall|i: int| 0 <= i < events.len() ==> #[trigger] is_step(states, events, actions, i)
}

/// How many copies a sequence of actions asks for.
pub open spec fn copies(actions: Seq<Action>) -> int
    decreases actions.len(),
{
    if actions.len() == 0 {
        0
    } else {
        copies(actions.drop_last()) + (if actions.last() is CopyRoot {
            1int
        } else {
            0int
        })
    }
}

/// Every dependency is copied once, however the run goes and in whatever
/// order the executables come: over a whole run, the number of copies asked
/// for is the number of references added to the record, and the record
/// never holds a reference twice.
pub proof fn lemma_one_copy_for_each_reference(
    states: Seq<SelfContained>,
    events: Seq<Event>,
    actions: Seq<Action>,
)
    requires
        is_run(states, events, actions),
        states[0].wf(),
    ensures
        states.last().processed_libraries.entries@.len()
            == states[0].processed_libraries.entries@.len() + copies(actions),
        distinct(states.last().processed_libraries.entries@),
    decreases events.len(),
{
    if events.len() > 0 {
        let n = events.len() - 1;
        let before = states.drop_last();
        assert(is_step(states, events, actions, n));
        assert forall|i: int| 0 <= i < events.drop_last().len() implies #[trigger] is_step(
            before,
            events.drop_last(),
            actions.drop_last(),
            i,
        ) by {
            assert(is_step(states, events, actions, i));
        }
        lemma_one_copy_for_each_reference(before, events.drop_last(), actions.drop_last());
        assert(before.last() == states[n]);
        lemma_one_record_for_each_copy(states[n], events[n], states[n + 1], actions[n]);
    }
}

/// The order in which dependencies were bundled does not show in the
/// record: two states of the bundler whose records hold the same
/// references, each from the same source, map every reference alike.
pub proof fn lemma_bundled_regardless_of_order(first: SelfContained, second: SelfContained)
    requires
        first.wf(),
        second.wf(),
        covers(first.processed_libraries.entries@, second.processed_libraries.entries@),
        covers(second.processed_libraries.entries@, first.processed_libraries.entries@),
    ensures
        first.processed_libraries@ == second.processed_libraries@,
{
    lemma_record_ignores_order(
        first.processed_libraries.entries@,
        second.processed_libraries.entries@,
    );
}

/// A dependency that is bundled already is not walked again: when the
/// comparison says that the file in hand is the one that was bundled, the
/// walk moves on to the next dependency of the same module, with no module
/// added to the stack, nothing recorded and nothing asked of the driver.
pub proof fn lemma_known_dependency_is_not_walked_again(
    pre: SelfContained,
    post: SelfContained,
    action: Action,
)
    requires
        pre.wf(),
        pre.stage is AwaitComparison,
        pre.transition(Event::Same(true), post, action),
    ensures
        action is Continue,
        post.stage is Walking,
        post.stack@.len() == pre.stack@.len(),
        post.top().next == pre.top().next + 1,
        post.processed_libraries == pre.processed_libraries,
{
}

/// What is bundled stays bundled, from the same source: no step removes a
/// reference from the record or changes what it stands for.
pub proof fn lemma_bundled_stays_bundled(
    pre: SelfContained,
    event: Event,
    post: SelfContained,
    action: Action,
    k: Seq<char>,
)
    requires
        pre.wf(),
        pre.transition(event, post, action),
        pre.processed_libraries@.dom().contains(k),
    ensures
        post.processed_libraries@.dom().contains(k),
        post.processed_libraries@[k] == pre.processed_libraries@[k],
{
}

/// Two different files under one reference end the run. When the
/// comparison of a dependency with what was bundled under its reference
/// says that the files differ, the step fails with a version conflict that
/// names the reference and both files, and the record is left as it was.
pub proof fn lemma_conflict_ends_run(
    pre: SelfContained,
    event: Event,
    post: SelfContained,
    action: Action,
)
    requires
        pre.wf(),
        pre.stage is AwaitComparison,
        event == Event::Same(false),
        pre.transition(event, post, action),
    ensures
        post.stage is Failed,
        post.processed_libraries == pre.processed_libraries,
        action is Failed,
        action->Failed_0 is VersionConflict,
        action->Failed_0->VersionConflict_first_source@ == pre.stage->AwaitComparison_plan.resolved@,
        action->Failed_0->VersionConflict_second_source@ == pre.processed_libraries@[pre.stage->AwaitComparison_plan.new_path@],
{
}

/// A dependency that is known already is always compared: a step that
/// resolves a dependency to a bundled reference asks for the comparison
/// with the recorded source, and for nothing else.
pub proof fn lemma_known_reference_is_compared(
    pre: SelfContained,
    flags: Vec<bool>,
    post: SelfContained,
    action: Action,
)
    requires
        pre.wf(),
        pre.stage is AwaitExistence,
        pre.transition(Event::Existence(flags), post, action),
        resolution(pre.top().current(), pre.resolver.rpaths@, flags@) is Some,
        plan_exists(resolution(pre.top().current(), pre.resolver.rpaths@, flags@)->0),
        pre.processed_libraries@.dom().contains(
            plan_new_path(resolution(pre.top().current(), pre.resolver.rpaths@, flags@)->0),
        ),
    ensures
        action is Compare,
        action->Compare_first@ == resolution(pre.top().current(), pre.resolver.rpaths@, flags@)->0,
        action->Compare_second@ == pre.processed_libraries@[plan_new_path(action->Compare_first@)],
        post.processed_libraries == pre.processed_libraries,
{
}

/// System references are left alone. In every step: a reference that is
/// looked for is no system reference, no reference that is rewritten is
/// one, and none is among the bundled references.
pub proof fn lemma_system_references_untouched(
    pre: SelfContained,
    event: Event,
    post: SelfContained,
    action: Action,
)
    requires
        pre.wf(),
        post.wf(),
        pre.transition(event, post, action),
    ensures
        action is Probe ==> action->Probe_candidates@.len() > 0 && !is_system_path(
            action->Probe_candidates@[0]@,
        ),
        (action matches Action::Edit(LinkEdit::ChangeReferences { target, changes }) ==> forall|
            i: int,
        |
            0 <= i < changes@.len() ==> !is_system_path((#[trigger] changes@[i]).0@)),
        forall|k: Seq<char>| #[trigger]
            post.processed_libraries@.dom().contains(k) ==> !is_system_path(k),
        pre.stage is Walking && pre.top().next < pre.top().dependencies@.len() && is_system_path(
            pre.top().current(),
        ) ==> action is Continue && post.processed_libraries == pre.processed_libraries,
{
    assert forall|k: Seq<char>| #[trigger]
        post.processed_libraries@.dom().contains(k) implies !is_system_path(k) by {
        lemma_rpath_reference_is_local(k);
    }
    if let Action::Edit(LinkEdit::ChangeReferences { target, changes }) = action {
        assert(pre.stage is Closing);
        let top = pre.top();
        assert(top.wf());
        assert(pairs(changes@).len() == changes@.len());
        assert(pairs(top.changes@).len() == top.changes@.len());
        assert forall|i: int| 0 <= i < changes@.len() implies !is_system_path(
            (#[trigger] changes@[i]).0@,
        ) by {
            assert(pairs(changes@)[i] == pairs(top.changes@)[i]);
            assert(changes@[i].0@ == top.changes@[i].0@);
        }
    }
    if action is Probe {
        assert(pre.stage is Walking);
        assert(action->Probe_candidates@[0]@ == candidate(
            pre.top().current(),
            pre.resolver.rpaths@,
            0,
        ));
    }
}

/// A search path is added to executables with a local dependency, and to
/// nothing else. A step asks for a new search path only when it finishes an
/// executable that has a dependency outside the operating system; an
/// executable without one is finished with no edit.
pub proof fn lemma_search_path_only_for_local_dependencies(
    pre: SelfContained,
    event: Event,
    post: SelfContained,
    action: Action,
)
    requires
        pre.wf(),
        pre.transition(event, post, action),
    ensures
        (action matches Action::Edit(LinkEdit::AddRpath { target, rpath }) ==> pre.stage is Sealing
            && pre.top().owner is Executable && has_local(pre.top().dependencies@) && target@
            == pre.top().target@),
        pre.stage is Sealing && pre.top().owner is Executable && !has_local(pre.top().dependencies@)
            ==> action is Continue,
{
}

/// A name that a bundle can have: not empty, and not one of the names that
/// stand for a directory itself or the one around it.
pub open spec fn is_bundle_name(name: Seq<char>) -> bool {
    name.len() > 0 && name != "."@ && name != ".."@
}

impl SelfContained {
    /// The message for a bundle that is in the way.
    pub open spec fn target_exists_message(&self) -> Seq<char> {
        "Target folder '"@ + self.out_path@ + "' already exists. Please delete it first."@
    }

    /// Fixes where the bundle is built: under the output directory, by the
    /// name of the source bundle. Fails where the source is no directory or
    /// has no name of its own, the output directory is no directory, or
    /// the run has begun.
    pub fn prepare(self, source_is_dir: bool, out_dir_is_dir: bool) -> (res: Result<Self, ToolError>)
        requires
            self.wf(),
        ensures
            res is Ok <==> source_is_dir && is_bundle_name(file_name(self.options.source_path@))
                && out_dir_is_dir && self.stage is Idle,
            res is Ok ==> res->Ok_0 == (SelfContained { out_path: res->Ok_0.out_path, ..self })
                && res->Ok_0.out_path@ == joined(
                self.options.out_dir@,
                file_name(self.options.source_path@),
            ) && res->Ok_0.wf(),
            res is Err ==> (res->Err_0 matches ToolError::OtherError(m) && m@ == (if !source_is_dir
                || !is_bundle_name(file_name(self.options.source_path@)) {
                "Source-path is not a valid folder."@
            } else if !out_dir_is_dir {
                "Out-dir is not a valid folder"@
            } else {
                "The run has begun already"@
            })),
    {
        let name = name_of(self.options.source_path.as_str());
        let named = name.as_str().unicode_len() > 0 && !same_text(name.as_str(), ".") && !same_text(
            name.as_str(),
            "..",
        );
        if !source_is_dir || !named {
            return Err(ToolError::OtherError(String::from_str("Source-path is not a valid folder.")));
        }
        if !out_dir_is_dir {
            return Err(ToolError::OtherError(String::from_str("Out-dir is not a valid folder")));
        }
        match &self.stage {
            Stage::Idle => {},
            _ => {
                return Err(ToolError::OtherError(String::from_str("The run has begun already")));
            },
        }
        let target = join(self.options.out_dir.as_str(), name.as_str());
        let SelfContained {
            options,
            out_path,
            executables,
            processed_libraries,
            next_executable,
            resolver,
            stack,
            stage,
        } = self;
        Ok(
            SelfContained {
                options,
                out_path: target,
                executables,
                processed_libraries,
                next_executable,
                resolver,
                stack,
                stage,
            },
        )
    }

    /// Decides what to do about the place where the bundle is built:
    /// nothing where it is free, removal where a bundle is in the way and
    /// may be deleted, failure where it may not.
    pub fn check_target(&self, present: bool) -> (res: Result<bool, ToolError>)
        ensures
            res is Ok <==> !present || self.options.delete_existing_bundle,
            res is Ok ==> res->Ok_0 == present,
            res is Err ==> (res->Err_0 matches ToolError::OtherError(m) && m@
                == self.target_exists_message()),
    {
        if !present {
            Ok(false)
        } else if self.options.delete_existing_bundle {
            Ok(true)
        } else {
            let mut m = String::from_str("Target folder '");
            m.append(self.out_path.as_str());
            m.append("' already exists. Please delete it first.");
            Err(ToolError::OtherError(m))
        }
    }
}

/// The arguments that list the dependencies of the binary at `path`.
pub fn inspect_arguments(path: &str) -> (res: Vec<String>)
    ensures
        res.deep_view() == seq!["-L"@, path@],
{
    let mut args: Vec<String> = Vec::new();
    assert(args.deep_view() =~= Seq::<Seq<char>>::empty());
    push_text(&mut args, "-L");
    push_text(&mut args, path);
    assert(args.deep_view() =~= seq!["-L"@, path@]);
    args
}

/// The arguments that rewrite each reference of `changes`: for each pair
/// the flag, the old and the new reference.
pub open spec fn change_arguments(changes: Seq<(ModulePath, ModulePath)>) -> Seq<Seq<char>>
    decreases changes.len(),
{
    if changes.len() == 0 {
        Seq::empty()
    } else {
        change_arguments(changes.drop_last()) + seq![
            "-change"@,
            changes.last().0@,
            changes.last().1@,
        ]
    }
}

impl LinkEdit {
    /// The arguments of the link editor for this instruction; the binary
    /// to edit comes last.
    pub open spec fn arguments_text(&self) -> Seq<Seq<char>> {
        match self {
            LinkEdit::ChangeReferences { target, changes } => change_arguments(changes@) + seq![
                target@,
            ],
            LinkEdit::SetIdentity { target, identity } => seq!["-id"@, identity@, target@],
            LinkEdit::AddRpath { target, rpath } => seq!["-add_rpath"@, rpath@, target@],
        }
    }

    /// The arguments of the link editor for this instruction.
    pub fn arguments(&self) -> (res: Vec<String>)
        ensures
            res.deep_view() == self.arguments_text(),
    {
        let mut args: Vec<String> = Vec::new();
        assert(args.deep_view() =~= Seq::<Seq<char>>::empty());
        match self {
            LinkEdit::ChangeReferences { target, changes } => {
                let mut i: usize = 0;
                while i < changes.len()
                    invariant
                        i <= changes@.len(),
                        args.deep_view() == change_arguments(changes@.subrange(0, i as int)),
                    decreases changes@.len() - i,
                {
                    let ghost head = args.deep_view();
                    assert(changes@.subrange(0, i + 1).drop_last() =~= changes@.subrange(
                        0,
                        i as int,
                    ));
                    push_text(&mut args, "-change");
                    push_text(&mut args, changes[i].0.as_str());
                    push_text(&mut args, changes[i].1.as_str());
                    assert(args.deep_view() =~= head + seq![
                        "-change"@,
                        changes@[i as int].0@,
                        changes@[i as int].1@,
                    ]);
                    i += 1;
                }
                assert(changes@.subrange(0, changes@.len() as int) =~= changes@);
                push_text(&mut args, target.as_str());
                assert(args.deep_view() =~= change_arguments(changes@) + seq![target@]);
            },
            LinkEdit::SetIdentity { target, identity } => {
                push_text(&mut args, "-id");
                push_text(&mut args, identity.as_str());
                push_text(&mut args, target.as_str());
                assert(args.deep_view() =~= seq!["-id"@, identity@, target@]);
            },
            LinkEdit::AddRpath { target, rpath } => {
                push_text(&mut args, "-add_rpath");
                push_text(&mut args, rpath.as_str());
                push_text(&mut args, target.as_str());
                assert(args.deep_view() =~= seq!["-add_rpath"@, rpath@, target@]);
            },
        }
        args
    }
}

} // verus!
