//! Mirroring the source bundle into the bundle being built: a state machine
//! that is stepped by a driver, which reads directories, recreates links
//! and copies files as it is told.
use crate::error::ToolError;
use crate::macos::layout::{is_reserved_bundle_path, preserves_symlink, reserved_bundle_path};
use crate::macos::utils::{is_executable_binary, linked_binary};
use crate::paths::{is_within, join, joined};
use vstd::prelude::*;
use vstd::string::*;

verus! {

/// An entry of a directory, as the driver found it.
#[derive(Debug)]
pub struct Entry {
    pub name: String,
    pub is_symlink: bool,
}

/// A directory that is being mirrored.
#[derive(Debug)]
pub struct Directory {
    /// The directory in the source bundle.
    pub source: String,
    /// Its mirror in the bundle being built.
    pub target: String,
    pub entries: Vec<Entry>,
    /// The entry that is looked at next.
    pub next: usize,
}

/// What the copier asks its driver to do next.
#[derive(Debug)]
pub enum CopyAction {
    /// Nothing; the answer is `CopyEvent::Done`.
    Continue,
    /// List the directory at `path`; the answer is `CopyEvent::Entries`.
    ReadDir { path: String },
    /// Recreate the link at `source` as `target`, then resolve the new link
    /// and the bundle being built; the answer is `CopyEvent::Linked`.
    Link { source: String, target: String },
    /// Remove the link at `target`; the answer is `CopyEvent::Done`.
    Unlink { target: String },
    /// Resolve `path` and tell whether it is a directory; the answer is
    /// `CopyEvent::Resolved`.
    Resolve { path: String },
    /// Create the directory `target`; the answer is `CopyEvent::Done`.
    MakeDir { target: String },
    /// Copy the file at `source` to `target` and look at the file; the
    /// answer is `CopyEvent::Copied`.
    CopyFile { source: String, target: String },
    /// The bundle is mirrored.
    Finished,
    /// The run has failed.
    Failed(ToolError),
}

/// What the driver reports back.
#[derive(Debug)]
pub enum CopyEvent {
    Done,
    Entries(Vec<Entry>),
    /// Where the recreated link and the bundle being built resolve to.
    Linked { link: String, bundle: String },
    /// Where a source entry resolves to, and whether that is a directory.
    Resolved { path: String, is_dir: bool },
    /// Whether the copied file looks executable, its size and the bytes it
    /// starts with.
    Copied { looks_executable: bool, size: u64, head: Vec<u8> },
}

/// Where the copier stands. `source` and `target` are the entry in hand
/// and its mirror.
#[derive(Debug)]
pub enum CopyStage {
    Start,
    /// The entries of a directory were asked for.
    AwaitEntries { source: String, target: String },
    /// Looking at the next entry of the innermost directory.
    Walking,
    /// A link was recreated; where it leads was asked for.
    AwaitLink { source: String, target: String },
    /// A link that leads out of the bundle is being removed.
    AwaitUnlink { source: String, target: String },
    /// What the entry resolves to was asked for.
    AwaitResolved { source: String, target: String },
    /// The mirror of a directory is being created.
    AwaitDirectory { source: String, target: String },
    /// A file is being copied.
    AwaitFile { source: String, target: String },
    Finished,
    Failed,
}

/// The copier: mirrors the bundle at `source_root` into `target_root` and
/// collects the copies that are linked binaries.
#[derive(Debug)]
pub struct TreeCopier {
    pub source_root: String,
    pub target_root: String,
    /// The linked binaries copied so far, by their place in the bundle
    /// being built.
    pub executables: Vec<String>,
    /// The directories being mirrored, the innermost last.
    pub stack: Vec<Directory>,
    pub stage: CopyStage,
}

impl Directory {
    /// The walk is within bounds.
    pub open spec fn wf(&self) -> bool {
        self.next <= self.entries@.len()
    }

    /// The entry at which the walk stands.
    pub open spec fn current(&self) -> Entry {
        self.entries@[self.next as int]
    }

    /// The same directory, one entry further.
    pub open spec fn advanced(self) -> Directory {
        Directory { next: (self.next + 1) as usize, ..self }
    }
}

impl TreeCopier {
    pub fn new(source_root: String, target_root: String) -> (res: Self)
        ensures
            res.source_root == source_root,
            res.target_root == target_root,
            res.executables@.len() == 0,
            res.stack@.len() == 0,
            res.stage is Start,
            res.wf(),
    {
        Self {
            source_root,
            target_root,
            executables: Vec::new(),
            stack: Vec::new(),
            stage: CopyStage::Start,
        }
    }

    /// Every directory on the stack is within bounds.
    pub open spec fn wf(&self) -> bool {
        forall|i: int| 0 <= i < self.stack@.len() ==> (#[trigger] self.stack@[i]).wf()
    }

    /// The innermost directory being mirrored.
    pub open spec fn top(&self) -> Directory {
        self.stack@.last()
    }

    /// The run stops because the event is not an answer to what was asked.
    pub open spec fn rejected(self, post: Self, action: CopyAction) -> bool {
        &&& post == (TreeCopier { stage: CopyStage::Failed, ..self })
        &&& (action matches CopyAction::Failed(ToolError::OtherError(m)) && m@
            == "unexpected event"@)
    }

    /// Only the stage changes, and the new one has `source` and `target` in
    /// hand.
    pub open spec fn moved(self, post: Self, source: Seq<char>, target: Seq<char>) -> bool {
        &&& post == (TreeCopier { stage: post.stage, ..self })
        &&& post.in_hand() == Some((source, target))
    }

    /// The entry in hand and its mirror, at the stages that have one.
    pub open spec fn in_hand(&self) -> Option<(Seq<char>, Seq<char>)> {
        match self.stage {
            CopyStage::AwaitEntries { source, target } => Some((source@, target@)),
            CopyStage::AwaitLink { source, target } => Some((source@, target@)),
            CopyStage::AwaitUnlink { source, target } => Some((source@, target@)),
            CopyStage::AwaitResolved { source, target } => Some((source@, target@)),
            CopyStage::AwaitDirectory { source, target } => Some((source@, target@)),
            CopyStage::AwaitFile { source, target } => Some((source@, target@)),
            _ => None,
        }
    }

    /// The entry in hand.
    pub open spec fn source_in_hand(&self) -> Seq<char> {
        let pair = self.in_hand()->0;
        pair.0
    }

    /// The mirror of the entry in hand.
    pub open spec fn target_in_hand(&self) -> Seq<char> {
        let pair = self.in_hand()->0;
        pair.1
    }

    /// At an entry. With no directory left the bundle is mirrored; a
    /// directory without entries left is done. Else the walk moves past the
    /// entry: the shared-library directory is left out, a link is recreated,
    /// and anything else is resolved to what is copied.
    pub open spec fn walking_step(self, post: Self, action: CopyAction) -> bool {
        if self.stack@.len() == 0 {
            &&& post == (TreeCopier { stage: CopyStage::Finished, ..self })
            &&& action is Finished
        } else if self.top().next >= self.top().entries@.len() {
            &&& post == (TreeCopier { stack: post.stack, ..self })
            &&& post.stack@ == self.stack@.drop_last()
            &&& action is Continue
        } else {
            let entry = self.top().current();
            let source = joined(self.top().source@, entry.name@);
            let target = joined(self.top().target@, entry.name@);
            &&& post == (TreeCopier { stack: post.stack, stage: post.stage, ..self })
            &&& post.stack@ == self.stack@.drop_last().push(self.top().advanced())
            &&& if reserved_bundle_path(self.top().source@, entry.name@) {
                post.stage is Walking && action is Continue
            } else if entry.is_symlink {
                &&& post.stage is AwaitLink
                &&& post.in_hand() == Some((source, target))
                &&& (action matches CopyAction::Link { source: s, target: t } && s@ == source && t@
                    == target)
            } else {
                &&& post.stage is AwaitResolved
                &&& post.in_hand() == Some((source, target))
                &&& (action matches CopyAction::Resolve { path } && path@ == source)
            }
        }
    }

    /// What one step does: `post` and `action` are the state and the action
    /// that follow the state `self` on `event`.
    pub open spec fn transition(self, event: CopyEvent, post: Self, action: CopyAction) -> bool {
        match self.stage {
            CopyStage::Start => {
                &&& post.stage is AwaitEntries
                &&& self.moved(post, self.source_root@, self.target_root@)
                &&& (action matches CopyAction::ReadDir { path } && path@ == self.source_root@)
            },
            CopyStage::AwaitEntries { source, target } => match event {
                CopyEvent::Entries(entries) => {
                    &&& post == (TreeCopier { stack: post.stack, stage: CopyStage::Walking, ..self })
                    &&& post.stack@ == self.stack@.push(
                        Directory { source, target, entries, next: 0 },
                    )
                    &&& action is Continue
                },
                _ => self.rejected(post, action),
            },
            CopyStage::Walking => self.walking_step(post, action),
            CopyStage::AwaitLink { source, target } => match event {
                CopyEvent::Linked { link, bundle } => if is_within(link@, bundle@) {
                    &&& post == (TreeCopier { stage: CopyStage::Walking, ..self })
                    &&& action is Continue
                } else {
                    &&& post.stage is AwaitUnlink
                    &&& self.moved(post, source@, target@)
                    &&& (action matches CopyAction::Unlink { target: t } && t@ == target@)
                },
                _ => self.rejected(post, action),
            },
            CopyStage::AwaitUnlink { source, target } => match event {
                CopyEvent::Done => {
                    &&& post.stage is AwaitResolved
                    &&& self.moved(post, source@, target@)
                    &&& (action matches CopyAction::Resolve { path } && path@ == source@)
                },
                _ => self.rejected(post, action),
            },
            CopyStage::AwaitResolved { source, target } => match event {
                CopyEvent::Resolved { path, is_dir } => if is_dir {
                    &&& post.stage is AwaitDirectory
                    &&& self.moved(post, source@, target@)
                    &&& (action matches CopyAction::MakeDir { target: t } && t@ == target@)
                } else {
                    &&& post.stage is AwaitFile
                    &&& self.moved(post, source@, target@)
                    &&& (action matches CopyAction::CopyFile { source: s, target: t } && s@
                        == path@ && t@ == target@)
                },
                _ => self.rejected(post, action),
            },
            CopyStage::AwaitDirectory { source, target } => match event {
                CopyEvent::Done => {
                    &&& post.stage is AwaitEntries
                    &&& self.moved(post, source@, target@)
                    &&& (action matches CopyAction::ReadDir { path } && path@ == source@)
                },
                _ => self.rejected(post, action),
            },
            CopyStage::AwaitFile { source, target } => match event {
                CopyEvent::Copied { looks_executable, size, head } => {
                    &&& post == (TreeCopier {
                        executables: post.executables,
                        stage: CopyStage::Walking,
                        ..self
                    })
                    &&& post.executables.deep_view() == (if linked_binary(
                        looks_executable,
                        size,
                        head@,
                    ) {
                        self.executables.deep_view().push(target@)
                    } else {
                        self.executables.deep_view()
                    })
                    &&& action is Continue
                },
                _ => self.rejected(post, action),
            },
            CopyStage::Finished => post == self && action is Finished,
            CopyStage::Failed => post == self && (action matches CopyAction::Failed(
                ToolError::OtherError(m),
            ) && m@ == "the run has failed"@),
        }
    }

    fn at(self, stage: CopyStage) -> (res: Self)
        requires
            self.wf(),
        ensures
            res == (TreeCopier { stage, ..self }),
            res.wf(),
    {
        let TreeCopier { source_root, target_root, executables, stack, stage: _ } = self;
        TreeCopier { source_root, target_root, executables, stack, stage }
    }

    fn reject(self) -> (next: (Self, CopyAction))
        requires
            self.wf(),
        ensures
            self.rejected(next.0, next.1),
            next.0.wf(),
    {
        let e = ToolError::OtherError(String::from_str("unexpected event"));
        (self.at(CopyStage::Failed), CopyAction::Failed(e))
    }

    fn walk(self) -> (next: (Self, CopyAction))
        requires
            self.wf(),
            self.stage is Walking,
        ensures
            self.walking_step(next.0, next.1),
            next.0.wf(),
    {
        if self.stack.len() == 0 {
            return (self.at(CopyStage::Finished), CopyAction::Finished);
        }
        let TreeCopier { source_root, target_root, executables, stack, stage } = self;
        let mut stack = stack;
        let ghost before = stack@;
        let Directory { source, target, entries, next } = stack.pop().unwrap();
        if next >= entries.len() {
            return (
                TreeCopier { source_root, target_root, executables, stack, stage },
                CopyAction::Continue,
            );
        }
        let reserved = is_reserved_bundle_path(source.as_str(), entries[next].name.as_str());
        let is_symlink = entries[next].is_symlink;
        let from = join(source.as_str(), entries[next].name.as_str());
        let to = join(target.as_str(), entries[next].name.as_str());
        stack.push(Directory { source, target, entries, next: next + 1 });
        assert forall|i: int| 0 <= i < stack@.len() implies (#[trigger] stack@[i]).wf() by {
            if i < stack@.len() - 1 {
                assert(stack@[i] == before[i]);
            }
        }
        if reserved {
            (
                TreeCopier { source_root, target_root, executables, stack, stage },
                CopyAction::Continue,
            )
        } else if is_symlink {
            let action = CopyAction::Link { source: from.clone(), target: to.clone() };
            let stage = CopyStage::AwaitLink { source: from, target: to };
            (TreeCopier { source_root, target_root, executables, stack, stage }, action)
        } else {
            let action = CopyAction::Resolve { path: from.clone() };
            let stage = CopyStage::AwaitResolved { source: from, target: to };
            (TreeCopier { source_root, target_root, executables, stack, stage }, action)
        }
    }

    /// Takes one step: consumes the answer to the last action and says what
    /// to do next. The first step takes `CopyEvent::Done`.
    pub fn step(self, event: CopyEvent) -> (next: (Self, CopyAction))
        requires
            self.wf(),
        ensures
            self.transition(event, next.0, next.1),
            next.0.wf(),
    {
        match &self.stage {
            CopyStage::Walking => {
                return self.walk();
            },
            CopyStage::Finished => {
                return (self, CopyAction::Finished);
            },
            CopyStage::Failed => {
                let e = ToolError::OtherError(String::from_str("the run has failed"));
                return (self, CopyAction::Failed(e));
            },
            CopyStage::Start => {
                let path = self.source_root.clone();
                let stage = CopyStage::AwaitEntries {
                    source: self.source_root.clone(),
                    target: self.target_root.clone(),
                };
                return (self.at(stage), CopyAction::ReadDir { path });
            },
            _ => {},
        }
        let TreeCopier { source_root, target_root, executables, stack, stage } = self;
        match (stage, event) {
            (CopyStage::AwaitEntries { source, target }, CopyEvent::Entries(entries)) => {
                let mut stack = stack;
                stack.push(Directory { source, target, entries, next: 0 });
                (
                    TreeCopier {
                        source_root,
                        target_root,
                        executables,
                        stack,
                        stage: CopyStage::Walking,
                    },
                    CopyAction::Continue,
                )
            },
            (CopyStage::AwaitLink { source, target }, CopyEvent::Linked { link, bundle }) => {
                if preserves_symlink(link.as_str(), bundle.as_str()) {
                    (
                        TreeCopier {
                            source_root,
                            target_root,
                            executables,
                            stack,
                            stage: CopyStage::Walking,
                        },
                        CopyAction::Continue,
                    )
                } else {
                    let action = CopyAction::Unlink { target: target.clone() };
                    let stage = CopyStage::AwaitUnlink { source, target };
                    (TreeCopier { source_root, target_root, executables, stack, stage }, action)
                }
            },
            (CopyStage::AwaitUnlink { source, target }, CopyEvent::Done) => {
                let action = CopyAction::Resolve { path: source.clone() };
                let stage = CopyStage::AwaitResolved { source, target };
                (TreeCopier { source_root, target_root, executables, stack, stage }, action)
            },
            (CopyStage::AwaitResolved { source, target }, CopyEvent::Resolved { path, is_dir }) => {
                if is_dir {
                    let action = CopyAction::MakeDir { target: target.clone() };
                    let stage = CopyStage::AwaitDirectory { source, target };
                    (TreeCopier { source_root, target_root, executables, stack, stage }, action)
                } else {
                    let action = CopyAction::CopyFile { source: path, target: target.clone() };
                    let stage = CopyStage::AwaitFile { source, target };
                    (TreeCopier { source_root, target_root, executables, stack, stage }, action)
                }
            },
            (CopyStage::AwaitDirectory { source, target }, CopyEvent::Done) => {
                let action = CopyAction::ReadDir { path: source.clone() };
                let stage = CopyStage::AwaitEntries { source, target };
                (TreeCopier { source_root, target_root, executables, stack, stage }, action)
            },
            (
                CopyStage::AwaitFile { source, target },
                CopyEvent::Copied { looks_executable, size, head },
            ) => {
                let mut executables = executables;
                let ghost before = executables.deep_view();
                if is_executable_binary(looks_executable, size, head.as_slice()) {
                    executables.push(target);
                    assert(executables.deep_view() =~= before.push(target@));
                }
                (
                    TreeCopier {
                        source_root,
                        target_root,
                        executables,
                        stack,
                        stage: CopyStage::Walking,
                    },
                    CopyAction::Continue,
                )
            },
            (_, _) => {
                let e = ToolError::OtherError(String::from_str("unexpected event"));
                (
                    TreeCopier {
                        source_root,
                        target_root,
                        executables,
                        stack,
                        stage: CopyStage::Failed,
                    },
                    CopyAction::Failed(e),
                )
            },
        }
    }
}

/// The shared-library directory is not mirrored: a step that comes to an
/// entry `Frameworks` of a directory `Contents` moves past it and asks for
/// nothing.
pub proof fn lemma_reserved_entry_is_passed(
    pre: TreeCopier,
    event: CopyEvent,
    post: TreeCopier,
    action: CopyAction,
)
    requires
        pre.wf(),
        pre.stage is Walking,
        pre.stack@.len() > 0,
        pre.top().next < pre.top().entries@.len(),
        reserved_bundle_path(pre.top().source@, pre.top().current().name@),
        pre.transition(event, post, action),
    ensures
        action is Continue,
        post.stage is Walking,
        post.top().next == pre.top().next + 1,
        post.executables == pre.executables,
{
    let moved = pre.top().advanced();
    assert(pre.top().entries.len() == pre.top().entries@.len());
    assert(post.stack@ == pre.stack@.drop_last().push(moved));
    assert(post.stack@.last() == moved);
}

/// A link that leads into the bundle stays a link: once the recreated link
/// is found to resolve inside the bundle being built, the copier goes on
/// to the next entry and asks for nothing about this one.
pub proof fn lemma_inner_link_is_kept(
    pre: TreeCopier,
    link: String,
    bundle: String,
    post: TreeCopier,
    action: CopyAction,
)
    requires
        pre.wf(),
        pre.stage is AwaitLink,
        is_within(link@, bundle@),
        pre.transition(CopyEvent::Linked { link, bundle }, post, action),
    ensures
        action is Continue,
        post == (TreeCopier { stage: CopyStage::Walking, ..pre }),
{
}

/// A link that leads out of the bundle is replaced by what it leads to:
/// once the recreated link is found to resolve outside the bundle being
/// built, the copier has it removed, then asks what the source entry
/// resolves to, and then has that copied to the place of the link: a file
/// as a file, a directory entry by entry.
pub proof fn lemma_outer_link_is_replaced(
    pre: TreeCopier,
    link: String,
    bundle: String,
    unlinking: TreeCopier,
    first: CopyAction,
    resolving: TreeCopier,
    second: CopyAction,
    path: String,
    is_dir: bool,
    copying: TreeCopier,
    third: CopyAction,
)
    requires
        pre.wf(),
        pre.stage is AwaitLink,
        !is_within(link@, bundle@),
        pre.transition(CopyEvent::Linked { link, bundle }, unlinking, first),
        unlinking.transition(CopyEvent::Done, resolving, second),
        resolving.transition(CopyEvent::Resolved { path, is_dir }, copying, third),
    ensures
        first matches CopyAction::Unlink { target } && target@ == pre.target_in_hand(),
        second matches CopyAction::Resolve { path: p } && p@ == pre.source_in_hand(),
        is_dir ==> (third matches CopyAction::MakeDir { target } && target@ == pre.target_in_hand()),
        !is_dir ==> (third matches CopyAction::CopyFile { source, target } && source@ == path@
            && target@ == pre.target_in_hand()),
{
}

/// Only linked binaries are collected, by where they were copied to: a
/// step adds the mirror of the file in hand to the executables exactly
/// when the copied file is a linked binary, and no step removes one.
pub proof fn lemma_executables_are_linked_binaries(
    pre: TreeCopier,
    event: CopyEvent,
    post: TreeCopier,
    action: CopyAction,
)
    requires
        pre.wf(),
        pre.transition(event, post, action),
    ensures
        post.executables.deep_view() == pre.executables.deep_view() || (pre.stage is AwaitFile
            && (event matches CopyEvent::Copied { looks_executable, size, head } && linked_binary(
            looks_executable,
            size,
            head@,
        )) && post.executables.deep_view() == pre.executables.deep_view().push(
            pre.target_in_hand(),
        )),
{
}

} // verus!
