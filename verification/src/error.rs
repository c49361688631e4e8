//! What can go wrong while a bundle is put together.
use vstd::prelude::*;
use vstd::string::*;

verus! {

/// The file-system or process operation that a failure came from.
#[derive(Debug, Clone, Copy, PartialEq, Eq, Structural)]
pub enum FileOperation {
    CreateDir,
    Copy,
    Move,
    Remove,
    RemoveDir,
    Read,
    ReadLink,
    Write,
    Open,
    Create,
    SymLink,
    MetaData,
    CopyDir,
    MkDir,
    ReadDir,
    Canonicalize,
    Command,
    Unarchive,
    Metadata,
}

/// A failure of the run, with what is needed to report it.
#[derive(Debug)]
#[allow(inconsistent_fields)]
pub enum ToolError {
    /// An external tool ended with a failure status.
    Command { command: String, status: String, stderr: String, stdout: String },
    /// A file-system call failed.
    FileOperation {
        operation: FileOperation,
        path: String,
        source_path: Option<String>,
        source: String,
    },
    /// A link reference matched no existing file.
    PathResolve { path: String, rpaths: Vec<String> },
    /// Two different files claim the same place in the bundle, `reference`:
    /// `first_source` is the file that the dependency in hand resolved to,
    /// `second_source` the file that was bundled under the reference before.
    VersionConflict { reference: String, first_source: String, second_source: String },
    /// The dependency listing of a binary could not be read.
    MalformedOutput { details: String },
    /// A property list could not be read.
    Plist { path: Option<String>, error: String },
    /// The notarization service turned the bundle down.
    NotarizationFailure { log_file_url: Option<String> },
    /// The trees to merge differ in structure.
    BundlesNotIdentical,
    /// A precondition of a run that does not hold (a source or an output
    /// that is no directory, an output that is in the way, an event out of
    /// turn) or any other failure, as a message.
    OtherError(String),
}

impl FileOperation {
    /// The name of the operation, as it is reported.
    pub open spec fn name_text(&self) -> Seq<char> {
        match self {
            FileOperation::CreateDir => "CreateDir"@,
            FileOperation::Copy => "Copy"@,
            FileOperation::Move => "Move"@,
            FileOperation::Remove => "Remove"@,
            FileOperation::RemoveDir => "RemoveDir"@,
            FileOperation::Read => "Read"@,
            FileOperation::ReadLink => "ReadLink"@,
            FileOperation::Write => "Write"@,
            FileOperation::Open => "Open"@,
            FileOperation::Create => "Create"@,
            FileOperation::SymLink => "SymLink"@,
            FileOperation::MetaData => "MetaData"@,
            FileOperation::CopyDir => "CopyDir"@,
            FileOperation::MkDir => "MkDir"@,
            FileOperation::ReadDir => "ReadDir"@,
            FileOperation::Canonicalize => "Canonicalize"@,
            FileOperation::Command => "Command"@,
            FileOperation::Unarchive => "Unarchive"@,
            FileOperation::Metadata => "Metadata"@,
        }
    }

    /// The name of the operation, as it is reported.
    pub fn name(&self) -> (res: &'static str)
        ensures
            res@ == self.name_text(),
    {
        match self {
            FileOperation::CreateDir => "CreateDir",
            FileOperation::Copy => "Copy",
            FileOperation::Move => "Move",
            FileOperation::Remove => "Remove",
            FileOperation::RemoveDir => "RemoveDir",
            FileOperation::Read => "Read",
            FileOperation::ReadLink => "ReadLink",
            FileOperation::Write => "Write",
            FileOperation::Open => "Open",
            FileOperation::Create => "Create",
            FileOperation::SymLink => "SymLink",
            FileOperation::MetaData => "MetaData",
            FileOperation::CopyDir => "CopyDir",
            FileOperation::MkDir => "MkDir",
            FileOperation::ReadDir => "ReadDir",
            FileOperation::Canonicalize => "Canonicalize",
            FileOperation::Command => "Command",
            FileOperation::Unarchive => "Unarchive",
            FileOperation::Metadata => "Metadata",
        }
    }
}

/// The texts of `v`, separated by a comma and a blank.
pub open spec fn listed(v: Seq<String>) -> Seq<char>
    decreases v.len(),
{
    if v.len() == 0 {
        Seq::empty()
    } else if v.len() == 1 {
        v[0]@
    } else {
        listed(v.drop_last()) + ", "@ + v.last()@
    }
}

/// Writes out a list of texts, separated by a comma and a blank.
pub fn list_texts(v: &Vec<String>) -> (res: String)
    ensures
        res@ == listed(v@),
{
    let mut out = String::new();
    let mut i: usize = 0;
    while i < v.len()
        invariant
            i <= v@.len(),
            out@ == listed(v@.subrange(0, i as int)),
        decreases v@.len() - i,
    {
        let ghost head = v@.subrange(0, i as int);
        let ghost next = v@.subrange(0, i + 1);
        assert(next.drop_last() =~= head);
        assert(next.last() == v@[i as int]);
        if i > 0 {
            out.append(", ");
        } else {
            assert(out@ + v@[i as int]@ =~= v@[i as int]@);
        }
        out.append(v[i].as_str());
        i += 1;
    }
    assert(v@.subrange(0, v@.len() as int) =~= v@);
    out
}

impl ToolError {
    /// A failed file-system call on `path`.
    pub fn file_operation(operation: FileOperation, path: String, source: String) -> (res: Self)
        ensures
            res == (ToolError::FileOperation { operation, path, source_path: None, source }),
    {
        ToolError::FileOperation { operation, path, source_path: None, source }
    }

    /// A failed file-system call that leads from `source_path` to `path`.
    pub fn file_operation_with_source(
        operation: FileOperation,
        path: String,
        source_path: String,
        source: String,
    ) -> (res: Self)
        ensures
            res == (ToolError::FileOperation {
                operation,
                path,
                source_path: Some(source_path),
                source,
            }),
    {
        ToolError::FileOperation { operation, path, source_path: Some(source_path), source }
    }

    /// The failure as the text that the user gets to read.
    pub open spec fn message_text(&self) -> Seq<char> {
        match self {
            ToolError::Command { command, status, stderr, stdout } => {
                "External Tool Failed!\nStatus: "@ + status@ + "\nCommand: "@ + command@
                    + "\nStderr:\n"@ + stderr@ + "\nStdout:\n"@ + stdout@
            },
            ToolError::FileOperation { operation, path, source_path, source } => match source_path {
                Some(from) => {
                    "File operation failed: "@ + operation.name_text() + ", target path: "@ + path@
                        + ", source path: "@ + from@ + ", error: "@ + source@
                },
                None => {
                    "File operation failed: "@ + operation.name_text() + ", path: "@ + path@
                        + ", error: "@ + source@
                },
            },
            ToolError::PathResolve { path, rpaths } => {
                "Failed to resolve path: "@ + path@ + " (rpaths: "@ + listed(rpaths@) + ")"@
            },
            ToolError::VersionConflict { reference, first_source, second_source } => {
                "Trying to bundle two different versions of "@ + reference@ + ": "@ + first_source@
                    + ", "@ + second_source@
            },
            ToolError::MalformedOutput { details } => "Malformed dependency listing: "@ + details@,
            ToolError::Plist { path, error } => match path {
                Some(p) => "PlistError: "@ + error@ + " (Path: "@ + p@ + ")"@,
                None => "PlistError: "@ + error@,
            },
            ToolError::NotarizationFailure { log_file_url } => match log_file_url {
                Some(url) => "Notarization failed: "@ + url@,
                None => "Notarization failed: No log available"@,
            },
            ToolError::BundlesNotIdentical => "Bundles are not identical"@,
            ToolError::OtherError(m) => m@,
        }
    }

    /// Renders the failure for the user.
    pub fn message(&self) -> (res: String)
        ensures
            res@ == self.message_text(),
    {
        match self {
            ToolError::Command { command, status, stderr, stdout } => {
                let mut m = String::from_str("External Tool Failed!\nStatus: ");
                m.append(status.as_str());
                m.append("\nCommand: ");
                m.append(command.as_str());
                m.append("\nStderr:\n");
                m.append(stderr.as_str());
                m.append("\nStdout:\n");
                m.append(stdout.as_str());
                m
            },
            ToolError::FileOperation { operation, path, source_path, source } => {
                let mut m = String::from_str("File operation failed: ");
                m.append(operation.name());
                match source_path {
                    Some(from) => {
                        m.append(", target path: ");
                        m.append(path.as_str());
                        m.append(", source path: ");
                        m.append(from.as_str());
                    },
                    None => {
                        m.append(", path: ");
                        m.append(path.as_str());
                    },
                }
                m.append(", error: ");
                m.append(source.as_str());
                m
            },
            ToolError::PathResolve { path, rpaths } => {
                let mut m = String::from_str("Failed to resolve path: ");
                m.append(path.as_str());
                m.append(" (rpaths: ");
                let roots = list_texts(rpaths);
                m.append(roots.as_str());
                m.append(")");
                m
            },
            ToolError::VersionConflict { reference, first_source, second_source } => {
                let mut m = String::from_str("Trying to bundle two different versions of ");
                m.append(reference.as_str());
                m.append(": ");
                m.append(first_source.as_str());
                m.append(", ");
                m.append(second_source.as_str());
                m
            },
            ToolError::MalformedOutput { details } => {
                let mut m = String::from_str("Malformed dependency listing: ");
                m.append(details.as_str());
                m
            },
            ToolError::Plist { path, error } => {
                let mut m = String::from_str("PlistError: ");
                m.append(error.as_str());
                match path {
                    Some(p) => {
                        m.append(" (Path: ");
                        m.append(p.as_str());
                        m.append(")");
                    },
                    None => {},
                }
                m
            },
            ToolError::NotarizationFailure { log_file_url } => match log_file_url {
                Some(url) => {
                    let mut m = String::from_str("Notarization failed: ");
                    m.append(url.as_str());
                    m
                },
                None => String::from_str("Notarization failed: No log available"),
            },
            ToolError::BundlesNotIdentical => String::from_str("Bundles are not identical"),
            ToolError::OtherError(m) => m.clone(),
        }
    }
}

} // verus!
