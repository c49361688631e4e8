//! Notarizing a signed bundle: the arguments of each tool run, and what the
//! answer of the service means.
use crate::error::ToolError;
use crate::paths::{file_name, join, joined, name_of};
use crate::property_list::{error_text, parse_xml, string_entry, xml_string_entries};
use crate::text::{chars_of, push_text};
use vstd::prelude::*;
use vstd::string::*;

verus! {

/// What is to be notarized, and on whose account.
#[derive(Debug)]
pub struct Options {
    /// The self-contained, signed bundle.
    pub bundle_path: String,
    pub username: String,
    pub password: String,
    pub team_id: String,
}

/// The notarization run.
#[derive(Debug)]
pub struct Notarize {
    pub options: Options,
}

/// What the service answered to a submission.
#[derive(Debug)]
pub struct NotarizationResult {
    pub id: String,
    pub status: String,
}

/// `c` is the letter `l`, in either case; `l` is a small ASCII letter.
pub open spec fn same_letter(c: char, l: char) -> bool {
    c == l || ('A' <= c <= 'Z' && c as u32 + 32 == l as u32)
}

/// The status says that the bundle was accepted: it reads `accepted`, in
/// whichever case.
pub open spec fn is_accepted_status(status: Seq<char>) -> bool {
    &&& status.len() == "accepted"@.len()
    &&& forall|i: int| 0 <= i < status.len() ==> same_letter(#[trigger] status[i], "accepted"@[i])
}

impl NotarizationResult {
    /// Tests whether the bundle was accepted.
    pub fn is_accepted(&self) -> (res: bool)
        ensures
            res == is_accepted_status(self.status@),
    {
        let s = chars_of(self.status.as_str());
        let t = chars_of("accepted");
        if s.len() != t.len() {
            return false;
        }
        let mut i: usize = 0;
        while i < s.len()
            invariant
                i <= s@.len() == t@.len(),
                s@ == self.status@,
                t@ == "accepted"@,
                forall|k: int| 0 <= k < i ==> same_letter(#[trigger] s@[k], t@[k]),
            decreases s@.len() - i,
        {
            let c = s[i];
            let l = t[i];
            let same = c == l || ('A' <= c && c <= 'Z' && c as u32 + 32 == l as u32);
            if !same {
                assert(!same_letter(s@[i as int], t@[i as int]));
                return false;
            }
            i += 1;
        }
        true
    }

    /// The message for a bundle that was turned down.
    pub open spec fn failure_message(&self) -> Seq<char> {
        "Notarization failed with status: "@ + self.status@
    }

    /// The outcome of the run: success where the bundle was accepted, else
    /// a failure that holds the status.
    pub fn verdict(&self) -> (res: Result<(), ToolError>)
        ensures
            res is Ok <==> is_accepted_status(self.status@),
            res is Err ==> (res->Err_0 matches ToolError::OtherError(m) && m@
                == self.failure_message()),
    {
        if self.is_accepted() {
            Ok(())
        } else {
            let mut m = String::from_str("Notarization failed with status: ");
            m.append(self.status.as_str());
            Err(ToolError::OtherError(m))
        }
    }
}

/// The message for an answer that lacks the id or the status.
pub open spec fn malformed_response_message(response: Seq<char>) -> Seq<char> {
    "Malformed notarization response: "@ + response
}

/// Makes the result of a submission out of the id and the status that its
/// answer holds. An answer that lacks one of them is malformed.
pub fn notarization_result(id: Option<String>, status: Option<String>, response: &str) -> (res:
    Result<NotarizationResult, ToolError>)
    ensures
        res is Ok <==> id is Some && status is Some,
        res is Ok ==> res->Ok_0.id == id->0 && res->Ok_0.status == status->0,
        res is Err ==> (res->Err_0 matches ToolError::OtherError(m) && m@
            == malformed_response_message(response@)),
{
    match (id, status) {
        (Some(id), Some(status)) => Ok(NotarizationResult { id, status }),
        _ => {
            let mut m = String::from_str("Malformed notarization response: ");
            m.append(response);
            Err(ToolError::OtherError(m))
        },
    }
}

/// Reads the answer to a submission: a property list in XML with the
/// strings `id` and `status`.
pub fn parse_response(response: &str) -> (res: Result<NotarizationResult, ToolError>)
    ensures
        match xml_string_entries(response@) {
            None => (res matches Err(ToolError::Plist { path, error }) && path is None),
            Some(entries) => if entries.dom().contains("id"@) && entries.dom().contains("status"@) {
                res matches Ok(r) && r.id@ == entries["id"@] && r.status@ == entries["status"@]
            } else {
                res matches Err(ToolError::OtherError(m)) && m@ == malformed_response_message(
                    response@,
                )
            },
        },
{
    match parse_xml(response) {
        Err(e) => Err(ToolError::Plist { path: None, error: error_text(&e) }),
        Ok(value) => {
            let id = string_entry(&value, "id");
            let status = string_entry(&value, "status");
            notarization_result(id, status, response)
        },
    }
}

impl Notarize {
    pub fn new(options: Options) -> (res: Self)
        ensures
            res.options == options,
    {
        Self { options }
    }

    /// The account arguments that every run of the notary tool takes.
    pub open spec fn account_arguments(&self) -> Seq<Seq<char>> {
        seq![
            "--apple-id"@,
            self.options.username@,
            "--password"@,
            self.options.password@,
            "--team-id"@,
            self.options.team_id@,
        ]
    }

    fn push_account(&self, args: &mut Vec<String>)
        ensures
            final(args).deep_view() == old(args).deep_view() + self.account_arguments(),
    {
        push_text(args, "--apple-id");
        push_text(args, self.options.username.as_str());
        push_text(args, "--password");
        push_text(args, self.options.password.as_str());
        push_text(args, "--team-id");
        push_text(args, self.options.team_id.as_str());
        assert(args.deep_view() =~= old(args).deep_view() + self.account_arguments());
    }

    /// The arguments that submit the archive at `compressed_path` and wait
    /// for the answer, as a property list.
    pub fn submit_arguments(&self, compressed_path: &str) -> (res: Vec<String>)
        ensures
            res.deep_view() == seq!["notarytool"@, "submit"@] + self.account_arguments() + seq![
                "--output-format"@,
                "plist"@,
                "--wait"@,
                compressed_path@,
            ],
    {
        let mut args: Vec<String> = Vec::new();
        assert(args.deep_view() =~= Seq::<Seq<char>>::empty());
        push_text(&mut args, "notarytool");
        push_text(&mut args, "submit");
        assert(args.deep_view() =~= seq!["notarytool"@, "submit"@]);
        self.push_account(&mut args);
        let ghost head = args.deep_view();
        push_text(&mut args, "--output-format");
        push_text(&mut args, "plist");
        push_text(&mut args, "--wait");
        push_text(&mut args, compressed_path);
        assert(args.deep_view() =~= head + seq![
            "--output-format"@,
            "plist"@,
            "--wait"@,
            compressed_path@,
        ]);
        args
    }

    /// The arguments that fetch the log of the submission `id`.
    pub fn log_arguments(&self, id: &str) -> (res: Vec<String>)
        ensures
            res.deep_view() == seq!["notarytool"@, "log"@, id@] + self.account_arguments(),
    {
        let mut args: Vec<String> = Vec::new();
        assert(args.deep_view() =~= Seq::<Seq<char>>::empty());
        push_text(&mut args, "notarytool");
        push_text(&mut args, "log");
        push_text(&mut args, id);
        assert(args.deep_view() =~= seq!["notarytool"@, "log"@, id@]);
        self.push_account(&mut args);
        args
    }

    /// The arguments that staple the ticket to the bundle.
    pub fn staple_arguments(&self) -> (res: Vec<String>)
        ensures
            res.deep_view() == seq!["stapler"@, "staple"@, self.options.bundle_path@],
    {
        let mut args: Vec<String> = Vec::new();
        assert(args.deep_view() =~= Seq::<Seq<char>>::empty());
        push_text(&mut args, "stapler");
        push_text(&mut args, "staple");
        push_text(&mut args, self.options.bundle_path.as_str());
        assert(args.deep_view() =~= seq!["stapler"@, "staple"@, self.options.bundle_path@]);
        args
    }

    /// Where the archive of the bundle is written: into `temp_dir`, under
    /// the name of the bundle with `.zip` behind it.
    pub fn archive_path(&self, temp_dir: &str) -> (res: String)
        ensures
            res@ == joined(temp_dir@, file_name(self.options.bundle_path@) + ".zip"@),
    {
        let mut name = name_of(self.options.bundle_path.as_str());
        name.append(".zip");
        join(temp_dir, name.as_str())
    }

    /// The arguments that pack the bundle into the archive at
    /// `compressed_path`.
    pub fn compress_arguments(&self, compressed_path: &str) -> (res: Vec<String>)
        ensures
            res.deep_view() == seq![
                "-c"@,
                "-k"@,
                "--sequesterRsrc"@,
                "--keepParent"@,
                self.options.bundle_path@,
                compressed_path@,
            ],
    {
        let mut args: Vec<String> = Vec::new();
        assert(args.deep_view() =~= Seq::<Seq<char>>::empty());
        push_text(&mut args, "-c");
        push_text(&mut args, "-k");
        push_text(&mut args, "--sequesterRsrc");
        push_text(&mut args, "--keepParent");
        push_text(&mut args, self.options.bundle_path.as_str());
        push_text(&mut args, compressed_path);
        assert(args.deep_view() =~= seq![
            "-c"@,
            "-k"@,
            "--sequesterRsrc"@,
            "--keepParent"@,
            self.options.bundle_path@,
            compressed_path@,
        ]);
        args
    }
}

} // verus!
