use bundle_tool::error::{list_texts, FileOperation, ToolError};
use bundle_tool::macos::codesign::{
    bundle_for, classify_entry, extension_is, get_bundle_executable, info_plist_for, is_app_bundle,
    is_bundle_executable, is_framework_bundle, is_framework_dylib, is_in_framework,
    named_executable, CodeSign, FolderEntry,
};
use bundle_tool::macos::notarize::{
    notarization_result, parse_response, NotarizationResult, Notarize,
};
use bundle_tool::macos::universal::{EntryPlan, Universal};

fn texts(v: &[&str]) -> Vec<String> {
    v.iter().map(|s| s.to_string()).collect()
}

fn signer() -> CodeSign {
    CodeSign::new(bundle_tool::macos::codesign::Options {
        bundle_path: "/out/MyApp.app".to_string(),
        entitlements: "/e.plist".to_string(),
        identity: "Developer ID".to_string(),
    })
}

#[test]
fn signing_once() {
    let mut s = signer();
    assert!(!s.is_done("/out/MyApp.app"));
    assert_eq!(
        s.codesign("/out/MyApp.app".to_string(), true),
        Some(texts(&[
            "-o", "runtime", "--timestamp", "--entitlements", "/e.plist", "-f", "-s",
            "Developer ID", "/out/MyApp.app"
        ]))
    );
    assert!(s.is_done("/out/MyApp.app"));
    assert_eq!(s.codesign("/out/MyApp.app".to_string(), true), None);
    assert_eq!(
        s.codesign("/out/MyApp.app/Contents/Frameworks/a.dylib".to_string(), false),
        Some(texts(&[
            "-o", "runtime", "--timestamp", "-f", "-s", "Developer ID",
            "/out/MyApp.app/Contents/Frameworks/a.dylib"
        ]))
    );
    assert_eq!(s.done.len(), 2);
}

#[test]
fn places_in_a_bundle() {
    assert!(is_in_framework("/A.app/Contents/Frameworks/a.dylib"));
    assert!(is_in_framework("Contents/Frameworks/a.dylib"));
    assert!(!is_in_framework("/A.app/MyContents/Frameworks/a.dylib"));
    assert!(!is_in_framework("/A.app/Contents/MacOS/a"));
    assert!(!is_in_framework("a"));
    assert!(is_framework_dylib("/A.app/Contents/Frameworks/X.framework/X"));
    assert!(is_framework_dylib("/A.app/Contents/Frameworks/X.framework/Versions/A/X"));
    assert!(is_framework_dylib("/A.app/Contents/Frameworks/a.dylib"));
    assert!(!is_framework_dylib("/A.app/Contents/MacOS/X.framework/X"));
    assert!(!is_framework_dylib("/A.app/Contents/Frameworks/X.framework/Helpers/h"));
}

#[test]
fn bundles_by_extension() {
    assert!(is_app_bundle("/out/MyApp.app", true));
    assert!(!is_app_bundle("/out/MyApp.app", false));
    assert!(!is_app_bundle("/out/MyApp.framework", true));
    assert!(!is_app_bundle("/out/.app", true));
    assert!(is_framework_bundle("/out/X.framework"));
    assert!(!is_framework_bundle("/out/X.frameworks"));
    assert!(!is_framework_bundle("/out/.framework"));
    assert!(is_framework_bundle("/out/a.b.framework"));
    assert!(extension_is("a.tar.gz", "gz"));
    assert!(!extension_is("a.tar.gz", "tar.gzz"));
}

#[test]
fn executable_of_a_bundle() {
    assert_eq!(
        info_plist_for("/A.app/Contents/MacOS/A"),
        Some("/A.app/Contents/Info.plist".to_string())
    );
    assert_eq!(info_plist_for("/A.app/Contents/Helpers/A"), None);
    assert_eq!(info_plist_for("/A.app/Other/MacOS/A"), None);
    assert_eq!(info_plist_for("A"), None);
    assert_eq!(bundle_for("/A.app/Contents/MacOS/A"), Some("/A.app".to_string()));
    assert_eq!(bundle_for("/x/A.app/Contents/MacOS/A"), Some("/x/A.app".to_string()));
    assert_eq!(bundle_for("Contents/MacOS/A"), None);
    assert_eq!(bundle_for("/A.app/Contents/Helpers/A"), None);
    assert!(is_bundle_executable("/A.app/Contents/MacOS/A", "A", true));
    assert!(!is_bundle_executable("/A.app/Contents/MacOS/A", "B", true));
    assert!(!is_bundle_executable("/A.app/Contents/MacOS/A", "A", false));
    assert!(!is_bundle_executable("/A.app/Contents/Helpers/A", "A", true));
}

#[test]
fn entries_of_a_signed_folder() {
    assert_eq!(classify_entry("/o/A.app", true, true, false, false), FolderEntry::AppBundle);
    assert_eq!(classify_entry("/o/A.app", true, false, false, false), FolderEntry::Folder);
    assert_eq!(classify_entry("/o/X.framework", true, false, false, false), FolderEntry::FrameworkBundle);
    assert_eq!(classify_entry("/o/dir", true, false, false, false), FolderEntry::Folder);
    assert_eq!(classify_entry("/o/A.app/Contents/MacOS/tool", false, false, true, false), FolderEntry::Sign);
    assert_eq!(classify_entry("/o/A.app/Contents/MacOS/A", false, false, true, true), FolderEntry::Skip);
    assert_eq!(classify_entry("/o/A.app/Contents/Frameworks/a.dylib", false, false, true, false), FolderEntry::Skip);
    assert_eq!(classify_entry("/o/A.app/Contents/Resources/x.png", false, false, false, false), FolderEntry::Skip);
}

const INFO_PLIST: &str = "<?xml version=\"1.0\" encoding=\"UTF-8\"?>\n<plist version=\"1.0\">\n<dict>\n<key>CFBundleExecutable</key>\n<string>MyApp</string>\n<key>CFBundleVersion</key>\n<integer>3</integer>\n</dict>\n</plist>\n";

#[test]
fn executable_named_by_a_property_list() {
    assert_eq!(get_bundle_executable(INFO_PLIST.as_bytes(), "/A.app/Contents/Info.plist").unwrap(), "MyApp");
    let without = "<?xml version=\"1.0\" encoding=\"UTF-8\"?>\n<plist version=\"1.0\">\n<dict>\n<key>CFBundleExecutable</key>\n<integer>3</integer>\n</dict>\n</plist>\n";
    match get_bundle_executable(without.as_bytes(), "/p") {
        Err(ToolError::OtherError(m)) => assert_eq!(m, "Malformed info.plist"),
        other => panic!("expected a failure, got {:?}", other),
    }
    let list = "<?xml version=\"1.0\" encoding=\"UTF-8\"?>\n<plist version=\"1.0\">\n<array><string>MyApp</string></array>\n</plist>\n";
    assert!(matches!(get_bundle_executable(list.as_bytes(), "/p"), Err(ToolError::OtherError(_))));
    match get_bundle_executable(b"\x00\x01 not a property list", "/A.app/Contents/Info.plist") {
        Err(ToolError::Plist { path, error }) => {
            assert_eq!(path, Some("/A.app/Contents/Info.plist".to_string()));
            assert!(!error.is_empty());
        }
        other => panic!("expected a property list failure, got {:?}", other),
    }
    assert_eq!(named_executable(Some("x".to_string())).unwrap(), "x");
    assert!(named_executable(None).is_err());
}

fn notary() -> Notarize {
    Notarize::new(bundle_tool::macos::notarize::Options {
        bundle_path: "/out/MyApp.app".to_string(),
        username: "me@example.com".to_string(),
        password: "SECRET-REDACTED".to_string(),
        team_id: "TEAM".to_string(),
    })
}

#[test]
fn arguments_of_the_notary_runs() {
    let n = notary();
    assert_eq!(
        n.submit_arguments("/tmp/x/MyApp.app.zip"),
        texts(&[
            "notarytool", "submit", "--apple-id", "me@example.com", "--password",
            "SECRET-REDACTED", "--team-id", "TEAM", "--output-format", "plist", "--wait",
            "/tmp/x/MyApp.app.zip"
        ])
    );
    assert_eq!(
        n.log_arguments("abc"),
        texts(&[
            "notarytool", "log", "abc", "--apple-id", "me@example.com", "--password",
            "SECRET-REDACTED", "--team-id", "TEAM"
        ])
    );
    assert_eq!(n.staple_arguments(), texts(&["stapler", "staple", "/out/MyApp.app"]));
    assert_eq!(n.archive_path("/tmp/x"), "/tmp/x/MyApp.app.zip");
    assert_eq!(
        n.compress_arguments("/tmp/x/MyApp.app.zip"),
        texts(&["-c", "-k", "--sequesterRsrc", "--keepParent", "/out/MyApp.app", "/tmp/x/MyApp.app.zip"])
    );
}

#[test]
fn answer_of_the_notary() {
    let answer = "<?xml version=\"1.0\" encoding=\"UTF-8\"?>\n<plist version=\"1.0\">\n<dict>\n<key>id</key>\n<string>1234-abcd</string>\n<key>message</key>\n<string>done</string>\n<key>status</key>\n<string>Accepted</string>\n</dict>\n</plist>\n";
    let result = parse_response(answer).unwrap();
    assert_eq!(result.id, "1234-abcd");
    assert_eq!(result.status, "Accepted");
    assert!(result.is_accepted());
    assert!(result.verdict().is_ok());
    let no_status = "<?xml version=\"1.0\" encoding=\"UTF-8\"?>\n<plist version=\"1.0\">\n<dict>\n<key>id</key>\n<string>1234-abcd</string>\n</dict>\n</plist>\n";
    match parse_response(no_status) {
        Err(ToolError::OtherError(m)) => {
            assert_eq!(m, format!("Malformed notarization response: {}", no_status))
        }
        other => panic!("expected a failure, got {:?}", other),
    }
    match parse_response("<plist><dict><key>id</key>") {
        Err(ToolError::Plist { path, error }) => {
            assert_eq!(path, None);
            assert!(!error.is_empty());
        }
        other => panic!("expected a property list failure, got {:?}", other),
    }
}

#[test]
fn verdict_of_the_notary() {
    let result = |status: &str| NotarizationResult { id: "i".to_string(), status: status.to_string() };
    for status in ["accepted", "Accepted", "ACCEPTED", "aCcEpTeD"] {
        assert!(result(status).is_accepted());
        assert_eq!(status.to_lowercase(), "accepted");
    }
    for status in ["Invalid", "accepte", "accepted ", "", "rejected", "acceptee", "accep\u{54}ed!"] {
        assert!(!result(status).is_accepted());
    }
    match result("Invalid").verdict() {
        Err(ToolError::OtherError(m)) => assert_eq!(m, "Notarization failed with status: Invalid"),
        other => panic!("expected a failure, got {:?}", other),
    }
    let made = notarization_result(Some("i".to_string()), Some("s".to_string()), "r").unwrap();
    assert_eq!(made.id, "i");
    assert_eq!(made.status, "s");
    assert!(notarization_result(None, Some("s".to_string()), "r").is_err());
    match notarization_result(Some("i".to_string()), None, "r") {
        Err(ToolError::OtherError(m)) => assert_eq!(m, "Malformed notarization response: r"),
        other => panic!("expected a failure, got {:?}", other),
    }
}

fn merger(delete: bool) -> Universal {
    Universal::new(bundle_tool::macos::universal::Options {
        paths_in: texts(&["/x86/A.app", "/arm/A.app"]),
        out: "/out/A.app".to_string(),
        delete_existing_bundle: delete,
    })
}

#[test]
fn inputs_and_output_of_a_merge() {
    let u = merger(false);
    assert!(u.check_inputs(&vec![true, true]).is_ok());
    match u.check_inputs(&vec![true, false]) {
        Err(ToolError::OtherError(m)) => assert_eq!(m, "Path '/arm/A.app' does not exist"),
        other => panic!("expected a failure, got {:?}", other),
    }
    match u.check_inputs(&vec![false, false]) {
        Err(ToolError::OtherError(m)) => assert_eq!(m, "Path '/x86/A.app' does not exist"),
        other => panic!("expected a failure, got {:?}", other),
    }
    assert!(u.check_inputs(&vec![true]).is_err());
    assert_eq!(u.check_target(false).unwrap(), false);
    match u.check_target(true) {
        Err(ToolError::OtherError(m)) => {
            assert_eq!(m, "Target folder '/out/A.app' already exists. Please delete it first.")
        }
        other => panic!("expected a failure, got {:?}", other),
    }
    assert_eq!(merger(true).check_target(true).unwrap(), true);
}

#[test]
fn entries_of_a_merge() {
    assert!(Universal::are_files_same(&vec![10, 10, 10]));
    assert!(!Universal::are_files_same(&vec![10, 11, 10]));
    assert!(Universal::are_files_same(&vec![10]));
    assert!(Universal::are_files_same(&vec![]));
    assert_eq!(
        Universal::entry_paths(&texts(&["/x86/A.app", "/arm/A.app"]), "Contents"),
        texts(&["/x86/A.app/Contents", "/arm/A.app/Contents"])
    );
    assert_eq!(Universal::plan_entry(2, &vec![true, true], true, true, true).unwrap(), EntryPlan::Link);
    assert_eq!(Universal::plan_entry(2, &vec![true, true], false, true, true).unwrap(), EntryPlan::Descend);
    assert_eq!(Universal::plan_entry(2, &vec![true, true], false, false, true).unwrap(), EntryPlan::Compare);
    assert_eq!(Universal::plan_entry(2, &vec![true, true], false, false, false).unwrap(), EntryPlan::Copy);
    assert!(matches!(
        Universal::plan_entry(2, &vec![true, false], false, false, false),
        Err(ToolError::BundlesNotIdentical)
    ));
    assert!(matches!(
        Universal::plan_entry(2, &vec![true], true, false, false),
        Err(ToolError::BundlesNotIdentical)
    ));
    assert_eq!(Universal::plan_binary(&vec![10, 10]), EntryPlan::Copy);
    assert_eq!(Universal::plan_binary(&vec![10, 12]), EntryPlan::Merge);
    assert_eq!(
        Universal::lipo_arguments(&texts(&["/x86/a", "/arm/a"]), "/out/a"),
        texts(&["-create", "/x86/a", "/arm/a", "-output", "/out/a"])
    );
}

#[test]
fn messages_of_failures() {
    let e = ToolError::Command {
        command: "otool -L x".to_string(),
        status: "exit status: 1".to_string(),
        stderr: "bad".to_string(),
        stdout: "out".to_string(),
    };
    assert_eq!(
        e.message(),
        "External Tool Failed!\nStatus: exit status: 1\nCommand: otool -L x\nStderr:\nbad\nStdout:\nout"
    );
    let e = ToolError::file_operation(FileOperation::ReadDir, "/p".to_string(), "denied".to_string());
    assert_eq!(e.message(), "File operation failed: ReadDir, path: /p, error: denied");
    let e = ToolError::file_operation_with_source(
        FileOperation::Copy,
        "/to".to_string(),
        "/from".to_string(),
        "denied".to_string(),
    );
    assert_eq!(
        e.message(),
        "File operation failed: Copy, target path: /to, source path: /from, error: denied"
    );
    let e = ToolError::PathResolve { path: "@rpath/a".to_string(), rpaths: texts(&["/r1", "/r2"]) };
    assert_eq!(e.message(), "Failed to resolve path: @rpath/a (rpaths: /r1, /r2)");
    let e = ToolError::VersionConflict {
        reference: "@rpath/a".to_string(),
        first_source: "/x/a".to_string(),
        second_source: "/y/a".to_string(),
    };
    assert_eq!(e.message(), "Trying to bundle two different versions of @rpath/a: /x/a, /y/a");
    let e = ToolError::MalformedOutput { details: "line".to_string() };
    assert_eq!(e.message(), "Malformed dependency listing: line");
    let e = ToolError::Plist { path: Some("/p".to_string()), error: "bad".to_string() };
    assert_eq!(e.message(), "PlistError: bad (Path: /p)");
    let e = ToolError::Plist { path: None, error: "bad".to_string() };
    assert_eq!(e.message(), "PlistError: bad");
    let e = ToolError::NotarizationFailure { log_file_url: Some("http://log".to_string()) };
    assert_eq!(e.message(), "Notarization failed: http://log");
    let e = ToolError::NotarizationFailure { log_file_url: None };
    assert_eq!(e.message(), "Notarization failed: No log available");
    assert_eq!(ToolError::BundlesNotIdentical.message(), "Bundles are not identical");
    assert_eq!(ToolError::OtherError("text".to_string()).message(), "text");
    assert_eq!(list_texts(&vec![]), "");
    assert_eq!(list_texts(&texts(&["a"])), "a");
    assert_eq!(FileOperation::MetaData.name(), "MetaData");
    assert_eq!(FileOperation::Metadata.name(), "Metadata");
}
