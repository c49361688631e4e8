use bundle_tool::error::ToolError;
use bundle_tool::macos::bundle::{
    extract_module_path, find_dependency_root, find_module_paths, frameworks_path,
    has_local_dependency, inspect_arguments, is_reserved_bundle_path, load_executable,
    load_library, plan_dependency, preserves_symlink, rpath_for_executable, search_path_from,
    source_of_mirror, DependencyPlan, LinkEdit, ModulePath, Options, PathResolver, ProcessedLibraries, SelfContained,
};
use bundle_tool::macos::utils::{is_executable_binary, needs_header};

fn reference(s: &str) -> ModulePath {
    ModulePath::new(s.to_string())
}

fn lines(v: &[&str]) -> Vec<String> {
    v.iter().map(|s| s.to_string()).collect()
}

#[test]
fn system_references() {
    assert!(reference("/usr/lib/libSystem.B.dylib").is_system());
    assert!(reference("/lib/libz.dylib").is_system());
    assert!(reference("/System/Library/Frameworks/AppKit.framework/AppKit").is_system());
    assert!(!reference("/opt/local/lib/libfoo.dylib").is_system());
    assert!(!reference("@rpath/libfoo.dylib").is_system());
    assert!(!reference("/usr").is_system());
    assert!(!reference("/Users/me/lib.dylib").is_system());
    assert!(!reference("usr/lib").is_system());
    assert!(!reference("").is_system());
}

#[test]
fn references_compare_by_text() {
    assert!(reference("@rpath/a") == reference("@rpath/a"));
    assert!(reference("@rpath/a") != reference("@rpath/b"));
    assert_eq!(reference("@rpath/a").clone().as_str(), "@rpath/a");
}

#[test]
fn reference_of_a_listing_line() {
    let m = extract_module_path(
        "\t/usr/lib/libSystem.B.dylib (compatibility version 1.0.0, current version 1292.60.1)",
    )
    .unwrap();
    assert_eq!(m.as_str(), "/usr/lib/libSystem.B.dylib");
    let m = extract_module_path("  @rpath/X.framework/X\t(v 1)  ").unwrap();
    assert_eq!(m.as_str(), "@rpath/X.framework/X");
    match extract_module_path("   /no/annotation   ") {
        Err(ToolError::MalformedOutput { details }) => assert_eq!(details, "/no/annotation"),
        other => panic!("expected malformed output, got {:?}", other),
    }
    assert!(matches!(extract_module_path(""), Err(ToolError::MalformedOutput { .. })));
    assert!(matches!(extract_module_path("   "), Err(ToolError::MalformedOutput { .. })));
}

#[test]
fn references_of_a_listing() {
    let listing = lines(&["/bin/x:", "\t/a/liba.dylib (v 1)", "\t/usr/lib/libc.dylib (v 2)"]);
    let found = find_module_paths(&listing).unwrap();
    let texts: Vec<&str> = found.iter().map(|m| m.as_str()).collect();
    assert_eq!(texts, vec!["/a/liba.dylib", "/usr/lib/libc.dylib"]);
    assert_eq!(find_module_paths(&lines(&[])).unwrap().len(), 0);
    assert_eq!(find_module_paths(&lines(&["header without blank"])).unwrap().len(), 0);
    let bad = lines(&["/bin/x:", "\t/a/liba.dylib (v 1)", "broken", "alsobroken"]);
    match find_module_paths(&bad) {
        Err(ToolError::MalformedOutput { details }) => assert_eq!(details, "broken"),
        other => panic!("expected malformed output, got {:?}", other),
    }
}

#[test]
fn loading_modules() {
    let listing = lines(&["/a/liba.dylib:", "\t/a/liba.dylib (v 1)", "\t/usr/lib/libc.dylib (v 2)"]);
    let library = load_library("/a/liba.dylib".to_string(), &listing).unwrap();
    assert_eq!(library.install_name.as_str(), "/a/liba.dylib");
    assert_eq!(library.module.path, "/a/liba.dylib");
    assert_eq!(library.module.dependencies.len(), 1);
    assert_eq!(library.module.dependencies[0].as_str(), "/usr/lib/libc.dylib");
    let module = load_executable("/bin/x".to_string(), &listing).unwrap();
    assert_eq!(module.path, "/bin/x");
    assert_eq!(module.dependencies.len(), 2);
    assert_eq!(module.dependencies[0].as_str(), "/a/liba.dylib");
    let empty = lines(&["/bin/x:"]);
    match load_executable("/bin/x".to_string(), &empty) {
        Err(ToolError::MalformedOutput { details }) => assert_eq!(details, "/bin/x"),
        other => panic!("expected malformed output, got {:?}", other),
    }
    assert!(matches!(
        load_library("/bin/x".to_string(), &empty),
        Err(ToolError::MalformedOutput { .. })
    ));
    assert!(matches!(
        load_library("/bin/x".to_string(), &lines(&[])),
        Err(ToolError::MalformedOutput { .. })
    ));
}

#[test]
fn roots_of_dependencies() {
    assert_eq!(find_dependency_root("/L/X.framework/X"), "/L/X.framework");
    assert_eq!(find_dependency_root("/L/X.framework/Versions/A/X"), "/L/X.framework");
    assert_eq!(find_dependency_root("/opt/local/lib/libfoo.dylib"), "/opt/local/lib/libfoo.dylib");
    assert_eq!(find_dependency_root("/L/X.framework/Other/A/X"), "/L/X.framework/Other/A/X");
    assert_eq!(find_dependency_root("/L/X/Versions/A/X"), "/L/X/Versions/A/X");
    assert_eq!(find_dependency_root("/L/X.framework/Versions/A/Sub/X"), "/L/X.framework/Versions/A/Sub/X");
    assert_eq!(find_dependency_root("libfoo.dylib"), "libfoo.dylib");
    assert_eq!(find_dependency_root("/libfoo.dylib"), "/libfoo.dylib");
    assert_eq!(find_dependency_root("X.framework/X"), "X.framework");
    assert_eq!(find_dependency_root("/A.framework/Versions/B.framework/X"), "/A.framework/Versions/B.framework");
}

#[test]
fn candidates_and_resolution() {
    let resolver = PathResolver::new(vec!["/app/bin".to_string(), "/app/lib".to_string()]);
    let dep = reference("@rpath/libfoo.dylib");
    assert_eq!(
        resolver.candidates(&dep),
        vec![
            "@rpath/libfoo.dylib".to_string(),
            "/app/bin/libfoo.dylib".to_string(),
            "/app/lib/libfoo.dylib".to_string()
        ]
    );
    assert_eq!(resolver.resolve(&dep, &vec![false, true, true]).unwrap(), "/app/bin/libfoo.dylib");
    assert_eq!(resolver.resolve(&dep, &vec![false, false, true]).unwrap(), "/app/lib/libfoo.dylib");
    assert_eq!(resolver.resolve(&dep, &vec![true, true, true]).unwrap(), "/app/bin/libfoo.dylib");
    assert!(resolver.resolve(&dep, &vec![true, false, false]).is_err());
    assert_eq!(resolver.resolve(&dep, &vec![false, true]).unwrap(), "/app/bin/libfoo.dylib");
    for flags in [vec![false, false, false], vec![], vec![false, false, false, true]] {
        match resolver.resolve(&dep, &flags) {
            Err(ToolError::PathResolve { path, rpaths }) => {
                assert_eq!(path, "@rpath/libfoo.dylib");
                assert_eq!(rpaths, vec!["/app/bin".to_string(), "/app/lib".to_string()]);
            }
            other => panic!("expected a resolution failure, got {:?}", other),
        }
    }
    let absolute = reference("/opt/lib/libbar.dylib");
    assert_eq!(resolver.resolve(&absolute, &vec![true]).unwrap(), "/opt/lib/libbar.dylib");
    assert_eq!(
        resolver.resolve(&absolute, &vec![true, true, true]).unwrap(),
        "/opt/lib/libbar.dylib"
    );
    let none = PathResolver::new(vec![]);
    assert_eq!(none.resolve(&absolute, &vec![true]).unwrap(), "/opt/lib/libbar.dylib");
    assert!(none.resolve(&reference("relative/lib.dylib"), &vec![true]).is_err());
}

#[test]
fn plan_for_a_loose_library() {
    let plan = plan_dependency("/out/MyApp.app", "/opt/local/lib/libfoo.dylib".to_string()).unwrap();
    assert_eq!(plan.resolved, "/opt/local/lib/libfoo.dylib");
    assert_eq!(plan.root, "/opt/local/lib/libfoo.dylib");
    assert_eq!(plan.relative, "libfoo.dylib");
    assert_eq!(plan.new_path.as_str(), "@rpath/libfoo.dylib");
    assert_eq!(plan.copy_target, "/out/MyApp.app/Contents/Frameworks/libfoo.dylib");
    assert_eq!(plan.target, "/out/MyApp.app/Contents/Frameworks/libfoo.dylib");
}

#[test]
fn plan_for_a_framework() {
    let plan =
        plan_dependency("/out/MyApp.app", "/L/X.framework/Versions/A/X".to_string()).unwrap();
    assert_eq!(plan.root, "/L/X.framework");
    assert_eq!(plan.relative, "X.framework/Versions/A/X");
    assert_eq!(plan.new_path.as_str(), "@rpath/X.framework/Versions/A/X");
    assert_eq!(plan.copy_target, "/out/MyApp.app/Contents/Frameworks/X.framework");
    assert_eq!(plan.target, "/out/MyApp.app/Contents/Frameworks/X.framework/Versions/A/X");
}

#[test]
fn plan_from_root_and_relative_path() {
    let plan = DependencyPlan::new(
        "/out/MyApp.app",
        "/L/X.framework/Versions/A/X".to_string(),
        "/L/X.framework".to_string(),
        "X.framework/Versions/A/X".to_string(),
    );
    assert_eq!(plan.resolved, "/L/X.framework/Versions/A/X");
    assert_eq!(plan.root, "/L/X.framework");
    assert_eq!(plan.relative, "X.framework/Versions/A/X");
    assert_eq!(plan.new_path.as_str(), "@rpath/X.framework/Versions/A/X");
    assert_eq!(plan.copy_target, "/out/MyApp.app/Contents/Frameworks/X.framework");
    assert_eq!(plan.target, "/out/MyApp.app/Contents/Frameworks/X.framework/Versions/A/X");
    assert_eq!(search_path_from("../Frameworks"), "@executable_path/../Frameworks");
    assert_eq!(search_path_from(""), "@executable_path/");
}

#[test]
fn plan_needs_a_directory_around_the_root() {
    match plan_dependency("/out/MyApp.app", "libfoo.dylib".to_string()) {
        Err(ToolError::PathResolve { path, rpaths }) => {
            assert_eq!(path, "libfoo.dylib");
            assert!(rpaths.is_empty());
        }
        other => panic!("expected a resolution failure, got {:?}", other),
    }
}

#[test]
fn search_path_of_an_executable() {
    assert_eq!(
        rpath_for_executable("/out/MyApp.app", "/out/MyApp.app/Contents/MacOS/MyApp"),
        Some("@executable_path/../Frameworks".to_string())
    );
    assert_eq!(
        rpath_for_executable("/out/MyApp.app", "/out/MyApp.app/Contents/PlugIns/P.bundle/Contents/MacOS/P"),
        Some("@executable_path/../../../../Frameworks".to_string())
    );
    assert_eq!(rpath_for_executable("/out/MyApp.app", "MyApp"), None);
    assert_eq!(frameworks_path("/out/MyApp.app"), "/out/MyApp.app/Contents/Frameworks");
}

#[test]
fn source_of_a_mirrored_file() {
    assert_eq!(
        source_of_mirror("/src/MyApp.app", "/out/MyApp.app", "/out/MyApp.app/Contents/MacOS/MyApp"),
        Some("/src/MyApp.app/Contents/MacOS/MyApp".to_string())
    );
    assert_eq!(
        source_of_mirror("/src/MyApp.app", "/out/MyApp.app", "/out/MyApp.app/a"),
        Some("/src/MyApp.app/a".to_string())
    );
    assert_eq!(source_of_mirror("/src/MyApp.app", "/out/MyApp.app", "relative/a"), None);
}

#[test]
fn record_of_bundled_references() {
    let mut record = ProcessedLibraries::new();
    assert_eq!(record.len(), 0);
    assert_eq!(record.get(&reference("@rpath/a")), None);
    record.insert(reference("@rpath/a"), "/src/a".to_string());
    record.insert(reference("@rpath/b"), "/src/b".to_string());
    assert_eq!(record.get(&reference("@rpath/a")), Some("/src/a".to_string()));
    assert_eq!(record.get(&reference("@rpath/b")), Some("/src/b".to_string()));
    assert_eq!(record.get(&reference("@rpath/c")), None);
    record.insert(reference("@rpath/a"), "/other/a".to_string());
    assert_eq!(record.get(&reference("@rpath/a")), Some("/other/a".to_string()));
}

#[test]
fn local_dependencies() {
    assert!(!has_local_dependency(&vec![]));
    assert!(!has_local_dependency(&vec![reference("/usr/lib/a"), reference("/System/b")]));
    assert!(has_local_dependency(&vec![reference("/usr/lib/a"), reference("/opt/b")]));
}

#[test]
fn shared_library_directory_is_reserved() {
    assert!(is_reserved_bundle_path("/src/MyApp.app/Contents", "Frameworks"));
    assert!(is_reserved_bundle_path("Contents", "Frameworks"));
    assert!(!is_reserved_bundle_path("/src/MyApp.app/Contents", "MacOS"));
    assert!(!is_reserved_bundle_path("/src/MyApp.app/Resources", "Frameworks"));
    assert!(!is_reserved_bundle_path("/src/MyApp.app/Contents", "frameworks"));
    assert!(!is_reserved_bundle_path("/src/MyContents", "Frameworks"));
}

#[test]
fn symlinks_inside_the_bundle_survive() {
    assert!(preserves_symlink(
        "/out/MyApp.app/Contents/Frameworks/X.framework/Versions/A",
        "/out/MyApp.app"
    ));
    assert!(!preserves_symlink("/opt/local/lib/libfoo.dylib", "/out/MyApp.app"));
    assert!(!preserves_symlink("/out/MyApp.app2/x", "/out/MyApp.app"));
}

#[test]
fn preparing_the_output() {
    let options = |delete| Options {
        delete_existing_bundle: delete,
        source_path: "/src/MyApp.app".to_string(),
        out_dir: "/out".to_string(),
    };
    let m = SelfContained::new(options(false));
    assert_eq!(m.out_path, "");
    match SelfContained::new(options(false)).prepare(false, true) {
        Err(ToolError::OtherError(m)) => assert_eq!(m, "Source-path is not a valid folder."),
        other => panic!("expected a failure, got {:?}", other),
    }
    match SelfContained::new(options(false)).prepare(true, false) {
        Err(ToolError::OtherError(m)) => assert_eq!(m, "Out-dir is not a valid folder"),
        other => panic!("expected a failure, got {:?}", other),
    }
    match SelfContained::new(options(false)).prepare(false, false) {
        Err(ToolError::OtherError(m)) => assert_eq!(m, "Source-path is not a valid folder."),
        other => panic!("expected a failure, got {:?}", other),
    }
    let m = m.prepare(true, true).unwrap();
    assert_eq!(m.out_path, "/out/MyApp.app");
    assert_eq!(m.check_target(false).unwrap(), false);
    match m.check_target(true) {
        Err(ToolError::OtherError(m)) => {
            assert_eq!(m, "Target folder '/out/MyApp.app' already exists. Please delete it first.")
        }
        other => panic!("expected a failure, got {:?}", other),
    }
    let m = SelfContained::new(options(true)).prepare(true, true).unwrap();
    assert_eq!(m.check_target(true).unwrap(), true);
    assert_eq!(m.check_target(false).unwrap(), false);
}

#[test]
fn source_needs_a_name_of_its_own() {
    let from = |source: &str| {
        SelfContained::new(Options {
            delete_existing_bundle: true,
            source_path: source.to_string(),
            out_dir: "/out".to_string(),
        })
        .prepare(true, true)
    };
    assert_eq!(from("/src/MyApp.app/").unwrap().out_path, "/out/MyApp.app");
    assert_eq!(from("MyApp.app").unwrap().out_path, "/out/MyApp.app");
    for source in ["/", "", "/src/..", "..", ".", "/src/./"] {
        match from(source) {
            Err(ToolError::OtherError(m)) => assert_eq!(m, "Source-path is not a valid folder."),
            other => panic!("expected a failure, got {:?}", other),
        }
    }
}

#[test]
fn arguments_of_the_tools() {
    assert_eq!(inspect_arguments("/bin/x"), vec!["-L".to_string(), "/bin/x".to_string()]);
    let edit = LinkEdit::ChangeReferences {
        target: "/t".to_string(),
        changes: vec![
            (reference("/a"), reference("@rpath/a")),
            (reference("/b"), reference("@rpath/b")),
        ],
    };
    assert_eq!(
        edit.arguments(),
        vec!["-change", "/a", "@rpath/a", "-change", "/b", "@rpath/b", "/t"]
    );
    let edit = LinkEdit::SetIdentity { target: "/t".to_string(), identity: reference("@rpath/a") };
    assert_eq!(edit.arguments(), vec!["-id", "@rpath/a", "/t"]);
    let edit = LinkEdit::AddRpath { target: "/t".to_string(), rpath: "@executable_path/../Frameworks".to_string() };
    assert_eq!(edit.arguments(), vec!["-add_rpath", "@executable_path/../Frameworks", "/t"]);
}

#[test]
fn linked_binaries_by_their_header() {
    assert!(is_executable_binary(true, 100, &[0xca, 0xfe, 0xba, 0xbe]));
    assert!(is_executable_binary(true, 100, &[0xbe, 0xba, 0xfe, 0xca]));
    assert!(is_executable_binary(true, 100, &[0xfe, 0xed, 0xfa, 0xcf, 0x01]));
    assert!(is_executable_binary(true, 4, &[0xcf, 0xfa, 0xed, 0xfe]));
    assert!(!is_executable_binary(false, 100, &[0xcf, 0xfa, 0xed, 0xfe]));
    assert!(!is_executable_binary(true, 3, &[0xcf, 0xfa, 0xed, 0xfe]));
    assert!(!is_executable_binary(true, 100, &[0xcf, 0xfa, 0xed]));
    assert!(!is_executable_binary(true, 100, &[0xfe, 0xed, 0xfa, 0xce]));
    assert!(!is_executable_binary(true, 100, &[b'#', b'!', b'/', b'b']));
    assert!(!is_executable_binary(true, 0, &[]));
    assert!(needs_header(true, 4));
    assert!(!needs_header(true, 3));
    assert!(!needs_header(false, 100));
}
