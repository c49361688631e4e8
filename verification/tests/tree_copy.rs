use bundle_tool::error::ToolError;
use bundle_tool::macos::copier::{CopyAction, CopyEvent, CopyStage, Entry, TreeCopier};
use std::collections::HashMap;

struct Tree {
    dirs: HashMap<String, Vec<(String, bool)>>,
    /// Where a recreated link resolves to, by the place of the link in the source.
    links: HashMap<String, String>,
    /// What a source path resolves to, and whether that is a directory.
    resolved: HashMap<String, (String, bool)>,
    binaries: Vec<String>,
}

#[derive(Debug, PartialEq)]
enum Done {
    Link(String, String),
    Unlink(String),
    MakeDir(String),
    CopyFile(String, String),
}

fn drive(tree: &Tree) -> (Vec<Done>, Vec<String>) {
    let mut copier = TreeCopier::new("/src/MyApp.app".to_string(), "/out/MyApp.app".to_string());
    let mut log = Vec::new();
    let mut event = CopyEvent::Done;
    for _ in 0..10_000 {
        let (next, action) = copier.step(event);
        copier = next;
        event = match action {
            CopyAction::Continue => CopyEvent::Done,
            CopyAction::ReadDir { path } => CopyEvent::Entries(
                tree.dirs[&path]
                    .iter()
                    .map(|(name, is_symlink)| Entry { name: name.clone(), is_symlink: *is_symlink })
                    .collect(),
            ),
            CopyAction::Link { source, target } => {
                let link = tree.links[&source].clone();
                log.push(Done::Link(source, target));
                CopyEvent::Linked { link, bundle: "/out/MyApp.app".to_string() }
            }
            CopyAction::Unlink { target } => {
                log.push(Done::Unlink(target));
                CopyEvent::Done
            }
            CopyAction::Resolve { path } => match tree.resolved.get(&path) {
                Some((to, is_dir)) => CopyEvent::Resolved { path: to.clone(), is_dir: *is_dir },
                None => CopyEvent::Resolved { is_dir: tree.dirs.contains_key(&path), path },
            },
            CopyAction::MakeDir { target } => {
                log.push(Done::MakeDir(target));
                CopyEvent::Done
            }
            CopyAction::CopyFile { source, target } => {
                let binary = tree.binaries.contains(&source);
                log.push(Done::CopyFile(source, target));
                CopyEvent::Copied {
                    looks_executable: binary,
                    size: 100,
                    head: if binary { vec![0xcf, 0xfa, 0xed, 0xfe] } else { vec![0x89, b'P', b'N', b'G'] },
                }
            }
            CopyAction::Finished => {
                assert!(matches!(copier.stage, CopyStage::Finished));
                assert!(copier.stack.is_empty());
                return (log, copier.executables);
            }
            CopyAction::Failed(e) => panic!("the copy failed: {:?}", e),
        };
    }
    panic!("the copy did not end");
}

fn entries(v: &[(&str, bool)]) -> Vec<(String, bool)> {
    v.iter().map(|(n, l)| (n.to_string(), *l)).collect()
}

fn sample() -> Tree {
    let mut dirs = HashMap::new();
    dirs.insert("/src/MyApp.app".to_string(), entries(&[("Contents", false)]));
    dirs.insert(
        "/src/MyApp.app/Contents".to_string(),
        entries(&[("MacOS", false), ("Frameworks", false), ("Resources", false)]),
    );
    dirs.insert("/src/MyApp.app/Contents/MacOS".to_string(), entries(&[("MyApp", false)]));
    dirs.insert(
        "/src/MyApp.app/Contents/Resources".to_string(),
        entries(&[("icon.png", false), ("current", true), ("shared", true), ("data", true)]),
    );
    dirs.insert("/mnt/data".to_string(), entries(&[("blob", false)]));
    let mut links = HashMap::new();
    links.insert(
        "/src/MyApp.app/Contents/Resources/current".to_string(),
        "/out/MyApp.app/Contents/Resources/icon.png".to_string(),
    );
    links.insert(
        "/src/MyApp.app/Contents/Resources/shared".to_string(),
        "/usr/share/thing".to_string(),
    );
    links.insert("/src/MyApp.app/Contents/Resources/data".to_string(), "/mnt/data".to_string());
    let mut resolved = HashMap::new();
    resolved.insert(
        "/src/MyApp.app/Contents/Resources/shared".to_string(),
        ("/usr/share/thing".to_string(), false),
    );
    resolved.insert(
        "/src/MyApp.app/Contents/Resources/data".to_string(),
        ("/mnt/data".to_string(), true),
    );
    dirs.insert("/src/MyApp.app/Contents/Resources/data".to_string(), entries(&[("blob", false)]));
    Tree {
        dirs,
        links,
        resolved,
        binaries: vec!["/src/MyApp.app/Contents/MacOS/MyApp".to_string()],
    }
}

#[test]
fn bundle_is_mirrored_without_the_shared_library_directory() {
    let (log, executables) = drive(&sample());
    assert_eq!(executables, vec!["/out/MyApp.app/Contents/MacOS/MyApp".to_string()]);
    assert_eq!(
        log,
        vec![
            Done::MakeDir("/out/MyApp.app/Contents".to_string()),
            Done::MakeDir("/out/MyApp.app/Contents/MacOS".to_string()),
            Done::CopyFile(
                "/src/MyApp.app/Contents/MacOS/MyApp".to_string(),
                "/out/MyApp.app/Contents/MacOS/MyApp".to_string()
            ),
            Done::MakeDir("/out/MyApp.app/Contents/Resources".to_string()),
            Done::CopyFile(
                "/src/MyApp.app/Contents/Resources/icon.png".to_string(),
                "/out/MyApp.app/Contents/Resources/icon.png".to_string()
            ),
            Done::Link(
                "/src/MyApp.app/Contents/Resources/current".to_string(),
                "/out/MyApp.app/Contents/Resources/current".to_string()
            ),
            Done::Link(
                "/src/MyApp.app/Contents/Resources/shared".to_string(),
                "/out/MyApp.app/Contents/Resources/shared".to_string()
            ),
            Done::Unlink("/out/MyApp.app/Contents/Resources/shared".to_string()),
            Done::CopyFile(
                "/usr/share/thing".to_string(),
                "/out/MyApp.app/Contents/Resources/shared".to_string()
            ),
            Done::Link(
                "/src/MyApp.app/Contents/Resources/data".to_string(),
                "/out/MyApp.app/Contents/Resources/data".to_string()
            ),
            Done::Unlink("/out/MyApp.app/Contents/Resources/data".to_string()),
            Done::MakeDir("/out/MyApp.app/Contents/Resources/data".to_string()),
            Done::CopyFile(
                "/src/MyApp.app/Contents/Resources/data/blob".to_string(),
                "/out/MyApp.app/Contents/Resources/data/blob".to_string()
            ),
        ]
    );
    assert!(!log.iter().any(|d| match d {
        Done::MakeDir(p) | Done::Unlink(p) => p.contains("Frameworks"),
        Done::Link(_, p) | Done::CopyFile(_, p) => p.contains("Frameworks"),
    }));
}

#[test]
fn empty_bundle_is_mirrored_at_once() {
    let mut tree = sample();
    tree.dirs.insert("/src/MyApp.app".to_string(), vec![]);
    let (log, executables) = drive(&tree);
    assert!(log.is_empty());
    assert!(executables.is_empty());
}

#[test]
fn copier_refuses_an_unexpected_event() {
    let copier = TreeCopier::new("/src/A.app".to_string(), "/out/A.app".to_string());
    let (copier, action) = copier.step(CopyEvent::Done);
    match action {
        CopyAction::ReadDir { path } => assert_eq!(path, "/src/A.app"),
        other => panic!("expected a listing, got {:?}", other),
    }
    let (copier, action) = copier.step(CopyEvent::Done);
    match action {
        CopyAction::Failed(ToolError::OtherError(m)) => assert_eq!(m, "unexpected event"),
        other => panic!("expected a failure, got {:?}", other),
    }
    assert!(matches!(copier.stage, CopyStage::Failed));
    let (_, action) = copier.step(CopyEvent::Done);
    assert!(matches!(action, CopyAction::Failed(_)));
}
