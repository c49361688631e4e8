use bundle_tool::paths::{
    find_last_separator, join, lies_within, name_of, parent_of, stripped_length,
};
use bundle_tool::text::{
    chars_of, ends_with, is_whitespace, replace_all, same_text, starts_with, string_of,
};
use bundle_tool::utils::{command_result, is_same, plan_copy, split_lines, CopyPlan};
use bundle_tool::error::ToolError;

#[test]
fn characters_round_trip() {
    let v = chars_of("a/ü/c");
    assert_eq!(v, vec!['a', '/', 'ü', '/', 'c']);
    assert_eq!(string_of(&v, 2, 5), "ü/c");
    assert_eq!(string_of(&v, 0, 0), "");
}

#[test]
fn prefixes_and_suffixes() {
    assert!(starts_with("/usr/lib/x", "/usr/"));
    assert!(!starts_with("/usr", "/usr/"));
    assert!(starts_with("abc", ""));
    assert!(ends_with("X.framework", ".framework"));
    assert!(!ends_with("framework", ".framework"));
    assert!(!ends_with("X.frameworks", ".framework"));
    assert!(same_text("abc", "abc"));
    assert!(!same_text("abc", "abd"));
    assert!(!same_text("abc", "ab"));
}

#[test]
fn white_space_is_what_unicode_says() {
    for c in [' ', '\t', '\n', '\r', '\u{b}', '\u{c}', '\u{85}', '\u{a0}', '\u{2003}', '\u{3000}'] {
        assert!(is_whitespace(c));
        assert!(c.is_whitespace());
    }
    for c in ['a', '/', '\u{200b}', '0'] {
        assert!(!is_whitespace(c));
        assert!(!c.is_whitespace());
    }
}

#[test]
fn replacing_the_search_path_token() {
    assert_eq!(replace_all("@rpath/libfoo.dylib", "@rpath", "/opt/lib"), "/opt/lib/libfoo.dylib");
    assert_eq!(replace_all("/a/@rpath/@rpath", "@rpath", "x"), "/a/x/x");
    assert_eq!(replace_all("aaa", "aa", "b"), "ba");
    assert_eq!(replace_all("abc", "", "x"), "abc");
    assert_eq!(replace_all("", "a", "x"), "");
    assert_eq!(replace_all("/no/token", "@rpath", "/r"), "/no/token");
    assert_eq!(
        replace_all("@rpath/a", "@rpath", "/q"),
        "@rpath/a".replace("@rpath", "/q")
    );
}

#[test]
fn names_and_parents() {
    assert_eq!(name_of("/a/b/c.dylib"), "c.dylib");
    assert_eq!(name_of("c.dylib"), "c.dylib");
    assert_eq!(name_of("/a"), "a");
    assert_eq!(name_of("/"), "");
    assert_eq!(name_of("/src/MyApp.app/"), "MyApp.app");
    assert_eq!(name_of("MyApp.app//"), "MyApp.app");
    assert_eq!(parent_of("/a/b/"), Some("/a".to_string()));
    assert_eq!(parent_of("/a/"), Some("/".to_string()));
    assert_eq!(parent_of("a/"), None);
    assert_eq!(parent_of("/a/b/c.dylib"), Some("/a/b".to_string()));
    assert_eq!(parent_of("/a"), Some("/".to_string()));
    assert_eq!(parent_of("/"), None);
    assert_eq!(parent_of("name"), None);
    assert_eq!(parent_of(""), None);
    assert_eq!(parent_of("a/b"), Some("a".to_string()));
    assert_eq!(find_last_separator(&chars_of("/a/b"), 4), Some(2));
    assert_eq!(find_last_separator(&chars_of("/a/b"), 2), Some(0));
    assert_eq!(find_last_separator(&chars_of("ab"), 2), None);
    assert_eq!(stripped_length(&chars_of("/a/b//")), 4);
    assert_eq!(stripped_length(&chars_of("//")), 1);
    assert_eq!(stripped_length(&chars_of("")), 0);
}

#[test]
fn joining() {
    assert_eq!(join("/out", "MyApp.app"), "/out/MyApp.app");
    assert_eq!(join("/out/", "MyApp.app"), "/out/MyApp.app");
    assert_eq!(join("/out", "/abs"), "/abs");
    assert_eq!(join("", "rel"), "rel");
    assert_eq!(join("/out", ""), "/out/");
    assert_eq!(join("@executable_path", "../Frameworks"), "@executable_path/../Frameworks");
}

#[test]
fn lying_within() {
    assert!(lies_within("/out/App.app/Contents/x", "/out/App.app"));
    assert!(lies_within("/out/App.app", "/out/App.app"));
    assert!(!lies_within("/out/App.apple/x", "/out/App.app"));
    assert!(!lies_within("/elsewhere/x", "/out/App.app"));
    assert!(lies_within("/x", "/"));
    assert!(!lies_within("/out", "/out/App.app"));
}

#[test]
fn lines_of_tool_output() {
    assert_eq!(split_lines("a\nb\n"), vec!["a".to_string(), "b".to_string()]);
    assert_eq!(split_lines("a\n\nb"), vec!["a".to_string(), "".to_string(), "b".to_string()]);
    assert_eq!(split_lines(""), Vec::<String>::new());
    assert_eq!(split_lines("\n"), vec!["".to_string()]);
    assert_eq!(split_lines("one"), vec!["one".to_string()]);
    for text in ["a\nb\n", "a\n\nb", "", "\n", "one", "\n\n", "x\n\n"] {
        let expected: Vec<String> = text.split_terminator('\n').map(|s| s.to_string()).collect();
        assert_eq!(split_lines(text), expected);
    }
}

#[test]
fn outcome_of_a_tool_run() {
    let ok = command_result(
        "otool -L x".to_string(),
        true,
        "exit status: 0".to_string(),
        "x:\n\t/usr/lib/a (v)\n".to_string(),
        String::new(),
    );
    assert_eq!(ok.unwrap(), vec!["x:".to_string(), "\t/usr/lib/a (v)".to_string()]);
    let failed = command_result(
        "otool -L x".to_string(),
        false,
        "exit status: 1".to_string(),
        "out".to_string(),
        "err".to_string(),
    );
    match failed {
        Err(ToolError::Command { command, status, stderr, stdout }) => {
            assert_eq!(command, "otool -L x");
            assert_eq!(status, "exit status: 1");
            assert_eq!(stderr, "err");
            assert_eq!(stdout, "out");
        }
        other => panic!("expected a tool failure, got {:?}", other),
    }
}

#[test]
fn byte_identity() {
    assert!(is_same(&[1, 2, 3], &[1, 2, 3]));
    assert!(!is_same(&[1, 2, 3], &[1, 2, 4]));
    assert!(!is_same(&[1, 2, 3], &[1, 2]));
    assert!(is_same(&[], &[]));
}

#[test]
fn white_space_agrees_on_every_character() {
    let mut n: u32 = 0;
    while n <= 0x10ffff {
        if let Some(c) = char::from_u32(n) {
            assert_eq!(is_whitespace(c), c.is_whitespace());
        }
        n += 1;
    }
}

#[test]
fn replacing_agrees_on_samples() {
    let texts = ["", "a", "aaaa", "abab", "@rpath/@rpath", "x@rpath", "@rpat", "äöü@rpathß"];
    let patterns = ["a", "aa", "ab", "@rpath", "ü@"];
    let fillers = ["", "/r", "a", "@rpath/x"];
    for t in texts {
        for p in patterns {
            for f in fillers {
                assert_eq!(replace_all(t, p, f), t.replace(p, f));
            }
        }
    }
}

#[test]
fn names_and_parents_agree_on_plain_paths() {
    let samples = [
        "/a/b/c.dylib",
        "/a",
        "a/b",
        "/L/X.framework/Versions/A/X",
        "/out/MyApp.app/",
        "/out/My App.app/Contents/MacOS/My App",
        "/ü/ö",
    ];
    for p in samples {
        let path = std::path::Path::new(p);
        assert_eq!(name_of(p), path.file_name().unwrap().to_string_lossy());
        assert_eq!(
            parent_of(p),
            path.parent().map(|d| d.to_string_lossy().into_owned())
        );
        assert_eq!(
            join(p, "x/y"),
            path.join("x/y").to_string_lossy()
        );
        assert_eq!(lies_within(p, "/a"), path.starts_with("/a"));
        assert_eq!(lies_within(p, "/out/MyApp.app"), path.starts_with("/out/MyApp.app"));
    }
}

#[test]
fn links_are_recreated_when_a_tree_is_copied() {
    assert_eq!(plan_copy(true, false), CopyPlan::Link);
    assert_eq!(plan_copy(true, true), CopyPlan::Link);
    assert_eq!(plan_copy(false, true), CopyPlan::Descend);
    assert_eq!(plan_copy(false, false), CopyPlan::CopyFile);
}
