use typstd::paths::parse_abs_path;
use typstd::paths::parse_rel_path;
use typstd::paths::AbsPath;
use typstd::workspace::load_targets;
use typstd::workspace::search_targets;
use typstd::workspace::search_workspace;
use typstd::workspace::LoadError;

fn p(s: &str) -> AbsPath {
    parse_abs_path(s).unwrap()
}

const DESCRIPTOR: &str = "\
[[document]]
entrypoint = \"main.typ\"

[[document]]
entrypoint = \"sub/other.typ\"
root_dir = \"/srv/docs\"

[package]
entrypoint = \"lib.typ\"
";

#[test]
fn load_targets_reads_documents_in_order() {
    let root = p("/home/user/proj");
    let targets = load_targets(&root, DESCRIPTOR).expect("well-formed descriptor");
    assert_eq!(targets.len(), 2);

    assert_eq!(targets[0].main_file.segs, ["home", "user", "proj", "main.typ"]);
    assert_eq!(targets[0].root_dir.segs, ["home", "user", "proj"]);

    // The entrypoint is resolved against the descriptor's directory even
    // when the root is overridden.
    assert_eq!(targets[1].main_file.segs, ["home", "user", "proj", "sub", "other.typ"]);
    assert_eq!(targets[1].root_dir.segs, ["srv", "docs"]);
}

#[test]
fn load_targets_rejects_malformed_descriptors() {
    let root = p("/home/user/proj");
    assert!(matches!(load_targets(&root, "not toml = ["), Err(LoadError::Unparsable)));
    assert!(matches!(
        load_targets(&root, "[package]\nentrypoint = \"x.typ\"\n"),
        Err(LoadError::BadSchema)
    ));
    assert!(matches!(
        load_targets(&root, "[[document]]\nentrypoint = 7\n"),
        Err(LoadError::BadSchema)
    ));
    assert!(matches!(
        load_targets(&root, "[[document]]\nroot_dir = \"/a\"\n"),
        Err(LoadError::BadSchema)
    ));
    assert!(matches!(
        load_targets(&root, "[[document]]\nentrypoint = \"../evil.typ\"\n"),
        Err(LoadError::BadPath)
    ));
    assert!(matches!(
        load_targets(&root, "[[document]]\nentrypoint = \"m.typ\"\nroot_dir = \"relative\"\n"),
        Err(LoadError::BadPath)
    ));
}

#[test]
fn load_targets_accepts_an_empty_document_list() {
    let root = p("/home/user/proj");
    let targets = load_targets(&root, "document = []\n").expect("empty list is fine");
    assert_eq!(targets.len(), 0);
}

#[test]
fn search_targets_skips_unreadable_and_malformed_descriptors() {
    let inputs = vec![
        (p("/home/user/proj"), Some(DESCRIPTOR.to_string())),
        (p("/home/user/empty"), None),
        (p("/home/user/broken"), Some("not toml = [".to_string())),
    ];
    let targets = search_targets(inputs);
    assert_eq!(targets.len(), 2);
    assert_eq!(targets[0].main_file.segs, ["home", "user", "proj", "main.typ"]);
}

#[test]
fn workspace_search_picks_the_nearest_descriptor() {
    let dirs = vec![p("/a"), p("/a/b")];
    let found = search_workspace(&p("/a/b/c"), &dirs).expect("an ancestor is listed");
    assert_eq!(found.segs, ["a", "b"]);

    let found = search_workspace(&p("/a/x"), &dirs).expect("the outer root applies");
    assert_eq!(found.segs, ["a"]);

    // The start directory itself counts.
    let found = search_workspace(&p("/a/b"), &dirs).expect("the directory itself matches");
    assert_eq!(found.segs, ["a", "b"]);

    assert!(search_workspace(&p("/z/q"), &dirs).is_none());
}

#[test]
fn path_parsing_accepts_clean_paths_only() {
    assert_eq!(p("/").segs, Vec::<String>::new());
    assert_eq!(p("/a/b.typ").segs, ["a", "b.typ"]);
    assert_eq!(parse_rel_path("sub/main.typ").unwrap(), ["sub", "main.typ"]);

    assert!(parse_abs_path("relative/main.typ").is_none());
    assert!(parse_abs_path("/a//b").is_none());
    assert!(parse_abs_path("/a/").is_none());
    assert!(parse_rel_path("").is_none());
    assert!(parse_rel_path("/lead").is_none());
    assert!(parse_rel_path("a/./b").is_none());
    assert!(parse_rel_path("a/../b").is_none());
}

#[test]
fn paths_compare_and_join_by_components() {
    let a = p("/a");
    let ab = p("/a/b");
    let abc = p("/a/b/c");
    assert!(abc.has_prefix(&ab));
    assert!(abc.has_prefix(&a));
    assert!(abc.has_strict_ancestor(&ab));
    assert!(!ab.has_strict_ancestor(&ab));
    assert!(ab.has_prefix(&ab));
    assert!(!ab.has_prefix(&abc));
    assert!(ab.path_eq(&p("/a/b")));
    assert!(!ab.path_eq(&abc));
    assert_eq!(ab.parent().unwrap().segs, ["a"]);
    assert!(p("/").parent().is_none());
    let joined = a.join(&vec!["b".to_string(), "c".to_string()]);
    assert!(joined.path_eq(&abc));
}
