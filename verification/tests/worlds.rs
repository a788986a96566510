use typstd::fonts::FontCatalog;
use typstd::paths::parse_abs_path;
use typstd::paths::AbsPath;
use typstd::registry::WorkspaceRegistry;
use typstd::store::SourceError;
use typstd::workspace::Target;
use typstd::CompletionItem;
use typstd::CompletionKind;
use typstd::Datetime;
use typstd::Diagnostic;
use typstd::FileId;
use typstd::LanguageServiceWorld;
use typstd::PackageSpec;

fn p(s: &str) -> AbsPath {
    parse_abs_path(s).unwrap()
}

fn world_at(root: &str, main: &str, text: &str) -> LanguageServiceWorld<u64> {
    LanguageServiceWorld::new(p(root), p(main), Some(text.to_string()), FontCatalog::new())
        .expect("world construction")
}

#[test]
fn construction_rejects_an_entrypoint_outside_the_root() {
    let r = LanguageServiceWorld::<u64>::new(
        p("/a/b"),
        p("/c/main.typ"),
        Some("hi".to_string()),
        FontCatalog::new(),
    );
    assert!(r.is_none());

    // A descendant of the root, or the root itself, is accepted.
    let r = LanguageServiceWorld::<u64>::new(
        p("/a/b"),
        p("/a/b"),
        Some("hi".to_string()),
        FontCatalog::new(),
    );
    assert!(r.is_some());
}

#[test]
fn construction_requires_readable_main_text() {
    let r = LanguageServiceWorld::<u64>::new(p("/a"), p("/a/main.typ"), None, FontCatalog::new());
    assert!(r.is_none());
}

#[test]
fn rejected_worlds_are_never_registered() {
    let mut registry = WorkspaceRegistry::<u64>::new();
    let targets = vec![
        // Main file outside the declared root: skipped.
        (
            Target { root_dir: p("/a/b"), main_file: p("/c/main.typ") },
            Some("hi".to_string()),
        ),
        // Unreadable main file: skipped.
        (Target { root_dir: p("/d"), main_file: p("/d/main.typ") }, None),
        // Usable.
        (
            Target { root_dir: p("/e"), main_file: p("/e/main.typ") },
            Some("hi".to_string()),
        ),
    ];
    let created = registry.new_worlds(targets, &FontCatalog::new());
    assert_eq!(created, 1);
    assert_eq!(registry.world_count(), 1);
    assert_eq!(registry.world(0).root_dir.segs, ["e"]);
}

#[test]
fn later_target_wins_a_duplicated_root() {
    let mut registry = WorkspaceRegistry::<u64>::new();
    let targets = vec![
        (
            Target { root_dir: p("/a"), main_file: p("/a/one.typ") },
            Some("one".to_string()),
        ),
        (
            Target { root_dir: p("/a"), main_file: p("/a/two.typ") },
            Some("two".to_string()),
        ),
    ];
    let created = registry.new_worlds(targets, &FontCatalog::new());
    assert_eq!(created, 2);
    assert_eq!(registry.world_count(), 1);
    // The later registration silently replaced the earlier one.
    assert_eq!(registry.world(0).main_path.segs, ["a", "two.typ"]);
    assert_eq!(registry.world(0).main(), "two");
}

#[test]
fn find_world_picks_the_nearest_ancestor() {
    let mut registry = WorkspaceRegistry::<u64>::new();
    registry.register(world_at("/a", "/a/main.typ", "outer"));
    registry.register(world_at("/a/b", "/a/b/main.typ", "inner"));

    let i = registry.find_world(&p("/a/b/c/file.ext")).expect("the inner world owns it");
    assert_eq!(registry.world(i).root_dir.segs, ["a", "b"]);

    let i = registry.find_world(&p("/a/other.typ")).expect("the outer world owns it");
    assert_eq!(registry.world(i).root_dir.segs, ["a"]);

    assert!(registry.find_world(&p("/z/file.ext")).is_none());
    // A root owns only what lies strictly below it.
    assert!(registry.find_world(&p("/a")).is_none());
}

#[test]
fn register_replaces_the_world_under_an_existing_root() {
    let mut registry = WorkspaceRegistry::<u64>::new();
    registry.register(world_at("/a", "/a/one.typ", "one"));
    registry.register(world_at("/a", "/a/two.typ", "two"));
    assert_eq!(registry.world_count(), 1);
    assert_eq!(registry.world(0).main_path.segs, ["a", "two.typ"]);
}

#[test]
fn single_file_world_falls_back_to_the_parent_directory() {
    let mut registry = WorkspaceRegistry::<u64>::new();
    let i = registry
        .new_world_from_path(&p("/home/user/note.typ"), Some("hi".to_string()), &FontCatalog::new())
        .expect("fallback world");
    assert_eq!(registry.world(i).root_dir.segs, ["home", "user"]);
    assert_eq!(registry.world(i).main_path.segs, ["home", "user", "note.typ"]);

    assert!(
        registry
            .new_world_from_path(&p("/"), Some("hi".to_string()), &FontCatalog::new())
            .is_none()
    );
    assert!(
        registry.new_world_from_path(&p("/home/user/gone.typ"), None, &FontCatalog::new()).is_none()
    );
}

#[test]
fn get_or_create_prefers_an_existing_owner() {
    let mut registry = WorkspaceRegistry::<u64>::new();
    registry.register(world_at("/a", "/a/main.typ", "outer"));

    // An owning world exists: no new world appears, whatever text is handed in.
    let i = registry
        .get_or_create(&p("/a/doc.typ"), None, &FontCatalog::new())
        .expect("the registered world owns the path");
    assert_eq!(registry.world(i).root_dir.segs, ["a"]);
    assert_eq!(registry.world_count(), 1);

    // No ancestor registered: a single-file world is synthesized at the
    // parent directory.
    let j = registry
        .get_or_create(&p("/b/c/doc.typ"), Some("text".to_string()), &FontCatalog::new())
        .expect("fallback world");
    assert_eq!(registry.world(j).root_dir.segs, ["b", "c"]);
    assert_eq!(registry.world_count(), 2);
}

#[test]
fn world_caches_and_edits_sources() {
    let mut world = world_at("/w", "/w/main.typ", "abc\ndef");
    assert_eq!(world.main(), "abc\ndef");

    let range = world.update_file(&p("/w/main.typ"), "X", (0, 1), (0, 2)).expect("edit");
    assert_eq!(range, (1, 2));
    assert_eq!(world.main(), "aXc\ndef");

    assert!(world.update_file(&p("/w/main.typ"), "X", (99, 0), (99, 0)).is_none());
    assert_eq!(world.main(), "aXc\ndef");

    world.add_file(&p("/w/other.typ"), "other".to_string());
    assert_eq!(world.source(&p("/w/other.typ")), Some("other".to_string()));
    assert_eq!(world.source(&p("/w/gone.typ")), None);
}

#[test]
fn world_reads_through_the_cache_once() {
    let mut world = world_at("/w", "/w/main.typ", "main");
    let aux = p("/w/aux.typ");
    let mut disk_reads: u32 = 0;

    assert!(world.source(&aux).is_none());
    disk_reads += 1;
    world.load_source(&aux, Ok("aux text".to_string())).expect("load");

    assert_eq!(world.source(&aux), Some("aux text".to_string()));
    assert!(world.update_file(&aux, "AUX", (0, 0), (0, 3)).is_some());
    assert_eq!(world.source(&aux), Some("AUX text".to_string()));
    assert_eq!(disk_reads, 1);

    let r = world.load_source(&p("/w/bad.typ"), Err(SourceError::InvalidEncoding));
    assert_eq!(r, Err(SourceError::InvalidEncoding));
    assert!(world.source(&p("/w/bad.typ")).is_none());
}

#[test]
fn file_identifiers_route_to_root_or_package() {
    let world = world_at("/w", "/w/main.typ", "main");
    let cache = p("/home/user/.cache");

    let local = FileId { package: None, vpath: vec!["sub".to_string(), "f.typ".to_string()] };
    assert_eq!(world.file_path(&local, &cache).segs, ["w", "sub", "f.typ"]);

    let packaged = FileId {
        package: Some(PackageSpec { name: "cetz".to_string(), version: "0.2.0".to_string() }),
        vpath: vec!["lib.typ".to_string()],
    };
    assert_eq!(
        world.file_path(&packaged, &cache).segs,
        ["home", "user", ".cache", "typstd", "packages", "preview", "cetz", "0.2.0", "lib.typ"],
    );
}

#[test]
fn compile_outcomes_replace_or_keep_the_document() {
    let mut world = world_at("/w", "/w/main.typ", "main");
    assert!(world.document.is_none());
    assert_eq!(world.generation, 0);

    assert_eq!(world.compile(Ok(7u64)), Ok(()));
    assert_eq!(world.document, Some(7));
    assert_eq!(world.generation, 1);

    // A failed compile keeps the previous document and hands back the
    // diagnostics in order; the generation still advances, so the eviction
    // sweep runs after every attempt.
    let diagnostics = vec![
        Diagnostic { message: "unknown variable".to_string() },
        Diagnostic { message: "unclosed delimiter".to_string() },
    ];
    let r = world.compile(Err(diagnostics));
    let back = r.expect_err("a failed compile surfaces its diagnostics");
    assert_eq!(back.len(), 2);
    assert_eq!(back[0].message, "unknown variable");
    assert_eq!(back[1].message, "unclosed delimiter");
    assert_eq!(world.document, Some(7));
    assert_eq!(world.generation, 2);

    assert_eq!(world.compile(Ok(9u64)), Ok(()));
    assert_eq!(world.document, Some(9));
    assert_eq!(world.generation, 3);
}

#[test]
fn completion_passes_candidates_through_at_valid_cursors() {
    let world = world_at("/w", "/w/main.typ", "abc\ndef");
    let candidates = || {
        vec![
            CompletionItem { label: "beta".to_string(), kind: CompletionKind::Func },
            CompletionItem { label: "alpha".to_string(), kind: CompletionKind::Symbol('α') },
        ]
    };

    let (text, offset) = world.completion_offset(&p("/w/main.typ"), 1, 2).expect("valid cursor");
    assert_eq!(text, "abc\ndef");
    assert_eq!(offset, 6);

    // The engine's order is preserved: no deduplication, no resorting.
    let items = world.complete(&p("/w/main.typ"), 1, 2, candidates());
    assert_eq!(items.len(), 2);
    assert_eq!(items[0].label, "beta");
    assert_eq!(items[1].label, "alpha");
    assert_eq!(items[1].kind, CompletionKind::Symbol('α'));

    // An unknown path or an out-of-bounds cursor yields an empty result,
    // not an error.
    assert!(world.complete(&p("/w/gone.typ"), 0, 0, candidates()).is_empty());
    assert!(world.complete(&p("/w/main.typ"), 9, 0, candidates()).is_empty());
}

#[test]
fn the_date_oracle_is_a_fixed_epoch() {
    let world = world_at("/w", "/w/main.typ", "main");
    let expected = Some(Datetime { year: 1970, month: 1, day: 1 });
    assert_eq!(world.today(None), expected);
    assert_eq!(world.today(Some(120)), expected);
}
