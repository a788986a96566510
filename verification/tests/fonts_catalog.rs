use typstd::fonts::FontCatalog;
use typstd::fonts::FontMeta;
use typstd::fonts::FontStyle;
use typstd::paths::parse_abs_path;

fn meta(family: &str, style: FontStyle, weight: u16) -> FontMeta {
    FontMeta { family: family.to_string(), style, weight }
}

fn families(catalog: &FontCatalog) -> Vec<String> {
    catalog.metadata().iter().map(|m| m.family.clone()).collect()
}

#[test]
fn index_to_metadata_correspondence_is_stable() {
    let mut catalog = FontCatalog::new();
    catalog.push_embedded(meta("Serif", FontStyle::Normal, 400), vec![1, 2, 3]);
    catalog.push_embedded(meta("Serif", FontStyle::Italic, 400), vec![4, 5]);
    catalog.push_discovered(
        meta("Mono", FontStyle::Normal, 500),
        parse_abs_path("/usr/fonts/mono.ttf").unwrap(),
        0,
    );
    catalog.push_discovered(
        meta("Sans", FontStyle::Oblique, 700),
        parse_abs_path("/usr/fonts/sans.ttf").unwrap(),
        2,
    );
    assert_eq!(catalog.font_count(), 4);
    for i in 0..catalog.font_count() {
        let in_book = &catalog.metadata()[i];
        let resolved = catalog.resolve_meta(i);
        assert_eq!(resolved.family, in_book.family);
        assert_eq!(resolved.style, in_book.style);
        assert_eq!(resolved.weight, in_book.weight);
    }
    assert_eq!(families(&catalog), ["Serif", "Serif", "Mono", "Sans"]);
}

#[test]
fn reordered_discovery_keeps_each_index_consistent() {
    let mono = || meta("Mono", FontStyle::Normal, 500);
    let sans = || meta("Sans", FontStyle::Normal, 400);
    let path = |s: &str| parse_abs_path(s).unwrap();

    let mut forward = FontCatalog::new();
    forward.push_discovered(mono(), path("/usr/fonts/mono.ttf"), 0);
    forward.push_discovered(sans(), path("/usr/fonts/sans.ttf"), 0);

    let mut backward = FontCatalog::new();
    backward.push_discovered(sans(), path("/usr/fonts/sans.ttf"), 0);
    backward.push_discovered(mono(), path("/usr/fonts/mono.ttf"), 0);

    // Indices differ between the two discovery orders, but within each
    // catalog every index resolves to the font whose metadata sits at that
    // same index of the book.
    for catalog in [&forward, &backward] {
        for i in 0..catalog.font_count() {
            assert_eq!(catalog.resolve_meta(i).family, catalog.metadata()[i].family);
        }
    }
    assert_eq!(families(&forward), ["Mono", "Sans"]);
    assert_eq!(families(&backward), ["Sans", "Mono"]);
}

#[test]
fn embedded_fonts_are_resident_from_the_start() {
    let mut catalog = FontCatalog::new();
    catalog.push_embedded(meta("Serif", FontStyle::Normal, 400), vec![9, 9, 9]);
    assert_eq!(catalog.resolve(0), Some(&vec![9, 9, 9]));
    assert!(catalog.pending(0).is_none());
}

#[test]
fn materialization_is_memoized_once() {
    let mut catalog = FontCatalog::new();
    catalog.push_discovered(
        meta("Mono", FontStyle::Normal, 500),
        parse_abs_path("/usr/fonts/mono.ttf").unwrap(),
        3,
    );
    let (path, index) = catalog.pending(0).expect("discovered font awaits its bytes");
    assert_eq!(path.segs, ["usr", "fonts", "mono.ttf"]);
    assert_eq!(index, 3);
    assert!(catalog.resolve(0).is_none());

    catalog.materialize(0, Some(vec![7, 7]));
    assert_eq!(catalog.resolve(0), Some(&vec![7, 7]));
    assert!(catalog.pending(0).is_none());

    // A later outcome is ignored: the first successful read wins.
    catalog.materialize(0, Some(vec![8, 8]));
    assert_eq!(catalog.resolve(0), Some(&vec![7, 7]));
}

#[test]
fn failed_read_resolves_to_absent_and_is_not_retried() {
    let mut catalog = FontCatalog::new();
    catalog.push_discovered(
        meta("Mono", FontStyle::Normal, 500),
        parse_abs_path("/usr/fonts/gone.ttf").unwrap(),
        0,
    );
    catalog.materialize(0, None);
    assert!(catalog.resolve(0).is_none());
    assert!(catalog.pending(0).is_none());

    // Even a successful read afterwards is ignored: a missing font stays
    // missing within a process lifetime.
    catalog.materialize(0, Some(vec![1]));
    assert!(catalog.resolve(0).is_none());
}

#[test]
fn embedded_batch_precedes_discovery_in_fixed_order() {
    let mut catalog = FontCatalog::new();
    typstd::fonts::add_embedded_fonts(
        &mut catalog,
        vec![
            (meta("Serif", FontStyle::Normal, 400), vec![1]),
            (meta("Math", FontStyle::Normal, 400), vec![2]),
        ],
    );
    catalog.push_discovered(
        meta("Host", FontStyle::Normal, 400),
        parse_abs_path("/usr/fonts/host.ttf").unwrap(),
        0,
    );
    assert_eq!(families(&catalog), ["Serif", "Math", "Host"]);
    assert_eq!(catalog.resolve(0), Some(&vec![1]));
    assert_eq!(catalog.resolve(1), Some(&vec![2]));
    assert!(catalog.resolve(2).is_none());
}

#[test]
fn duplicate_copies_every_entry() {
    let mut catalog = FontCatalog::new();
    catalog.push_embedded(meta("Serif", FontStyle::Normal, 400), vec![1, 2]);
    catalog.push_discovered(
        meta("Mono", FontStyle::Italic, 500),
        parse_abs_path("/usr/fonts/mono.ttf").unwrap(),
        1,
    );
    let copy = catalog.duplicate();
    assert_eq!(copy.font_count(), 2);
    assert_eq!(copy.resolve(0), Some(&vec![1, 2]));
    assert_eq!(copy.resolve_meta(1).family, "Mono");
    let (path, index) = copy.pending(1).expect("copy keeps the pending state");
    assert_eq!(path.segs, ["usr", "fonts", "mono.ttf"]);
    assert_eq!(index, 1);
}
