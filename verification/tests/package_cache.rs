use typstd::package::conclude_extraction;
use typstd::package::extract_archive;
use typstd::package::package_dir;
use typstd::package::package_url;
use typstd::package::prepare_package;
use typstd::package::Error;
use typstd::package::InstallStep;
use typstd::package::PrepareAction;
use typstd::paths::parse_abs_path;
use typstd::paths::AbsPath;

fn cache_root() -> AbsPath {
    parse_abs_path("/home/user/.cache").unwrap()
}

#[test]
fn cache_path_has_the_canonical_layout() {
    let dir = package_dir(&cache_root(), "cetz", "0.2.0");
    assert_eq!(
        dir.segs,
        ["home", "user", ".cache", "typstd", "packages", "preview", "cetz", "0.2.0"],
    );
}

#[test]
fn download_url_is_templated_from_name_and_version() {
    assert_eq!(
        package_url("cetz", "0.2.0"),
        "https://packages.typst.org/preview/cetz-0.2.0.tar.gz",
    );
}

#[test]
fn resolution_is_idempotent_and_hits_skip_the_network() {
    let root = cache_root();
    // First resolution: nothing cached, a download is directed.
    let first = prepare_package(&root, "cetz", "0.2.0", false);
    let dest = match &first {
        PrepareAction::Download { url, dest } => {
            assert_eq!(url, "https://packages.typst.org/preview/cetz-0.2.0.tar.gz");
            dest.clone_path()
        },
        PrepareAction::UseCached(_) => panic!("a miss must direct a download"),
    };
    // Second resolution with the directory now present: the same directory
    // comes back and no download — hence no network access — is directed.
    let second = prepare_package(&root, "cetz", "0.2.0", true);
    match &second {
        PrepareAction::UseCached(dir) => assert_eq!(dir.segs, dest.segs),
        PrepareAction::Download { .. } => panic!("a hit must not direct a download"),
    }
    let third = prepare_package(&root, "cetz", "0.2.0", true);
    match &third {
        PrepareAction::UseCached(dir) => assert_eq!(dir.segs, dest.segs),
        PrepareAction::Download { .. } => panic!("a hit must not direct a download"),
    }
}

fn gzipped_tar_with(entries: &[(&str, &[u8])]) -> Vec<u8> {
    let mut builder = tar::Builder::new(Vec::new());
    for (name, data) in entries {
        let mut header = tar::Header::new_gnu();
        header.set_size(data.len() as u64);
        header.set_mode(0o644);
        header.set_cksum();
        builder.append_data(&mut header, *name, *data).unwrap();
    }
    let tar_bytes = builder.into_inner().unwrap();
    let mut encoder = flate2::write::GzEncoder::new(Vec::new(), flate2::Compression::default());
    std::io::Write::write_all(&mut encoder, &tar_bytes).unwrap();
    encoder.finish().unwrap()
}

#[test]
fn extraction_recovers_the_archived_entries() {
    let archive = gzipped_tar_with(&[
        ("typst.toml", b"[package]\n"),
        ("src/lib.typ", b"#let answer = 42\n"),
    ]);
    let entries = extract_archive(&archive).expect("well-formed archive");
    assert_eq!(entries.len(), 2);
    assert_eq!(entries[0].0, "typst.toml");
    assert_eq!(entries[0].1, b"[package]\n".to_vec());
    assert_eq!(entries[1].0, "src/lib.typ");
    assert_eq!(entries[1].1, b"#let answer = 42\n".to_vec());
}

#[test]
fn garbage_bytes_fail_as_an_extraction_error() {
    let r = extract_archive(&vec![0, 1, 2, 3]);
    match r {
        Err(Error::ExtractError(m)) => assert_eq!(m, "invalid gzip stream"),
        _ => panic!("garbage must fail extraction"),
    }
}

#[test]
fn truncated_tar_fails_as_an_extraction_error() {
    // A valid gzip stream whose contents are not a tar archive.
    let mut encoder = flate2::write::GzEncoder::new(Vec::new(), flate2::Compression::default());
    std::io::Write::write_all(&mut encoder, &[1u8; 100]).unwrap();
    let not_tar = encoder.finish().unwrap();
    let r = extract_archive(&not_tar);
    match r {
        Err(Error::ExtractError(m)) => assert_eq!(m, "invalid tar archive"),
        _ => panic!("a non-tar payload must fail extraction"),
    }
}

#[test]
fn failed_extraction_cleans_up_and_the_retry_downloads() {
    let root = cache_root();
    let dest = package_dir(&root, "cetz", "0.2.0");
    let failure = Err(Error::ExtractError("invalid gzip stream".to_string()));
    // The follow-up removes exactly the partial target directory.
    match conclude_extraction(dest.clone_path(), failure) {
        InstallStep::DiscardPartial { dir, error } => {
            assert_eq!(dir.segs, dest.segs);
            assert!(matches!(error, Error::ExtractError(_)));
        },
        InstallStep::Install { .. } => panic!("a failure must not install"),
    }
    // With the directory gone, the next resolution downloads again instead
    // of treating the path as a cache hit.
    match prepare_package(&root, "cetz", "0.2.0", false) {
        PrepareAction::Download { dest: retry, .. } => assert_eq!(retry.segs, dest.segs),
        PrepareAction::UseCached(_) => panic!("the retry must download"),
    }
}

#[test]
fn successful_extraction_installs_into_the_target() {
    let dest = package_dir(&cache_root(), "cetz", "0.2.0");
    let entries = vec![("a.typ".to_string(), vec![1u8, 2])];
    match conclude_extraction(dest.clone_path(), Ok(entries)) {
        InstallStep::Install { dir, files } => {
            assert_eq!(dir.segs, dest.segs);
            assert_eq!(files.len(), 1);
            assert_eq!(files[0].0, "a.typ");
        },
        InstallStep::DiscardPartial { .. } => panic!("success must install"),
    }
}

#[test]
fn error_messages_name_the_failure() {
    let e = Error::RequestError("connection timed out".to_string());
    assert_eq!(e.message(), "failed to make HTTP request: connection timed out");
    let e = Error::ExtractError("invalid tar archive".to_string());
    assert_eq!(e.message(), "failed to extract archive: invalid tar archive");
}
