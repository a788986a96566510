//! The package cache: resolving a package reference of the fixed `preview`
//! namespace to a local directory, fetching and extracting a remote archive
//! on first use.
//!
//! Resolution is a pure memoization by path existence: once a directory
//! exists at the canonical cache path for a reference it is treated as
//! complete and valid, with no freshness check. The filesystem and network
//! themselves stay with the caller; this module computes the cache path and
//! the download URL, decides between cache hit and download, unpacks fetched
//! archive bytes, and directs the cleanup that keeps a failed extraction
//! from masquerading as a valid cache hit on retry.

use vstd::prelude::*;
use crate::paths::AbsPath;

verus! {

/// A package resolution failure. Both kinds are fatal to the single compile
/// operation that triggered the resolution, not to the process.
#[derive(Debug)]
pub enum Error {
    /// The network-level fetch failed.
    RequestError(String),
    /// Decompressing or unpacking the fetched archive failed. The partial
    /// target directory is removed before this error surfaces.
    ExtractError(String),
}

impl Error {
    /// A human-readable description of the failure.
    pub fn message(&self) -> (r: String)
        ensures
            match self {
                Error::RequestError(m) => r@ == "failed to make HTTP request: "@ + m@,
                Error::ExtractError(m) => r@ == "failed to extract archive: "@ + m@,
            },
    {
        match self {
            Error::RequestError(m) => String::from_str("failed to make HTTP request: ").concat(
                m.as_str(),
            ),
            Error::ExtractError(m) => String::from_str("failed to extract archive: ").concat(
                m.as_str(),
            ),
        }
    }
}

/// The canonical cache directory for the package `name:version`: the
/// platform cache directory, then a fixed application subpath, the fixed
/// namespace, the name, and the version.
pub open spec fn spec_package_dir(
    cache_root: Seq<Seq<char>>,
    name: Seq<char>,
    version: Seq<char>,
) -> Seq<Seq<char>> {
    cache_root + seq!["typstd"@, "packages"@, "preview"@, name, version]
}

/// The well-known download URL for the package `name:version`.
pub open spec fn spec_package_url(name: Seq<char>, version: Seq<char>) -> Seq<char> {
    "https://packages.typst.org/preview/"@ + name + "-"@ + version + ".tar.gz"@
}

/// Executable counterpart of [`spec_package_dir`].
pub fn package_dir(cache_root: &AbsPath, name: &str, version: &str) -> (r: AbsPath)
    ensures
        r@ == spec_package_dir(cache_root@, name@, version@),
{
    let mut rel: Vec<String> = Vec::new();
    rel.push(String::from_str("typstd"));
    rel.push(String::from_str("packages"));
    rel.push(String::from_str("preview"));
    rel.push(String::from_str(name));
    rel.push(String::from_str(version));
    assert(rel.deep_view() =~= seq!["typstd"@, "packages"@, "preview"@, name@, version@]);
    cache_root.join(&rel)
}

/// Executable counterpart of [`spec_package_url`].
pub fn package_url(name: &str, version: &str) -> (r: String)
    ensures
        r@ == spec_package_url(name@, version@),
{
    let r = String::from_str("https://packages.typst.org/preview/").concat(name).concat(
        "-",
    ).concat(version).concat(".tar.gz");
    assert(r@ =~= spec_package_url(name@, version@));
    r
}

/// What resolving a package reference directs the caller to do.
pub enum PrepareAction {
    /// A directory already sits at the canonical cache path: use it as is,
    /// with no freshness check and no network access.
    UseCached(AbsPath),
    /// Nothing is cached yet: fetch `url` with a single bounded-timeout
    /// request and extract the archive into `dest`.
    Download { url: String, dest: AbsPath },
}

/// Everything [`prepare_package`] promises of its result.
pub open spec fn prepare_post(
    cache_root: Seq<Seq<char>>,
    name: Seq<char>,
    version: Seq<char>,
    dest_exists: bool,
    r: PrepareAction,
) -> bool {
    match r {
        PrepareAction::UseCached(d) => dest_exists && d@ == spec_package_dir(
            cache_root,
            name,
            version,
        ),
        PrepareAction::Download { url, dest } => {
            &&& !dest_exists
            &&& dest@ == spec_package_dir(cache_root, name, version)
            &&& url@ == spec_package_url(name, version)
        },
    }
}

/// Resolve a package reference against the cache. `dest_exists` reports
/// whether a directory already sits at the canonical cache path (the caller
/// probes the filesystem): if so, that directory is the resolution and no
/// download is directed; otherwise the caller is directed to fetch the
/// archive and extract it into the canonical path.
pub fn prepare_package(cache_root: &AbsPath, name: &str, version: &str, dest_exists: bool) -> (r:
    PrepareAction)
    ensures
        prepare_post(cache_root@, name@, version@, dest_exists, r),
{
    let dest = package_dir(cache_root, name, version);
    if dest_exists {
        PrepareAction::UseCached(dest)
    } else {
        PrepareAction::Download { url: package_url(name, version), dest }
    }
}

/// Law (idempotent package resolution): resolving the same reference again
/// with no intervening filesystem mutation — so the directory the first
/// resolution produced still exists — yields the very same directory and
/// directs no download.
pub proof fn lemma_prepare_idempotent(
    cache_root: Seq<Seq<char>>,
    name: Seq<char>,
    version: Seq<char>,
    first_exists: bool,
    first: PrepareAction,
    second: PrepareAction,
)
    requires
        prepare_post(cache_root, name, version, first_exists, first),
        prepare_post(cache_root, name, version, true, second),
    ensures
        second matches PrepareAction::UseCached(d) && d@ == (match first {
            PrepareAction::UseCached(d0) => d0@,
            PrepareAction::Download { dest, .. } => dest@,
        }),
{
}

/// What an in-memory gzip stream inflates to, when it is well-formed: a
/// function of the bytes alone.
pub uninterp spec fn gunzip_of(data: Seq<u8>) -> Option<Seq<u8>>;

/// The entry list of an in-memory tar stream, when it is well-formed: each
/// entry's path and contents, in archive order, a function of the bytes
/// alone.
pub uninterp spec fn untar_of(data: Seq<u8>) -> Option<Seq<(Seq<char>, Seq<u8>)>>;

/// The entries a fetched gzip-compressed tar archive holds.
pub open spec fn extracted_of(data: Seq<u8>) -> Option<Seq<(Seq<char>, Seq<u8>)>> {
    match gunzip_of(data) {
        Some(t) => untar_of(t),
        None => None,
    }
}

/// Relies on flate2's `read::GzDecoder` over an in-memory byte slice: what a
/// gzip stream inflates to, and whether it is well-formed, depends on those
/// bytes alone.
#[verifier::external_body]
fn gunzip(data: &Vec<u8>) -> (r: Option<Vec<u8>>)
    ensures
        (r is Some) == (gunzip_of(data@) is Some),
        r matches Some(out) ==> gunzip_of(data@) == Some(out@),
{
    let mut out = Vec::new();
    let mut dec = flate2::read::GzDecoder::new(data.as_slice());
    match std::io::Read::read_to_end(&mut dec, &mut out) {
        Ok(_) => Some(out),
        Err(_) => None,
    }
}

/// Relies on tar's `Archive` over an in-memory byte slice: the entry list of
/// a tar stream, and whether it is well-formed, depends on those bytes
/// alone. Entry-name decoding is platform-conditioned in the tar crate
/// (non-UTF-8 names are decoded lossily on unix and rejected on Windows),
/// so the named result is a function of the bytes per compilation target.
#[verifier::external_body]
fn untar(data: &Vec<u8>) -> (r: Option<Vec<(String, Vec<u8>)>>)
    ensures
        (r is Some) == (untar_of(data@) is Some),
        r matches Some(es) ==> untar_of(data@) == Some(es.deep_view()),
{
    let mut archive = tar::Archive::new(data.as_slice());
    let mut out: Vec<(String, Vec<u8>)> = Vec::new();
    for entry in archive.entries().ok()? {
        let mut entry = entry.ok()?;
        let path = entry.path().ok()?.to_string_lossy().into_owned();
        let mut buf = Vec::new();
        std::io::Read::read_to_end(&mut entry, &mut buf).ok()?;
        out.push((path, buf));
    }
    Some(out)
}

/// Decompress and unpack fetched archive bytes into the list of entries to
/// install. Every failure here is an extraction failure, distinct from a
/// network failure.
pub fn extract_archive(archive: &Vec<u8>) -> (r: Result<Vec<(String, Vec<u8>)>, Error>)
    ensures
        (r is Ok) == (extracted_of(archive@) is Some),
        r matches Ok(es) ==> extracted_of(archive@) == Some(es.deep_view()),
        r matches Err(e) ==> (e matches Error::ExtractError(m) && m@ == (if gunzip_of(archive@)
            is None {
            "invalid gzip stream"@
        } else {
            "invalid tar archive"@
        })),
{
    let tarball = match gunzip(archive) {
        Some(t) => t,
        None => {
            return Err(Error::ExtractError(String::from_str("invalid gzip stream")));
        },
    };
    match untar(&tarball) {
        Some(es) => Ok(es),
        None => Err(Error::ExtractError(String::from_str("invalid tar archive"))),
    }
}

/// The follow-up a finished extraction attempt directs.
pub enum InstallStep {
    /// Write these entries under the directory: the resolution succeeded.
    Install { dir: AbsPath, files: Vec<(String, Vec<u8>)> },
    /// Remove the partially written directory entirely, then surface the
    /// error: a failed attempt must never masquerade as a valid cache hit.
    DiscardPartial { dir: AbsPath, error: Error },
}

/// Everything [`conclude_extraction`] promises of its result.
pub open spec fn conclude_post(
    dest: Seq<Seq<char>>,
    extraction: Result<Vec<(String, Vec<u8>)>, Error>,
    r: InstallStep,
) -> bool {
    match extraction {
        Ok(es) => r matches InstallStep::Install { dir, files } && dir@ == dest && files == es,
        Err(e) => r matches InstallStep::DiscardPartial { dir, error } && dir@ == dest && error
            == e,
    }
}

/// Turn the outcome of extracting into `dest` into the follow-up the caller
/// must perform against the filesystem.
pub fn conclude_extraction(
    dest: AbsPath,
    extraction: Result<Vec<(String, Vec<u8>)>, Error>,
) -> (r: InstallStep)
    ensures
        conclude_post(dest@, extraction, r),
{
    match extraction {
        Ok(es) => InstallStep::Install { dir: dest, files: es },
        Err(e) => InstallStep::DiscardPartial { dir: dest, error: e },
    }
}

/// Law (failed extraction cleanup): when extraction fails, the directed
/// follow-up removes exactly the partial target directory — no other path —
/// and a later resolution of the same reference, the directory now gone,
/// directs a fresh download rather than treating the path as a cache hit.
pub proof fn lemma_failed_extraction_cleanup(
    cache_root: Seq<Seq<char>>,
    name: Seq<char>,
    version: Seq<char>,
    dest: AbsPath,
    err: Error,
    step: InstallStep,
    retry: PrepareAction,
)
    requires
        dest@ == spec_package_dir(cache_root, name, version),
        conclude_post(dest@, Err::<Vec<(String, Vec<u8>)>, Error>(err), step),
        prepare_post(cache_root, name, version, false, retry),
    ensures
        step matches InstallStep::DiscardPartial { dir, error } && dir@ == dest@ && error == err,
        retry matches PrepareAction::Download { url, dest: retry_dest } && retry_dest@ == dest@
            && url@ == spec_package_url(name, version),
{
}

} // verus!
