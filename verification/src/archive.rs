//! Archive decoding, supplied by outside crates.
//!
//! An archive is abstracted as "given bytes, a sequence of (path, bytes)
//! entries, or nothing if the bytes do not decode".  Each format's decoder
//! is one trusted wrapper; everything that inspects the entries is verified.

use vstd::prelude::*;

verus! {

/// View of a list of archive entries.
pub open spec fn spec_archive_view(v: Seq<(String, Vec<u8>)>) -> Seq<(Seq<char>, Seq<u8>)> {
    v.map_values(|e: (String, Vec<u8>)| (e.0@, e.1@))
}

/// The entries of `data` decoded as a bzip2-compressed tar archive: a
/// function of the bytes alone.
pub uninterp spec fn tar_bz2_entries_of(data: Seq<u8>) -> Option<Seq<(Seq<char>, Seq<u8>)>>;

/// The entries of `data` decoded as a ZIP archive: a function of the bytes
/// alone.
pub uninterp spec fn zip_entries_of(data: Seq<u8>) -> Option<Seq<(Seq<char>, Seq<u8>)>>;

/// The entries of `data` decoded as a gzip-compressed tar archive: a
/// function of the bytes alone.
pub uninterp spec fn tar_gz_entries_of(data: Seq<u8>) -> Option<Seq<(Seq<char>, Seq<u8>)>>;

/// Relies on `bzip2::read::BzDecoder` and `tar::Archive`: decompressing and
/// listing a tar.bz2 archive is a function of the bytes alone.  tar
/// documents that `Entry::path` fails for non-Unicode names on Windows
/// only, so for such malformed archives the decoding, and the named
/// decoder result, describe the build target.
#[verifier::external_body]
pub fn tar_bz2_entries(data: &[u8]) -> (r: Option<Vec<(String, Vec<u8>)>>)
    ensures
        r is Some <==> tar_bz2_entries_of(data@) is Some,
        r matches Some(v) ==> Some(spec_archive_view(v@)) == tar_bz2_entries_of(data@),
{
    let mut archive = tar::Archive::new(bzip2::read::BzDecoder::new(std::io::Cursor::new(data)));
    let mut out = Vec::new();
    for entry in archive.entries().ok()? {
        let mut entry = entry.ok()?;
        let path = entry.path().ok()?.to_string_lossy().into_owned();
        let mut bytes = Vec::new();
        std::io::Read::read_to_end(&mut entry, &mut bytes).ok()?;
        out.push((path, bytes));
    }
    Some(out)
}

/// Relies on `zip::ZipArchive`: listing and inflating a ZIP archive is a
/// function of the bytes alone.
#[verifier::external_body]
pub fn zip_entries(data: &[u8]) -> (r: Option<Vec<(String, Vec<u8>)>>)
    ensures
        r is Some <==> zip_entries_of(data@) is Some,
        r matches Some(v) ==> Some(spec_archive_view(v@)) == zip_entries_of(data@),
{
    let mut archive = zip::ZipArchive::new(std::io::Cursor::new(data)).ok()?;
    let mut out = Vec::new();
    for i in 0..archive.len() {
        let mut file = archive.by_index(i).ok()?;
        let name = file.name().to_string();
        let mut bytes = Vec::new();
        std::io::Read::read_to_end(&mut file, &mut bytes).ok()?;
        out.push((name, bytes));
    }
    Some(out)
}

/// Relies on `flate2::read::GzDecoder` and `tar::Archive`: decompressing and
/// listing a tar.gz archive is a function of the bytes alone.  tar
/// documents that `Entry::path` fails for non-Unicode names on Windows
/// only, so for such malformed archives the decoding, and the named
/// decoder result, describe the build target.
#[verifier::external_body]
pub fn tar_gz_entries(data: &[u8]) -> (r: Option<Vec<(String, Vec<u8>)>>)
    ensures
        r is Some <==> tar_gz_entries_of(data@) is Some,
        r matches Some(v) ==> Some(spec_archive_view(v@)) == tar_gz_entries_of(data@),
{
    let mut archive = tar::Archive::new(flate2::read::GzDecoder::new(std::io::Cursor::new(data)));
    let mut out = Vec::new();
    for entry in archive.entries().ok()? {
        let mut entry = entry.ok()?;
        let path = entry.path().ok()?.to_string_lossy().into_owned();
        let mut bytes = Vec::new();
        std::io::Read::read_to_end(&mut entry, &mut bytes).ok()?;
        out.push((path, bytes));
    }
    Some(out)
}

} // verus!
