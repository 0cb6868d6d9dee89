use meso_forge_mirror::mirror::{
    backoff_delay_seconds, extract_package_name, mirror_from_tarball, mirror_from_zip,
};
use meso_forge_mirror::errors::MirrorError;
use meso_forge_mirror::repository::{Repository, RepositoryType};

fn zip_of(entries: &[(&str, &[u8])]) -> Vec<u8> {
    let mut zw = zip::ZipWriter::new(std::io::Cursor::new(Vec::new()));
    for (name, data) in entries {
        zw.start_file(*name, zip::write::SimpleFileOptions::default())
            .unwrap();
        std::io::Write::write_all(&mut zw, data).unwrap();
    }
    zw.finish().unwrap().into_inner()
}

fn tar_gz_of(entries: &[(&str, &[u8])]) -> Vec<u8> {
    let encoder = flate2::write::GzEncoder::new(Vec::new(), flate2::Compression::default());
    let mut builder = tar::Builder::new(encoder);
    for (name, data) in entries {
        let mut header = tar::Header::new_gnu();
        header.set_size(data.len() as u64);
        header.set_cksum();
        builder.append_data(&mut header, *name, *data).unwrap();
    }
    builder.into_inner().unwrap().finish().unwrap()
}

#[test]
fn test_extract_package_name() {
    let url = "https://example.com/packages/my-package-1.0.0.tar.bz2";
    let name = extract_package_name(url).unwrap();
    assert_eq!(name, "my-package-1.0.0.tar.bz2");
}

#[test]
fn test_extract_package_name_with_query() {
    let url = "https://example.com/packages/my-package.tar.bz2?token=abc";
    let name = extract_package_name(url).unwrap();
    assert_eq!(name, "my-package.tar.bz2");
}

#[test]
fn test_extract_package_name_empty() {
    let url = "https://example.com/";
    assert!(extract_package_name(url).is_err());
}

#[test]
fn test_extract_package_name_local_path() {
    assert_eq!(
        extract_package_name("/downloads/pkg-1.0.conda").unwrap(),
        "pkg-1.0.conda"
    );
    assert!(extract_package_name("..").is_err());
}

#[test]
fn test_backoff_delay_doubles() {
    assert_eq!(backoff_delay_seconds(1), 1);
    assert_eq!(backoff_delay_seconds(2), 2);
    assert_eq!(backoff_delay_seconds(3), 4);
    assert_eq!(backoff_delay_seconds(4), 8);
    assert_eq!(backoff_delay_seconds(11), 1024);
}

#[test]
fn test_zip_with_no_matching_entries_lists_every_file() {
    // a ZIP with no entry that both matches the pattern and carries a conda
    // extension yields an aggregate error naming every file in the archive
    let data = zip_of(&[
        ("readme.txt", b"hello"),
        ("logs/build.log", b"log text"),
        ("artifacts/tool.exe", b"bin"),
    ]);
    let mut repo = Repository::new(RepositoryType::Local, "/repo".to_string());
    let outcome = mirror_from_zip(&mut repo, &data, "conda_pkgs/.*", 1).unwrap();
    assert!(outcome.writes.is_empty());
    let err = outcome.error.expect("an aggregate error is owed");
    let msg = err.message();
    assert!(msg.contains("No conda packages found in ZIP file matching pattern: 'conda_pkgs/.*'"));
    assert!(msg.contains("1: readme.txt"));
    assert!(msg.contains("2: logs/build.log"));
    assert!(msg.contains("3: artifacts/tool.exe"));
    assert!(matches!(err, MirrorError::UnsupportedFormat(_)));
}

#[test]
fn test_zip_mirror_commits_first_match_only() {
    let data = zip_of(&[
        ("pkgs/alpha-1.0-h_0-linux-64.conda", b"alpha-bytes"),
        ("pkgs/beta-2.0-h_0-noarch.conda", b"beta-bytes"),
    ]);
    let mut repo = Repository::new(RepositoryType::Local, "/repo".to_string());
    let outcome = mirror_from_zip(&mut repo, &data, "pkgs/.*", 1).unwrap();
    assert!(outcome.error.is_none());
    // the first matching package only: its file, its upload-time index, and
    // the finalize pass over the one platform
    let locations: Vec<&str> = outcome.writes.iter().map(|w| w.location.as_str()).collect();
    assert!(locations.contains(&"linux-64/alpha-1.0-h_0-linux-64.conda"));
    assert!(!locations.iter().any(|l| l.contains("beta")));
}

#[test]
fn test_zip_mirror_without_pattern_takes_all() {
    let data = zip_of(&[
        ("pkgs/alpha-1.0-h_0-linux-64.conda", b"alpha-bytes"),
        ("notes.txt", b"skip me"),
        ("pkgs/beta-2.0-h_0-noarch.conda", b"beta-bytes"),
    ]);
    let mut repo = Repository::new(RepositoryType::Local, "/repo".to_string());
    let outcome = mirror_from_zip(&mut repo, &data, "", 1).unwrap();
    assert!(outcome.error.is_none());
    let locations: Vec<&str> = outcome.writes.iter().map(|w| w.location.as_str()).collect();
    assert!(locations.contains(&"linux-64/alpha-1.0-h_0-linux-64.conda"));
    assert!(locations.contains(&"noarch/beta-2.0-h_0-noarch.conda"));
    assert!(locations.contains(&"linux-64/repodata.json"));
    assert!(locations.contains(&"noarch/repodata.json"));
}

#[test]
fn test_zip_mirror_rejects_invalid_pattern() {
    let data = zip_of(&[("a.conda", b"x")]);
    let mut repo = Repository::new(RepositoryType::Local, "/repo".to_string());
    let r = mirror_from_zip(&mut repo, &data, "[invalid", 1);
    assert!(matches!(r, Err(MirrorError::InvalidInput(_))));
}

#[test]
fn test_tarball_mirror_and_empty_error() {
    let data = tar_gz_of(&[
        ("pkg/gamma-3.0-h_0-osx-64.conda", b"gamma"),
        ("pkg/readme.md", b"doc"),
    ]);
    let mut repo = Repository::new(RepositoryType::Local, "/repo".to_string());
    let outcome = mirror_from_tarball(&mut repo, &data, 1).unwrap();
    assert!(outcome.error.is_none());
    let locations: Vec<&str> = outcome.writes.iter().map(|w| w.location.as_str()).collect();
    assert!(locations.contains(&"osx-64/gamma-3.0-h_0-osx-64.conda"));

    let empty = tar_gz_of(&[("only/docs.txt", b"d")]);
    let mut repo2 = Repository::new(RepositoryType::Local, "/repo".to_string());
    let outcome2 = mirror_from_tarball(&mut repo2, &empty, 1).unwrap();
    let err = outcome2.error.expect("an aggregate error is owed");
    let msg = err.message();
    assert!(msg.contains("No conda packages found in tarball"));
    assert!(msg.contains("1: only/docs.txt"));
}

#[test]
fn test_undecodable_archives_are_parse_errors() {
    let mut repo = Repository::new(RepositoryType::Local, "/repo".to_string());
    let garbage = b"this is not a zip".to_vec();
    assert!(matches!(
        mirror_from_zip(&mut repo, &garbage, "", 1),
        Err(MirrorError::ParseError(_))
    ));
    assert!(matches!(
        mirror_from_tarball(&mut repo, &garbage, 1),
        Err(MirrorError::ParseError(_))
    ));
}
