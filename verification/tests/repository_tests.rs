use meso_forge_mirror::repository::{Repository, RepositoryType};

#[test]
fn test_repository_type_from_string() {
    assert!(matches!(
        RepositoryType::from_string("prefix-dev").unwrap(),
        RepositoryType::PrefixDev
    ));
    assert!(matches!(
        RepositoryType::from_string("prefix").unwrap(),
        RepositoryType::PrefixDev
    ));
    assert!(matches!(
        RepositoryType::from_string("s3").unwrap(),
        RepositoryType::S3
    ));
    assert!(matches!(
        RepositoryType::from_string("minio").unwrap(),
        RepositoryType::S3
    ));
    assert!(matches!(
        RepositoryType::from_string("local").unwrap(),
        RepositoryType::Local
    ));
    assert!(matches!(
        RepositoryType::from_string("file").unwrap(),
        RepositoryType::Local
    ));
    assert!(RepositoryType::from_string("invalid").is_err());
}

#[test]
fn test_repository_type_cache_and_case() {
    assert!(matches!(
        RepositoryType::from_string("cache").unwrap(),
        RepositoryType::Cache
    ));
    assert!(matches!(
        RepositoryType::from_string("LOCAL").unwrap(),
        RepositoryType::Local
    ));
}

#[test]
fn test_repository_new() {
    let repo = Repository::new(RepositoryType::Local, "/tmp/test".to_string());
    assert!(matches!(repo.repo_type, RepositoryType::Local));
    assert_eq!(repo.path, "/tmp/test");
}

#[test]
fn test_cache_upload_writes_flat_file() {
    // the cache backend stores the package under its own name, with no
    // platform directory and no index
    let mut repo = Repository::new(RepositoryType::Cache, "ignored".to_string());
    let writes = repo
        .upload_package(
            "rb-asciidoctor-revealjs-5.2.0-h1d6dcf3_0.conda",
            b"package-bytes".to_vec(),
            3,
        )
        .unwrap();
    assert_eq!(writes.len(), 1);
    assert_eq!(
        writes[0].location,
        "rb-asciidoctor-revealjs-5.2.0-h1d6dcf3_0.conda"
    );
    assert_eq!(writes[0].content, b"package-bytes".to_vec());
    // and finalization plans nothing for a cache
    let fin = repo.finalize_repository().unwrap();
    assert!(fin.is_empty());
}

#[test]
fn test_local_upload_writes_package_and_index() {
    let mut repo = Repository::new(RepositoryType::Local, "/repo".to_string());
    let writes = repo
        .upload_package(
            "coreos-installer-0.25.0-he48fb7a_0.conda",
            b"installer".to_vec(),
            1,
        )
        .unwrap();
    assert_eq!(writes.len(), 2);
    assert_eq!(
        writes[0].location,
        "linux-64/coreos-installer-0.25.0-he48fb7a_0.conda"
    );
    assert_eq!(writes[0].content_type, "application/x-conda-package");
    assert_eq!(writes[1].location, "linux-64/repodata.json");
    assert_eq!(writes[1].content_type, "application/json");
    let doc = String::from_utf8(writes[1].content.clone()).unwrap();
    assert!(doc.contains("\"info\":{\"subdir\":\"linux-64\"}"));
    assert!(doc.contains("coreos-installer-0.25.0-he48fb7a_0.conda"));
}

#[test]
fn test_local_finalize_two_platforms() {
    // after one linux-64 and one noarch upload, finalization plans exactly
    // one repodata.json per platform directory, each with one entry whose
    // subdir matches the directory
    let mut repo = Repository::new(RepositoryType::Local, "/repo".to_string());
    repo.upload_package(
        "coreos-installer-0.25.0-he48fb7a_0.conda",
        b"a".to_vec(),
        1,
    )
    .unwrap();
    repo.upload_package(
        "rb-asciidoctor-revealjs-5.2.0-h1d6dcf3_0.conda",
        b"b".to_vec(),
        2,
    )
    .unwrap();
    let writes = repo.finalize_repository().unwrap();
    assert_eq!(writes.len(), 2);
    let locations: Vec<&str> = writes.iter().map(|w| w.location.as_str()).collect();
    assert!(locations.contains(&"linux-64/repodata.json"));
    assert!(locations.contains(&"noarch/repodata.json"));
    for w in &writes {
        let doc = String::from_utf8(w.content.clone()).unwrap();
        let dir = w.location.split('/').next().unwrap();
        assert!(doc.contains(&format!("\"info\":{{\"subdir\":\"{}\"}}", dir)));
        // exactly one package entry: one ".conda": key inside the packages map
        let count = doc.matches(".conda\":{").count();
        assert_eq!(count, 1, "one package entry expected in {}", w.location);
    }
    let stats = repo.get_package_stats();
    assert_eq!(stats.total_packages, 2);
    assert_eq!(stats.total_size, 2);
    assert_eq!(stats.packages_by_platform.len(), 2);
}

#[test]
fn test_s3_upload_uses_prefixed_keys() {
    let mut repo = Repository::new(
        RepositoryType::S3,
        "s3://my-bucket/channels/main".to_string(),
    );
    let (bucket, prefix) = repo.s3_bucket_and_prefix();
    assert_eq!(bucket, "my-bucket");
    assert_eq!(prefix, "channels/main");
    let writes = repo
        .upload_package("okd-install-4.19.15-h2b58dbe_0.conda", b"x".to_vec(), 1)
        .unwrap();
    assert_eq!(writes.len(), 2);
    assert_eq!(
        writes[0].location,
        "channels/main/linux-64/okd-install-4.19.15-h2b58dbe_0.conda"
    );
    assert_eq!(writes[1].location, "channels/main/linux-64/repodata.json");
}

#[test]
fn test_prefix_dev_upload_builds_url() {
    let mut repo = Repository::new(
        RepositoryType::PrefixDev,
        "https://prefix.dev/api/channel/".to_string(),
    );
    let writes = repo
        .upload_package("pure-python-1.0-noarch.conda", b"x".to_vec(), 1)
        .unwrap();
    assert_eq!(writes.len(), 1);
    assert_eq!(
        writes[0].location,
        "https://prefix.dev/api/channel/noarch/pure-python-1.0-noarch.conda"
    );
}

#[test]
fn test_upload_rejects_non_conda_and_empty() {
    let mut repo = Repository::new(RepositoryType::Local, "/repo".to_string());
    assert!(repo
        .upload_package("not-a-package.txt", b"x".to_vec(), 0)
        .is_err());
    // empty content fails validation
    assert!(repo
        .upload_package("a-1.0-h_0-linux-64.conda", Vec::new(), 0)
        .is_err());
}

#[test]
fn test_s3_repodata_rescans_whole_platform() {
    // the index written after the second upload covers both packages of
    // the platform, not just the newest
    let mut repo = Repository::new(RepositoryType::S3, "s3://bucket".to_string());
    repo.upload_package("alpha-1.0-h_0-linux-64.conda", b"a".to_vec(), 1)
        .unwrap();
    let writes = repo
        .upload_package("beta-2.0-h_0-linux-64.conda", b"b".to_vec(), 2)
        .unwrap();
    let doc = String::from_utf8(writes[1].content.clone()).unwrap();
    assert!(doc.contains("alpha-1.0-h_0-linux-64.conda"));
    assert!(doc.contains("beta-2.0-h_0-linux-64.conda"));
}

#[test]
fn test_repeated_filename_overwrites_cache_entry() {
    let mut repo = Repository::new(RepositoryType::Local, "/repo".to_string());
    repo.upload_package("pkg-1.0-h_0-linux-64.conda", b"first".to_vec(), 1)
        .unwrap();
    repo.upload_package("pkg-1.0-h_0-linux-64.conda", b"second".to_vec(), 2)
        .unwrap();
    let stats = repo.get_package_stats();
    assert_eq!(stats.total_packages, 1);
    assert_eq!(stats.total_size, 6);
}
