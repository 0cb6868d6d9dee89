use meso_forge_mirror::conda_package::{CondaPackageHandler, SimpleIndexJson};
use meso_forge_mirror::platform::Platform;

#[test]
fn test_is_conda_package() {
    assert!(CondaPackageHandler::is_conda_package("package.conda"));
    assert!(CondaPackageHandler::is_conda_package("package.tar.bz2"));
    assert!(!CondaPackageHandler::is_conda_package("package.zip"));
    assert!(!CondaPackageHandler::is_conda_package("package.txt"));
}

#[test]
fn test_extract_platform_from_filename() {
    assert_eq!(
        CondaPackageHandler::extract_platform_from_filename(
            "python-3.9.0-hd23f0df_0_cpython-linux-64.conda"
        ),
        Some("linux".to_string())
    );
    assert_eq!(
        CondaPackageHandler::extract_platform_from_filename("numpy-1.21.0-py39h_linux-64.conda"),
        Some("linux".to_string())
    );
    assert_eq!(
        CondaPackageHandler::extract_platform_from_filename("package-noarch.conda"),
        Some("noarch".to_string())
    );
}

#[test]
fn test_is_platform_string() {
    assert!(CondaPackageHandler::is_platform_string("linux-64"));
    assert!(CondaPackageHandler::is_platform_string("osx-64"));
    assert!(CondaPackageHandler::is_platform_string("win-32"));
    assert!(CondaPackageHandler::is_platform_string("noarch"));
    assert!(!CondaPackageHandler::is_platform_string("random"));
}

#[test]
fn test_determine_platform_from_metadata() {
    let metadata = SimpleIndexJson {
        subdir: Some("linux-64".to_string()),
        ..Default::default()
    };

    let platform = CondaPackageHandler::determine_platform_from_metadata(&metadata).unwrap();
    assert_eq!(platform, Platform::Linux64);

    let metadata = SimpleIndexJson {
        subdir: Some("noarch".to_string()),
        ..Default::default()
    };

    let platform = CondaPackageHandler::determine_platform_from_metadata(&metadata).unwrap();
    assert_eq!(platform, Platform::NoArch);
}

#[test]
fn test_simple_index_json_default() {
    let metadata = SimpleIndexJson::default();
    assert_eq!(metadata.name, "unknown");
    assert_eq!(metadata.version, "0.0.0");
    assert_eq!(metadata.build, "unknown");
    assert_eq!(metadata.build_number, 0);
    assert!(metadata.timestamp.is_some());
}

#[test]
fn test_conda_package_handler_new() {
    let handler = CondaPackageHandler::new();
    assert!(handler.get_all_packages().is_empty());
}

#[test]
fn test_rattler_integration_platform_detection() {
    let test_cases = vec![
        (
            "rb-asciidoctor-revealjs-5.2.0-h1d6dcf3_0.conda",
            Platform::NoArch,
        ),
        (
            "coreos-installer-0.25.0-he48fb7a_0.conda",
            Platform::Linux64,
        ),
        ("okd-install-4.19.15-h2b58dbe_0.conda", Platform::Linux64),
    ];

    let _handler = CondaPackageHandler::new();

    for (filename, expected_platform) in test_cases {
        let package_name = filename
            .strip_suffix(".conda")
            .or_else(|| filename.strip_suffix(".tar.bz2"))
            .unwrap_or(filename);

        let parts: Vec<String> = package_name.split('-').map(|s| s.to_string()).collect();
        let (name, _version, _remaining_parts) =
            CondaPackageHandler::extract_name_version_from_parts(&parts);

        let guessed_platform = CondaPackageHandler::guess_platform_from_package_name(&name);
        assert_eq!(
            guessed_platform, expected_platform,
            "Platform detection failed for {} (extracted name: {})",
            filename, name
        );
    }
}

#[test]
fn test_arch_field_usage() {
    let metadata = SimpleIndexJson {
        arch: Some("x86_64".to_string()),
        subdir: Some("linux-64".to_string()),
        ..Default::default()
    };

    assert_eq!(metadata.arch, Some("x86_64".to_string()));

    let platform = CondaPackageHandler::determine_platform_from_metadata(&metadata).unwrap();
    assert_eq!(platform, Platform::Linux64);
}

#[test]
fn test_rattler_metadata_parsing() {
    let handler = CondaPackageHandler::new();

    let mock_index_json = br#"{
        "name": "test-package",
        "version": "1.0.0",
        "build": "h123_0",
        "build_number": 0,
        "subdir": "linux-64",
        "arch": "x86_64",
        "platform": "linux",
        "depends": ["python >=3.7"],
        "license": "MIT"
    }"#;
    let fields = meso_forge_mirror::json::parse_json_object(mock_index_json)
        .expect("manifest should parse as a JSON object");

    let result = handler.parse_conda_index_json(&fields, 7);
    assert!(result.is_ok());

    let metadata = result.unwrap();
    assert_eq!(metadata.name, "test-package");
    assert_eq!(metadata.version, "1.0.0");
    assert_eq!(metadata.subdir, Some("linux-64".to_string()));
    assert_eq!(metadata.arch, Some("x86_64".to_string()));
    assert_eq!(metadata.platform, Some("linux".to_string()));
    assert_eq!(metadata.depends, vec!["python >=3.7"]);
}

#[test]
fn test_rattler_integration_metadata_parsing() {
    let handler = CondaPackageHandler::new();
    let rattler_style = br#"{
        "name": "coreos-installer",
        "version": "0.25.0",
        "build": "he48fb7a_0",
        "build_number": 0,
        "subdir": "linux-64",
        "arch": "x86_64",
        "platform": "linux",
        "depends": ["libc", "libgcc-ng"],
        "license": "Apache-2.0",
        "timestamp": 1640995200000
    }"#;
    let fields = meso_forge_mirror::json::parse_json_object(rattler_style)
        .expect("Should parse rattler-style metadata");
    let metadata = handler.parse_conda_index_json(&fields, 3).unwrap();
    assert_eq!(metadata.name, "coreos-installer");
    assert_eq!(metadata.version, "0.25.0");
    assert_eq!(metadata.build, "he48fb7a_0");
    assert_eq!(metadata.build_number, 0);
    assert_eq!(metadata.subdir, Some("linux-64".to_string()));
    assert_eq!(metadata.arch, Some("x86_64".to_string()));
    assert_eq!(metadata.platform, Some("linux".to_string()));
    assert_eq!(metadata.depends, vec!["libc", "libgcc-ng"]);
    assert_eq!(metadata.timestamp, Some(1640995200000));
}

#[test]
fn test_platform_detection_fallback_chain() {
    let _handler = CondaPackageHandler::new();

    assert_eq!(
        CondaPackageHandler::guess_platform_from_package_name("coreos-installer"),
        Platform::Linux64
    );

    let platform_from_filename = CondaPackageHandler::extract_platform_from_filename(
        "unknown-package-1.0.0-h123_linux-64.conda",
    );
    assert_eq!(platform_from_filename, Some("linux".to_string()));

    assert_eq!(
        CondaPackageHandler::guess_platform_from_package_name("completely-unknown-package.conda"),
        Platform::NoArch
    );
}

#[test]
fn conda_package_test_user_issue_resolution() {
    let _handler = CondaPackageHandler::new();

    let rb_platform =
        CondaPackageHandler::guess_platform_from_package_name("rb-asciidoctor-revealjs");
    assert_eq!(
        rb_platform,
        Platform::NoArch,
        "Documentation packages should be noarch"
    );

    let coreos_platform =
        CondaPackageHandler::guess_platform_from_package_name("coreos-installer");
    assert_eq!(
        coreos_platform,
        Platform::Linux64,
        "coreos-installer should be linux-64"
    );

    let okd_platform = CondaPackageHandler::guess_platform_from_package_name("okd-install");
    assert_eq!(
        okd_platform,
        Platform::Linux64,
        "okd-install should be linux-64"
    );
}

#[test]
fn test_comprehensive_platform_mapping() {
    let test_platforms = vec![
        ("linux-64", Platform::Linux64),
        ("linux-32", Platform::Linux32),
        ("osx-64", Platform::Osx64),
        ("osx-arm64", Platform::OsxArm64),
        ("win-64", Platform::Win64),
        ("win-32", Platform::Win32),
        ("noarch", Platform::NoArch),
    ];

    for (subdir, expected_platform) in test_platforms {
        let metadata = SimpleIndexJson {
            subdir: Some(subdir.to_string()),
            ..Default::default()
        };

        let detected_platform =
            CondaPackageHandler::determine_platform_from_metadata(&metadata).unwrap();
        assert_eq!(
            detected_platform, expected_platform,
            "Platform mapping failed for {}",
            subdir
        );
    }
}

#[test]
fn test_canonical_subdirs_resolve_to_their_platform() {
    // every one of the twelve canonical subdir strings maps back to its member
    let pairs = vec![
        ("linux-64", Platform::Linux64),
        ("linux-32", Platform::Linux32),
        ("linux-aarch64", Platform::LinuxAarch64),
        ("linux-armv6l", Platform::LinuxArmV6l),
        ("linux-armv7l", Platform::LinuxArmV7l),
        ("linux-ppc64le", Platform::LinuxPpc64le),
        ("linux-s390x", Platform::LinuxS390X),
        ("osx-64", Platform::Osx64),
        ("osx-arm64", Platform::OsxArm64),
        ("win-32", Platform::Win32),
        ("win-64", Platform::Win64),
        ("noarch", Platform::NoArch),
    ];
    for (subdir, expected) in pairs {
        let metadata = SimpleIndexJson {
            subdir: Some(subdir.to_string()),
            ..Default::default()
        };
        let platform = CondaPackageHandler::determine_platform_from_metadata(&metadata).unwrap();
        assert_eq!(platform, expected, "subdir {} should map directly", subdir);
        assert_eq!(platform.subdir(), subdir);
    }
}

#[test]
fn test_fallback_identity_numpy() {
    // ingest "numpy-1.21.0-py39h06a4308_0-linux-64.conda" with no manifest
    let handler = CondaPackageHandler::new();
    let m = handler
        .extract_metadata_from_filename_fallback("numpy-1.21.0-py39h06a4308_0-linux-64.conda", 5)
        .unwrap();
    assert_eq!(m.name, "numpy");
    assert_eq!(m.version, "1.21.0");
    assert_eq!(m.build, "py39h06a4308_0");
    assert_eq!(m.build_number, 0);
    let platform = CondaPackageHandler::determine_platform_from_metadata(&m).unwrap();
    assert_eq!(platform, Platform::Linux64);
}

#[test]
fn test_fallback_identity_okd_install() {
    // ingest "okd-install-4.19.15-h2b58dbe_0.conda": no platform suffix, the
    // name table must resolve the platform
    let handler = CondaPackageHandler::new();
    let m = handler
        .extract_metadata_from_filename_fallback("okd-install-4.19.15-h2b58dbe_0.conda", 5)
        .unwrap();
    assert_eq!(m.name, "okd-install");
    assert_eq!(m.version, "4.19.15");
    assert_eq!(m.build, "h2b58dbe_0");
    assert_eq!(m.build_number, 0);
    assert_eq!(m.platform, None);
    let platform = CondaPackageHandler::determine_platform_from_metadata(&m).unwrap();
    assert_eq!(platform, Platform::Linux64);
}

#[test]
fn test_process_package_end_to_end() {
    let mut handler = CondaPackageHandler::new();
    let content = b"mock conda package content".to_vec();
    let p = handler
        .process_package(content.clone(), "numpy-1.21.0-py39h06a4308_0-linux-64.conda", 42)
        .unwrap();
    assert_eq!(p.metadata.name, "numpy");
    assert_eq!(p.metadata.version, "1.21.0");
    assert_eq!(p.metadata.build, "py39h06a4308_0");
    assert_eq!(p.metadata.build_number, 0);
    assert_eq!(p.platform, Platform::Linux64);
    assert_eq!(p.size, content.len() as u64);
    // checksums must agree with a direct use of the digest crates
    let expected_md5: String = <md5::Md5 as md5::Digest>::digest(&content)
        .iter()
        .map(|b| format!("{:02x}", b))
        .collect();
    let expected_sha256: String = <sha2::Sha256 as sha2::Digest>::digest(&content)
        .iter()
        .map(|b| format!("{:02x}", b))
        .collect();
    assert_eq!(p.md5, expected_md5);
    assert_eq!(p.sha256, expected_sha256);
    // validation accepts the package the processor built
    assert!(handler.validate_package(&p).is_ok());
    // the cache holds it under its filename
    assert!(handler
        .get_package("numpy-1.21.0-py39h06a4308_0-linux-64.conda")
        .is_some());
}

#[test]
fn test_process_package_idempotent() {
    // processing the same (filename, content) pair twice yields identical
    // packages
    let mut handler = CondaPackageHandler::new();
    let content = b"some package bytes".to_vec();
    let first = handler
        .process_package(content.clone(), "pkg-2.0-h1_0-osx-arm64.conda", 9)
        .unwrap();
    let second = handler
        .process_package(content.clone(), "pkg-2.0-h1_0-osx-arm64.conda", 9)
        .unwrap();
    assert_eq!(first.metadata.name, second.metadata.name);
    assert_eq!(first.metadata.version, second.metadata.version);
    assert_eq!(first.metadata.build, second.metadata.build);
    assert_eq!(first.metadata.build_number, second.metadata.build_number);
    assert_eq!(first.metadata.timestamp, second.metadata.timestamp);
    assert_eq!(first.platform, second.platform);
    assert_eq!(first.filename, second.filename);
    assert_eq!(first.content, second.content);
    assert_eq!(first.size, second.size);
    assert_eq!(first.md5, second.md5);
    assert_eq!(first.sha256, second.sha256);
    // the overwrite keeps one cache entry
    assert_eq!(handler.get_all_packages().len(), 1);
}

#[test]
fn test_process_package_rejects_other_extensions() {
    let mut handler = CondaPackageHandler::new();
    let r = handler.process_package(b"data".to_vec(), "package.zip", 0);
    assert!(r.is_err());
}

#[test]
fn test_validation_rejects_tampered_checksum() {
    let mut handler = CondaPackageHandler::new();
    let p = handler
        .process_package(b"payload".to_vec(), "a-1.0-h_0-linux-64.conda", 0)
        .unwrap();
    let mut tampered = p.clone();
    tampered.md5 = "0000".to_string();
    assert!(handler.validate_package(&tampered).is_err());
    let mut empty_name = p.clone();
    empty_name.metadata.name = String::new();
    assert!(handler.validate_package(&empty_name).is_err());
    // empty content is rejected even when the stored checksums are the
    // digests of the empty byte string and the size field claims otherwise
    let mut empty_content = p.clone();
    empty_content.content = Vec::new();
    empty_content.size = 1;
    empty_content.md5 = <md5::Md5 as md5::Digest>::digest(b"")
        .iter()
        .map(|b| format!("{:02x}", b))
        .collect();
    empty_content.sha256 = <sha2::Sha256 as sha2::Digest>::digest(b"")
        .iter()
        .map(|b| format!("{:02x}", b))
        .collect();
    assert!(handler.validate_package(&empty_content).is_err());
}

#[test]
fn test_legacy_archive_manifest_wins_over_filename() {
    // build a real tar.bz2 with an info/index.json manifest and check that
    // the processor reads the manifest instead of the filename
    let manifest = br#"{"name":"mkl","version":"2023.1","build":"h6b88ed4_46357","build_number":46357,"subdir":"win-64","depends":["intel-openmp"],"license":"LicenseRef-ProprietaryIntel"}"#;
    let mut builder = tar::Builder::new(bzip2::write::BzEncoder::new(
        Vec::new(),
        bzip2::Compression::default(),
    ));
    let mut header = tar::Header::new_gnu();
    header.set_size(manifest.len() as u64);
    header.set_cksum();
    builder
        .append_data(&mut header, "info/index.json", &manifest[..])
        .unwrap();
    let data = builder.into_inner().unwrap().finish().unwrap();

    let mut handler = CondaPackageHandler::new();
    let p = handler
        .process_package(data, "wrongname-9.9-b0-linux-64.tar.bz2", 77)
        .unwrap();
    assert_eq!(p.metadata.name, "mkl");
    assert_eq!(p.metadata.version, "2023.1");
    assert_eq!(p.metadata.build, "h6b88ed4_46357");
    assert_eq!(p.metadata.build_number, 46357);
    assert_eq!(p.metadata.depends, vec!["intel-openmp"]);
    assert_eq!(p.platform, Platform::Win64);
    // absent manifest timestamp falls back to the processing time
    assert_eq!(p.metadata.timestamp, Some(77));
}

#[test]
fn test_platform_arch_pair_resolution() {
    let metadata = SimpleIndexJson {
        platform: Some("osx".to_string()),
        arch: Some("arm64".to_string()),
        ..Default::default()
    };
    let platform = CondaPackageHandler::determine_platform_from_metadata(&metadata).unwrap();
    assert_eq!(platform, Platform::OsxArm64);

    let metadata = SimpleIndexJson {
        platform: Some("win".to_string()),
        arch: Some("x86".to_string()),
        ..Default::default()
    };
    let platform = CondaPackageHandler::determine_platform_from_metadata(&metadata).unwrap();
    assert_eq!(platform, Platform::Win32);

    // an unmapped pair falls through to the bare platform hint
    let metadata = SimpleIndexJson {
        platform: Some("linux".to_string()),
        arch: Some("sparc".to_string()),
        ..Default::default()
    };
    let platform = CondaPackageHandler::determine_platform_from_metadata(&metadata).unwrap();
    assert_eq!(platform, Platform::Linux64);
}

#[test]
fn test_repodata_document_shape() {
    let mut handler = CondaPackageHandler::new();
    handler
        .process_package(b"bytes".to_vec(), "numpy-1.21.0-py39_0-linux-64.conda", 1)
        .unwrap();
    let packages = handler.packages_for(Platform::Linux64);
    assert_eq!(packages.len(), 1);
    let (path, doc) = handler.create_repodata(&Platform::Linux64, &packages);
    assert_eq!(path, "linux-64/repodata.json");
    assert!(doc.starts_with("{\"info\":{\"subdir\":\"linux-64\"},\"packages\":{"));
    assert!(doc.contains("\"numpy-1.21.0-py39_0-linux-64.conda\":{"));
    assert!(doc.contains("\"name\":\"numpy\""));
    assert!(doc.contains("\"version\":\"1.21.0\""));
    assert!(doc.contains("\"subdir\":\"linux-64\""));
    assert!(doc.contains("\"timestamp\":1"));
}

#[test]
fn test_clear_cache_empties_the_handler() {
    let mut handler = CondaPackageHandler::new();
    handler
        .process_package(b"x".to_vec(), "a-1.0-h_0-linux-64.conda", 0)
        .unwrap();
    assert_eq!(handler.get_all_packages().len(), 1);
    handler.clear_cache();
    assert!(handler.get_all_packages().is_empty());
    assert!(handler.get_package("a-1.0-h_0-linux-64.conda").is_none());
}
