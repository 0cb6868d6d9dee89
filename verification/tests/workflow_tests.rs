use meso_forge_mirror::conda_package::CondaPackageHandler;
use meso_forge_mirror::config::Config;

#[test]
fn test_platform_detection() {
    let test_cases = vec![
        ("package-1.0-build-linux-64.conda", "linux"),
        ("python-3.9-h123-osx-arm64.tar.bz2", "osx"),
        ("numpy-1.21-py39-win-64.conda", "win"),
        ("pure-python-1.0-noarch.conda", "noarch"),
    ];

    for (filename, expected_platform_prefix) in test_cases {
        let platform_part = CondaPackageHandler::extract_platform_from_filename(filename);
        assert!(platform_part.is_some());
        assert!(platform_part.unwrap().starts_with(expected_platform_prefix));
    }
}

#[test]
fn test_config_defaults() {
    let config = Config::default();
    assert_eq!(config.max_concurrent_downloads, 5);
    assert_eq!(config.retry_attempts, 3);
    assert_eq!(config.timeout_seconds, 300);
}

#[test]
fn test_config_default() {
    let config = Config::default();
    assert_eq!(config.max_concurrent_downloads, 5);
    assert_eq!(config.retry_attempts, 3);
    assert_eq!(config.timeout_seconds, 300);
}

#[test]
fn test_package_validation() {
    let _handler = CondaPackageHandler::new();

    let invalid_files = vec!["not-a-conda-package.txt", "invalid-format", ""];

    for invalid_file in invalid_files {
        let is_conda = CondaPackageHandler::is_conda_package(invalid_file);
        assert!(
            !is_conda,
            "File {} should not be recognized as conda package",
            invalid_file
        );
    }

    let valid_files = vec![
        "package-1.0.0-build-linux-64.conda",
        "another-package-2.1-py39-osx-64.tar.bz2",
    ];

    for valid_file in valid_files {
        let is_conda = CondaPackageHandler::is_conda_package(valid_file);
        assert!(
            is_conda,
            "File {} should be recognized as conda package",
            valid_file
        );
    }
}

fn package_matches_search(package_filename: &str, search_term: &str) -> bool {
    let package_name = package_filename
        .strip_suffix(".conda")
        .or_else(|| package_filename.strip_suffix(".tar.bz2"))
        .unwrap_or(package_filename);

    if let Some(version_start) = find_version_start(package_name) {
        let name_part = package_name[..version_start].trim_end_matches('-');
        name_part == search_term
    } else {
        package_name.starts_with(search_term)
    }
}

fn find_version_start(package_name: &str) -> Option<usize> {
    let parts: Vec<&str> = package_name.split('-').collect();
    if parts.len() < 2 {
        return None;
    }

    for (i, part) in parts.iter().enumerate().skip(1) {
        if part.chars().next().is_some_and(|c| c.is_ascii_digit()) {
            let prefix_parts = &parts[..i];
            let prefix_len = prefix_parts.join("-").len();
            return Some(if prefix_len > 0 { prefix_len + 1 } else { 0 });
        }
    }

    None
}

#[test]
fn test_find_version_start() {
    assert_eq!(find_version_start("numpy-1.21.0-py311h123_0"), Some(6));
    assert_eq!(
        find_version_start("rb-asciidoctor-revealjs-5.2.0-h123_0"),
        Some(24)
    );
    assert_eq!(find_version_start("python-3.11.0-h123_0"), Some(7));
    assert_eq!(find_version_start("single-package"), None);
}

#[test]
fn test_package_name_extraction() {
    let test_cases = vec![
        ("numpy-1.21.0-py311h123_0.conda", "numpy"),
        (
            "rb-asciidoctor-revealjs-5.2.0-h123_0.conda",
            "rb-asciidoctor-revealjs",
        ),
        ("python-3.11.0-h123_0.tar.bz2", "python"),
        ("scipy-1.7.0-py311h123_0", "scipy"),
    ];

    for (package_filename, expected_name) in test_cases {
        let matches = package_matches_search(package_filename, expected_name);
        assert!(
            matches,
            "Package '{}' should match name '{}'",
            package_filename, expected_name
        );
    }
}

#[test]
fn test_identify_user_issue_root_cause() {
    let correct_package_name = "rb-asciidoctor-revealjs-5.2.0-h1d6dcf3_0.conda";

    let user_search_term = "rb-asciidocgtor-revealjs";
    let correct_search_term = "rb-asciidoctor-revealjs";

    assert!(
        !correct_package_name.starts_with(user_search_term),
        "Package with correct spelling should not match search with typo"
    );

    assert!(
        correct_package_name.starts_with(correct_search_term),
        "Package should match search with correct spelling"
    );
}

#[test]
fn test_package_name_typo_detection() {
    let correct_name = "rb-asciidoctor-revealjs-5.2.0-h1d6dcf3_0.conda";
    let search_with_typo = "rb-asciidocgtor-revealjs";
    let search_correct = "rb-asciidoctor-revealjs";

    assert!(
        !correct_name.starts_with(search_with_typo),
        "Package with correct name should not match search with typo"
    );
    assert!(
        correct_name.starts_with(search_correct),
        "Package with correct name should match correct search term"
    );
}

#[test]
fn test_parse_u64_matches_std() {
    // the verified number parser mirrors str::parse::<u64>
    for input in ["0", "+7", "123456", "18446744073709551615"] {
        assert_eq!(
            meso_forge_mirror::strutil::parse_u64_str(input),
            input.parse::<u64>().ok(),
            "mismatch on {}",
            input
        );
    }
    for input in ["", "+", "-1", "12a", "18446744073709551616", " 3"] {
        assert_eq!(
            meso_forge_mirror::strutil::parse_u64_str(input),
            input.parse::<u64>().ok(),
            "mismatch on {}",
            input
        );
    }
}

#[test]
fn test_u64_rendering_matches_std() {
    for n in [0u64, 7, 10, 1024, u64::MAX] {
        assert_eq!(meso_forge_mirror::strutil::u64_to_string(n), n.to_string());
    }
}
