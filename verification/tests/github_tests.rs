use meso_forge_mirror::config::Config;
use meso_forge_mirror::github::{
    filter_artifacts_by_name, filter_non_expired_artifacts, most_recent_artifact,
    parse_artifact_id, parse_github_repository, GitHubArtifact,
};

fn artifact(id: u64, name: &str, expired: bool, created_at: &str) -> GitHubArtifact {
    GitHubArtifact {
        id,
        name: name.to_string(),
        size_in_bytes: 1000,
        url: format!("https://api.github.com/repos/test/test/actions/artifacts/{}", id),
        archive_download_url: format!(
            "https://api.github.com/repos/test/test/actions/artifacts/{}/zip",
            id
        ),
        expired,
        created_at: created_at.to_string(),
        updated_at: created_at.to_string(),
        expires_at: "2024-12-31T23:59:59Z".to_string(),
        workflow_run: None,
    }
}

#[test]
fn github_test_parse_github_repository() {
    let (owner, repo) = parse_github_repository("octocat/Hello-World").unwrap();
    assert_eq!(owner, "octocat");
    assert_eq!(repo, "Hello-World");

    let (owner, repo) = parse_github_repository("https://github.com/octocat/Hello-World").unwrap();
    assert_eq!(owner, "octocat");
    assert_eq!(repo, "Hello-World");

    let (owner, repo) =
        parse_github_repository("https://github.com/octocat/Hello-World/").unwrap();
    assert_eq!(owner, "octocat");
    assert_eq!(repo, "Hello-World");

    assert!(parse_github_repository("invalid").is_err());
    assert!(parse_github_repository("").is_err());
}

#[test]
fn github_test_parse_artifact_id() {
    assert_eq!(parse_artifact_id("123456").unwrap(), 123456);
    assert!(parse_artifact_id("invalid").is_err());
}

#[test]
fn github_tests_test_parse_github_repository() {
    let (owner, repo) = parse_github_repository("octocat/Hello-World").unwrap();
    assert_eq!(owner, "octocat");
    assert_eq!(repo, "Hello-World");

    let (owner, repo) = parse_github_repository("https://github.com/octocat/Hello-World").unwrap();
    assert_eq!(owner, "octocat");
    assert_eq!(repo, "Hello-World");

    let (owner, repo) =
        parse_github_repository("https://github.com/octocat/Hello-World/").unwrap();
    assert_eq!(owner, "octocat");
    assert_eq!(repo, "Hello-World");

    assert!(parse_github_repository("invalid").is_err());
    assert!(parse_github_repository("").is_err());
    assert!(parse_github_repository("/").is_err());
}

#[test]
fn github_tests_test_parse_artifact_id() {
    assert_eq!(parse_artifact_id("123456").unwrap(), 123456);
    assert!(parse_artifact_id("invalid").is_err());
    assert!(parse_artifact_id("").is_err());
}

#[test]
fn test_cli_help_includes_new_options() {
    let expected_src_types = ["zip", "zip-url", "local", "url", "tgz", "tgz-url", "github"];

    for src_type in expected_src_types {
        match src_type {
            "zip" | "zip-url" | "local" | "url" | "tgz" | "tgz-url" | "github" => {}
            _ => panic!("Unexpected source type: {}", src_type),
        }
    }
}

#[test]
fn test_config_with_github_token() {
    let config = Config {
        github_token: Some("ghp_test_token".to_string()),
        ..Default::default()
    };
    assert_eq!(config.github_token.as_deref(), Some("ghp_test_token"));
}

#[test]
fn test_artifact_id_in_source_format() {
    let source = "owner/repo#123456";
    let parts: Vec<&str> = source.split('#').collect();
    assert_eq!(parts.len(), 2);
    assert_eq!(parts[0], "owner/repo");
    assert_eq!(parts[1], "123456");
    let artifact_id = parse_artifact_id(parts[1]).unwrap();
    assert_eq!(artifact_id, 123456);
}

#[test]
fn test_filter_artifacts_by_name_and_expiry() {
    let artifacts = vec![
        artifact(1000, "conda-package-linux", false, "2024-01-01T00:00:00Z"),
        artifact(2000, "conda-package-windows", true, "2024-01-01T23:59:59Z"),
        artifact(500, "test-results", false, "2024-01-02T00:00:00Z"),
    ];

    let filtered = filter_artifacts_by_name(&artifacts, Some("conda-package.*"));
    assert_eq!(filtered.len(), 2);
    assert!(filtered.iter().all(|a| a.name.starts_with("conda-package")));

    let non_expired = filter_non_expired_artifacts(&artifacts);
    assert_eq!(non_expired.len(), 2);
    assert!(non_expired.iter().all(|a| !a.expired));

    // an invalid pattern keeps everything, as the original logged and kept
    let kept = filter_artifacts_by_name(&artifacts, Some("[invalid"));
    assert_eq!(kept.len(), 3);

    let all = filter_artifacts_by_name(&artifacts, None);
    assert_eq!(all.len(), 3);
}

#[test]
fn test_most_recent_artifact_by_created_at() {
    let artifacts = vec![
        artifact(1, "older", false, "2024-01-01T00:00:00Z"),
        artifact(2, "newest", false, "2024-03-01T00:00:00Z"),
        artifact(3, "middle", false, "2024-02-01T00:00:00Z"),
    ];
    let best = most_recent_artifact(&artifacts).unwrap();
    assert_eq!(best.name, "newest");
    assert!(most_recent_artifact(&Vec::new()).is_none());
}
