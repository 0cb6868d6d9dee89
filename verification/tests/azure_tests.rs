use meso_forge_mirror::azure::{
    filter_artifacts_by_name, filter_artifacts_by_type, filter_builds_by_description,
    parse_azure_devops_url, parse_azure_source, parse_build_id, ArtifactProperties,
    ArtifactResource, AzureDevOpsArtifact, AzureDevOpsBuild, BuildDefinition, Project,
};
use meso_forge_mirror::config::Config;

fn build(id: u64, number: &str, definition: &str, branch: &str, version: &str) -> AzureDevOpsBuild {
    AzureDevOpsBuild {
        id,
        build_number: Some(number.to_string()),
        status: "completed".to_string(),
        result: Some("succeeded".to_string()),
        queue_time: Some("2024-10-23T10:00:00Z".to_string()),
        start_time: Some("2024-10-23T10:05:00Z".to_string()),
        finish_time: Some("2024-10-23T10:30:00Z".to_string()),
        url: Some("https://dev.azure.com/conda-forge/feedstock-builds".to_string()),
        definition: BuildDefinition {
            id,
            name: definition.to_string(),
            url: "https://dev.azure.com/conda-forge/feedstock-builds/_definition?definitionId=1"
                .to_string(),
        },
        project: Project {
            id: "project-id".to_string(),
            name: "feedstock-builds".to_string(),
            url: "https://dev.azure.com/conda-forge/feedstock-builds".to_string(),
        },
        source_branch: Some(branch.to_string()),
        source_version: Some(version.to_string()),
    }
}

fn artifact(id: u64, name: &str, source: &str, kind: &str, size: &str, url_id: u64) -> AzureDevOpsArtifact {
    AzureDevOpsArtifact {
        id,
        name: name.to_string(),
        source: source.to_string(),
        resource: ArtifactResource {
            artifact_type: kind.to_string(),
            data: format!("data{}", url_id),
            properties: Some(ArtifactProperties {
                root_id: Some(format!("root{}", url_id)),
                artifactsize: Some(size.to_string()),
                hash_type: Some("SHA256".to_string()),
                domain_id: Some(format!("domain{}", url_id)),
            }),
            url: format!("https://example.com/artifact{}", url_id),
            download_url: Some(format!("https://example.com/download{}", url_id)),
        },
    }
}

#[test]
fn azure_test_parse_azure_devops_url() {
    let (org, proj) = parse_azure_devops_url("conda-forge/feedstock-builds").unwrap();
    assert_eq!(org, "conda-forge");
    assert_eq!(proj, "feedstock-builds");

    let (org, proj) =
        parse_azure_devops_url("https://dev.azure.com/conda-forge/feedstock-builds").unwrap();
    assert_eq!(org, "conda-forge");
    assert_eq!(proj, "feedstock-builds");

    let (org, proj) =
        parse_azure_devops_url("https://dev.azure.com/conda-forge/feedstock-builds/").unwrap();
    assert_eq!(org, "conda-forge");
    assert_eq!(proj, "feedstock-builds");

    assert!(parse_azure_devops_url("invalid").is_err());
    assert!(parse_azure_devops_url("").is_err());
}

#[test]
fn azure_test_parse_build_id() {
    assert_eq!(parse_build_id("123456").unwrap(), 123456);
    assert!(parse_build_id("invalid").is_err());
    assert!(parse_build_id("").is_err());
}

#[test]
fn azure_test_parse_azure_source() {
    let (org, proj, build_id) = parse_azure_source("conda-forge/feedstock-builds").unwrap();
    assert_eq!(org, "conda-forge");
    assert_eq!(proj, "feedstock-builds");
    assert_eq!(build_id, None);

    let (org, proj, build_id) = parse_azure_source("conda-forge/feedstock-builds#123456").unwrap();
    assert_eq!(org, "conda-forge");
    assert_eq!(proj, "feedstock-builds");
    assert_eq!(build_id, Some(123456));

    let (org, proj, build_id) =
        parse_azure_source("https://dev.azure.com/conda-forge/feedstock-builds#123456").unwrap();
    assert_eq!(org, "conda-forge");
    assert_eq!(proj, "feedstock-builds");
    assert_eq!(build_id, Some(123456));
}

#[test]
fn azure_tests_test_parse_azure_devops_url() {
    let (org, proj) = parse_azure_devops_url("conda-forge/feedstock-builds").unwrap();
    assert_eq!(org, "conda-forge");
    assert_eq!(proj, "feedstock-builds");

    let (org, proj) =
        parse_azure_devops_url("https://dev.azure.com/conda-forge/feedstock-builds").unwrap();
    assert_eq!(org, "conda-forge");
    assert_eq!(proj, "feedstock-builds");

    let (org, proj) =
        parse_azure_devops_url("https://dev.azure.com/conda-forge/feedstock-builds/").unwrap();
    assert_eq!(org, "conda-forge");
    assert_eq!(proj, "feedstock-builds");

    assert!(parse_azure_devops_url("invalid").is_err());
    assert!(parse_azure_devops_url("").is_err());
    assert!(parse_azure_devops_url("/").is_err());
}

#[test]
fn azure_tests_test_parse_build_id() {
    assert_eq!(parse_build_id("123456").unwrap(), 123456);
    assert_eq!(parse_build_id("1374331").unwrap(), 1374331);
    assert!(parse_build_id("invalid").is_err());
    assert!(parse_build_id("").is_err());
    assert!(parse_build_id("-1").is_err());
}

#[test]
fn azure_tests_test_parse_azure_source() {
    let (org, proj, build_id) = parse_azure_source("conda-forge/feedstock-builds").unwrap();
    assert_eq!(org, "conda-forge");
    assert_eq!(proj, "feedstock-builds");
    assert_eq!(build_id, None);

    let (org, proj, build_id) = parse_azure_source("conda-forge/feedstock-builds#1374331").unwrap();
    assert_eq!(org, "conda-forge");
    assert_eq!(proj, "feedstock-builds");
    assert_eq!(build_id, Some(1374331));

    let (org, proj, build_id) =
        parse_azure_source("https://dev.azure.com/conda-forge/feedstock-builds").unwrap();
    assert_eq!(org, "conda-forge");
    assert_eq!(proj, "feedstock-builds");
    assert_eq!(build_id, None);

    let (org, proj, build_id) =
        parse_azure_source("https://dev.azure.com/conda-forge/feedstock-builds#1374331").unwrap();
    assert_eq!(org, "conda-forge");
    assert_eq!(proj, "feedstock-builds");
    assert_eq!(build_id, Some(1374331));

    assert!(parse_azure_source("invalid").is_err());
    assert!(parse_azure_source("").is_err());
    assert!(parse_azure_source("/#123").is_err());
    assert!(parse_azure_source("org/proj#invalid").is_err());
}

#[test]
fn test_cli_help_includes_azure_options() {
    let expected_src_types = [
        "zip", "zip-url", "local", "url", "tgz", "tgz-url", "github", "azure",
    ];

    for src_type in expected_src_types {
        match src_type {
            "zip" | "zip-url" | "local" | "url" | "tgz" | "tgz-url" | "github" | "azure" => {}
            _ => panic!("Unexpected source type: {}", src_type),
        }
    }
}

#[test]
fn test_config_with_azure_token() {
    let config = Config {
        azure_devops_token: Some("test_pat_token".to_string()),
        ..Default::default()
    };
    assert_eq!(config.azure_devops_token.as_deref(), Some("test_pat_token"));
}

#[test]
fn test_build_id_in_source_format() {
    let source = "conda-forge/feedstock-builds#1374331";
    let parts: Vec<&str> = source.split('#').collect();
    assert_eq!(parts.len(), 2);
    assert_eq!(parts[0], "conda-forge/feedstock-builds");
    assert_eq!(parts[1], "1374331");

    let build_id = parse_build_id(parts[1]).unwrap();
    assert_eq!(build_id, 1374331);
}

#[test]
fn test_conda_forge_scenarios() {
    let (org, proj, build_id) = parse_azure_source("conda-forge/feedstock-builds#1374331").unwrap();
    assert_eq!(org, "conda-forge");
    assert_eq!(proj, "feedstock-builds");
    assert_eq!(build_id, Some(1374331));

    let (org, proj, build_id) = parse_azure_source("conda-forge/feedstock-builds").unwrap();
    assert_eq!(org, "conda-forge");
    assert_eq!(proj, "feedstock-builds");
    assert_eq!(build_id, None);

    let (org, proj, build_id) =
        parse_azure_source("https://dev.azure.com/conda-forge/feedstock-builds#1374331").unwrap();
    assert_eq!(org, "conda-forge");
    assert_eq!(proj, "feedstock-builds");
    assert_eq!(build_id, Some(1374331));
}

#[test]
fn test_edge_cases() {
    assert!(parse_azure_source("org/proj#").is_err());

    assert!(parse_azure_source("org/proj#abc123").is_err());

    let (_, _, build_id) = parse_azure_source("org/proj#999999999999").unwrap();
    assert_eq!(build_id, Some(999999999999));

    let (_, _, build_id) = parse_azure_source("org/proj#0").unwrap();
    assert_eq!(build_id, Some(0));
}

#[test]
fn test_empty_artifact_filtering() {
    let empty_artifacts = vec![];

    let filtered_by_name = filter_artifacts_by_name(&empty_artifacts, Some("test.*"));
    assert_eq!(filtered_by_name.len(), 0);

    let filtered_by_type = filter_artifacts_by_type(&empty_artifacts, Some("Container"));
    assert_eq!(filtered_by_type.len(), 0);
}

#[test]
fn test_url_parsing_edge_cases() {
    let (org, proj) =
        parse_azure_devops_url("https://dev.azure.com/conda-forge/feedstock-builds/").unwrap();
    assert_eq!(org, "conda-forge");
    assert_eq!(proj, "feedstock-builds");

    let (org, proj) =
        parse_azure_devops_url("https://dev.azure.com/conda-forge/feedstock-builds/extra/path")
            .unwrap();
    assert_eq!(org, "conda-forge");
    assert_eq!(proj, "feedstock-builds");

    let (org, proj) = parse_azure_devops_url("CONDA-FORGE/FEEDSTOCK-BUILDS").unwrap();
    assert_eq!(org, "CONDA-FORGE");
    assert_eq!(proj, "FEEDSTOCK-BUILDS");
}

#[test]
fn test_filter_builds_by_description() {
    let builds = vec![
        build(1374331, "PR.31205.1", "numpy-feedstock CI", "refs/pull/31205/merge", "abc123def456"),
        build(1374330, "PR.31204.1", "pandas-feedstock CI", "refs/heads/main", "def456ghi789"),
        build(1374329, "main.1", "scipy-feedstock CI", "refs/heads/main", "ghi789jkl012"),
    ];

    let filtered = filter_builds_by_description(&builds, "numpy-feedstock CI").unwrap();
    assert_eq!(filtered.len(), 1);
    assert_eq!(filtered[0].id, 1374331);

    let filtered = filter_builds_by_description(&builds, ".*-feedstock.*").unwrap();
    assert_eq!(filtered.len(), 3);

    let filtered = filter_builds_by_description(&builds, "^pandas.*").unwrap();
    assert_eq!(filtered.len(), 1);
    assert_eq!(filtered[0].definition.name, "pandas-feedstock CI");

    let filtered = filter_builds_by_description(&builds, "nonexistent").unwrap();
    assert_eq!(filtered.len(), 0);

    let result = filter_builds_by_description(&builds, "[invalid");
    assert!(result.is_err());
}

#[test]
fn test_independent_filtering_scenarios() {
    let artifacts = vec![
        artifact(585295, "conda_pkgs_win", "source1", "PipelineArtifact", "77520", 1),
        artifact(585296, "logs_and_metadata", "source2", "PipelineArtifact", "1024", 2),
    ];

    let filtered_artifacts = filter_artifacts_by_name(&artifacts, Some("conda.*"));
    assert_eq!(filtered_artifacts.len(), 1);
    assert_eq!(filtered_artifacts[0].name, "conda_pkgs_win");

    let builds = vec![
        build(1001, "1.0", "numpy-feedstock CI", "refs/heads/main", "abc123"),
        build(1002, "2.0", "release-automation", "refs/heads/release", "def456"),
    ];

    let filtered_builds = filter_builds_by_description(&builds, ".*feedstock.*").unwrap();
    assert_eq!(filtered_builds.len(), 1);
    assert_eq!(filtered_builds[0].definition.name, "numpy-feedstock CI");

    let conda_artifacts = filter_artifacts_by_name(&artifacts, Some("conda.*"));
    let automation_builds = filter_builds_by_description(&builds, ".*automation.*").unwrap();

    assert_eq!(conda_artifacts.len(), 1);
    assert_eq!(automation_builds.len(), 1);
    assert_eq!(automation_builds[0].definition.name, "release-automation");
}

#[test]
fn test_filter_artifacts_by_type_case_insensitive() {
    let artifacts = vec![
        artifact(1, "conda-packages-linux", "build", "Container", "1000000", 1),
        artifact(2, "test-results", "build", "FilePath", "500000", 2),
    ];
    let containers = filter_artifacts_by_type(&artifacts, Some("container"));
    assert_eq!(containers.len(), 1);
    assert_eq!(containers[0].name, "conda-packages-linux");
    let all = filter_artifacts_by_type(&artifacts, None);
    assert_eq!(all.len(), 2);
}

#[test]
fn test_most_recent_successful_build() {
    let mut failed = build(2000, "3.0", "broken CI", "refs/heads/main", "fff");
    failed.result = Some("failed".to_string());
    let builds = vec![
        build(1001, "1.0", "numpy-feedstock CI", "refs/heads/main", "abc"),
        failed,
        build(1002, "2.0", "scipy-feedstock CI", "refs/heads/main", "def"),
    ];
    let best = meso_forge_mirror::azure::most_recent_successful_build(&builds).unwrap();
    assert_eq!(best.id, 1002);
    let none = meso_forge_mirror::azure::most_recent_successful_build(&Vec::new());
    assert!(none.is_none());
}
