use erd::commands::{get_history, rebuild_artifact, scan_source, show_history};
use erd::config::{ArtifactConfig, SourceConfig, SourceType};
use erd::error::ErdError;
use erd::gitlab::{
    deserialize_failed, get_artifact_gitlab, get_artifact_version_gitlab, get_history_gitlab,
    get_latest_artifact_gitlab, get_token_value, pipeline_jobs_gitlab, pipeline_report,
    pipeline_started, rebuild_artifact_gitlab, request_failed, scan_gitlab, send_failed,
    show_history_long, show_history_short, show_projects, status_failed, unexpected_response,
    JobArtifact, JobCommit, JobHistory, JobPipeline, Method, ProjectData, Request, TOKEN_HEADER,
};
use erd::logins::Login;
use erd::output::{FormatOutput, Level, OutputOptions};

fn artifact() -> ArtifactConfig {
    ArtifactConfig {
        id: "svc".to_string(),
        project_id: "42".to_string(),
        branch: "main".to_string(),
        artifact_pattern: "svc.jar".to_string(),
    }
}

fn query(request: &Request) -> Vec<(&str, &str)> {
    request.query.iter().map(|(k, v)| (k.as_str(), v.as_str())).collect()
}

fn job(id: usize, name: &str, status: &str, types: &[&str]) -> JobHistory {
    JobHistory {
        id,
        status: status.to_string(),
        stage: "build".to_string(),
        created_at: "2024-01-02T03:04:05Z".to_string(),
        name: name.to_string(),
        job_ref: "main".to_string(),
        commit: JobCommit {
            id: "0123456789abcdef".to_string(),
            short_id: "01234567".to_string(),
            created_at: "2024-01-01T00:00:00Z".to_string(),
            author_email: "dev@example.com".to_string(),
            title: "Fix it".to_string(),
        },
        pipeline: pipeline(),
        artifacts: types.iter().map(|t| JobArtifact { file_type: t.to_string() }).collect(),
        web_url: format!("https://gitlab.com/p/-/jobs/{}", id),
    }
}

fn pipeline() -> JobPipeline {
    JobPipeline {
        id: 9001,
        status: "created".to_string(),
        job_ref: "v1.2".to_string(),
        web_url: "https://gitlab.com/p/-/pipelines/9001".to_string(),
    }
}

#[test]
fn the_header_is_the_private_token() {
    assert_eq!(TOKEN_HEADER, "private-token");
}

#[test]
fn a_token_of_visible_characters_is_accepted() {
    assert_eq!(get_token_value("glpat-abc_DEF-123").unwrap(), "glpat-abc_DEF-123");
    assert_eq!(get_token_value("").unwrap(), "");
    assert_eq!(get_token_value("with space\tand tab").unwrap(), "with space\tand tab");
    assert_eq!(get_token_value("accént").unwrap(), "accént");
}

#[test]
fn a_token_with_a_control_character_is_refused() {
    for bad in ["line\nbreak", "\u{7f}", "nul\0", "cr\r", "\u{1b}[0m"] {
        match get_token_value(bad) {
            Err(ErdError::InvalidToken(token)) => assert_eq!(token, bad),
            other => panic!("unexpected: {:?}", other),
        }
    }
}

#[test]
fn latest_artifact_request() {
    let request = get_latest_artifact_gitlab(&artifact(), "tok").unwrap();
    assert_eq!(request.method, Method::Get);
    assert_eq!(
        request.url,
        "https://gitlab.com/api/v4/projects/42/jobs/artifacts/main/download?job=build"
    );
    assert!(request.query.is_empty());
    assert_eq!(request.token.as_deref(), Some("tok"));
}

#[test]
fn artifact_version_request() {
    let request = get_artifact_version_gitlab(&artifact(), "tok", "1234").unwrap();
    assert_eq!(request.method, Method::Get);
    assert_eq!(request.url, "https://gitlab.com/api/v4/projects/42/jobs/1234/artifacts");
    assert!(request.query.is_empty());
    assert_eq!(request.token.as_deref(), Some("tok"));
}

#[test]
fn artifact_request_goes_by_the_build_id() {
    let latest = get_artifact_gitlab(&artifact(), "tok", &None).unwrap();
    assert_eq!(
        latest.url,
        "https://gitlab.com/api/v4/projects/42/jobs/artifacts/main/download?job=build"
    );
    let version = get_artifact_gitlab(&artifact(), "tok", &Some("55".to_string())).unwrap();
    assert_eq!(version.url, "https://gitlab.com/api/v4/projects/42/jobs/55/artifacts");
}

#[test]
fn requests_refuse_a_bad_token() {
    assert!(matches!(get_latest_artifact_gitlab(&artifact(), "a\nb"), Err(ErdError::InvalidToken(_))));
    assert!(matches!(
        get_artifact_version_gitlab(&artifact(), "a\nb", "1"),
        Err(ErdError::InvalidToken(_))
    ));
    assert!(matches!(get_history_gitlab(&artifact(), "a\nb"), Err(ErdError::InvalidToken(_))));
    assert!(matches!(
        rebuild_artifact_gitlab(&artifact(), "a\nb", "v1"),
        Err(ErdError::InvalidToken(_))
    ));
    assert!(matches!(
        pipeline_jobs_gitlab(&artifact(), &pipeline(), "a\nb"),
        Err(ErdError::InvalidToken(_))
    ));
    assert!(matches!(scan_gitlab(None, Some("a\nb")), Err(ErdError::InvalidToken(_))));
}

#[test]
fn history_request() {
    let request = get_history_gitlab(&artifact(), "tok").unwrap();
    assert_eq!(request.method, Method::Get);
    assert_eq!(request.url, "https://gitlab.com/api/v4/projects/42/jobs");
    assert_eq!(
        query(&request),
        vec![("order_by", "updated_at"), ("ref", "main"), ("name", "build"), ("per_page", "6")]
    );
    assert_eq!(request.token.as_deref(), Some("tok"));
    let login = Login { url: "u".to_string(), username: "n".to_string(), password: "pw".to_string() };
    let request = get_history(&artifact(), &SourceType::Gitlab, &login).unwrap();
    assert_eq!(request.url, "https://gitlab.com/api/v4/projects/42/jobs");
    assert_eq!(request.token.as_deref(), Some("pw"));
}

#[test]
fn scan_request() {
    let request = scan_gitlab(Some("team".to_string()), Some("tok")).unwrap();
    assert_eq!(request.method, Method::Get);
    assert_eq!(request.url, "https://gitlab.com/api/v4/projects");
    assert_eq!(
        query(&request),
        vec![
            ("membership", "true"),
            ("order_by", "last_activity_at"),
            ("per_page", "30"),
            ("search", "team"),
            ("search_namespaces", "true")
        ]
    );
    assert_eq!(request.token.as_deref(), Some("tok"));
    let request = scan_gitlab(None, None).unwrap();
    assert_eq!(query(&request)[3], ("search", ""));
    assert!(request.token.is_none());
    let source = SourceConfig {
        id: "s".to_string(),
        url: "https://gitlab.com/".to_string(),
        kind: SourceType::Gitlab,
        artifacts: vec![],
    };
    let login = Login { url: "u".to_string(), username: "n".to_string(), password: "pw".to_string() };
    let request = scan_source(&source, Some("x".to_string()), &login).unwrap();
    assert_eq!(query(&request)[3], ("search", "x"));
    assert_eq!(request.token.as_deref(), Some("pw"));
}

#[test]
fn rebuild_requests() {
    let request = rebuild_artifact_gitlab(&artifact(), "tok", "v1.2").unwrap();
    assert_eq!(request.method, Method::Post);
    assert_eq!(request.url, "https://gitlab.com/api/v4/projects/42/pipeline");
    assert_eq!(query(&request), vec![("ref", "v1.2")]);
    assert_eq!(request.token.as_deref(), Some("tok"));
    let request =
        rebuild_artifact(&artifact(), &SourceType::Gitlab, "tok", "v1.2".to_string()).unwrap();
    assert_eq!(request.method, Method::Post);
    assert_eq!(query(&request), vec![("ref", "v1.2")]);

    let request = pipeline_jobs_gitlab(&artifact(), &pipeline(), "tok").unwrap();
    assert_eq!(request.method, Method::Get);
    assert_eq!(request.url, "https://gitlab.com/api/v4/projects/42/pipelines/9001/jobs");
    assert!(request.query.is_empty());
    assert_eq!(request.token.as_deref(), Some("tok"));
}

#[test]
fn request_failures_are_worded() {
    match request_failed(Some("https://x/".to_string()), "timed out", "Failed to get project list") {
        ErdError::SourceRequestError { source, url, desc } => {
            assert_eq!(source, SourceType::Gitlab);
            assert_eq!(url, "https://x/");
            assert_eq!(desc, "Failed to get project list: timed out");
        },
        other => panic!("unexpected: {:?}", other),
    }
    match request_failed(None, "refused", "Failed to get artifact from Gitlab") {
        ErdError::SourceRequestError { url, desc, .. } => {
            assert_eq!(url, "UNKNOWN");
            assert_eq!(desc, "Failed to get artifact from Gitlab: refused");
        },
        other => panic!("unexpected: {:?}", other),
    }
    match unexpected_response(None, "broken body") {
        ErdError::SourceRequestError { url, desc, .. } => {
            assert_eq!(url, "UNKNOWN");
            assert_eq!(desc, "Unexpected response from Gitlab: broken body");
        },
        other => panic!("unexpected: {:?}", other),
    }
    match unexpected_response(Some("https://y/".to_string()), "e") {
        ErdError::SourceRequestError { url, .. } => assert_eq!(url, "https://y/"),
        other => panic!("unexpected: {:?}", other),
    }
    match deserialize_failed("https://z/", "expected value at line 1") {
        ErdError::SourceRequestError { url, desc, .. } => {
            assert_eq!(url, "https://z/");
            assert_eq!(desc, "Failed to deserialize response from Gitlab: expected value at line 1");
        },
        other => panic!("unexpected: {:?}", other),
    }
}

#[test]
fn the_main_artifact_is_the_first_archive() {
    assert!(job(1, "build", "success", &[]).get_main_artifact().is_none());
    assert!(job(1, "build", "success", &["trace", "metadata"]).get_main_artifact().is_none());
    let with = job(1, "build", "success", &["trace", "archive", "archive"]);
    assert_eq!(with.get_main_artifact().unwrap().file_type, "archive");
}

#[test]
fn a_job_is_projected_for_rendering() {
    let options = OutputOptions { color: false, short: true };
    let output = job(314, "build", "success", &["archive"]).format_output(&options);
    assert_eq!(output.id, "314");
    assert_eq!(output.job_ref, "main");
    assert_eq!(output.timestamp, "2024-01-02T03:04:05Z");
    assert_eq!(output.status, "success");
    assert!(output.has_artifacts);
    assert_eq!(output.web_url, "https://gitlab.com/p/-/jobs/314");
    assert_eq!(output.commit_short_id, "01234567");
    assert_eq!(output.commit_title, "Fix it");
    assert_eq!(output.commit_author, "dev@example.com");
    assert_eq!(output.options, options);
    assert!(!job(1, "build", "failed", &["trace"]).to_output(&options).has_artifacts);
}

#[test]
fn the_short_history_keeps_only_the_build_jobs() {
    let jobs = vec![
        job(3, "build", "success", &["archive"]),
        job(2, "test", "success", &["archive"]),
        job(1, "build", "failed", &[]),
    ];
    let lines = show_history_short(&artifact(), "build", &jobs);
    assert_eq!(
        lines,
        vec![
            "Showing build jobs for svc on branch main".to_string(),
            "Id - When - Commit (Author) - Status".to_string(),
            "3 - 2024-01-02T03:04:05Z - (\u{1b}[0m\u{1b}[33m01234567\u{1b}[0m) \u{1b}[0m\u{1b}[32msuccess\u{1b}[0m".to_string(),
            "1 - 2024-01-02T03:04:05Z - (\u{1b}[0m\u{1b}[33m01234567\u{1b}[0m) \u{1b}[0m\u{1b}[31mfailed (no artifacts)\u{1b}[0m".to_string(),
        ]
    );
    assert_eq!(show_history(&artifact(), &jobs, true), lines);
}

#[test]
fn the_long_history_keeps_every_job() {
    let jobs = vec![job(3, "build", "success", &["archive"]), job(2, "test", "running", &[])];
    let lines = show_history_long(&artifact(), "build", &jobs);
    assert_eq!(lines.len(), 3);
    assert_eq!(lines[0], "Showing build jobs for svc on branch main");
    assert_eq!(
        lines[1],
        "\u{1b}[0m\u{1b}[33m01234567\u{1b}[0m (\u{1b}[0m\u{1b}[33mmain\u{1b}[0m) - Fix it\n\
         \tBuild id: 3\n\
         \tTimestamp: 2024-01-02T03:04:05Z\n\
         \u{1b}[0m\u{1b}[32m\tStatus: success\n\
         \u{1b}[0m\tURL: https://gitlab.com/p/-/jobs/3\n\
         \tAuthor: dev@example.com\n"
    );
    assert!(lines[2].contains("\tBuild id: 2\n"));
    assert!(lines[2].contains("\u{1b}[0m\u{1b}[33m\tStatus: running (no artifacts)\n"));
    assert_eq!(show_history(&artifact(), &jobs, false), lines);
}

#[test]
fn a_history_without_jobs_has_only_its_heading() {
    assert_eq!(
        show_history_long(&artifact(), "build", &vec![]),
        vec!["Showing build jobs for svc on branch main".to_string()]
    );
    assert_eq!(show_history_short(&artifact(), "build", &vec![]).len(), 2);
}

#[test]
fn projects_are_shown_in_a_table() {
    let projects = vec![
        ProjectData {
            id: 7,
            path_with_namespace: "team/app".to_string(),
            default_branch: Some("main".to_string()),
            web_url: "https://gitlab.com/team/app".to_string(),
        },
        ProjectData {
            id: 1234,
            path_with_namespace: "team/library".to_string(),
            default_branch: None,
            web_url: "https://gitlab.com/team/library".to_string(),
        },
    ];
    assert_eq!(
        show_projects(projects),
        "\u{1b}[0m\u{1b}[32mPath\u{1b}[0m (ID) - URL\n\
         \u{1b}[0m\u{1b}[32mteam/app    \u{1b}[0m (7) - https://gitlab.com/team/app\n\
         \u{1b}[0m\u{1b}[32mteam/library\u{1b}[0m (1234) - https://gitlab.com/team/library\n"
    );
    assert_eq!(show_projects(vec![]), "\u{1b}[0m\u{1b}[32mPath\u{1b}[0m (ID) - URL\n");
}

#[test]
fn a_started_pipeline_is_reported() {
    let line = pipeline_started(&pipeline(), "v1.2");
    assert_eq!(line.level, Level::Info);
    assert_eq!(line.text, "Started pipeline 9001 to rebuild v1.2");
}

#[test]
fn the_jobs_of_a_pipeline_are_reported() {
    let jobs = vec![job(11, "build", "created", &[]), job(12, "test", "created", &[])];
    let report: Vec<(Level, String)> =
        pipeline_report(&pipeline(), &jobs).into_iter().map(|l| (l.level, l.text)).collect();
    assert_eq!(
        report,
        vec![
            (Level::Info, "> 01234567 (v1.2) - Fix it".to_string()),
            (Level::Info, "> Started job build (11) - https://gitlab.com/p/-/jobs/11".to_string()),
            (Level::Info, "> Started job test (12) - https://gitlab.com/p/-/jobs/12".to_string()),
            (Level::Info, "> v1.2".to_string()),
            (Level::Info, "> New pipeline 9001 - https://gitlab.com/p/-/pipelines/9001".to_string()),
            (
                Level::Info,
                "Check the job history to see when the pipeline is complete and its job id".to_string()
            ),
        ]
    );
}

#[test]
fn a_pipeline_without_jobs_is_warned_of() {
    let report: Vec<(Level, String)> =
        pipeline_report(&pipeline(), &vec![]).into_iter().map(|l| (l.level, l.text)).collect();
    assert_eq!(report.len(), 4);
    assert_eq!(report[0], (Level::Warn, "No jobs appear to have been started".to_string()));
    assert_eq!(report[1], (Level::Info, "> v1.2".to_string()));
}

#[test]
fn requests_carry_the_words_for_their_failure() {
    let latest = get_latest_artifact_gitlab(&artifact(), "tok").unwrap();
    assert_eq!(latest.failure, "Failed to get artifact from Gitlab");
    assert_eq!(latest.status_failure, "Received Error while getting artifact from Gitlab");
    let version = get_artifact_version_gitlab(&artifact(), "tok", "1").unwrap();
    assert_eq!(version.failure, "Failed to get artifact Gitlab");
    assert_eq!(version.status_failure, "Received Error while getting artifact from Gitlab");
    let history = get_history_gitlab(&artifact(), "tok").unwrap();
    assert_eq!(history.failure, "Failed to get artifact from Gitlab");
    assert_eq!(history.status_failure, "Received Error while getting job history");
    let scan = scan_gitlab(None, Some("tok")).unwrap();
    assert_eq!(scan.failure, "Failed to get project list");
    assert_eq!(scan.status_failure, "Received Error while getting project list");
    let rebuild = rebuild_artifact_gitlab(&artifact(), "tok", "v1.2").unwrap();
    assert_eq!(rebuild.failure, "Failed to retry job v1.2 on Gitlab");
    assert_eq!(rebuild.status_failure, "Received Error while retrying job v1.2 on Gitlab");
    let jobs = pipeline_jobs_gitlab(&artifact(), &pipeline(), "tok").unwrap();
    assert_eq!(jobs.failure, "Failed to list jobs for created pipeline");
    assert_eq!(jobs.status_failure, "Received Error while listing jobs for created pipeline");
}

#[test]
fn a_refused_request_fails_for_the_url_that_was_asked_for() {
    let request = get_latest_artifact_gitlab(&artifact(), "tok").unwrap();
    match status_failed(&request, "HTTP status client error (404 Not Found)") {
        ErdError::SourceRequestError { source, url, desc } => {
            assert_eq!(source, SourceType::Gitlab);
            assert_eq!(
                url,
                "https://gitlab.com/api/v4/projects/42/jobs/artifacts/main/download?job=build"
            );
            assert_eq!(
                desc,
                "Received Error while getting artifact from Gitlab: HTTP status client error (404 Not Found)"
            );
        },
        other => panic!("unexpected: {:?}", other),
    }
}

#[test]
fn an_unsent_request_fails_for_the_url_that_the_cause_names() {
    let request = get_history_gitlab(&artifact(), "tok").unwrap();
    match send_failed(&request, None, "connection refused") {
        ErdError::SourceRequestError { url, desc, .. } => {
            assert_eq!(url, "UNKNOWN");
            assert_eq!(desc, "Failed to get artifact from Gitlab: connection refused");
        },
        other => panic!("unexpected: {:?}", other),
    }
    match send_failed(&request, Some("https://gitlab.com/x".to_string()), "timed out") {
        ErdError::SourceRequestError { url, .. } => assert_eq!(url, "https://gitlab.com/x"),
        other => panic!("unexpected: {:?}", other),
    }
}
