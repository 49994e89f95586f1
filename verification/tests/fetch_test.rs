use std::collections::HashMap;
use std::io::{Cursor, Write};

use erd::config::{ArtifactConfig, Config, SourceConfig, SourceType};
use erd::error::ErdError;
use erd::fetch::{fetch, fetch_all, fetch_single, Fetch, FetchAction, FetchEvent, GetArtifactAnswer};
use erd::gitlab::{Method, Request};
use erd::logins::{Login, Logins};
use zip::write::SimpleFileOptions;
use zip::{CompressionMethod, ZipWriter};

fn archive_of(entries: &[(&str, &[u8])]) -> Vec<u8> {
    let mut writer = ZipWriter::new(Cursor::new(Vec::new()));
    for (name, data) in entries {
        let options = SimpleFileOptions::default().compression_method(CompressionMethod::Stored);
        writer.start_file(*name, options).unwrap();
        writer.write_all(data).unwrap();
    }
    writer.finish().unwrap().into_inner()
}

fn artifact(id: &str, project: &str, branch: &str, pattern: &str) -> ArtifactConfig {
    ArtifactConfig {
        id: id.to_string(),
        project_id: project.to_string(),
        branch: branch.to_string(),
        artifact_pattern: pattern.to_string(),
    }
}

fn source(id: &str, url: &str, artifacts: Vec<ArtifactConfig>) -> SourceConfig {
    SourceConfig { id: id.to_string(), url: url.to_string(), kind: SourceType::Gitlab, artifacts }
}

fn logins_for(urls: &[(&str, &str)]) -> Logins {
    Logins {
        logins: urls
            .iter()
            .map(|(url, secret)| Login {
                url: url.to_string(),
                username: "user".to_string(),
                password: secret.to_string(),
            })
            .collect(),
    }
}

fn example() -> (Config, Logins) {
    let config = Config {
        sources: vec![source(
            "S",
            "https://git.example.com/",
            vec![artifact("svc", "42", "main", "svc.jar")],
        )],
    };
    (config, logins_for(&[("https://git.example.com/", "token-1")]))
}

/// Stands for the network and the disk: answers each request with the
/// archive kept for its URL, and keeps the stored files in a map.
struct World {
    archives: HashMap<String, Vec<u8>>,
    store: HashMap<String, Vec<u8>>,
    requests: Vec<Request>,
    writes: usize,
}

impl World {
    fn new() -> World {
        World { archives: HashMap::new(), store: HashMap::new(), requests: Vec::new(), writes: 0 }
    }

    fn run(&mut self, fetch: Fetch, first: FetchAction) -> Result<Vec<(String, GetArtifactAnswer)>, ErdError> {
        let mut fetch = fetch;
        let mut action = first;
        loop {
            let event = match action {
                FetchAction::Download(request) => {
                    let body = self.archives.get(&request.url).cloned().unwrap_or_default();
                    self.requests.push(request);
                    FetchEvent::Downloaded(body)
                },
                FetchAction::ReadStored(name) => FetchEvent::Stored(self.store.get(&name).cloned()),
                FetchAction::WriteStored(file) => {
                    self.store.insert(file.file_name, file.data);
                    self.writes += 1;
                    FetchEvent::Written
                },
                FetchAction::Finished => return Ok(fetch.into_answers()),
            };
            assert!(fetch.accepts(&event));
            action = fetch.step(event)?;
        }
    }
}

fn latest_url(project: &str, branch: &str) -> String {
    format!("https://gitlab.com/api/v4/projects/{}/jobs/artifacts/{}/download?job=build", project, branch)
}

fn answer_text(answer: &GetArtifactAnswer) -> String {
    match answer {
        GetArtifactAnswer::NotFound => "NotFound".to_string(),
        GetArtifactAnswer::NewArtifact(name) => format!("New({})", name),
        GetArtifactAnswer::UpToDate(name) => format!("UpToDate({})", name),
    }
}

fn summary(answers: &[(String, GetArtifactAnswer)]) -> Vec<String> {
    answers.iter().map(|(id, a)| format!("{}={}", id, answer_text(a))).collect()
}

#[test]
fn end_to_end_first_new_then_up_to_date() {
    let (config, logins) = example();
    let mut world = World::new();
    world.archives.insert(latest_url("42", "main"), archive_of(&[("build/svc.jar", b"svc bytes")]));

    let (machine, first) = fetch_single(&config, &logins, "svc", None).unwrap();
    let answers = world.run(machine, first).unwrap();
    assert_eq!(summary(&answers), vec!["svc=New(svc.jar)"]);
    assert_eq!(world.store.get("svc.jar").unwrap(), b"svc bytes");
    assert_eq!(world.writes, 1);
    assert_eq!(world.requests.len(), 1);
    assert_eq!(world.requests[0].method, Method::Get);
    assert_eq!(world.requests[0].url, latest_url("42", "main"));
    assert_eq!(world.requests[0].token.as_deref(), Some("token-1"));
    assert!(world.requests[0].query.is_empty());

    let (machine, first) = fetch_single(&config, &logins, "svc", None).unwrap();
    let answers = world.run(machine, first).unwrap();
    assert_eq!(summary(&answers), vec!["svc=UpToDate(svc.jar)"]);
    assert_eq!(world.writes, 1);
}

#[test]
fn a_changed_byte_is_written_again() {
    let (config, logins) = example();
    let mut world = World::new();
    world.archives.insert(latest_url("42", "main"), archive_of(&[("build/svc.jar", b"svc bytes")]));
    let (machine, first) = fetch_single(&config, &logins, "svc", None).unwrap();
    world.run(machine, first).unwrap();
    let (machine, first) = fetch_single(&config, &logins, "svc", None).unwrap();
    assert_eq!(summary(&world.run(machine, first).unwrap()), vec!["svc=UpToDate(svc.jar)"]);

    world.archives.insert(latest_url("42", "main"), archive_of(&[("build/svc.jar", b"svc byteS")]));
    let (machine, first) = fetch_single(&config, &logins, "svc", None).unwrap();
    assert_eq!(summary(&world.run(machine, first).unwrap()), vec!["svc=New(svc.jar)"]);
    assert_eq!(world.store.get("svc.jar").unwrap(), b"svc byteS");
    assert_eq!(world.writes, 2);
}

#[test]
fn the_steps_of_one_retrieval() {
    let (config, logins) = example();
    let (mut machine, first) = fetch_single(&config, &logins, "svc", None).unwrap();
    assert!(matches!(first, FetchAction::Download(_)));
    assert!(!machine.is_finished());
    assert!(!machine.accepts(&FetchEvent::Written));
    assert!(!machine.accepts(&FetchEvent::Stored(None)));
    assert!(machine.accepts(&FetchEvent::Refused("404".to_string())));
    assert!(machine.accepts(&FetchEvent::Unsent(None, "refused".to_string())));

    let body = archive_of(&[("build/svc.jar", b"svc bytes")]);
    match machine.step(FetchEvent::Downloaded(body)).unwrap() {
        FetchAction::ReadStored(name) => assert_eq!(name, "svc.jar"),
        other => panic!("unexpected: {:?}", other),
    }
    assert!(!machine.accepts(&FetchEvent::Written));
    assert!(!machine.accepts(&FetchEvent::Downloaded(Vec::new())));
    assert!(!machine.accepts(&FetchEvent::Refused("404".to_string())));
    assert!(!machine.accepts(&FetchEvent::Unsent(None, "refused".to_string())));

    match machine.step(FetchEvent::Stored(Some(b"older".to_vec()))).unwrap() {
        FetchAction::WriteStored(file) => {
            assert_eq!(file.file_name, "svc.jar");
            assert_eq!(file.data, b"svc bytes");
        },
        other => panic!("unexpected: {:?}", other),
    }
    assert!(!machine.is_finished());
    assert!(matches!(machine.step(FetchEvent::Written).unwrap(), FetchAction::Finished));
    assert!(machine.is_finished());
    assert!(!machine.accepts(&FetchEvent::Written));
    assert!(!machine.accepts(&FetchEvent::Downloaded(Vec::new())));
    assert_eq!(summary(&machine.into_answers()), vec!["svc=New(svc.jar)"]);
}

#[test]
fn an_archive_without_a_match_is_not_found() {
    let (config, logins) = example();
    let mut world = World::new();
    world.archives.insert(latest_url("42", "main"), archive_of(&[("build/other.jar", b"x")]));
    let (machine, first) = fetch_single(&config, &logins, "svc", None).unwrap();
    assert_eq!(summary(&world.run(machine, first).unwrap()), vec!["svc=NotFound"]);
    assert!(world.store.is_empty());
}

#[test]
fn a_broken_archive_ends_the_retrieval() {
    let (config, logins) = example();
    let mut world = World::new();
    world.archives.insert(latest_url("42", "main"), b"no archive".to_vec());
    let (machine, first) = fetch_single(&config, &logins, "svc", None).unwrap();
    match world.run(machine, first) {
        Err(ErdError::IOError(_, desc)) => assert_eq!(desc, "Invalid zip archive"),
        other => panic!("unexpected: {:?}", other.map(|a| summary(&a))),
    }
}

#[test]
fn an_unknown_artifact_fails_before_any_request() {
    let (config, logins) = example();
    match fetch_single(&config, &logins, "nope", None) {
        Err(ErdError::NoSuchArtifact(id)) => assert_eq!(id, "nope"),
        _ => panic!("expected NoSuchArtifact"),
    }
    match fetch(&config, &Logins::new(), Some("nope".to_string()), None) {
        Err(ErdError::NoSuchArtifact(id)) => assert_eq!(id, "nope"),
        _ => panic!("expected NoSuchArtifact"),
    }
}

#[test]
fn a_source_without_a_credential_fails_before_any_request() {
    let (config, _) = example();
    let logins = logins_for(&[("https://elsewhere.example.com/", "t")]);
    match fetch_single(&config, &logins, "svc", None) {
        Err(ErdError::NoLogin { source_url }) => assert_eq!(source_url, "https://git.example.com/"),
        _ => panic!("expected NoLogin"),
    }
}

#[test]
fn a_secret_that_cannot_be_sent_fails() {
    let (config, _) = example();
    let logins = logins_for(&[("https://git.example.com/", "bad\ntoken")]);
    match fetch_single(&config, &logins, "svc", None) {
        Err(ErdError::InvalidToken(token)) => assert_eq!(token, "bad\ntoken"),
        _ => panic!("expected InvalidToken"),
    }
}

#[test]
fn a_named_job_is_downloaded_by_its_id() {
    let (config, logins) = example();
    let (_, first) = fetch_single(&config, &logins, "svc", Some("777".to_string())).unwrap();
    match first {
        FetchAction::Download(request) => {
            assert_eq!(request.url, "https://gitlab.com/api/v4/projects/42/jobs/777/artifacts");
            assert_eq!(request.token.as_deref(), Some("token-1"));
        },
        other => panic!("unexpected: {:?}", other),
    }
}

#[test]
fn the_first_artifact_of_an_id_is_taken() {
    let config = Config {
        sources: vec![
            source("one", "https://one/", vec![artifact("x", "1", "main", "x.jar")]),
            source(
                "two",
                "https://two/",
                vec![artifact("svc", "2", "dev", "a.jar"), artifact("svc", "3", "main", "b.jar")],
            ),
            source("three", "https://three/", vec![artifact("svc", "4", "main", "c.jar")]),
        ],
    };
    let logins = logins_for(&[("https://", "t")]);
    let (_, first) = fetch_single(&config, &logins, "svc", None).unwrap();
    match first {
        FetchAction::Download(request) => assert_eq!(request.url, latest_url("2", "dev")),
        other => panic!("unexpected: {:?}", other),
    }
}

fn three_sources() -> Config {
    Config {
        sources: vec![
            source(
                "one",
                "https://one/",
                vec![artifact("a", "1", "main", "a.jar"), artifact("b", "2", "main", "b.jar")],
            ),
            source("empty", "https://empty/", vec![]),
            source(
                "two",
                "https://two/",
                vec![
                    artifact("c", "3", "main", "c.jar"),
                    artifact("d", "4", "main", "d.jar"),
                    artifact("e", "5", "main", "e.jar"),
                ],
            ),
        ],
    }
}

#[test]
fn fetch_all_gives_the_outcomes_in_configuration_order() {
    let config = three_sources();
    let logins = logins_for(&[("https://one/", "t1"), ("https://two/", "t2")]);
    let mut world = World::new();
    world.archives.insert(latest_url("1", "main"), archive_of(&[("out/a.jar", b"A")]));
    world.archives.insert(latest_url("2", "main"), archive_of(&[("out/zzz", b"B")]));
    world.archives.insert(latest_url("3", "main"), archive_of(&[("out/c.jar", b"C")]));
    world.archives.insert(latest_url("4", "main"), archive_of(&[("d.jar", b"D")]));
    world.archives.insert(latest_url("5", "main"), archive_of(&[]));
    world.store.insert("c.jar".to_string(), b"C".to_vec());
    world.store.insert("d.jar".to_string(), b"old D".to_vec());

    let (machine, first) = fetch_all(&config, &logins).unwrap();
    let answers = world.run(machine, first).unwrap();
    assert_eq!(
        summary(&answers),
        vec!["a=New(a.jar)", "b=NotFound", "c=UpToDate(c.jar)", "d=New(d.jar)", "e=NotFound"]
    );
    let urls: Vec<String> = world.requests.iter().map(|r| r.url.clone()).collect();
    assert_eq!(
        urls,
        vec![
            latest_url("1", "main"),
            latest_url("2", "main"),
            latest_url("3", "main"),
            latest_url("4", "main"),
            latest_url("5", "main")
        ]
    );
    let tokens: Vec<&str> = world.requests.iter().map(|r| r.token.as_deref().unwrap()).collect();
    assert_eq!(tokens, vec!["t1", "t1", "t2", "t2", "t2"]);
    assert_eq!(world.store.get("d.jar").unwrap(), b"D");
    assert_eq!(world.writes, 2);
}

#[test]
fn fetch_all_without_artifacts_finishes_at_once() {
    let config = Config { sources: vec![source("empty", "https://empty/", vec![])] };
    let logins = Logins::new();
    let (machine, first) = fetch_all(&config, &logins).unwrap();
    assert!(matches!(first, FetchAction::Finished));
    assert!(machine.is_finished());
    assert!(machine.into_answers().is_empty());
    let config = Config { sources: vec![] };
    let (machine, first) = fetch(&config, &logins, None, Some("ignored".to_string())).unwrap();
    assert!(matches!(first, FetchAction::Finished));
    assert!(machine.into_answers().is_empty());
}

#[test]
fn fetch_all_stops_at_the_first_failure() {
    let config = three_sources();
    let logins = logins_for(&[("https://one/", "t1")]);
    let mut world = World::new();
    world.archives.insert(latest_url("1", "main"), archive_of(&[("out/a.jar", b"A")]));
    world.archives.insert(latest_url("2", "main"), archive_of(&[("out/b.jar", b"B")]));
    let (machine, first) = fetch_all(&config, &logins).unwrap();
    match world.run(machine, first) {
        Err(ErdError::NoLogin { source_url }) => assert_eq!(source_url, "https://two/"),
        other => panic!("unexpected: {:?}", other.map(|a| summary(&a))),
    }
    assert_eq!(world.requests.len(), 2);
    assert_eq!(world.store.len(), 2);
}

#[test]
fn fetch_all_fails_at_once_without_the_first_credential() {
    let config = three_sources();
    match fetch_all(&config, &Logins::new()) {
        Err(ErdError::NoLogin { source_url }) => assert_eq!(source_url, "https://one/"),
        _ => panic!("expected NoLogin"),
    }
}

#[test]
fn fetch_all_takes_the_latest_of_each_branch() {
    let config = three_sources();
    let logins = logins_for(&[("https://", "t")]);
    let (_, first) = fetch(&config, &logins, None, Some("777".to_string())).unwrap();
    match first {
        FetchAction::Download(request) => assert_eq!(request.url, latest_url("1", "main")),
        other => panic!("unexpected: {:?}", other),
    }
}

#[test]
fn a_download_with_an_error_status_is_a_request_error() {
    let (config, logins) = example();
    let (mut machine, first) = fetch_single(&config, &logins, "svc", None).unwrap();
    assert!(matches!(first, FetchAction::Download(_)));
    let event = FetchEvent::Refused("HTTP status client error (404 Not Found)".to_string());
    match machine.step(event) {
        Err(ErdError::SourceRequestError { source, url, desc }) => {
            assert_eq!(source, SourceType::Gitlab);
            assert_eq!(url, latest_url("42", "main"));
            assert_eq!(
                desc,
                "Received Error while getting artifact from Gitlab: HTTP status client error (404 Not Found)"
            );
        },
        other => panic!("unexpected: {:?}", other),
    }
    assert!(!machine.is_finished());
    assert!(!machine.accepts(&FetchEvent::Downloaded(Vec::new())));
    assert!(machine.into_answers().is_empty());
}

#[test]
fn a_download_of_a_named_job_with_an_error_status_is_a_request_error() {
    let (config, logins) = example();
    let (mut machine, _) = fetch_single(&config, &logins, "svc", Some("7".to_string())).unwrap();
    match machine.step(FetchEvent::Refused("410 Gone".to_string())) {
        Err(ErdError::SourceRequestError { url, desc, .. }) => {
            assert_eq!(url, "https://gitlab.com/api/v4/projects/42/jobs/7/artifacts");
            assert_eq!(desc, "Received Error while getting artifact from Gitlab: 410 Gone");
        },
        other => panic!("unexpected: {:?}", other),
    }
}

#[test]
fn a_download_that_cannot_be_sent_is_a_request_error() {
    let (config, logins) = example();
    let (mut machine, _) = fetch_single(&config, &logins, "svc", None).unwrap();
    match machine.step(FetchEvent::Unsent(None, "dns error".to_string())) {
        Err(ErdError::SourceRequestError { url, desc, .. }) => {
            assert_eq!(url, "UNKNOWN");
            assert_eq!(desc, "Failed to get artifact from Gitlab: dns error");
        },
        other => panic!("unexpected: {:?}", other),
    }
    let (mut machine, _) = fetch_single(&config, &logins, "svc", Some("7".to_string())).unwrap();
    let event = FetchEvent::Unsent(Some("https://gitlab.com/x".to_string()), "timed out".to_string());
    match machine.step(event) {
        Err(ErdError::SourceRequestError { url, desc, .. }) => {
            assert_eq!(url, "https://gitlab.com/x");
            assert_eq!(desc, "Failed to get artifact Gitlab: timed out");
        },
        other => panic!("unexpected: {:?}", other),
    }
}

#[test]
fn fetch_all_stops_at_a_refused_download() {
    let config = three_sources();
    let logins = logins_for(&[("https://", "t")]);
    let (mut machine, _) = fetch_all(&config, &logins).unwrap();
    let next = machine.step(FetchEvent::Downloaded(archive_of(&[("x", b"1")]))).unwrap();
    match next {
        FetchAction::Download(request) => assert_eq!(request.url, latest_url("2", "main")),
        other => panic!("unexpected: {:?}", other),
    }
    match machine.step(FetchEvent::Refused("500".to_string())) {
        Err(ErdError::SourceRequestError { url, .. }) => assert_eq!(url, latest_url("2", "main")),
        other => panic!("unexpected: {:?}", other),
    }
    assert_eq!(summary(&machine.into_answers()), vec!["a=NotFound"]);
}
