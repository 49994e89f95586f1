//! The GitLab side of retrieval: which requests to send, what the responses
//! hold, and how failures are reported.

use vstd::prelude::*;
use vstd::string::StringExecFns;
use vstd::utf8::encode_utf8;
use crate::config::{ArtifactConfig, ArtifactSpec, SourceType};
use crate::error::{ErdError, Failure};
use crate::output::{
    job_text, rows_view, scan_text, FormatOutput, JobHistoryOutput, JobLine, Level, LogLine,
    OutputOptions, ProjectRow, ScanProjectsOutput, ScannedProject,
};
use crate::text::{decimal, decimal_string, str_eq};

verus! {

/// The request methods in use.
#[derive(Debug, Clone, Copy, PartialEq, Eq, Structural)]
pub enum Method {
    Get,
    Post,
}

/// What a `Request` holds, as plain values.
pub struct RequestSpec {
    pub method: Method,
    pub url: Seq<char>,
    pub query: Seq<(Seq<char>, Seq<char>)>,
    pub token: Option<Seq<char>>,
    pub failure: Seq<char>,
    pub status_failure: Seq<char>,
}

/// A request to send: the method, the URL, the query parameters in order,
/// and the secret to send in the `private-token` header, if any. With it go
/// the words for what was being done, should the request fail to be sent,
/// and the words for a response whose status is an error: every response is
/// held to its status.
#[derive(Debug)]
pub struct Request {
    pub method: Method,
    pub url: String,
    pub query: Vec<(String, String)>,
    pub token: Option<String>,
    pub failure: String,
    pub status_failure: String,
}

impl View for Request {
    type V = RequestSpec;

    open spec fn view(&self) -> RequestSpec {
        RequestSpec {
            method: self.method,
            url: self.url@,
            query: self.query@.map_values(|p: (String, String)| (p.0@, p.1@)),
            token: match self.token {
                Some(t) => Some(t@),
                None => None,
            },
            failure: self.failure@,
            status_failure: self.status_failure@,
        }
    }
}

/// The name of the header that carries the secret.
pub const TOKEN_HEADER: &'static str = "private-token";

/// Whether a byte may stand in the value of a request header.
pub open spec fn header_byte_ok(b: u8) -> bool {
    b >= 32 && b != 127 || b == 9
}

/// Whether `token` can be sent as the value of a request header: each byte
/// of its UTF-8 encoding may stand there.
pub open spec fn token_ok(token: Seq<char>) -> bool {
    forall|i: int|
        0 <= i < encode_utf8(token).len() ==> header_byte_ok(#[trigger] encode_utf8(token)[i])
}

/// `HeaderValue::from_str`: whether `token` is accepted as a header value,
/// which it is when none of its bytes is a control character other than a
/// tab.
#[verifier::external_body]
fn is_header_value(token: &str) -> (ok: bool)
    ensures
        ok == token_ok(token@),
{
    reqwest::header::HeaderValue::from_str(token).is_ok()
}

/// The header value for `token`. Fails with `InvalidToken` where the token
/// cannot be sent as one.
pub fn get_token_value(token: &str) -> (r: Result<String, ErdError>)
    ensures
        match r {
            Ok(value) => token_ok(token@) && value@ == token@,
            Err(e) => !token_ok(token@) && e@ == Failure::InvalidToken(token@),
        },
{
    if is_header_value(token) {
        Ok(String::from_str(token))
    } else {
        Err(ErdError::InvalidToken(String::from_str(token)))
    }
}

/// The plain values of a request that may have been refused.
pub open spec fn request_view(r: Result<Request, ErdError>) -> Result<RequestSpec, Failure> {
    match r {
        Ok(request) => Ok(request@),
        Err(e) => Err(e@),
    }
}

/// `request` where `token` can be sent, else the failure to send it.
pub open spec fn with_token(request: RequestSpec, token: Seq<char>) -> Result<
    RequestSpec,
    Failure,
> {
    if token_ok(token) {
        Ok(RequestSpec { token: Some(token), ..request })
    } else {
        Err(Failure::InvalidToken(token))
    }
}

/// The download of the latest archive that the `build` job left on the
/// artifact's branch.
pub open spec fn latest_artifact_request(artifact: ArtifactSpec) -> RequestSpec {
    RequestSpec {
        method: Method::Get,
        url: "https://gitlab.com/api/v4/projects/"@ + artifact.project_id + "/jobs/artifacts/"@
            + artifact.branch + "/download?job=build"@,
        query: seq![],
        token: None,
        failure: "Failed to get artifact from Gitlab"@,
        status_failure: "Received Error while getting artifact from Gitlab"@,
    }
}

/// The download of the archive that job `build_id` left.
pub open spec fn artifact_version_request(
    artifact: ArtifactSpec,
    build_id: Seq<char>,
) -> RequestSpec {
    RequestSpec {
        method: Method::Get,
        url: "https://gitlab.com/api/v4/projects/"@ + artifact.project_id + "/jobs/"@ + build_id
            + "/artifacts"@,
        query: seq![],
        token: None,
        failure: "Failed to get artifact Gitlab"@,
        status_failure: "Received Error while getting artifact from Gitlab"@,
    }
}

/// The download for an artifact: of job `build_id` where one is given, else
/// the latest of the artifact's branch.
pub open spec fn artifact_request(artifact: ArtifactSpec, build_id: Option<Seq<char>>) -> RequestSpec {
    match build_id {
        Some(id) => artifact_version_request(artifact, id),
        None => latest_artifact_request(artifact),
    }
}

fn pair(key: &str, value: &str) -> (r: (String, String))
    ensures
        r.0@ == key@,
        r.1@ == value@,
{
    (String::from_str(key), String::from_str(value))
}

fn project_url(project_id: &str) -> (r: String)
    ensures
        r@ == "https://gitlab.com/api/v4/projects/"@ + project_id@,
{
    let mut url = String::from_str("https://gitlab.com/api/v4/projects/");
    url.append(project_id);
    url
}

/// The request for the latest archive of the artifact's branch.
pub fn get_latest_artifact_gitlab(artifact: &ArtifactConfig, token: &str) -> (r: Result<
    Request,
    ErdError,
>)
    ensures
        request_view(r) == with_token(latest_artifact_request(artifact@), token@),
{
    let mut url = project_url(artifact.project_id.as_str());
    url.append("/jobs/artifacts/");
    url.append(artifact.branch.as_str());
    url.append("/download?job=build");
    match get_token_value(token) {
        Ok(value) => {
            let request = Request {
                method: Method::Get,
                url,
                query: Vec::new(),
                token: Some(value),
                failure: String::from_str("Failed to get artifact from Gitlab"),
                status_failure: String::from_str("Received Error while getting artifact from Gitlab"),
            };
            assert(request@.query =~= seq![]);
            Ok(request)
        },
        Err(e) => Err(e),
    }
}

/// The request for the archive of job `build_id`.
pub fn get_artifact_version_gitlab(artifact: &ArtifactConfig, token: &str, build_id: &str) -> (r:
    Result<Request, ErdError>)
    ensures
        request_view(r) == with_token(artifact_version_request(artifact@, build_id@), token@),
{
    let mut url = project_url(artifact.project_id.as_str());
    url.append("/jobs/");
    url.append(build_id);
    url.append("/artifacts");
    match get_token_value(token) {
        Ok(value) => {
            let request = Request {
                method: Method::Get,
                url,
                query: Vec::new(),
                token: Some(value),
                failure: String::from_str("Failed to get artifact Gitlab"),
                status_failure: String::from_str("Received Error while getting artifact from Gitlab"),
            };
            assert(request@.query =~= seq![]);
            Ok(request)
        },
        Err(e) => Err(e),
    }
}

/// The text of an optional string.
pub open spec fn option_text(s: Option<String>) -> Option<Seq<char>> {
    match s {
        Some(t) => Some(t@),
        None => None,
    }
}

/// The request that downloads the archive for `artifact`: that of job
/// `build_id` where one is given, else the latest of the artifact's branch.
pub fn get_artifact_gitlab(artifact: &ArtifactConfig, token: &str, build_id: &Option<String>) -> (r:
    Result<Request, ErdError>)
    ensures
        request_view(r) == with_token(
            artifact_request(artifact@, option_text(*build_id)),
            token@,
        ),
{
    match build_id {
        Some(b_id) => get_artifact_version_gitlab(artifact, token, b_id.as_str()),
        None => get_latest_artifact_gitlab(artifact, token),
    }
}

/// A project, as the platform describes it.
#[derive(Debug)]
pub struct ProjectData {
    pub id: usize,
    pub path_with_namespace: String,
    pub default_branch: Option<String>,
    pub web_url: String,
}

/// The commit that a job ran on.
#[derive(Debug)]
pub struct JobCommit {
    pub id: String,
    pub short_id: String,
    pub created_at: String,
    pub author_email: String,
    pub title: String,
}

/// The pipeline that a job belongs to.
#[derive(Debug)]
pub struct JobPipeline {
    pub id: usize,
    pub status: String,
    pub job_ref: String,
    pub web_url: String,
}

/// Something that a job left behind.
#[derive(Debug)]
pub struct JobArtifact {
    pub file_type: String,
}

/// A job, as the platform describes it.
#[derive(Debug)]
pub struct JobHistory {
    pub id: usize,
    pub status: String,
    pub stage: String,
    pub created_at: String,
    pub name: String,
    pub job_ref: String,
    pub commit: JobCommit,
    pub pipeline: JobPipeline,
    pub artifacts: Vec<JobArtifact>,
    pub web_url: String,
}

/// Whether one of `artifacts` is a job's main archive.
pub open spec fn has_main_artifact(artifacts: Seq<JobArtifact>) -> bool {
    exists|i: int| 0 <= i < artifacts.len() && (#[trigger] artifacts[i]).file_type@ == "archive"@
}

/// A job as it is rendered under `options`.
pub open spec fn job_line(job: JobHistory, options: OutputOptions) -> JobLine {
    JobLine {
        id: decimal(job.id as nat),
        job_ref: job.job_ref@,
        timestamp: job.created_at@,
        status: job.status@,
        has_artifacts: has_main_artifact(job.artifacts@),
        web_url: job.web_url@,
        commit_short_id: job.commit.short_id@,
        commit_title: job.commit.title@,
        commit_author: job.commit.author_email@,
        options,
    }
}

impl JobHistory {
    /// The first of the job's artifacts that is its main archive.
    pub fn get_main_artifact(&self) -> (r: Option<&JobArtifact>)
        ensures
            r is Some == has_main_artifact(self.artifacts@),
            r matches Some(found) ==> exists|i: int|
                {
                    &&& 0 <= i < self.artifacts@.len()
                    &&& self.artifacts@[i] == *found
                    &&& found.file_type@ == "archive"@
                    &&& forall|j: int|
                        0 <= j < i ==> (#[trigger] self.artifacts@[j]).file_type@ != "archive"@
                },
    {
        let mut k: usize = 0;
        while k < self.artifacts.len()
            invariant
                k <= self.artifacts.len(),
                forall|j: int|
                    0 <= j < k ==> (#[trigger] self.artifacts@[j]).file_type@ != "archive"@,
            decreases self.artifacts.len() - k,
        {
            if str_eq(self.artifacts[k].file_type.as_str(), "archive") {
                return Some(&self.artifacts[k]);
            }
            k += 1;
        }
        None
    }

    /// The job, ready to be rendered under `options`.
    pub fn to_output(&self, options: &OutputOptions) -> (r: JobHistoryOutput)
        ensures
            r@ == job_line(*self, *options),
    {
        let has_artifacts = self.get_main_artifact().is_some();
        JobHistoryOutput {
            id: decimal_string(self.id),
            job_ref: self.job_ref.clone(),
            timestamp: self.created_at.clone(),
            status: self.status.clone(),
            has_artifacts,
            web_url: self.web_url.clone(),
            commit_short_id: self.commit.short_id.clone(),
            commit_title: self.commit.title.clone(),
            commit_author: self.commit.author_email.clone(),
            options: *options,
        }
    }
}

impl FormatOutput<JobHistoryOutput> for JobHistory {
    fn format_output(self, options: &OutputOptions) -> (r: JobHistoryOutput)
        ensures
            r@ == job_line(self, *options),
    {
        self.to_output(options)
    }
}

/// A project as a scan shows it.
pub open spec fn project_row_of(project: ProjectData) -> ProjectRow {
    ProjectRow {
        path: project.path_with_namespace@,
        id: decimal(project.id as nat),
        url: project.web_url@,
    }
}

/// The projects as a scan shows them, in order.
pub open spec fn project_rows_of(projects: Seq<ProjectData>) -> Seq<ProjectRow> {
    projects.map_values(|p: ProjectData| project_row_of(p))
}

impl FormatOutput<ScanProjectsOutput> for Vec<ProjectData> {
    fn format_output(self, options: &OutputOptions) -> (r: ScanProjectsOutput)
        ensures
            rows_view(r.projects@) == project_rows_of(self@),
            r.options == *options,
    {
        let mut projects: Vec<ScannedProject> = Vec::new();
        let mut k: usize = 0;
        while k < self.len()
            invariant
                k <= self.len(),
                projects@.len() == k,
                forall|i: int| 0 <= i < k ==> (#[trigger] projects@[i])@ == project_row_of(self@[i]),
            decreases self.len() - k,
        {
            let p = &self[k];
            projects.push(
                ScannedProject {
                    path: p.path_with_namespace.clone(),
                    id: decimal_string(p.id),
                    url: p.web_url.clone(),
                },
            );
            k += 1;
        }
        assert(rows_view(projects@) =~= project_rows_of(self@));
        ScanProjectsOutput { projects, options: *options }
    }
}

/// The failure of a request to GitLab: the URL that was asked for, or
/// `UNKNOWN`, and what went wrong.
pub open spec fn request_error(url: Option<Seq<char>>, desc: Seq<char>) -> Failure {
    Failure::SourceRequestError {
        source: SourceType::Gitlab,
        url: match url {
            Some(u) => u,
            None => "UNKNOWN"@,
        },
        desc,
    }
}

fn known_url(url: Option<String>) -> (r: String)
    ensures
        r@ == match url {
            Some(u) => u@,
            None => "UNKNOWN"@,
        },
{
    match url {
        Some(u) => u,
        None => String::from_str("UNKNOWN"),
    }
}

/// The failure of a request that could not be sent or came back with an
/// error status: `what` was being done, `error` is the cause in words, and
/// `url` is the URL that the cause names, if it names one.
pub fn request_failed(url: Option<String>, error: &str, what: &str) -> (e: ErdError)
    ensures
        e@ == request_error(option_text(url), what@ + ": "@ + error@),
{
    let mut desc = String::from_str(what);
    desc.append(": ");
    desc.append(error);
    ErdError::SourceRequestError { source: SourceType::Gitlab, url: known_url(url), desc }
}

/// The failure of `request` where it could not be sent: `error` is the cause
/// in words, and `url` is the URL that the cause names, if it names one.
pub fn send_failed(request: &Request, url: Option<String>, error: &str) -> (e: ErdError)
    ensures
        e@ == request_error(option_text(url), request@.failure + ": "@ + error@),
{
    request_failed(url, error, request.failure.as_str())
}

/// The failure of `request` where the response came with a status that is an
/// error: a request error for the URL that was asked for, with `error`, the
/// status in words.
pub fn status_failed(request: &Request, error: &str) -> (e: ErdError)
    ensures
        e@ == request_error(Some(request@.url), request@.status_failure + ": "@ + error@),
{
    request_failed(Some(request.url.clone()), error, request.status_failure.as_str())
}

/// The failure of a response whose body could not be read.
pub fn unexpected_response(url: Option<String>, error: &str) -> (e: ErdError)
    ensures
        e@ == request_error(option_text(url), "Unexpected response from Gitlab: "@ + error@),
{
    let mut desc = String::from_str("Unexpected response from Gitlab: ");
    desc.append(error);
    ErdError::SourceRequestError { source: SourceType::Gitlab, url: known_url(url), desc }
}

/// The failure of a response from `url` whose body is not what was asked
/// for.
pub fn deserialize_failed(url: &str, error: &str) -> (e: ErdError)
    ensures
        e@ == request_error(
            Some(url@),
            "Failed to deserialize response from Gitlab: "@ + error@,
        ),
{
    let mut desc = String::from_str("Failed to deserialize response from Gitlab: ");
    desc.append(error);
    ErdError::SourceRequestError {
        source: SourceType::Gitlab,
        url: String::from_str(url),
        desc,
    }
}

/// The listing of the projects that the credential is a member of, by last
/// activity, at most 30, narrowed to those whose name or namespace holds
/// `query`.
pub open spec fn scan_request(query: Option<Seq<char>>) -> RequestSpec {
    RequestSpec {
        method: Method::Get,
        url: "https://gitlab.com/api/v4/projects"@,
        query: seq![
            ("membership"@, "true"@),
            ("order_by"@, "last_activity_at"@),
            ("per_page"@, "30"@),
            (
                "search"@,
                match query {
                    Some(q) => q,
                    None => ""@,
                },
            ),
            ("search_namespaces"@, "true"@),
        ],
        token: None,
        failure: "Failed to get project list"@,
        status_failure: "Received Error while getting project list"@,
    }
}

/// The request that lists projects, with the secret where one is given.
pub fn scan_gitlab(query: Option<String>, token: Option<&str>) -> (r: Result<Request, ErdError>)
    ensures
        request_view(r) == match token {
            Some(t) => with_token(scan_request(option_text(query)), t@),
            None => Ok(scan_request(option_text(query))),
        },
{
    let value = match token {
        Some(t) => match get_token_value(t) {
            Ok(v) => Some(v),
            Err(e) => {
                return Err(e);
            },
        },
        None => None,
    };
    let search = match &query {
        Some(q) => q.as_str(),
        None => "",
    };
    let mut params: Vec<(String, String)> = Vec::new();
    params.push(pair("membership", "true"));
    params.push(pair("order_by", "last_activity_at"));
    params.push(pair("per_page", "30"));
    params.push(pair("search", search));
    params.push(pair("search_namespaces", "true"));
    let request = Request {
        method: Method::Get,
        url: String::from_str("https://gitlab.com/api/v4/projects"),
        query: params,
        token: value,
        failure: String::from_str("Failed to get project list"),
        status_failure: String::from_str("Received Error while getting project list"),
    };
    assert(request@.query =~= scan_request(option_text(query)).query);
    Ok(request)
}

/// The text that shows the projects a scan found, in colour.
pub fn show_projects(projects: Vec<ProjectData>) -> (r: String)
    ensures
        r@ == scan_text(project_rows_of(projects@), true),
{
    let options = OutputOptions { color: true, short: false };
    let output = projects.format_output(&options);
    output.render()
}

/// The listing of the jobs called `build` that ran on the artifact's branch,
/// latest update first, at most 6.
pub open spec fn history_request(artifact: ArtifactSpec) -> RequestSpec {
    RequestSpec {
        method: Method::Get,
        url: "https://gitlab.com/api/v4/projects/"@ + artifact.project_id + "/jobs"@,
        query: seq![
            ("order_by"@, "updated_at"@),
            ("ref"@, artifact.branch),
            ("name"@, "build"@),
            ("per_page"@, "6"@),
        ],
        token: None,
        failure: "Failed to get artifact from Gitlab"@,
        status_failure: "Received Error while getting job history"@,
    }
}

/// The request that lists the jobs of the artifact.
pub fn get_history_gitlab(artifact: &ArtifactConfig, token: &str) -> (r: Result<Request, ErdError>)
    ensures
        request_view(r) == with_token(history_request(artifact@), token@),
{
    let value = match get_token_value(token) {
        Ok(v) => v,
        Err(e) => {
            return Err(e);
        },
    };
    let mut url = project_url(artifact.project_id.as_str());
    url.append("/jobs");
    let mut params: Vec<(String, String)> = Vec::new();
    params.push(pair("order_by", "updated_at"));
    params.push(pair("ref", artifact.branch.as_str()));
    params.push(pair("name", "build"));
    params.push(pair("per_page", "6"));
    let request = Request {
        method: Method::Get,
        url,
        query: params,
        token: Some(value),
        failure: String::from_str("Failed to get artifact from Gitlab"),
        status_failure: String::from_str("Received Error while getting job history"),
    };
    assert(request@.query =~= history_request(artifact@).query);
    Ok(request)
}

/// The options under which a job's history is shown in full.
pub open spec fn long_options() -> OutputOptions {
    OutputOptions { color: true, short: false }
}

/// The options under which a job's history is shown in short.
pub open spec fn short_options() -> OutputOptions {
    OutputOptions { color: true, short: true }
}

/// The line that heads a history.
pub open spec fn history_heading(job_name: Seq<char>, artifact: ArtifactSpec) -> Seq<char> {
    "Showing "@ + job_name + " jobs for "@ + artifact.id + " on branch "@ + artifact.branch
}

/// Every job of `jobs`, rendered in full.
pub open spec fn long_rows(jobs: Seq<JobHistory>) -> Seq<Seq<char>> {
    jobs.map_values(|j: JobHistory| job_text(job_line(j, long_options())))
}

/// The jobs of `jobs` that are called `job_name`, each rendered on one line.
pub open spec fn short_rows(jobs: Seq<JobHistory>, job_name: Seq<char>) -> Seq<Seq<char>>
    decreases jobs.len(),
{
    if jobs.len() == 0 {
        seq![]
    } else if jobs.last().name@ == job_name {
        short_rows(jobs.drop_last(), job_name).push(
            job_text(job_line(jobs.last(), short_options())),
        )
    } else {
        short_rows(jobs.drop_last(), job_name)
    }
}

/// The text of `lines`.
pub open spec fn lines_view(lines: Seq<String>) -> Seq<Seq<char>> {
    lines.map_values(|l: String| l@)
}

fn heading(artifact: &ArtifactConfig, job_name: &str) -> (r: String)
    ensures
        r@ == history_heading(job_name@, artifact@),
{
    let mut line = String::from_str("Showing ");
    line.append(job_name);
    line.append(" jobs for ");
    line.append(artifact.id.as_str());
    line.append(" on branch ");
    line.append(artifact.branch.as_str());
    line
}

/// The history of an artifact in full: a heading, then every job.
pub fn show_history_long(artifact: &ArtifactConfig, job_name: &str, job_history: &Vec<JobHistory>) -> (r:
    Vec<String>)
    ensures
        lines_view(r@) == seq![history_heading(job_name@, artifact@)] + long_rows(job_history@),
{
    let options = OutputOptions { color: true, short: false };
    let mut lines: Vec<String> = Vec::new();
    lines.push(heading(artifact, job_name));
    let mut k: usize = 0;
    while k < job_history.len()
        invariant
            k <= job_history.len(),
            options == long_options(),
            lines@.len() == k + 1,
            lines@[0]@ == history_heading(job_name@, artifact@),
            forall|i: int|
                1 <= i <= k ==> (#[trigger] lines@[i])@ == long_rows(job_history@)[i - 1],
        decreases job_history.len() - k,
    {
        let job_long = job_history[k].to_output(&options);
        lines.push(job_long.render());
        k += 1;
    }
    assert forall|i: int| 0 <= i < lines@.len() implies lines_view(lines@)[i] == (seq![
        history_heading(job_name@, artifact@),
    ] + long_rows(job_history@))[i] by {
        if i >= 1 {
            assert(lines@[i]@ == long_rows(job_history@)[i - 1]);
        }
    }
    assert(lines_view(lines@) =~= seq![history_heading(job_name@, artifact@)] + long_rows(
        job_history@,
    ));
    lines
}

/// The history of an artifact in short: a heading, the names of the
/// columns, then the jobs that are called `job_name`, one to a line.
pub fn show_history_short(artifact: &ArtifactConfig, job_name: &str, job_history: &Vec<JobHistory>) -> (r:
    Vec<String>)
    ensures
        lines_view(r@) == seq![
            history_heading(job_name@, artifact@),
            "Id - When - Commit (Author) - Status"@,
        ] + short_rows(job_history@, job_name@),
{
    let options = OutputOptions { color: true, short: true };
    let mut lines: Vec<String> = Vec::new();
    lines.push(heading(artifact, job_name));
    lines.push(String::from_str("Id - When - Commit (Author) - Status"));
    let ghost head = lines_view(lines@);
    let mut k: usize = 0;
    assert(job_history@.take(0) =~= Seq::<JobHistory>::empty());
    assert(lines_view(lines@) =~= head + short_rows(job_history@.take(0), job_name@));
    while k < job_history.len()
        invariant
            k <= job_history.len(),
            options == short_options(),
            lines_view(lines@) == head + short_rows(job_history@.take(k as int), job_name@),
        decreases job_history.len() - k,
    {
        let entry = &job_history[k];
        let ghost before = lines_view(lines@);
        assert(job_history@.take(k + 1).drop_last() =~= job_history@.take(k as int));
        assert(job_history@.take(k + 1).last() == *entry);
        if str_eq(entry.name.as_str(), job_name) {
            let job_short = entry.to_output(&options);
            let line = job_short.render();
            lines.push(line);
            assert(lines_view(lines@) =~= before.push(line@));
        }
        assert(lines_view(lines@) =~= head + short_rows(job_history@.take(k + 1), job_name@));
        k += 1;
    }
    assert(job_history@.take(k as int) =~= job_history@);
    assert(head =~= seq![
        history_heading(job_name@, artifact@),
        "Id - When - Commit (Author) - Status"@,
    ]);
    lines
}

/// The creation of a pipeline on `build_id` for the artifact's project.
pub open spec fn create_pipeline_request(artifact: ArtifactSpec, build_id: Seq<char>) -> RequestSpec {
    RequestSpec {
        method: Method::Post,
        url: "https://gitlab.com/api/v4/projects/"@ + artifact.project_id + "/pipeline"@,
        query: seq![("ref"@, build_id)],
        token: None,
        failure: "Failed to retry job "@ + build_id + " on Gitlab"@,
        status_failure: "Received Error while retrying job "@ + build_id + " on Gitlab"@,
    }
}

/// The request that starts a rebuild: it creates a pipeline on `build_id`.
pub fn rebuild_artifact_gitlab(artifact: &ArtifactConfig, token: &str, build_id: &str) -> (r: Result<
    Request,
    ErdError,
>)
    ensures
        request_view(r) == with_token(create_pipeline_request(artifact@, build_id@), token@),
{
    let value = match get_token_value(token) {
        Ok(v) => v,
        Err(e) => {
            return Err(e);
        },
    };
    let mut url = project_url(artifact.project_id.as_str());
    url.append("/pipeline");
    let mut failure = String::from_str("Failed to retry job ");
    failure.append(build_id);
    failure.append(" on Gitlab");
    let mut status_failure = String::from_str("Received Error while retrying job ");
    status_failure.append(build_id);
    status_failure.append(" on Gitlab");
    let mut params: Vec<(String, String)> = Vec::new();
    params.push(pair("ref", build_id));
    let request = Request {
        method: Method::Post,
        url,
        query: params,
        token: Some(value),
        failure: failure,
        status_failure: status_failure,
    };
    assert(request@.query =~= create_pipeline_request(artifact@, build_id@).query);
    Ok(request)
}

/// The listing of the jobs that belong to the pipeline with id
/// `pipeline_id`, within the artifact's project.
pub open spec fn pipeline_jobs_request(artifact: ArtifactSpec, pipeline_id: nat) -> RequestSpec {
    RequestSpec {
        method: Method::Get,
        url: "https://gitlab.com/api/v4/projects/"@ + artifact.project_id + "/pipelines/"@
            + decimal(pipeline_id) + "/jobs"@,
        query: seq![],
        token: None,
        failure: "Failed to list jobs for created pipeline"@,
        status_failure: "Received Error while listing jobs for created pipeline"@,
    }
}

/// The request that follows the creation of `pipeline` for `artifact`: it
/// lists the jobs that belong to the pipeline.
pub fn pipeline_jobs_gitlab(artifact: &ArtifactConfig, pipeline: &JobPipeline, token: &str) -> (r:
    Result<Request, ErdError>)
    ensures
        request_view(r) == with_token(pipeline_jobs_request(artifact@, pipeline.id as nat), token@),
{
    let value = match get_token_value(token) {
        Ok(v) => v,
        Err(e) => {
            return Err(e);
        },
    };
    let id = decimal_string(pipeline.id);
    let mut url = project_url(artifact.project_id.as_str());
    url.append("/pipelines/");
    url.append(id.as_str());
    url.append("/jobs");
    let request = Request {
        method: Method::Get,
        url,
        query: Vec::new(),
        token: Some(value),
        failure: String::from_str("Failed to list jobs for created pipeline"),
        status_failure: String::from_str("Received Error while listing jobs for created pipeline"),
    };
    assert(request@.query =~= seq![]);
    Ok(request)
}

/// A line with how much it matters, as plain values.
pub open spec fn log_view(lines: Seq<LogLine>) -> Seq<(Level, Seq<char>)> {
    lines.map_values(|l: LogLine| (l.level, l.text@))
}

/// The line that reports that `pipeline` was started.
pub fn pipeline_started(pipeline: &JobPipeline, build_id: &str) -> (line: LogLine)
    ensures
        line.level == Level::Info,
        line.text@ == "Started pipeline "@ + decimal(pipeline.id as nat) + " to rebuild "@
            + build_id@,
{
    let mut text = String::from_str("Started pipeline ");
    text.append(decimal_string(pipeline.id).as_str());
    text.append(" to rebuild ");
    text.append(build_id);
    LogLine { level: Level::Info, text }
}

/// The first line of the report on a new pipeline: the commit of its first
/// job, or a warning that it has no job.
pub open spec fn commit_line(pipeline: JobPipeline, jobs: Seq<JobHistory>) -> (Level, Seq<char>) {
    if jobs.len() > 0 {
        (
            Level::Info,
            "> "@ + jobs[0].commit.short_id@ + " ("@ + pipeline.job_ref@ + ") - "@
                + jobs[0].commit.title@,
        )
    } else {
        (Level::Warn, "No jobs appear to have been started"@)
    }
}

/// The line that reports that `job` was started.
pub open spec fn started_line(job: JobHistory) -> (Level, Seq<char>) {
    (
        Level::Info,
        "> Started job "@ + job.name@ + " ("@ + decimal(job.id as nat) + ") - "@ + job.web_url@,
    )
}

/// The lines that close the report on a new pipeline.
pub open spec fn closing_lines(pipeline: JobPipeline) -> Seq<(Level, Seq<char>)> {
    seq![
        (Level::Info, "> "@ + pipeline.job_ref@),
        (
            Level::Info,
            "> New pipeline "@ + decimal(pipeline.id as nat) + " - "@ + pipeline.web_url@,
        ),
        (
            Level::Info,
            "Check the job history to see when the pipeline is complete and its job id"@,
        ),
    ]
}

/// The report on a new pipeline: the commit, a line for each job that was
/// started, then the pipeline's ref and where to find it.
pub open spec fn pipeline_report_lines(pipeline: JobPipeline, jobs: Seq<JobHistory>) -> Seq<
    (Level, Seq<char>),
> {
    seq![commit_line(pipeline, jobs)] + jobs.map_values(|j: JobHistory| started_line(j))
        + closing_lines(pipeline)
}

fn info(text: String) -> (line: LogLine)
    ensures
        line.level == Level::Info,
        line.text == text,
{
    LogLine { level: Level::Info, text }
}

/// The report on the pipeline that a rebuild created, given its jobs.
pub fn pipeline_report(pipeline: &JobPipeline, jobs: &Vec<JobHistory>) -> (r: Vec<LogLine>)
    ensures
        log_view(r@) == pipeline_report_lines(*pipeline, jobs@),
{
    let mut lines: Vec<LogLine> = Vec::new();
    if jobs.len() > 0 {
        let job = &jobs[0];
        let mut text = String::from_str("> ");
        text.append(job.commit.short_id.as_str());
        text.append(" (");
        text.append(pipeline.job_ref.as_str());
        text.append(") - ");
        text.append(job.commit.title.as_str());
        lines.push(info(text));
    } else {
        lines.push(
            LogLine {
                level: Level::Warn,
                text: String::from_str("No jobs appear to have been started"),
            },
        );
    }
    let mut k: usize = 0;
    while k < jobs.len()
        invariant
            k <= jobs.len(),
            lines@.len() == k + 1,
            log_view(lines@)[0] == commit_line(*pipeline, jobs@),
            forall|i: int|
                1 <= i <= k ==> (#[trigger] log_view(lines@)[i]) == started_line(jobs@[i - 1]),
        decreases jobs.len() - k,
    {
        let job = &jobs[k];
        let mut text = String::from_str("> Started job ");
        text.append(job.name.as_str());
        text.append(" (");
        text.append(decimal_string(job.id).as_str());
        text.append(") - ");
        text.append(job.web_url.as_str());
        let ghost before = log_view(lines@);
        lines.push(info(text));
        assert forall|i: int| 1 <= i <= k + 1 implies (#[trigger] log_view(lines@)[i])
            == started_line(jobs@[i - 1]) by {
            if i <= k {
                assert(log_view(lines@)[i] == before[i]);
            }
        }
        assert(log_view(lines@)[0] == before[0]);
        k += 1;
    }
    let ghost body = log_view(lines@);
    let mut text = String::from_str("> ");
    text.append(pipeline.job_ref.as_str());
    lines.push(info(text));
    let mut text = String::from_str("> New pipeline ");
    text.append(decimal_string(pipeline.id).as_str());
    text.append(" - ");
    text.append(pipeline.web_url.as_str());
    lines.push(info(text));
    lines.push(
        info(
            String::from_str(
                "Check the job history to see when the pipeline is complete and its job id",
            ),
        ),
    );
    assert(log_view(lines@) =~= body + closing_lines(*pipeline));
    assert forall|i: int| 0 <= i < body.len() implies body[i] == (seq![
        commit_line(*pipeline, jobs@),
    ] + jobs@.map_values(|j: JobHistory| started_line(j)))[i] by {
        if i >= 1 {
            assert(body[i] == started_line(jobs@[i - 1]));
        }
    }
    assert(body =~= seq![commit_line(*pipeline, jobs@)] + jobs@.map_values(
        |j: JobHistory| started_line(j),
    ));
    lines
}

} // verus!
