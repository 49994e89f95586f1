//! The commands, as far as they decide anything: which request a command
//! sends, and what it shows of the answer.

use vstd::prelude::*;
use vstd::string::StringExecFns;
use vstd::utf8::encode_utf8;
use crate::config::{
    is_first_source, no_source, ArtifactConfig, Config, SourceConfig, SourceSpec, SourceType,
};
use crate::error::{ErdError, Failure};
use crate::fetch::{answers_view, GetArtifactAnswer, Outcome};
use crate::gitlab::{
    create_pipeline_request, get_history_gitlab, history_request, lines_view, log_view,
    long_rows, option_text, rebuild_artifact_gitlab, request_view, scan_gitlab, scan_request,
    short_rows, show_history_long, show_history_short, history_heading, with_token, JobHistory,
    Request,
};
use crate::logins::{
    best_match, is_best_match, is_first_with_url, Credential, Login, Logins,
};
use crate::output::{
    answer_level, answer_line_text, artifact_list_text, print_fetch_answer, ArtifactListOutput,
    FormatOutput, Level, LogLine, OutputOptions,
};

verus! {

/// The store after `credential` was stored in it: in place of the first
/// record with its URL, or at the end where there is none.
pub open spec fn stored(store: Seq<Credential>, credential: Credential) -> Seq<Credential> {
    if exists|i: int| is_first_with_url(store, credential.url, i) {
        store.update(choose|i: int| is_first_with_url(store, credential.url, i), credential)
    } else {
        store.push(credential)
    }
}

/// Stores the credential for `url` that the user gave.
pub fn auth(url: String, username: String, password: String, logins: Logins) -> (r: Logins)
    ensures
        r@ == stored(logins@, Credential { url: url@, username: username@, secret: password@ }),
{
    let mut logins = logins;
    let ghost before = logins@;
    let login = Login { url, username, password };
    let previous = logins.set_login(login);
    proof {
        match previous {
            Some(_) => {
                let i = choose|i: int|
                    is_first_with_url(before, login@.url, i) && logins@ == before.update(
                        i,
                        login@,
                    );
                let j = choose|j: int| is_first_with_url(before, login@.url, j);
                assert(i == j) by {
                    if i < j {
                        assert(before[i].url == login@.url);
                    } else if j < i {
                        assert(before[j].url == login@.url);
                    }
                }
            },
            None => {
                assert forall|i: int| !is_first_with_url(before, login@.url, i) by {
                    if 0 <= i < before.len() {
                        assert(before[i].url != login@.url);
                    }
                }
            },
        }
    }
    logins
}

/// The credential for a source's URL, or the failure that none applies.
pub fn login_for<'a>(logins: &'a Logins, source_url: &str) -> (r: Result<&'a Login, ErdError>)
    ensures
        match r {
            Ok(login) => exists|i: int|
                {
                    &&& is_best_match(logins@, source_url@, i)
                    &&& best_match(logins@, source_url@) == Some(i)
                    &&& logins.logins@[i] == *login
                },
            Err(e) => {
                &&& best_match(logins@, source_url@) is None
                &&& e@ == Failure::NoLogin { source_url: source_url@ }
            },
        },
{
    match logins.find_login(source_url) {
        Some(login) => Ok(login),
        None => Err(ErdError::NoLogin { source_url: String::from_str(source_url) }),
    }
}

/// The request that asks a source of `kind` for the history of `artifact`.
pub fn get_history(artifact: &ArtifactConfig, kind: &SourceType, login: &Login) -> (r: Result<
    Request,
    ErdError,
>)
    ensures
        request_view(r) == with_token(history_request(artifact@), login@.secret),
{
    match kind {
        SourceType::Gitlab => get_history_gitlab(artifact, login.password.as_str()),
    }
}

/// The lines that show the history of `artifact`: in short, the jobs called
/// `build` under the names of the columns; in full, every job.
pub fn show_history(artifact: &ArtifactConfig, job_history: &Vec<JobHistory>, short: bool) -> (r: Vec<
    String,
>)
    ensures
        lines_view(r@) == if short {
            seq![
                history_heading("build"@, artifact@),
                "Id - When - Commit (Author) - Status"@,
            ] + short_rows(job_history@, "build"@)
        } else {
            seq![history_heading("build"@, artifact@)] + long_rows(job_history@)
        },
{
    if short {
        show_history_short(artifact, "build", job_history)
    } else {
        show_history_long(artifact, "build", job_history)
    }
}

/// The request that scans `source` for projects.
pub fn scan_source(source: &SourceConfig, group: Option<String>, login: &Login) -> (r: Result<
    Request,
    ErdError,
>)
    ensures
        request_view(r) == with_token(scan_request(option_text(group)), login@.secret),
{
    match source.kind {
        SourceType::Gitlab => scan_gitlab(group, Some(login.password.as_str())),
    }
}

/// The request that starts the rebuild of `artifact` on `build_id`.
pub fn rebuild_artifact(
    artifact: &ArtifactConfig,
    kind: &SourceType,
    token: &str,
    build_id: String,
) -> (r: Result<Request, ErdError>)
    ensures
        request_view(r) == with_token(create_pipeline_request(artifact@, build_id@), token@),
{
    match kind {
        SourceType::Gitlab => rebuild_artifact_gitlab(artifact, token, build_id.as_str()),
    }
}

/// The artifact lists of `sources`, in colour, in order.
pub open spec fn artifact_lists(sources: Seq<SourceSpec>) -> Seq<Seq<char>> {
    sources.map_values(|s: SourceSpec| artifact_list_text(s, true))
}

/// The lists of the configured artifacts: of the first source called
/// `source` where one is named, which fails where there is none; else of
/// every source, in order.
pub fn list_artifacts(config: &Config, source: Option<String>) -> (r: Result<Vec<String>, ErdError>)
    ensures
        match source {
            Some(src) => match r {
                Ok(lists) => exists|s: int|
                    {
                        &&& is_first_source(config@, src@, s)
                        &&& lines_view(lists@) == seq![artifact_list_text(config@[s], true)]
                    },
                Err(e) => no_source(config@, src@) && e@ == Failure::NoSuchSource(src@),
            },
            None => r matches Ok(lists) && lines_view(lists@) == artifact_lists(config@),
        },
{
    let options = OutputOptions { color: true, short: false };
    let mut lists: Vec<String> = Vec::new();
    match source {
        Some(src) => {
            match config.find_source(src.as_str()) {
                Some(s) => {
                    let artifact_source = &config.sources[s];
                    assert(config@[s as int] == artifact_source@);
                    let list_output: ArtifactListOutput = artifact_source.format_output(&options);
                    lists.push(list_output.render());
                    assert(lines_view(lists@) =~= seq![artifact_list_text(config@[s as int], true)]);
                    Ok(lists)
                },
                None => Err(ErdError::NoSuchSource(src)),
            }
        },
        None => {
            let mut k: usize = 0;
            while k < config.sources.len()
                invariant
                    k <= config.sources.len(),
                    config@.len() == config.sources.len(),
                    options == (OutputOptions { color: true, short: false }),
                    lists@.len() == k,
                    forall|i: int|
                        0 <= i < k ==> (#[trigger] lists@[i])@ == artifact_list_text(config@[i], true),
                decreases config.sources.len() - k,
            {
                let src = &config.sources[k];
                assert(config@[k as int] == src@);
                let list_output: ArtifactListOutput = src.format_output(&options);
                lists.push(list_output.render());
                k += 1;
            }
            assert(lines_view(lists@) =~= artifact_lists(config@));
            Ok(lists)
        },
    }
}

/// The greatest length, in bytes, of an id among `answers`; 0 for none.
pub open spec fn longest_id(answers: Seq<(Seq<char>, Outcome)>) -> nat
    decreases answers.len(),
{
    if answers.len() == 0 {
        0
    } else {
        let rest = longest_id(answers.drop_last());
        let last = encode_utf8(answers.last().0).len();
        if last > rest {
            last
        } else {
            rest
        }
    }
}

/// The report on a retrieval of every artifact: a line for each outcome,
/// with the ids padded to the byte length of the longest; or a warning where
/// there is no outcome.
pub open spec fn fetch_report_lines(answers: Seq<(Seq<char>, Outcome)>, colored: bool) -> Seq<
    (Level, Seq<char>),
> {
    if answers.len() == 0 {
        seq![(Level::Warn, "No artifacts found!"@)]
    } else {
        answers.map_values(
            |p: (Seq<char>, Outcome)|
                (answer_level(p.1), answer_line_text(p.1, p.0, longest_id(answers), colored)),
        )
    }
}

/// The report on a retrieval of every artifact, given its outcomes.
pub fn fetch_report(answers: &Vec<(String, GetArtifactAnswer)>, options: &OutputOptions) -> (r: Vec<
    LogLine,
>)
    ensures
        log_view(r@) == fetch_report_lines(answers_view(answers@), options.color),
{
    let mut lines: Vec<LogLine> = Vec::new();
    if answers.len() == 0 {
        lines.push(LogLine { level: Level::Warn, text: String::from_str("No artifacts found!") });
        assert(log_view(lines@) =~= seq![(Level::Warn, "No artifacts found!"@)]);
        return lines;
    }
    let mut padding: usize = 0;
    let mut k: usize = 0;
    assert(answers_view(answers@).take(0) =~= Seq::<(Seq<char>, Outcome)>::empty());
    while k < answers.len()
        invariant
            k <= answers.len(),
            padding == longest_id(answers_view(answers@).take(k as int)),
        decreases answers.len() - k,
    {
        assert(answers_view(answers@).take(k + 1).drop_last() =~= answers_view(answers@).take(
            k as int,
        ));
        assert(answers_view(answers@).take(k + 1).last().0 == answers@[k as int].0@);
        let n: usize = answers[k].0.as_str().as_bytes().len();
        if n > padding {
            padding = n;
        }
        k += 1;
    }
    assert(answers_view(answers@).take(k as int) =~= answers_view(answers@));
    let mut k: usize = 0;
    while k < answers.len()
        invariant
            k <= answers.len(),
            answers.len() > 0,
            padding == longest_id(answers_view(answers@)),
            lines@.len() == k,
            forall|i: int|
                0 <= i < k ==> (#[trigger] log_view(lines@)[i]) == fetch_report_lines(
                    answers_view(answers@),
                    options.color,
                )[i],
        decreases answers.len() - k,
    {
        let ghost before = log_view(lines@);
        let line = print_fetch_answer(&answers[k].1, answers[k].0.as_str(), padding, options);
        lines.push(line);
        assert forall|i: int| 0 <= i < k + 1 implies (#[trigger] log_view(lines@)[i])
            == fetch_report_lines(answers_view(answers@), options.color)[i] by {
            if i < k {
                assert(log_view(lines@)[i] == before[i]);
            }
        }
        k += 1;
    }
    assert(log_view(lines@) =~= fetch_report_lines(answers_view(answers@), options.color));
    lines
}

} // verus!
