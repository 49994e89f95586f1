//! Retrieval as a sequence of decisions. A `Fetch` is told what happened (an
//! archive came, the stored copy was read, the file was written) and answers
//! with what to do next. It never touches the network or the disk itself.

use vstd::prelude::*;
use vstd::string::StringExecFns;
use crate::archive::{extract_artifact, extraction, parsed_archive, ExtractedFile, FileData};
use crate::config::{is_first_artifact, no_artifact, Config, SourceSpec, SourceType};
use crate::digest::{differs_from_stored, is_new};
use crate::error::{ErdError, Failure};
use crate::gitlab::{
    artifact_request, get_artifact_gitlab, option_text, request_error, request_failed,
    request_view, with_token, Request, RequestSpec,
};
use crate::logins::{best_match, Credential, Logins};

verus! {

/// What a `GetArtifactAnswer` holds, as plain text.
pub enum Outcome {
    NotFound,
    NewArtifact(Seq<char>),
    UpToDate(Seq<char>),
}

/// How the retrieval of one artifact ended.
#[derive(Debug)]
pub enum GetArtifactAnswer {
    /// No entry of the job's archive matched the artifact's pattern.
    NotFound,
    /// The file of this name was new, or differed from the stored copy, and
    /// was written.
    NewArtifact(String),
    /// The file of this name was identical to the stored copy.
    UpToDate(String),
}

impl View for GetArtifactAnswer {
    type V = Outcome;

    open spec fn view(&self) -> Outcome {
        match self {
            GetArtifactAnswer::NotFound => Outcome::NotFound,
            GetArtifactAnswer::NewArtifact(name) => Outcome::NewArtifact(name@),
            GetArtifactAnswer::UpToDate(name) => Outcome::UpToDate(name@),
        }
    }
}

/// What a `FetchAction` holds, as plain values.
pub enum ActionSpec {
    Download(RequestSpec),
    ReadStored(Seq<char>),
    WriteStored(ExtractedFile),
    Finished,
}

/// What the caller is to do next.
#[derive(Debug)]
pub enum FetchAction {
    /// Send the request and hand back the body of the response.
    Download(Request),
    /// Read the stored copy of this name, if there is one, and hand it back.
    ReadStored(String),
    /// Write the file to the store under its name, in place of any copy that
    /// is there, and report that it was written.
    WriteStored(FileData),
    /// Nothing is left to do: the outcomes can be taken.
    Finished,
}

impl View for FetchAction {
    type V = ActionSpec;

    open spec fn view(&self) -> ActionSpec {
        match self {
            FetchAction::Download(request) => ActionSpec::Download(request@),
            FetchAction::ReadStored(name) => ActionSpec::ReadStored(name@),
            FetchAction::WriteStored(file) => ActionSpec::WriteStored(file@),
            FetchAction::Finished => ActionSpec::Finished,
        }
    }
}

/// What a `FetchEvent` holds, as plain values.
pub enum EventSpec {
    Downloaded(Seq<u8>),
    Unsent(Option<Seq<char>>, Seq<char>),
    Refused(Seq<char>),
    Stored(Option<Seq<u8>>),
    Written,
}

/// What happened when the caller did as it was told.
#[derive(Debug)]
pub enum FetchEvent {
    /// The body of the response to a `Download`, where the response came
    /// with a status that is no error.
    Downloaded(Vec<u8>),
    /// The request of a `Download` could not be sent: the URL that the cause
    /// names, if it names one, and the cause in words.
    Unsent(Option<String>, String),
    /// The response to a `Download` came with a status that is an error: the
    /// status in words.
    Refused(String),
    /// The stored copy asked for by a `ReadStored`, or `None` where the
    /// store holds no file of that name.
    Stored(Option<Vec<u8>>),
    /// The file of a `WriteStored` is in the store.
    Written,
}

impl View for FetchEvent {
    type V = EventSpec;

    open spec fn view(&self) -> EventSpec {
        match self {
            FetchEvent::Downloaded(body) => EventSpec::Downloaded(body@),
            FetchEvent::Unsent(url, cause) => EventSpec::Unsent(option_text(*url), cause@),
            FetchEvent::Refused(status) => EventSpec::Refused(status@),
            FetchEvent::Stored(Some(copy)) => EventSpec::Stored(Some(copy@)),
            FetchEvent::Stored(None) => EventSpec::Stored(None),
            FetchEvent::Written => EventSpec::Written,
        }
    }
}

/// What a retrieval waits for.
pub enum Awaiting {
    /// The archive of the artifact in hand: the answer to a request for
    /// this URL, with the request's words for its failures.
    Archive { url: Seq<char>, failure: Seq<char>, status_failure: Seq<char> },
    /// The stored copy to compare this extracted file with.
    Stored(ExtractedFile),
    /// The report that the file of this name was written.
    Written(Seq<char>),
    /// Nothing: the retrieval has finished or failed.
    Nothing,
}

/// The state of a retrieval: the artifacts to retrieve, each by the position
/// of its source and its own position in that source; the job to take them
/// from, if one was named; the outcomes so far, each with the artifact's id;
/// and what is awaited. The artifact in hand is the one after those that
/// have an outcome.
pub struct FetchState {
    pub targets: Seq<(int, int)>,
    pub build_id: Option<Seq<char>>,
    pub answers: Seq<(Seq<char>, Outcome)>,
    pub awaiting: Awaiting,
}

/// The artifacts of source `s`, which has `n` of them, in order.
pub open spec fn source_targets(s: int, n: nat) -> Seq<(int, int)> {
    Seq::new(n, |a: int| (s, a))
}

/// Every configured artifact: source by source in the order of the
/// configuration, and within a source in the order of its artifacts.
pub open spec fn all_targets(config: Seq<SourceSpec>) -> Seq<(int, int)>
    decreases config.len(),
{
    if config.len() == 0 {
        seq![]
    } else {
        all_targets(config.drop_last()) + source_targets(
            config.len() - 1,
            config.last().artifacts.len(),
        )
    }
}

/// `t` names an artifact of `config`.
pub open spec fn target_ok(config: Seq<SourceSpec>, t: (int, int)) -> bool {
    0 <= t.0 < config.len() && 0 <= t.1 < config[t.0].artifacts.len()
}

/// The state is one that a retrieval over `config` can be in.
pub open spec fn valid(config: Seq<SourceSpec>, st: FetchState) -> bool {
    &&& forall|i: int| 0 <= i < st.targets.len() ==> target_ok(config, #[trigger] st.targets[i])
    &&& st.answers.len() <= st.targets.len()
    &&& st.awaiting is Nothing || st.answers.len() < st.targets.len()
}

/// The outcomes so far belong, one by one and in order, to the first of the
/// artifacts to retrieve.
pub open spec fn in_order(config: Seq<SourceSpec>, st: FetchState) -> bool {
    &&& st.answers.len() <= st.targets.len()
    &&& forall|i: int|
        0 <= i < st.answers.len() ==> (#[trigger] st.answers[i]).0
            == config[st.targets[i].0].artifacts[st.targets[i].1].id
}

/// The request that retrieves artifact `a` of source `s`: the download for
/// the artifact, with the secret of the credential chosen for the source's
/// URL. It fails where no credential applies to the source, or where the
/// secret cannot be sent.
pub open spec fn target_request(
    config: Seq<SourceSpec>,
    logins: Seq<Credential>,
    t: (int, int),
    build_id: Option<Seq<char>>,
) -> Result<RequestSpec, Failure> {
    match best_match(logins, config[t.0].url) {
        None => Err(Failure::NoLogin { source_url: config[t.0].url }),
        Some(i) => match config[t.0].kind {
            SourceType::Gitlab => with_token(
                artifact_request(config[t.0].artifacts[t.1], build_id),
                logins[i].secret,
            ),
        },
    }
}

/// What a retrieval awaits after it asked for `request` to be sent.
pub open spec fn awaiting_archive(request: RequestSpec) -> Awaiting {
    Awaiting::Archive {
        url: request.url,
        failure: request.failure,
        status_failure: request.status_failure,
    }
}

/// Whether a retrieval that awaits `awaiting` takes `event`.
pub open spec fn accepts(awaiting: Awaiting, event: EventSpec) -> bool {
    match (awaiting, event) {
        (Awaiting::Archive { .. }, EventSpec::Downloaded(_)) => true,
        (Awaiting::Archive { .. }, EventSpec::Unsent(_, _)) => true,
        (Awaiting::Archive { .. }, EventSpec::Refused(_)) => true,
        (Awaiting::Stored(_), EventSpec::Stored(_)) => true,
        (Awaiting::Written(_), EventSpec::Written) => true,
        _ => false,
    }
}

/// The retrieval of the artifact in hand ends with `outcome`. With it the
/// retrieval finishes, if that was the last artifact; else it goes on to the
/// next, and fails where the request for that one cannot be made.
pub open spec fn record(
    config: Seq<SourceSpec>,
    logins: Seq<Credential>,
    st: FetchState,
    outcome: Outcome,
) -> (FetchState, Result<ActionSpec, Failure>) {
    let t = st.targets[st.answers.len() as int];
    let answers = st.answers.push((config[t.0].artifacts[t.1].id, outcome));
    if answers.len() == st.targets.len() {
        (FetchState { answers, awaiting: Awaiting::Nothing, ..st }, Ok(ActionSpec::Finished))
    } else {
        match target_request(config, logins, st.targets[answers.len() as int], st.build_id) {
            Ok(request) => (
                FetchState { answers, awaiting: awaiting_archive(request), ..st },
                Ok(ActionSpec::Download(request)),
            ),
            Err(e) => (FetchState { answers, awaiting: Awaiting::Nothing, ..st }, Err(e)),
        }
    }
}

/// What a retrieval in state `st` does with `event`: the state it goes to,
/// and the next action or the failure that ends it.
///
/// A request that could not be sent, and a response whose status is an
/// error, end the retrieval with a request error: the first for the URL that
/// the cause names, the second for the URL that was asked for.
/// An archive is searched for the artifact's pattern. Without a match the
/// outcome is `NotFound`; with one, the stored copy of the extracted file's
/// name is asked for. A stored copy with the same digest gives `UpToDate`;
/// another, or none, has the file written, and the report of that gives
/// `NewArtifact`.
pub open spec fn step_spec(
    config: Seq<SourceSpec>,
    logins: Seq<Credential>,
    st: FetchState,
    event: EventSpec,
) -> (FetchState, Result<ActionSpec, Failure>) {
    let t = st.targets[st.answers.len() as int];
    match (st.awaiting, event) {
        (Awaiting::Archive { failure, .. }, EventSpec::Unsent(named, cause)) => (
            FetchState { awaiting: Awaiting::Nothing, ..st },
            Err(request_error(named, failure + ": "@ + cause)),
        ),
        (Awaiting::Archive { url, status_failure, .. }, EventSpec::Refused(status)) => (
            FetchState { awaiting: Awaiting::Nothing, ..st },
            Err(request_error(Some(url), status_failure + ": "@ + status)),
        ),
        (Awaiting::Archive { .. }, EventSpec::Downloaded(body)) => match extraction(
            parsed_archive(body),
            config[t.0].artifacts[t.1].pattern,
        ) {
            Err(e) => (FetchState { awaiting: Awaiting::Nothing, ..st }, Err(e)),
            Ok(None) => record(config, logins, st, Outcome::NotFound),
            Ok(Some(file)) => (
                FetchState { awaiting: Awaiting::Stored(file), ..st },
                Ok(ActionSpec::ReadStored(file.name)),
            ),
        },
        (Awaiting::Stored(file), EventSpec::Stored(copy)) => if differs_from_stored(
            copy,
            file.data,
        ) {
            (
                FetchState { awaiting: Awaiting::Written(file.name), ..st },
                Ok(ActionSpec::WriteStored(file)),
            )
        } else {
            record(config, logins, st, Outcome::UpToDate(file.name))
        },
        (Awaiting::Written(name), EventSpec::Written) => record(
            config,
            logins,
            st,
            Outcome::NewArtifact(name),
        ),
        _ => (st, Ok(ActionSpec::Finished)),
    }
}

/// How a retrieval of `targets` begins: with the request for the first of
/// them, or finished at once where there is none.
pub open spec fn start_spec(
    config: Seq<SourceSpec>,
    logins: Seq<Credential>,
    targets: Seq<(int, int)>,
    build_id: Option<Seq<char>>,
) -> Result<(FetchState, ActionSpec), Failure> {
    if targets.len() == 0 {
        Ok(
            (
                FetchState { targets, build_id, answers: seq![], awaiting: Awaiting::Nothing },
                ActionSpec::Finished,
            ),
        )
    } else {
        match target_request(config, logins, targets[0], build_id) {
            Ok(request) => Ok(
                (
                    FetchState {
                        targets,
                        build_id,
                        answers: seq![],
                        awaiting: awaiting_archive(request),
                    },
                    ActionSpec::Download(request),
                ),
            ),
            Err(e) => Err(e),
        }
    }
}

/// The positions in `targets`, as integers.
pub open spec fn targets_view(targets: Seq<(usize, usize)>) -> Seq<(int, int)> {
    targets.map_values(|t: (usize, usize)| (t.0 as int, t.1 as int))
}

/// The text of the outcomes in `answers`.
pub open spec fn answers_view(answers: Seq<(String, GetArtifactAnswer)>) -> Seq<
    (Seq<char>, Outcome),
> {
    answers.map_values(|p: (String, GetArtifactAnswer)| (p.0@, p.1@))
}

/// The plain values of what a step gave.
pub open spec fn action_view(r: Result<FetchAction, ErdError>) -> Result<ActionSpec, Failure> {
    match r {
        Ok(action) => Ok(action@),
        Err(e) => Err(e@),
    }
}

enum Pending {
    Archive { url: String, failure: String, status_failure: String },
    Stored(FileData),
    Written(String),
    Nothing,
}

impl View for Pending {
    type V = Awaiting;

    closed spec fn view(&self) -> Awaiting {
        match self {
            Pending::Archive { url, failure, status_failure } => Awaiting::Archive {
                url: url@,
                failure: failure@,
                status_failure: status_failure@,
            },
            Pending::Stored(file) => Awaiting::Stored(file@),
            Pending::Written(name) => Awaiting::Written(name@),
            Pending::Nothing => Awaiting::Nothing,
        }
    }
}

impl Pending {
    fn awaiting(request: &Request) -> (r: Pending)
        ensures
            r@ == awaiting_archive(request@),
    {
        Pending::Archive {
            url: request.url.clone(),
            failure: request.failure.clone(),
            status_failure: request.status_failure.clone(),
        }
    }
}

/// A retrieval under way, over a configuration and a credential store.
pub struct Fetch<'a> {
    config: &'a Config,
    logins: &'a Logins,
    targets: Vec<(usize, usize)>,
    build_id: Option<String>,
    answers: Vec<(String, GetArtifactAnswer)>,
    awaiting: Pending,
}

impl<'a> View for Fetch<'a> {
    type V = FetchState;

    closed spec fn view(&self) -> FetchState {
        FetchState {
            targets: targets_view(self.targets@),
            build_id: option_text(self.build_id),
            answers: answers_view(self.answers@),
            awaiting: self.awaiting@,
        }
    }
}

/// The request for one artifact of the configuration (see
/// [`target_request`]).
fn request_for(
    config: &Config,
    logins: &Logins,
    s: usize,
    a: usize,
    build_id: &Option<String>,
) -> (r: Result<Request, ErdError>)
    requires
        target_ok(config@, (s as int, a as int)),
    ensures
        request_view(r) == target_request(
            config@,
            logins@,
            (s as int, a as int),
            option_text(*build_id),
        ),
{
    let source = &config.sources[s];
    assert(config@[s as int] == source@);
    let artifact = &source.artifacts[a];
    assert(source@.artifacts[a as int] == artifact@);
    match logins.find_login(source.url.as_str()) {
        None => Err(ErdError::NoLogin { source_url: source.url.clone() }),
        Some(login) => match source.kind {
            SourceType::Gitlab => get_artifact_gitlab(artifact, login.password.as_str(), build_id),
        },
    }
}

impl<'a> Fetch<'a> {
    /// The configuration that the retrieval goes over.
    pub closed spec fn config(&self) -> Seq<SourceSpec> {
        self.config@
    }

    /// The credentials that the retrieval resolves from.
    pub closed spec fn logins(&self) -> Seq<Credential> {
        self.logins@
    }

    /// The retrieval is in a state that it can be in.
    pub open spec fn wf(&self) -> bool {
        valid(self.config(), self@)
    }

    fn start(
        config: &'a Config,
        logins: &'a Logins,
        targets: Vec<(usize, usize)>,
        build_id: Option<String>,
    ) -> (r: Result<(Fetch<'a>, FetchAction), ErdError>)
        requires
            forall|i: int|
                0 <= i < targets@.len() ==> target_ok(config@, #[trigger] targets_view(targets@)[i]),
        ensures
            match r {
                Ok((fetch, action)) => {
                    &&& fetch.wf()
                    &&& fetch.config() == config@
                    &&& fetch.logins() == logins@
                    &&& start_spec(
                        config@,
                        logins@,
                        targets_view(targets@),
                        option_text(build_id),
                    ) == Ok::<_, Failure>((fetch@, action@))
                },
                Err(e) => start_spec(
                    config@,
                    logins@,
                    targets_view(targets@),
                    option_text(build_id),
                ) == Err::<(FetchState, ActionSpec), _>(e@),
            },
    {
        if targets.len() == 0 {
            let fetch = Fetch {
                config,
                logins,
                targets,
                build_id,
                answers: Vec::new(),
                awaiting: Pending::Nothing,
            };
            assert(fetch@.answers =~= seq![]);
            Ok((fetch, FetchAction::Finished))
        } else {
            let (s, a) = targets[0];
            assert(targets_view(targets@)[0] == (s as int, a as int));
            match request_for(config, logins, s, a, &build_id) {
                Ok(request) => {
                    let fetch = Fetch {
                        config,
                        logins,
                        targets,
                        build_id,
                        answers: Vec::new(),
                        awaiting: Pending::awaiting(&request),
                    };
                    assert(fetch@.answers =~= seq![]);
                    Ok((fetch, FetchAction::Download(request)))
                },
                Err(e) => Err(e),
            }
        }
    }

    /// Whether the retrieval takes `event` now: whether it is the answer to
    /// the action that was given last.
    pub fn accepts(&self, event: &FetchEvent) -> (r: bool)
        ensures
            r == accepts(self@.awaiting, event@),
    {
        match (&self.awaiting, event) {
            (Pending::Archive { .. }, FetchEvent::Downloaded(_)) => true,
            (Pending::Archive { .. }, FetchEvent::Unsent(_, _)) => true,
            (Pending::Archive { .. }, FetchEvent::Refused(_)) => true,
            (Pending::Stored(_), FetchEvent::Stored(_)) => true,
            (Pending::Written(_), FetchEvent::Written) => true,
            _ => false,
        }
    }

    /// Whether every artifact has its outcome.
    pub fn is_finished(&self) -> (r: bool)
        ensures
            r == (self@.answers.len() == self@.targets.len()),
    {
        self.answers.len() == self.targets.len()
    }

    fn record(&mut self, outcome: GetArtifactAnswer) -> (r: Result<FetchAction, ErdError>)
        requires
            forall|i: int|
                0 <= i < old(self)@.targets.len() ==> target_ok(
                    old(self).config(),
                    #[trigger] old(self)@.targets[i],
                ),
            old(self)@.answers.len() < old(self)@.targets.len(),
            old(self)@.awaiting is Nothing,
        ensures
            final(self).wf(),
            final(self).config() == old(self).config(),
            final(self).logins() == old(self).logins(),
            (final(self)@, action_view(r)) == record(
                old(self).config(),
                old(self).logins(),
                old(self)@,
                outcome@,
            ),
    {
        let k: usize = self.answers.len();
        let (s, a) = self.targets[k];
        assert(targets_view(self.targets@)[k as int] == (s as int, a as int));
        let source = &self.config.sources[s];
        assert(self.config@[s as int] == source@);
        assert(source@.artifacts[a as int] == source.artifacts@[a as int]@);
        let id = source.artifacts[a].id.clone();
        self.answers.push((id, outcome));
        assert(self@.answers =~= old(self)@.answers.push((id@, outcome@)));
        if self.answers.len() == self.targets.len() {
            Ok(FetchAction::Finished)
        } else {
            let (s2, a2) = self.targets[k + 1];
            assert(targets_view(self.targets@)[k + 1] == (s2 as int, a2 as int));
            match request_for(self.config, self.logins, s2, a2, &self.build_id) {
                Ok(request) => {
                    self.awaiting = Pending::awaiting(&request);
                    Ok(FetchAction::Download(request))
                },
                Err(e) => Err(e),
            }
        }
    }

    /// Takes what happened and says what to do next (see [`step_spec`]).
    /// After a failure, and after `Finished`, the retrieval takes no more
    /// events.
    pub fn step(&mut self, event: FetchEvent) -> (r: Result<FetchAction, ErdError>)
        requires
            old(self).wf(),
            accepts(old(self)@.awaiting, event@),
        ensures
            final(self).wf(),
            final(self).config() == old(self).config(),
            final(self).logins() == old(self).logins(),
            (final(self)@, action_view(r)) == step_spec(
                old(self).config(),
                old(self).logins(),
                old(self)@,
                event@,
            ),
    {
        let k: usize = self.answers.len();
        let (s, a) = self.targets[k];
        assert(targets_view(self.targets@)[k as int] == (s as int, a as int));
        let mut pending = Pending::Nothing;
        core::mem::swap(&mut self.awaiting, &mut pending);
        match pending {
            Pending::Archive { url, failure, status_failure } => match event {
                FetchEvent::Unsent(named, cause) => Err(
                    request_failed(named, cause.as_str(), failure.as_str()),
                ),
                FetchEvent::Refused(status) => Err(
                    request_failed(Some(url), status.as_str(), status_failure.as_str()),
                ),
                FetchEvent::Downloaded(body) => {
                    let source = &self.config.sources[s];
                    assert(self.config@[s as int] == source@);
                    let artifact = &source.artifacts[a];
                    assert(source@.artifacts[a as int] == artifact@);
                    match extract_artifact(body, artifact.artifact_pattern.as_str()) {
                        Err(e) => Err(e),
                        Ok(None) => self.record(GetArtifactAnswer::NotFound),
                        Ok(Some(file)) => {
                            let name = file.file_name.clone();
                            self.awaiting = Pending::Stored(file);
                            Ok(FetchAction::ReadStored(name))
                        },
                    }
                },
                _ => vstd::pervasive::unreached(),
            },
            Pending::Stored(file) => match event {
                FetchEvent::Stored(copy) => {
                    if is_new(&copy, &file) {
                        self.awaiting = Pending::Written(file.file_name.clone());
                        Ok(FetchAction::WriteStored(file))
                    } else {
                        self.record(GetArtifactAnswer::UpToDate(file.file_name))
                    }
                },
                _ => vstd::pervasive::unreached(),
            },
            Pending::Written(name) => match event {
                FetchEvent::Written => self.record(GetArtifactAnswer::NewArtifact(name)),
                _ => vstd::pervasive::unreached(),
            },
            Pending::Nothing => vstd::pervasive::unreached(),
        }
    }

    /// The outcomes, each with the id of its artifact, in the order in which
    /// the artifacts were retrieved.
    pub fn into_answers(self) -> (r: Vec<(String, GetArtifactAnswer)>)
        ensures
            answers_view(r@) == self@.answers,
    {
        self.answers
    }
}

/// Begins the retrieval of the artifact called `art_id`, from job `build_id`
/// where one is given: the first artifact of that id, by the sources in
/// order and each source's artifacts in order. Where none is configured the
/// retrieval fails with `NoSuchArtifact`, and no request is made.
pub fn fetch_single<'a>(
    config: &'a Config,
    logins: &'a Logins,
    art_id: &str,
    build_id: Option<String>,
) -> (r: Result<(Fetch<'a>, FetchAction), ErdError>)
    ensures
        no_artifact(config@, art_id@) ==> r is Err && r->Err_0@ == Failure::NoSuchArtifact(art_id@),
        !no_artifact(config@, art_id@) ==> exists|s: int, a: int|
            {
                &&& is_first_artifact(config@, art_id@, s, a)
                &&& match r {
                    Ok((fetch, action)) => {
                        &&& fetch.wf()
                        &&& fetch.config() == config@
                        &&& fetch.logins() == logins@
                        &&& start_spec(config@, logins@, seq![(s, a)], option_text(build_id))
                            == Ok::<_, Failure>((fetch@, action@))
                    },
                    Err(e) => start_spec(config@, logins@, seq![(s, a)], option_text(build_id))
                        == Err::<(FetchState, ActionSpec), _>(e@),
                }
            },
{
    match config.find_artifact(art_id) {
        None => Err(ErdError::NoSuchArtifact(String::from_str(art_id))),
        Some((s, a)) => {
            let mut targets: Vec<(usize, usize)> = Vec::new();
            targets.push((s, a));
            assert(targets_view(targets@) =~= seq![(s as int, a as int)]);
            Fetch::start(config, logins, targets, build_id)
        },
    }
}

/// Begins the retrieval of every configured artifact, in the order of the
/// configuration, each from the latest job of its branch. The first failure
/// ends the whole retrieval.
pub fn fetch_all<'a>(config: &'a Config, logins: &'a Logins) -> (r: Result<
    (Fetch<'a>, FetchAction),
    ErdError,
>)
    ensures
        match r {
            Ok((fetch, action)) => {
                &&& fetch.wf()
                &&& fetch.config() == config@
                &&& fetch.logins() == logins@
                &&& start_spec(config@, logins@, all_targets(config@), None) == Ok::<_, Failure>(
                    (fetch@, action@),
                )
            },
            Err(e) => start_spec(config@, logins@, all_targets(config@), None) == Err::<
                (FetchState, ActionSpec),
                _,
            >(e@),
        },
{
    let mut targets: Vec<(usize, usize)> = Vec::new();
    let mut s: usize = 0;
    assert(config@.take(0) =~= seq![]);
    assert(targets_view(targets@) =~= seq![]);
    while s < config.sources.len()
        invariant
            s <= config.sources.len(),
            config@.len() == config.sources.len(),
            targets_view(targets@) == all_targets(config@.take(s as int)),
            forall|i: int|
                0 <= i < targets@.len() ==> target_ok(config@, #[trigger] targets_view(targets@)[i]),
        decreases config.sources.len() - s,
    {
        let n: usize = config.sources[s].artifacts.len();
        assert(config@[s as int] == config.sources@[s as int]@);
        let mut a: usize = 0;
        assert(targets_view(targets@) =~= all_targets(config@.take(s as int)) + source_targets(
            s as int,
            0,
        ));
        while a < n
            invariant
                a <= n,
                s < config.sources.len(),
                config@.len() == config.sources.len(),
                n == config@[s as int].artifacts.len(),
                targets_view(targets@) == all_targets(config@.take(s as int)) + source_targets(
                    s as int,
                    a as nat,
                ),
                forall|i: int|
                    0 <= i < targets@.len() ==> target_ok(
                        config@,
                        #[trigger] targets_view(targets@)[i],
                    ),
            decreases n - a,
        {
            let ghost before = targets_view(targets@);
            targets.push((s, a));
            assert(targets_view(targets@) =~= before.push((s as int, a as int)));
            assert(source_targets(s as int, (a + 1) as nat) =~= source_targets(
                s as int,
                a as nat,
            ).push((s as int, a as int)));
            assert(targets_view(targets@) =~= all_targets(config@.take(s as int))
                + source_targets(s as int, (a + 1) as nat));
            a += 1;
        }
        assert(config@.take(s + 1).drop_last() =~= config@.take(s as int));
        assert(config@.take(s + 1).last() == config@[s as int]);
        s += 1;
    }
    assert(config@.take(s as int) =~= config@);
    Fetch::start(config, logins, targets, None)
}

/// Begins a retrieval: of the artifact called `artifact_id` where one is
/// named (see [`fetch_single`]), else of every artifact (see [`fetch_all`]),
/// for which `build_id` is not used.
pub fn fetch<'a>(
    config: &'a Config,
    logins: &'a Logins,
    artifact_id: Option<String>,
    build_id: Option<String>,
) -> (r: Result<(Fetch<'a>, FetchAction), ErdError>)
    ensures
        match r {
            Ok((fetch, action)) => {
                &&& fetch.wf()
                &&& fetch.config() == config@
                &&& fetch.logins() == logins@
            },
            Err(_) => true,
        },
        artifact_id is None ==> match r {
            Ok((fetch, action)) => start_spec(config@, logins@, all_targets(config@), None)
                == Ok::<_, Failure>((fetch@, action@)),
            Err(e) => start_spec(config@, logins@, all_targets(config@), None) == Err::<
                (FetchState, ActionSpec),
                _,
            >(e@),
        },
        artifact_id matches Some(id) ==> {
            &&& no_artifact(config@, id@) ==> r is Err && r->Err_0@ == Failure::NoSuchArtifact(id@)
            &&& !no_artifact(config@, id@) ==> exists|s: int, a: int|
                {
                    &&& is_first_artifact(config@, id@, s, a)
                    &&& match r {
                        Ok((fetch, action)) => start_spec(
                            config@,
                            logins@,
                            seq![(s, a)],
                            option_text(build_id),
                        ) == Ok::<_, Failure>((fetch@, action@)),
                        Err(e) => start_spec(config@, logins@, seq![(s, a)], option_text(build_id))
                            == Err::<(FetchState, ActionSpec), _>(e@),
                    }
                }
        },
{
    match artifact_id {
        Some(art_id) => fetch_single(config, logins, art_id.as_str(), build_id),
        None => fetch_all(config, logins),
    }
}

/// Where a retrieval that began in `st` stands after `events`, each taken in
/// turn. An event that the retrieval does not take at that point is passed
/// over.
pub open spec fn run(
    config: Seq<SourceSpec>,
    logins: Seq<Credential>,
    st: FetchState,
    events: Seq<EventSpec>,
) -> FetchState
    decreases events.len(),
{
    if events.len() == 0 {
        st
    } else {
        let before = run(config, logins, st, events.drop_last());
        if accepts(before.awaiting, events.last()) {
            step_spec(config, logins, before, events.last()).0
        } else {
            before
        }
    }
}

/// Every position in `all_targets` names an artifact of the configuration.
pub proof fn lemma_all_targets_ok(config: Seq<SourceSpec>)
    ensures
        forall|i: int|
            0 <= i < all_targets(config).len() ==> target_ok(config, #[trigger] all_targets(config)[i]),
    decreases config.len(),
{
    if config.len() > 0 {
        let front = config.drop_last();
        lemma_all_targets_ok(front);
        assert forall|i: int| 0 <= i < all_targets(config).len() implies target_ok(
            config,
            #[trigger] all_targets(config)[i],
        ) by {
            if i < all_targets(front).len() {
                let t = all_targets(front)[i];
                assert(target_ok(front, t));
                assert(front[t.0] == config[t.0]);
            }
        }
    }
}

/// `all_targets` lists the artifacts source by source, and those of one
/// source by their position: of two entries the earlier has the earlier
/// source, or the same source and the earlier position. Every artifact of
/// the configuration is listed.
pub proof fn lemma_all_targets_order(config: Seq<SourceSpec>)
    ensures
        forall|i: int, j: int|
            0 <= i < j < all_targets(config).len() ==> {
                let t = #[trigger] all_targets(config)[i];
                let u = #[trigger] all_targets(config)[j];
                t.0 < u.0 || (t.0 == u.0 && t.1 < u.1)
            },
        forall|s: int, a: int| #[trigger]
            target_ok(config, (s, a)) ==> all_targets(config).contains((s, a)),
    decreases config.len(),
{
    if config.len() > 0 {
        let front = config.drop_last();
        let n = all_targets(front).len();
        lemma_all_targets_order(front);
        lemma_all_targets_ok(front);
        assert forall|i: int, j: int| 0 <= i < j < all_targets(config).len() implies {
            let t = #[trigger] all_targets(config)[i];
            let u = #[trigger] all_targets(config)[j];
            t.0 < u.0 || (t.0 == u.0 && t.1 < u.1)
        } by {
            if i < n {
                assert(all_targets(config)[i] == all_targets(front)[i]);
                assert(target_ok(front, all_targets(front)[i]));
            }
            if j < n {
                assert(all_targets(config)[j] == all_targets(front)[j]);
            }
        }
        assert forall|s: int, a: int| #[trigger] target_ok(config, (s, a)) implies all_targets(
            config,
        ).contains((s, a)) by {
            if s < config.len() - 1 {
                assert(front[s] == config[s]);
                assert(target_ok(front, (s, a)));
                let i = choose|i: int|
                    0 <= i < all_targets(front).len() && all_targets(front)[i] == (s, a);
                assert(all_targets(config)[i] == (s, a));
            } else {
                assert(all_targets(config)[n + a] == (s, a));
            }
        }
    }
}

/// A step from a state that a retrieval can be in leads to such a state,
/// keeps the artifacts to retrieve, and keeps the outcomes in their order.
pub proof fn lemma_step_keeps_order(
    config: Seq<SourceSpec>,
    logins: Seq<Credential>,
    st: FetchState,
    event: EventSpec,
)
    requires
        valid(config, st),
        in_order(config, st),
        accepts(st.awaiting, event),
    ensures
        valid(config, step_spec(config, logins, st, event).0),
        in_order(config, step_spec(config, logins, st, event).0),
        step_spec(config, logins, st, event).0.targets == st.targets,
        step_spec(config, logins, st, event).0.build_id == st.build_id,
        st.answers.is_prefix_of(step_spec(config, logins, st, event).0.answers),
{
    let after = step_spec(config, logins, st, event).0;
    assert(target_ok(config, st.targets[st.answers.len() as int]));
    assert forall|i: int| 0 <= i < after.answers.len() implies (#[trigger] after.answers[i]).0
        == config[after.targets[i].0].artifacts[after.targets[i].1].id by {
        if i < st.answers.len() {
            assert(after.answers[i] == st.answers[i]);
        }
    }
}

/// The ids of the artifacts at `targets`, in order.
pub open spec fn target_ids(config: Seq<SourceSpec>, targets: Seq<(int, int)>) -> Seq<Seq<char>> {
    targets.map_values(|t: (int, int)| config[t.0].artifacts[t.1].id)
}

/// The ids that the outcomes in `answers` stand under, in order.
pub open spec fn answer_ids(answers: Seq<(Seq<char>, Outcome)>) -> Seq<Seq<char>> {
    answers.map_values(|p: (Seq<char>, Outcome)| p.0)
}

/// Outcomes come in the order of the configuration. However a retrieval of
/// every artifact goes, and whatever the outcome of each artifact is: the
/// outcomes that it has at any point stand under the ids of the first
/// artifacts of the configuration, in its source-then-artifact order; and
/// when it has an outcome for every artifact, under the ids of all of them.
pub proof fn lemma_fetch_all_in_order(
    config: Seq<SourceSpec>,
    logins: Seq<Credential>,
    events: Seq<EventSpec>,
)
    ensures
        match start_spec(config, logins, all_targets(config), None) {
            Ok((st, first)) => {
                let end = run(config, logins, st, events);
                &&& valid(config, end)
                &&& end.targets == all_targets(config)
                &&& in_order(config, end)
                &&& answer_ids(end.answers) == target_ids(config, all_targets(config)).take(
                    end.answers.len() as int,
                )
                &&& end.answers.len() == all_targets(config).len() ==> answer_ids(end.answers)
                    == target_ids(config, all_targets(config))
            },
            Err(_) => true,
        },
    decreases events.len(),
{
    lemma_all_targets_ok(config);
    match start_spec(config, logins, all_targets(config), None) {
        Ok((st, first)) => {
            if events.len() > 0 {
                lemma_fetch_all_in_order(config, logins, events.drop_last());
                let before = run(config, logins, st, events.drop_last());
                if accepts(before.awaiting, events.last()) {
                    lemma_step_keeps_order(config, logins, before, events.last());
                }
            }
            let end = run(config, logins, st, events);
            let ids = target_ids(config, all_targets(config));
            assert(answer_ids(end.answers) =~= ids.take(end.answers.len() as int));
            assert(ids.take(ids.len() as int) =~= ids);
        },
        Err(_) => {},
    }
}

/// A retrieval says that it has finished only when every artifact has its
/// outcome.
pub proof fn lemma_finished_is_complete(
    config: Seq<SourceSpec>,
    logins: Seq<Credential>,
    st: FetchState,
    event: EventSpec,
)
    requires
        valid(config, st),
        accepts(st.awaiting, event),
    ensures
        step_spec(config, logins, st, event).1 == Ok::<_, Failure>(ActionSpec::Finished)
            ==> step_spec(config, logins, st, event).0.answers.len() == st.targets.len(),
{
}

/// A download that is not answered with an archive ends the retrieval with
/// a request error, and leaves the outcomes as they are. For a retrieval that
/// asked for `request` to be sent: where the response comes with a status
/// that is an error, the failure names the URL that was asked for and says
/// the request's words for such a status; where the request could not be
/// sent, it names the URL that the cause names and says the request's words
/// for that.
pub proof fn lemma_failed_download(
    config: Seq<SourceSpec>,
    logins: Seq<Credential>,
    st: FetchState,
    request: RequestSpec,
    named: Option<Seq<char>>,
    cause: Seq<char>,
)
    requires
        st.awaiting == awaiting_archive(request),
    ensures
        step_spec(config, logins, st, EventSpec::Refused(cause)) == (
            FetchState { awaiting: Awaiting::Nothing, ..st },
            Err::<ActionSpec, _>(
                request_error(Some(request.url), request.status_failure + ": "@ + cause),
            ),
        ),
        step_spec(config, logins, st, EventSpec::Unsent(named, cause)) == (
            FetchState { awaiting: Awaiting::Nothing, ..st },
            Err::<ActionSpec, _>(request_error(named, request.failure + ": "@ + cause)),
        ),
        request_error(Some(request.url), request.status_failure + ": "@ + cause)
            is SourceRequestError,
{
}

/// What the store holds under `name`, if anything.
pub open spec fn stored_copy(store: Map<Seq<char>, Seq<u8>>, name: Seq<char>) -> Option<Seq<u8>> {
    if store.dom().contains(name) {
        Some(store[name])
    } else {
        None
    }
}

/// What becomes of a retrieval that has extracted a file, and of the store,
/// when the caller does as it is told: it hands over the stored copy of the
/// file's name and, where it is then told to write, writes the file under
/// that name and reports it.
pub open spec fn settle(
    config: Seq<SourceSpec>,
    logins: Seq<Credential>,
    st: FetchState,
    store: Map<Seq<char>, Seq<u8>>,
) -> (FetchState, Map<Seq<char>, Seq<u8>>) {
    match st.awaiting {
        Awaiting::Stored(file) => {
            let read = step_spec(
                config,
                logins,
                st,
                EventSpec::Stored(stored_copy(store, file.name)),
            );
            match read.1 {
                Ok(ActionSpec::WriteStored(written)) => (
                    step_spec(config, logins, read.0, EventSpec::Written).0,
                    store.insert(written.name, written.data),
                ),
                _ => (read.0, store),
            }
        },
        _ => (st, store),
    }
}

/// The same content is written once. A retrieval that extracts `file` while
/// the store holds nothing under its name ends in `NewArtifact` and leaves
/// the file in the store. A later retrieval that extracts the same content
/// under that name ends in `UpToDate` and leaves the store as it is. One that
/// extracts content with another digest ends in `NewArtifact` again, and the
/// store then holds the new content.
pub proof fn lemma_fetch_twice(
    config: Seq<SourceSpec>,
    logins: Seq<Credential>,
    first: FetchState,
    second: FetchState,
    third: FetchState,
    store: Map<Seq<char>, Seq<u8>>,
    file: ExtractedFile,
    changed: Seq<u8>,
)
    requires
        !store.dom().contains(file.name),
        first.awaiting == Awaiting::Stored(file),
        second.awaiting == Awaiting::Stored(file),
        third.awaiting == Awaiting::Stored(ExtractedFile { name: file.name, data: changed }),
        crate::digest::sha256(changed) != crate::digest::sha256(file.data),
    ensures
        ({
            let one = settle(config, logins, first, store);
            let two = settle(config, logins, second, one.1);
            let three = settle(config, logins, third, two.1);
            &&& one.0.answers.last().1 == Outcome::NewArtifact(file.name)
            &&& one.0.answers.len() == first.answers.len() + 1
            &&& stored_copy(one.1, file.name) == Some(file.data)
            &&& two.0.answers.last().1 == Outcome::UpToDate(file.name)
            &&& two.0.answers.len() == second.answers.len() + 1
            &&& two.1 == one.1
            &&& three.0.answers.last().1 == Outcome::NewArtifact(file.name)
            &&& three.0.answers.len() == third.answers.len() + 1
            &&& stored_copy(three.1, file.name) == Some(changed)
        }),
{
}

} // verus!
