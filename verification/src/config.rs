//! The artifact configuration: sources and the artifacts that each offers.

use vstd::prelude::*;
use vstd::string::StringExecFns;
use crate::error::ErdError;
use crate::text::str_eq;

verus! {

/// The kind of CI platform behind a source.
#[derive(Debug, Clone, Copy, PartialEq, Eq, Structural)]
pub enum SourceType {
    Gitlab,
}

impl SourceType {
    /// The name of the kind, as it is shown in messages.
    pub fn name(&self) -> (r: &'static str)
        ensures
            r@ == source_type_name(*self),
    {
        match self {
            SourceType::Gitlab => "Gitlab",
        }
    }

    /// The id that the first source of a kind is given: the name in lower
    /// case.
    pub fn default_id(&self) -> (r: &'static str)
        ensures
            r@ == source_type_id(*self),
    {
        match self {
            SourceType::Gitlab => "gitlab",
        }
    }

    /// The URL of the public instance of a kind.
    pub fn default_url(&self) -> (r: &'static str)
        ensures
            r@ == source_type_url(*self),
    {
        match self {
            SourceType::Gitlab => "https://gitlab.com/",
        }
    }

    /// The kind that a lower-case name stands for, if any.
    pub fn from_name(name: &str) -> (r: Option<SourceType>)
        ensures
            r == if name@ == "gitlab"@ {
                Some(SourceType::Gitlab)
            } else {
                None
            },
    {
        if str_eq(name, "gitlab") {
            Some(SourceType::Gitlab)
        } else {
            None
        }
    }
}

/// The name of a kind, as text.
pub open spec fn source_type_name(kind: SourceType) -> Seq<char> {
    match kind {
        SourceType::Gitlab => "Gitlab"@,
    }
}

/// The id that the first source of a kind is given.
pub open spec fn source_type_id(kind: SourceType) -> Seq<char> {
    match kind {
        SourceType::Gitlab => "gitlab"@,
    }
}

/// The URL of the public instance of a kind.
pub open spec fn source_type_url(kind: SourceType) -> Seq<char> {
    match kind {
        SourceType::Gitlab => "https://gitlab.com/"@,
    }
}

/// What an `ArtifactConfig` holds, as plain text.
pub struct ArtifactSpec {
    pub id: Seq<char>,
    pub project_id: Seq<char>,
    pub branch: Seq<char>,
    pub pattern: Seq<char>,
}

/// A retrievable build output: the upstream project and branch that it comes
/// from, and the suffix by which its file is recognised in a job's archive.
#[derive(Debug)]
pub struct ArtifactConfig {
    pub id: String,
    pub project_id: String,
    pub branch: String,
    pub artifact_pattern: String,
}

impl View for ArtifactConfig {
    type V = ArtifactSpec;

    open spec fn view(&self) -> ArtifactSpec {
        ArtifactSpec {
            id: self.id@,
            project_id: self.project_id@,
            branch: self.branch@,
            pattern: self.artifact_pattern@,
        }
    }
}

/// What a `SourceConfig` holds, as plain values.
pub struct SourceSpec {
    pub id: Seq<char>,
    pub url: Seq<char>,
    pub kind: SourceType,
    pub artifacts: Seq<ArtifactSpec>,
}

/// An upstream endpoint with the artifacts configured for it, in order.
#[derive(Debug)]
pub struct SourceConfig {
    pub id: String,
    pub url: String,
    pub kind: SourceType,
    pub artifacts: Vec<ArtifactConfig>,
}

impl View for SourceConfig {
    type V = SourceSpec;

    open spec fn view(&self) -> SourceSpec {
        SourceSpec {
            id: self.id@,
            url: self.url@,
            kind: self.kind,
            artifacts: self.artifacts@.map_values(|a: ArtifactConfig| a@),
        }
    }
}

/// The configured sources, in order.
#[derive(Debug)]
pub struct Config {
    pub sources: Vec<SourceConfig>,
}

impl View for Config {
    type V = Seq<SourceSpec>;

    open spec fn view(&self) -> Seq<SourceSpec> {
        self.sources@.map_values(|s: SourceConfig| s@)
    }
}

/// Artifact `a` of source `s` is the first artifact named `id`, going through
/// the sources in order and through each source's artifacts in order.
pub open spec fn is_first_artifact(config: Seq<SourceSpec>, id: Seq<char>, s: int, a: int) -> bool {
    &&& 0 <= s < config.len()
    &&& 0 <= a < config[s].artifacts.len()
    &&& config[s].artifacts[a].id == id
    &&& forall|j: int| 0 <= j < a ==> (#[trigger] config[s].artifacts[j]).id != id
    &&& forall|i: int, j: int|
        0 <= i < s && 0 <= j < config[i].artifacts.len() ==> (#[trigger] config[i].artifacts[j]).id
            != id
}

/// No source has an artifact named `id`.
pub open spec fn no_artifact(config: Seq<SourceSpec>, id: Seq<char>) -> bool {
    forall|i: int, j: int|
        0 <= i < config.len() && 0 <= j < config[i].artifacts.len() ==> (
        #[trigger] config[i].artifacts[j]).id != id
}

/// Source `s` is the first source named `id`.
pub open spec fn is_first_source(config: Seq<SourceSpec>, id: Seq<char>, s: int) -> bool {
    &&& 0 <= s < config.len()
    &&& config[s].id == id
    &&& forall|i: int| 0 <= i < s ==> (#[trigger] config[i]).id != id
}

/// No source is named `id`.
pub open spec fn no_source(config: Seq<SourceSpec>, id: Seq<char>) -> bool {
    forall|i: int| 0 <= i < config.len() ==> (#[trigger] config[i]).id != id
}

impl SourceConfig {
    /// The position of the first artifact of this source named `id`.
    pub fn find_artifact(&self, id: &str) -> (r: Option<usize>)
        ensures
            match r {
                Some(a) => {
                    &&& a < self@.artifacts.len()
                    &&& self@.artifacts[a as int].id == id@
                    &&& forall|j: int| 0 <= j < a ==> (#[trigger] self@.artifacts[j]).id != id@
                },
                None => forall|j: int|
                    0 <= j < self@.artifacts.len() ==> (#[trigger] self@.artifacts[j]).id != id@,
            },
    {
        let mut a: usize = 0;
        while a < self.artifacts.len()
            invariant
                a <= self.artifacts.len(),
                self@.artifacts.len() == self.artifacts.len(),
                forall|j: int| 0 <= j < a ==> (#[trigger] self@.artifacts[j]).id != id@,
            decreases self.artifacts.len() - a,
        {
            assert(self@.artifacts[a as int] == self.artifacts@[a as int]@);
            if str_eq(self.artifacts[a].id.as_str(), id) {
                return Some(a);
            }
            a += 1;
        }
        None
    }
}

impl Config {
    /// Where the first artifact named `id` stands: the position of its source
    /// and its position among that source's artifacts.
    pub fn find_artifact(&self, id: &str) -> (r: Option<(usize, usize)>)
        ensures
            match r {
                Some((s, a)) => is_first_artifact(self@, id@, s as int, a as int),
                None => no_artifact(self@, id@),
            },
    {
        let mut s: usize = 0;
        while s < self.sources.len()
            invariant
                s <= self.sources.len(),
                self@.len() == self.sources.len(),
                forall|i: int, j: int|
                    0 <= i < s && 0 <= j < self@[i].artifacts.len() ==> (
                    #[trigger] self@[i].artifacts[j]).id != id@,
            decreases self.sources.len() - s,
        {
            assert(self@[s as int] == self.sources@[s as int]@);
            match self.sources[s].find_artifact(id) {
                Some(a) => {
                    return Some((s, a));
                },
                None => {},
            }
            s += 1;
        }
        None
    }

    /// The position of the first source named `id`.
    pub fn find_source(&self, id: &str) -> (r: Option<usize>)
        ensures
            match r {
                Some(s) => is_first_source(self@, id@, s as int),
                None => no_source(self@, id@),
            },
    {
        let mut s: usize = 0;
        while s < self.sources.len()
            invariant
                s <= self.sources.len(),
                self@.len() == self.sources.len(),
                forall|i: int| 0 <= i < s ==> (#[trigger] self@[i]).id != id@,
            decreases self.sources.len() - s,
        {
            assert(self@[s as int] == self.sources@[s as int]@);
            if str_eq(self.sources[s].id.as_str(), id) {
                return Some(s);
            }
            s += 1;
        }
        None
    }

    /// Appends `artifact` to the artifacts of the first source named
    /// `source`. Fails, and changes nothing, when no source has that name.
    pub fn add_artifact(&mut self, source: &str, artifact: ArtifactConfig) -> (r: Result<
        (),
        ErdError,
    >)
        ensures
            match r {
                Ok(()) => exists|s: int|
                    {
                        &&& is_first_source(old(self)@, source@, s)
                        &&& final(self)@ == old(self)@.update(
                            s,
                            SourceSpec {
                                artifacts: old(self)@[s].artifacts.push(artifact@),
                                ..old(self)@[s]
                            },
                        )
                    },
                Err(e) => {
                    &&& no_source(old(self)@, source@)
                    &&& e@ == crate::error::Failure::NoSuchSource(source@)
                    &&& *final(self) == *old(self)
                },
            },
    {
        match self.find_source(source) {
            Some(s) => {
                let ghost before = self.sources@[s as int];
                self.sources[s].artifacts.push(artifact);
                assert(self.sources@[s as int]@.artifacts =~= before@.artifacts.push(artifact@));
                assert(self@ =~= old(self)@.update(
                    s as int,
                    SourceSpec {
                        artifacts: old(self)@[s as int].artifacts.push(artifact@),
                        ..old(self)@[s as int]
                    },
                ));
                Ok(())
            },
            None => Err(ErdError::NoSuchSource(String::from_str(source))),
        }
    }
}

/// The configuration that a project starts with: one source of the given
/// kind, named after the kind, without artifacts. An empty `url` stands for
/// the public instance.
pub fn init_config(source_type: SourceType, url: String) -> (r: Config)
    ensures
        r@ == seq![
            SourceSpec {
                id: source_type_id(source_type),
                url: if url@.len() == 0 {
                    source_type_url(source_type)
                } else {
                    url@
                },
                kind: source_type,
                artifacts: seq![],
            },
        ],
{
    let url = if url.as_str().is_empty() {
        String::from_str(source_type.default_url())
    } else {
        url
    };
    let source_config = SourceConfig {
        id: String::from_str(source_type.default_id()),
        url,
        kind: source_type,
        artifacts: Vec::new(),
    };
    assert(source_config@.artifacts =~= seq![]);
    let mut sources: Vec<SourceConfig> = Vec::new();
    sources.push(source_config);
    let config = Config { sources };
    assert(config@ =~= seq![source_config@]);
    config
}

/// The name of the file that holds the artifact configuration.
pub const ARTIFACTS_FILE: &'static str = "artifacts.toml";

/// The name of the directory, within the local directory, that retrieved
/// files are stored in.
pub const DOWNLOADS_DIR: &'static str = "downloads";

/// The directory, relative to the project, in which per-project data is kept.
pub fn get_local_dir() -> (r: String)
    ensures
        r@ == ".erd"@,
{
    String::from_str(".erd")
}

} // verus!
