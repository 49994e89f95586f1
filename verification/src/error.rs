//! What can go wrong, and how each failure is worded.

use vstd::prelude::*;
use vstd::string::StringExecFns;
use crate::config::{source_type_name, SourceType};

verus! {

/// What an `ErdError` holds, as plain text.
pub enum Failure {
    NoSuchArtifact(Seq<char>),
    NoSuchSource(Seq<char>),
    SourceRequestError { source: SourceType, url: Seq<char>, desc: Seq<char> },
    InvalidToken(Seq<char>),
    NoLogin { source_url: Seq<char> },
    IOError(Seq<char>, Seq<char>),
    Deserialize(Seq<char>, Seq<char>),
}

/// A failure of an operation. None is retried: each ends the operation that
/// met it.
#[derive(Debug)]
pub enum ErdError {
    /// No configured artifact has this id.
    NoSuchArtifact(String),
    /// No configured source has this id.
    NoSuchSource(String),
    /// A request to a source failed: in transport, by its status, or because
    /// the response could not be read.
    SourceRequestError { source: SourceType, url: String, desc: String },
    /// The secret cannot be sent as a request header.
    InvalidToken(String),
    /// No credential applies to the source.
    NoLogin { source_url: String },
    /// Reading or writing failed: the cause, then what was being done.
    IOError(String, String),
    /// Stored data could not be read back: the cause, then what was read.
    Deserialize(String, String),
}

impl View for ErdError {
    type V = Failure;

    open spec fn view(&self) -> Failure {
        match self {
            ErdError::NoSuchArtifact(id) => Failure::NoSuchArtifact(id@),
            ErdError::NoSuchSource(id) => Failure::NoSuchSource(id@),
            ErdError::SourceRequestError { source, url, desc } => Failure::SourceRequestError {
                source: *source,
                url: url@,
                desc: desc@,
            },
            ErdError::InvalidToken(token) => Failure::InvalidToken(token@),
            ErdError::NoLogin { source_url } => Failure::NoLogin { source_url: source_url@ },
            ErdError::IOError(cause, desc) => Failure::IOError(cause@, desc@),
            ErdError::Deserialize(cause, desc) => Failure::Deserialize(cause@, desc@),
        }
    }
}

/// The wording of a failure.
pub open spec fn message(f: Failure) -> Seq<char> {
    match f {
        Failure::NoSuchArtifact(id) => "No such artifact: '"@ + id + "'"@,
        Failure::NoSuchSource(id) => "No such source: '"@ + id + "'"@,
        Failure::SourceRequestError { source, url, desc } => "Error requesting "@ + url + " from "@
            + source_type_name(source) + ": "@ + desc,
        Failure::InvalidToken(token) => "Token was invalid: '"@ + token + "'"@,
        Failure::NoLogin { source_url } => "Missing login for "@ + source_url,
        Failure::IOError(cause, desc) => desc + ": "@ + cause,
        Failure::Deserialize(cause, desc) => "Failed to deserialize: "@ + desc + ". "@ + cause,
    }
}

impl ErdError {
    /// The failure in words.
    pub fn describe(&self) -> (r: String)
        ensures
            r@ == message(self@),
    {
        match self {
            ErdError::NoSuchArtifact(id) => {
                let mut out = String::from_str("No such artifact: '");
                out.append(id.as_str());
                out.append("'");
                out
            },
            ErdError::NoSuchSource(id) => {
                let mut out = String::from_str("No such source: '");
                out.append(id.as_str());
                out.append("'");
                out
            },
            ErdError::SourceRequestError { source, url, desc } => {
                let mut out = String::from_str("Error requesting ");
                out.append(url.as_str());
                out.append(" from ");
                out.append(source.name());
                out.append(": ");
                out.append(desc.as_str());
                out
            },
            ErdError::InvalidToken(token) => {
                let mut out = String::from_str("Token was invalid: '");
                out.append(token.as_str());
                out.append("'");
                out
            },
            ErdError::NoLogin { source_url } => {
                let mut out = String::from_str("Missing login for ");
                out.append(source_url.as_str());
                out
            },
            ErdError::IOError(cause, desc) => {
                let mut out = desc.clone();
                out.append(": ");
                out.append(cause.as_str());
                out
            },
            ErdError::Deserialize(cause, desc) => {
                let mut out = String::from_str("Failed to deserialize: ");
                out.append(desc.as_str());
                out.append(". ");
                out.append(cause.as_str());
                out
            },
        }
    }
}

} // verus!
