//! Why a download was refused.

use crate::models::DownloadParams;
use vstd::prelude::*;
use vstd::string::StringExecFns;

verus! {

/// The ways in which a download can fail. Each one reaches the client as an
/// outcome of its own.
#[derive(Clone, Copy, Debug, PartialEq, Eq, Structural)]
pub enum DownloadError {
    /// No session is known under the client identifier.
    UnknownClient,
    /// The session is known, but its deadline has passed.
    ExpiredClient,
    /// The session is live, but holds no such token: it was never issued, or
    /// it has been used.
    UnknownOrConsumedToken,
    /// The token was good, but the file it stands for cannot be opened.
    FileUnavailable,
}

/// The HTTP status that reports `error`.
pub open spec fn status_of(error: DownloadError) -> int {
    match error {
        DownloadError::UnknownClient => 404,
        DownloadError::ExpiredClient => 400,
        DownloadError::UnknownOrConsumedToken => 404,
        DownloadError::FileUnavailable => 500,
    }
}

/// The words that open the message of `error`.
pub open spec fn headline_of(error: DownloadError) -> Seq<char> {
    match error {
        DownloadError::UnknownClient => "Unrecognised client: "@,
        DownloadError::ExpiredClient => "Expired client: "@,
        DownloadError::UnknownOrConsumedToken => "Unrecognised token: "@,
        DownloadError::FileUnavailable => "Unavailable file: "@,
    }
}

impl DownloadError {
    /// The HTTP status under which the error is reported.
    pub fn status_code(&self) -> (code: u16)
        ensures
            code == status_of(*self),
    {
        match self {
            DownloadError::UnknownClient => 404,
            DownloadError::ExpiredClient => 400,
            DownloadError::UnknownOrConsumedToken => 404,
            DownloadError::FileUnavailable => 500,
        }
    }

    /// The message that reports the error about `subject`: the client
    /// identifier, the token or the file's presented name.
    pub fn message(&self, subject: &str) -> (text: String)
        ensures
            text@ == headline_of(*self) + subject@,
    {
        let headline = match self {
            DownloadError::UnknownClient => "Unrecognised client: ",
            DownloadError::ExpiredClient => "Expired client: ",
            DownloadError::UnknownOrConsumedToken => "Unrecognised token: ",
            DownloadError::FileUnavailable => "Unavailable file: ",
        };
        String::from_str(headline).concat(subject)
    }
}

/// What the message of `error` names when the download was asked for with
/// `params`: the token where the token is at fault or the file behind it,
/// the client where the client is.
pub open spec fn subject_of(error: DownloadError, params: DownloadParams) -> Seq<char> {
    match error {
        DownloadError::UnknownClient => params.client@,
        DownloadError::ExpiredClient => params.client@,
        DownloadError::UnknownOrConsumedToken => params.token@,
        DownloadError::FileUnavailable => params.token@,
    }
}

/// The message that tells the client why the download asked for with
/// `params` was refused.
pub fn refusal_text(error: DownloadError, params: &DownloadParams) -> (text: String)
    ensures
        text@ == headline_of(error) + subject_of(error, *params),
{
    match error {
        DownloadError::UnknownClient => error.message(params.client.as_str()),
        DownloadError::ExpiredClient => error.message(params.client.as_str()),
        DownloadError::UnknownOrConsumedToken => error.message(params.token.as_str()),
        DownloadError::FileUnavailable => error.message(params.token.as_str()),
    }
}

/// Two errors that share a status are told apart by their messages.
pub proof fn lemma_errors_distinct(a: DownloadError, b: DownloadError)
    requires
        a != b,
    ensures
        status_of(a) != status_of(b) || headline_of(a) != headline_of(b),
{
    reveal_strlit("Unrecognised client: ");
    reveal_strlit("Unrecognised token: ");
    if status_of(a) == status_of(b) {
        assert("Unrecognised client: "@[13] == 'c');
        assert("Unrecognised token: "@[13] == 't');
    }
}

} // verus!
