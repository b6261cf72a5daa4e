//! Errors of the client.

use std::sync::Arc;

use vstd::prelude::*;

use crate::message::DataError;

verus! {

/// Why an HTTP request failed.
#[verifier::external_type_specification]
#[verifier::external_body]
pub struct ExRequestError(reqwest::Error);

/// Why a frame could not be read.
#[derive(Debug)]
pub enum DecodeError {
    /// The frame is no JSON text.
    InvalidData(serde_json::Error),
    /// The frame is no list of messages.
    InvalidMessages(DataError),
}

/// What can go wrong between the client and the server.
#[derive(Debug, Clone)]
pub enum ClientError {
    /// No poller is running.
    NoPoller,
    /// The poller was told to stop.
    Abort,
    /// A chunk did not complete a frame.
    Incomplete,
    /// A frame could not be read.
    IOError(Arc<DecodeError>),
    /// A request failed.
    RequestError(Arc<reqwest::Error>),
    /// A poll held something that could not be read.
    UnknownError,
}

impl ClientError {
    /// This error in words.
    pub fn to_string(&self) -> (text: String)
        ensures
            text@ == (match *self {
                ClientError::NoPoller => "no poller"@,
                ClientError::Abort => "aborted"@,
                ClientError::Incomplete => "incomplete frame"@,
                ClientError::IOError(_) => "io error"@,
                ClientError::RequestError(_) => "request error"@,
                ClientError::UnknownError => "unknown erorr"@,
            }),
    {
        match self {
            ClientError::NoPoller => "no poller".to_owned(),
            ClientError::Abort => "aborted".to_owned(),
            ClientError::Incomplete => "incomplete frame".to_owned(),
            ClientError::IOError(_) => "io error".to_owned(),
            ClientError::RequestError(_) => "request error".to_owned(),
            ClientError::UnknownError => "unknown erorr".to_owned(),
        }
    }
}

/// Errors of different kinds are put in different words.
pub proof fn law_errors_have_words_of_their_own(error: ClientError, words: String)
    requires
        call_ensures(ClientError::to_string, (&error,), words),
    ensures
        error is NoPoller <==> words@ == "no poller"@,
        error is Abort <==> words@ == "aborted"@,
        error is Incomplete <==> words@ == "incomplete frame"@,
        error is IOError <==> words@ == "io error"@,
        error is RequestError <==> words@ == "request error"@,
        error is UnknownError <==> words@ == "unknown erorr"@,
{
    reveal_strlit("no poller");
    reveal_strlit("aborted");
    reveal_strlit("incomplete frame");
    reveal_strlit("io error");
    reveal_strlit("request error");
    reveal_strlit("unknown erorr");
    assert("no poller"@[0] == 'n');
    assert("aborted"@[0] == 'a');
    assert("incomplete frame"@[1] == 'n');
    assert("io error"@[1] == 'o');
    assert("request error"@[0] == 'r');
    assert("unknown erorr"@[0] == 'u');
    assert("incomplete frame"@[0] == 'i');
    assert("io error"@[0] == 'i');
}

} // verus!
