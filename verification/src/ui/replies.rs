//! What the popup makes of the answers of the daemon.

use vstd::prelude::*;

use crate::config::Config;
use crate::ipc::ServerMessage;
use crate::text::concat2;
use crate::types::EntrySummary;

verus! {

// ---------------------------------------------------------------------------
// Connection
// ---------------------------------------------------------------------------

/// What came of sending a request and waiting for the answer.
#[derive(Debug)]
pub enum Exchange {
    /// No connection could be made, for this reason.
    NotConnected(String),
    /// The request could not be sent, for this reason.
    NotSent(String),
    /// The answer could not be read, for this reason.
    NotReceived(String),
    /// This answer came.
    Received(ServerMessage),
}

/// Whether the connection can be used again, and the answer or why there is
/// none.
pub fn exchange_result(exchange: Exchange) -> (r: (
    bool,
    std::result::Result<ServerMessage, String>,
))
    ensures
        r.0 == (exchange is Received),
        match (exchange, r.1) {
            (Exchange::NotConnected(e), Err(m)) => m@ == "cannot connect to daemon: "@ + e@,
            (Exchange::NotSent(e), Err(m)) => m@ == "failed to send IPC message: "@ + e@,
            (Exchange::NotReceived(e), Err(m)) => m@ == "failed to read IPC response: "@ + e@,
            (Exchange::Received(a), Ok(b)) => a == b,
            _ => false,
        },
{
    match exchange {
        Exchange::NotConnected(e) => (
            false,
            Err(concat2("cannot connect to daemon: ", e.as_str())),
        ),
        Exchange::NotSent(e) => (false, Err(concat2("failed to send IPC message: ", e.as_str()))),
        Exchange::NotReceived(e) => (
            false,
            Err(concat2("failed to read IPC response: ", e.as_str())),
        ),
        Exchange::Received(m) => (true, Ok(m)),
    }
}

// ---------------------------------------------------------------------------
// Answers
// ---------------------------------------------------------------------------

/// Why a request failed.
#[derive(Debug)]
pub enum Failure {
    /// With this message.
    Message(String),
    /// With an answer that the request cannot have.
    Unexpected(ServerMessage),
}

/// `failure` is what comes of an answer that is neither the expected one nor
/// missing.
pub open spec fn is_failure(
    failure: Failure,
    answer: std::result::Result<ServerMessage, String>,
) -> bool {
    match (answer, failure) {
        (Err(e), Failure::Message(m)) => m == e,
        (Ok(ServerMessage::Error { message, .. }), Failure::Message(m)) => m == message,
        (Ok(other), Failure::Unexpected(m)) => m == other && !(other is Error),
        _ => false,
    }
}

/// The answer to a query: the entries and how many there are in all.
pub fn query_answer(answer: std::result::Result<ServerMessage, String>) -> (r: std::result::Result<
    (Vec<EntrySummary>, u32),
    Failure,
>)
    ensures
        match r {
            Ok((found, count)) => (answer matches Ok(
                ServerMessage::QueryResult { entries, total, .. },
            ) && entries == found && total == count),
            Err(f) => is_failure(f, answer) && !(answer is Ok && answer->Ok_0 is QueryResult),
        },
{
    match answer {
        Ok(ServerMessage::QueryResult { entries, total, .. }) => Ok((entries, total)),
        Ok(ServerMessage::Error { message, .. }) => Err(Failure::Message(message)),
        Ok(other) => Err(Failure::Unexpected(other)),
        Err(e) => Err(Failure::Message(e)),
    }
}

/// The answer to a request to restore an entry.
pub fn restore_answer(answer: std::result::Result<ServerMessage, String>) -> (r:
    std::result::Result<(), Failure>)
    ensures
        match answer {
            Ok(ServerMessage::RestoreResult { success, error, .. }) => match r {
                Ok(_) => success,
                Err(Failure::Message(m)) => !success && m@ == match error {
                    Some(e) => e@,
                    None => "restore failed"@,
                },
                Err(Failure::Unexpected(_)) => false,
            },
            _ => r is Err && is_failure(r->Err_0, answer),
        },
{
    match answer {
        Ok(ServerMessage::RestoreResult { success, error, .. }) => if success {
            Ok(())
        } else {
            Err(
                Failure::Message(
                    match error {
                        Some(e) => e,
                        None => "restore failed".to_owned(),
                    },
                ),
            )
        },
        Ok(ServerMessage::Error { message, .. }) => Err(Failure::Message(message)),
        Ok(other) => Err(Failure::Unexpected(other)),
        Err(e) => Err(Failure::Message(e)),
    }
}

/// The answer to a request that needs no more than an acknowledgement: to
/// delete, pin or clear.
pub fn acknowledgement(answer: std::result::Result<ServerMessage, String>) -> (r:
    std::result::Result<(), Failure>)
    ensures
        match r {
            Ok(_) => answer is Ok && answer->Ok_0 is Acknowledged,
            Err(f) => is_failure(f, answer) && !(answer is Ok && answer->Ok_0 is Acknowledged),
        },
{
    match answer {
        Ok(ServerMessage::Acknowledged { .. }) => Ok(()),
        Ok(ServerMessage::Error { message, .. }) => Err(Failure::Message(message)),
        Ok(other) => Err(Failure::Unexpected(other)),
        Err(e) => Err(Failure::Message(e)),
    }
}

/// The answer to a request to read or change the configuration.
pub fn config_answer(answer: std::result::Result<ServerMessage, String>) -> (r:
    std::result::Result<Config, Failure>)
    ensures
        match r {
            Ok(c) => (answer matches Ok(ServerMessage::ConfigValue { config, .. }) && config == c),
            Err(f) => is_failure(f, answer) && !(answer is Ok && answer->Ok_0 is ConfigValue),
        },
{
    match answer {
        Ok(ServerMessage::ConfigValue { config, .. }) => Ok(config),
        Ok(ServerMessage::Error { message, .. }) => Err(Failure::Message(message)),
        Ok(other) => Err(Failure::Unexpected(other)),
        Err(e) => Err(Failure::Message(e)),
    }
}

} // verus!
