//! The answers of the IPC server: what the UI is sent for each request.
use crate::flow::{stats_view, ProcessStats, StatsView};
use crate::text::str_equals;
use vstd::prelude::*;
use vstd::string::*;

verus! {

/// Message sent to the UI over the named pipe.
#[derive(Debug)]
pub struct IpcResponse {
    /// "stats" | "error" | "ack"
    pub msg_type: &'static str,
    /// Present when type == "stats"
    pub data: Option<Vec<ProcessStats>>,
    /// Present when type == "error"
    pub error: Option<String>,
}

/// The abstract value of an [`IpcResponse`].
pub struct ResponseView {
    pub msg_type: Seq<char>,
    pub data: Option<Seq<StatsView>>,
    pub error: Option<Seq<char>>,
}

impl View for IpcResponse {
    type V = ResponseView;

    open spec fn view(&self) -> ResponseView {
        ResponseView {
            msg_type: self.msg_type@,
            data: match self.data {
                Some(v) => Some(stats_view(v@)),
                None => None,
            },
            error: match self.error {
                Some(e) => Some(e@),
                None => None,
            },
        }
    }
}

/// A "stats" answer carrying `data`.
pub open spec fn spec_stats_response(data: Seq<StatsView>) -> ResponseView {
    ResponseView { msg_type: "stats"@, data: Some(data), error: None }
}

/// An "error" answer carrying `msg`.
pub open spec fn spec_error_response(msg: Seq<char>) -> ResponseView {
    ResponseView { msg_type: "error"@, data: None, error: Some(msg) }
}

/// The "ack" answer.
pub open spec fn spec_ack_response() -> ResponseView {
    ResponseView { msg_type: "ack"@, data: None, error: None }
}

/// The answer to one request line: `Ok(command)` when the line was a
/// well-formed request, `Err(reason)` when it was not.
pub open spec fn spec_handle_request(
    request: Result<Seq<char>, Seq<char>>,
    stats: Seq<StatsView>,
) -> ResponseView {
    match request {
        Ok(command) => if command == "get_stats"@ {
            spec_stats_response(stats)
        } else if command == "ping"@ {
            spec_ack_response()
        } else {
            spec_error_response("Unknown command: "@ + command)
        },
        Err(reason) => spec_error_response("Invalid JSON: "@ + reason),
    }
}

impl IpcResponse {
    pub fn stats(data: Vec<ProcessStats>) -> (r: Self)
        ensures
            r@ == spec_stats_response(stats_view(data@)),
    {
        IpcResponse { msg_type: "stats", data: Some(data), error: None }
    }

    /// Build a stats response from a borrowed slice (each record copied).
    pub fn stats_ref(data: &[ProcessStats]) -> (r: Self)
        ensures
            r@ == spec_stats_response(stats_view(data@)),
    {
        let mut v: Vec<ProcessStats> = Vec::new();
        let mut i: usize = 0;
        while i < data.len()
            invariant
                i <= data@.len(),
                v@.len() == i,
                forall|k: int| 0 <= k < i ==> #[trigger] v@[k]@ == data@[k]@,
            decreases data@.len() - i,
        {
            v.push(data[i].clone());
            i = i + 1;
        }
        assert(stats_view(v@) =~= stats_view(data@));
        IpcResponse { msg_type: "stats", data: Some(v), error: None }
    }

    pub fn error(msg: &str) -> (r: Self)
        ensures
            r@ == spec_error_response(msg@),
    {
        IpcResponse { msg_type: "error", data: None, error: Some(String::from_str(msg)) }
    }

    pub fn ack() -> (r: Self)
        ensures
            r@ == spec_ack_response(),
    {
        IpcResponse { msg_type: "ack", data: None, error: None }
    }
}

/// Answers one request line, given the latest snapshot: "get_stats" gets
/// the snapshot, "ping" an acknowledgement, any other command an error
/// naming it, and a line that is not a request an error with the reason.
pub fn handle_request(request: &Result<String, String>, stats: &[ProcessStats]) -> (r: IpcResponse)
    ensures
        r@ == spec_handle_request(
            match request {
                Ok(c) => Ok(c@),
                Err(e) => Err(e@),
            },
            stats_view(stats@),
        ),
{
    match request {
        Ok(command) => {
            if str_equals(command.as_str(), "get_stats") {
                IpcResponse::stats_ref(stats)
            } else if str_equals(command.as_str(), "ping") {
                IpcResponse::ack()
            } else {
                let msg = String::from_str("Unknown command: ").concat(command.as_str());
                IpcResponse::error(msg.as_str())
            }
        },
        Err(reason) => {
            let msg = String::from_str("Invalid JSON: ").concat(reason.as_str());
            IpcResponse::error(msg.as_str())
        },
    }
}

} // verus!
