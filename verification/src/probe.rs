//! What one probe of an endpoint amounts to.

use vstd::prelude::*;

verus! {

/// How a single GET request ended.
#[derive(Clone, Copy, Debug, PartialEq, Eq, Structural)]
pub enum ProbeReply {
    /// A response arrived within the timeout, with this HTTP status code,
    /// this many microseconds after the request was sent.
    Response { status: u16, elapsed_micros: u64 },
    /// No response arrived: the connection failed or the timeout ran out.
    Failed,
}

/// What a probe amounts to for the monitor: success or failure, and the
/// response time in microseconds.
#[derive(Clone, Copy, Debug, PartialEq, Eq, Structural)]
pub struct Check {
    pub success: bool,
    pub elapsed_micros: u64,
}

/// Whether an HTTP status code is one of success: 200 to 299.
pub open spec fn is_success_status(status: u16) -> bool {
    200 <= status < 300
}

/// Whether the probe succeeded: a response arrived and its status is one of
/// success.
pub open spec fn success_of(reply: ProbeReply) -> bool {
    match reply {
        ProbeReply::Response { status, .. } => is_success_status(status),
        ProbeReply::Failed => false,
    }
}

/// The response time to record, in microseconds: that of the response, and
/// zero where none arrived.
pub open spec fn elapsed_of(reply: ProbeReply) -> u64 {
    match reply {
        ProbeReply::Response { elapsed_micros, .. } => elapsed_micros,
        ProbeReply::Failed => 0,
    }
}

/// Folds the end of a request into what the monitor records: success or
/// failure, and the response time.
pub fn judge(reply: ProbeReply) -> (r: Check)
    ensures
        r.success == success_of(reply),
        r.elapsed_micros == elapsed_of(reply),
{
    match reply {
        ProbeReply::Response { status, elapsed_micros } => Check {
            success: 200 <= status && status < 300,
            elapsed_micros,
        },
        ProbeReply::Failed => Check { success: false, elapsed_micros: 0 },
    }
}

} // verus!
