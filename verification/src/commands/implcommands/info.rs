//! INFO: a report of the server's counters.
use crate::codec::bytes_of;
use crate::commands::commands::reply_view;
use crate::commands::commands::Reply;
use crate::state::datastate::string_encoding;
use crate::state::datastate::StringType;
use crate::state::serverstate::ServerState;
use crate::state::clock::now_ms;
use crate::state::expires::clock_in_range;
use vstd::prelude::*;
use vstd::utf8::encode_utf8;

verus! {

/// What INFO answers at time `now`: the report, encoded as a string.
pub open spec fn info_reply(server_state: ServerState, now: u64) -> Reply {
    Ok(Some(string_encoding(encode_utf8(server_state.report(now)))))
}

pub struct InfoCmd {}

impl InfoCmd {
    /// Runs INFO now: reads the clock, and runs the command at that time.
    pub fn execute(server_state: &ServerState) -> (r: Result<Option<Vec<u8>>, String>)
        ensures
            exists|now: u64|
                #[trigger] clock_in_range(now)
                    && (reply_view(r) == info_reply(*server_state, now)),
    {
        let now = now_ms();
        Self::execute_at(server_state, now)
    }

    /// Runs INFO at time `now`.
    pub fn execute_at(server_state: &ServerState, now: u64) -> (r: Result<Option<Vec<u8>>, String>)
        ensures
            reply_view(r) == info_reply(*server_state, now),
    {
        let report = StringType::new(server_state.to_string_at(now));
        Ok(Some(bytes_of(report.serialize().as_slice())))
    }
}

} // verus!
