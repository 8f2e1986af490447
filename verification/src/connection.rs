//! One connection's turn: from the payload of a frame to the bytes of the
//! response.
//!
//! Reading frames and writing responses is the caller's part, and so is the
//! floating-point work that two commands need: for those, a turn stops
//! half-way and is resumed with the number that the caller has computed.
use crate::codec::push_all;
use crate::commands::commands::dispatch_next;
use crate::commands::commands::dispatch_outcome;
use crate::commands::commands::reply_view;
use crate::commands::commands::Command;
use crate::commands::commands::CommandType;
use crate::commands::commands::Dispatch;
use crate::commands::commands::Outcome;
use crate::commands::commands::Reply;
use crate::commands::implcommands::incrf::sum_next;
use crate::commands::implcommands::incrf::sum_reply;
use crate::commands::implcommands::incrf::IncrF;
use crate::commands::parser::parsed;
use crate::commands::parser::Parser;
use crate::state::datastate::count_encoding;
use crate::state::datastate::string_encoding;
use crate::state::datastate::DataState;
use crate::state::datastate::HLLType;
use crate::state::datastate::StoreView;
use crate::state::datastate::StringType;
use crate::state::expires::clock_in_range;
use crate::state::serverstate::ServerState;
use crate::state::clock::now_ms;
use vstd::prelude::*;
use vstd::utf8::encode_utf8;

verus! {

/// The status that starts every response.
pub enum CommandResult {
    OK,
    ERR,
}

impl CommandResult {
    /// The status's value on the wire.
    pub open spec fn spec_byte(self) -> u8 {
        match self {
            CommandResult::OK => 1,
            CommandResult::ERR => 2,
        }
    }

    /// The status's value on the wire.
    pub fn byte(&self) -> (b: u8)
        ensures
            b == self.spec_byte(),
    {
        match self {
            CommandResult::OK => 1,
            CommandResult::ERR => 2,
        }
    }
}

/// The payload of a success that has none of its own: the string "OK".
pub open spec fn ok_payload() -> Seq<u8> {
    string_encoding(encode_utf8("OK"@))
}

/// The response to an answer: status 1 and the payload, or status 2 and the
/// message encoded as a string.
pub open spec fn response_to(reply: Reply) -> Seq<u8> {
    match reply {
        Ok(Some(payload)) => seq![1u8] + payload,
        Ok(None) => seq![1u8] + ok_payload(),
        Err(message) => seq![2u8] + string_encoding(encode_utf8(message)),
    }
}

/// The response to a payload that could not be read as a request.
pub open spec fn malformed_response() -> Seq<u8> {
    response_to(Err("Could not process command"@))
}

/// What a turn results in, as plain data.
pub enum TurnView {
    /// The response, and whether the connection is closed after it.
    Respond { response: Seq<u8>, close: bool },
    FloatSum { key: Seq<char>, current: u32, delta: u32 },
    Estimate { bits: u8, registers: Seq<u8> },
}

/// What a turn results in.
pub enum Turn {
    /// The response to send, and whether to close the connection after it.
    Respond { response: Vec<u8>, close: bool },
    /// INCR_FLOAT found a float under the key. The caller adds `delta` to
    /// `current`, both given as binary32 bit patterns, and resumes with
    /// `resume_sum`.
    FloatSum { key: String, current: u32, delta: u32 },
    /// HLL_COUNT found a sketch under the key. The caller estimates the
    /// cardinality from the registers and resumes with `resume_estimate`.
    Estimate { bits: u8, registers: Vec<u8> },
}

impl View for Turn {
    type V = TurnView;

    open spec fn view(&self) -> TurnView {
        match self {
            Turn::Respond { response, close } => TurnView::Respond {
                response: response@,
                close: *close,
            },
            Turn::FloatSum { key, current, delta } => TurnView::FloatSum {
                key: key@,
                current: *current,
                delta: *delta,
            },
            Turn::Estimate { bits, registers } => TurnView::Estimate {
                bits: *bits,
                registers: registers@,
            },
        }
    }
}

/// The counters after an answer: a success is counted among the processed
/// commands.
pub open spec fn settled(server_state: ServerState, reply: Reply) -> ServerState {
    if reply is Ok {
        server_state.counted()
    } else {
        server_state
    }
}

/// What a turn on a payload results in at time `now`.
pub open spec fn turn_of(
    payload: Seq<u8>,
    server_state: ServerState,
    store: StoreView,
    now: u64,
) -> TurnView {
    match parsed(payload) {
        None => TurnView::Respond { response: malformed_response(), close: true },
        Some((CommandType::Flush, _)) => TurnView::Respond {
            response: response_to(Ok(None)),
            close: false,
        },
        Some((command_type, args)) => match dispatch_outcome(
            command_type,
            store,
            server_state,
            args,
            now,
        ) {
            Outcome::Reply(reply) => TurnView::Respond {
                response: response_to(reply),
                close: false,
            },
            Outcome::FloatSum { key, current, delta } => TurnView::FloatSum {
                key,
                current,
                delta,
            },
            Outcome::Estimate { bits, registers } => TurnView::Estimate { bits, registers },
        },
    }
}

/// The store after a turn on a payload at time `now`.
pub open spec fn store_after(payload: Seq<u8>, store: StoreView, now: u64) -> StoreView {
    match parsed(payload) {
        None => store,
        Some((CommandType::Flush, _)) => store.flushed(),
        Some((command_type, args)) => dispatch_next(command_type, store, args, now),
    }
}

/// The counters after a turn on a payload at time `now`.
pub open spec fn counters_after(
    payload: Seq<u8>,
    server_state: ServerState,
    store: StoreView,
    now: u64,
) -> ServerState {
    match parsed(payload) {
        None => server_state,
        Some((CommandType::Flush, _)) => server_state,
        Some((command_type, args)) => match dispatch_outcome(
            command_type,
            store,
            server_state,
            args,
            now,
        ) {
            Outcome::Reply(reply) => settled(server_state, reply),
            _ => server_state,
        },
    }
}

/// The bytes of the response to an answer, and the count of a success.
pub fn respond(
    result: Result<Option<Vec<u8>>, String>,
    server_state: &mut ServerState,
) -> (response: Vec<u8>)
    ensures
        response@ == response_to(reply_view(result)),
        *final(server_state) == settled(*old(server_state), reply_view(result)),
{
    let mut response: Vec<u8> = Vec::new();
    match result {
        Ok(o) => {
            server_state.count_command();
            response.push(CommandResult::OK.byte());
            match o {
                Some(data) => {
                    push_all(&mut response, data.as_slice());
                },
                None => {
                    let ok = StringType::new("OK".to_owned());
                    push_all(&mut response, ok.serialize().as_slice());
                },
            }
        },
        Err(message) => {
            response.push(CommandResult::ERR.byte());
            let text = StringType::new(message);
            push_all(&mut response, text.serialize().as_slice());
        },
    }
    response
}

/// The bytes of the response to a payload that could not be read as a
/// request.
pub fn respond_malformed() -> (response: Vec<u8>)
    ensures
        response@ == malformed_response(),
{
    let mut response: Vec<u8> = Vec::new();
    response.push(CommandResult::ERR.byte());
    let text = StringType::new("Could not process command".to_owned());
    push_all(&mut response, text.serialize().as_slice());
    response
}

/// One turn of a connection now: reads the clock, and takes the turn at
/// that time.
pub fn handle_frame(
    payload: &[u8],
    server_state: &mut ServerState,
    data_state: &mut DataState,
) -> (turn: Turn)
    requires
        old(data_state)@.valid(),
    ensures
        exists|now: u64|
            #[trigger] clock_in_range(now)
                && (turn@ == turn_of(payload@, *old(server_state), old(data_state)@, now))
                && (final(data_state)@ == store_after(payload@, old(data_state)@, now))
                && (*final(server_state) == counters_after(
                payload@,
                *old(server_state),
                old(data_state)@,
                now,
            )),
        final(data_state)@.valid(),
{
    let now = now_ms();
    handle_frame_at(payload, server_state, data_state, now)
}

/// One turn of a connection at time `now`: reads a request from the payload
/// of a frame, runs it, and gives the response. A payload that cannot be
/// read is answered with an error, after which the connection is closed.
/// FLUSH empties the store. Every other request is dispatched, and a
/// success is counted.
pub fn handle_frame_at(
    payload: &[u8],
    server_state: &mut ServerState,
    data_state: &mut DataState,
    now: u64,
) -> (turn: Turn)
    requires
        old(data_state)@.valid(),
        clock_in_range(now),
    ensures
        turn@ == turn_of(payload@, *old(server_state), old(data_state)@, now),
        final(data_state)@ == store_after(payload@, old(data_state)@, now),
        *final(server_state) == counters_after(
            payload@,
            *old(server_state),
            old(data_state)@,
            now,
        ),
        final(data_state)@.valid(),
{
    let cmd: Command = match Parser::parse(payload) {
        Ok(cmd) => cmd,
        Err(()) => { return Turn::Respond { response: respond_malformed(), close: true }; },
    };
    match cmd.command_type {
        CommandType::Flush => {
            data_state.flush();
            let mut response: Vec<u8> = Vec::new();
            response.push(CommandResult::OK.byte());
            let ok = StringType::new("OK".to_owned());
            push_all(&mut response, ok.serialize().as_slice());
            Turn::Respond { response, close: false }
        },
        _ => {
            match cmd.execute_at(data_state, &*server_state, now) {
                Dispatch::Reply(result) => Turn::Respond {
                    response: respond(result, server_state),
                    close: false,
                },
                Dispatch::FloatSum { key, current, delta } => Turn::FloatSum {
                    key,
                    current,
                    delta,
                },
                Dispatch::Estimate { bits, registers } => Turn::Estimate { bits, registers },
            }
        },
    }
}

/// Resumes a turn of INCR_FLOAT with the sum now: reads the clock, and
/// resumes at that time.
pub fn resume_sum(
    key: &str,
    sum: u32,
    server_state: &mut ServerState,
    data_state: &mut DataState,
) -> (response: Vec<u8>)
    ensures
        exists|now: u64|
            #[trigger] clock_in_range(now)
                && (response@ == response_to(sum_reply(old(data_state)@, key@, sum, now)))
                && (final(data_state)@ == sum_next(old(data_state)@, key@, sum, now))
                && (*final(server_state) == settled(
                *old(server_state),
                sum_reply(old(data_state)@, key@, sum, now),
            )),
        old(data_state)@.valid() ==> final(data_state)@.valid(),
{
    let now = now_ms();
    resume_sum_at(key, sum, server_state, data_state, now)
}

/// Resumes a turn of INCR_FLOAT with the sum: the response, with the sum in
/// the float's place in the store.
pub fn resume_sum_at(
    key: &str,
    sum: u32,
    server_state: &mut ServerState,
    data_state: &mut DataState,
    now: u64,
) -> (response: Vec<u8>)
    ensures
        response@ == response_to(sum_reply(old(data_state)@, key@, sum, now)),
        final(data_state)@ == sum_next(old(data_state)@, key@, sum, now),
        *final(server_state) == settled(
            *old(server_state),
            sum_reply(old(data_state)@, key@, sum, now),
        ),
        old(data_state)@.valid() ==> final(data_state)@.valid(),
{
    let result = IncrF::store_sum_at(data_state, key, sum, now);
    respond(result, server_state)
}

/// Resumes a turn of HLL_COUNT with the estimate: the response, which holds
/// the estimate as an integer where it fits 32 bits, and as a long
/// otherwise.
pub fn resume_estimate(count: u64, server_state: &mut ServerState) -> (response: Vec<u8>)
    ensures
        response@ == seq![1u8] + count_encoding(count),
        *final(server_state) == old(server_state).counted(),
{
    respond(Ok(Some(HLLType::srlz_count(count))), server_state)
}

} // verus!
