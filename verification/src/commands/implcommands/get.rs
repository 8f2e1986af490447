//! GET: reads the integer, float or string under a key.
use crate::codec::bytes_of;
use crate::codec::text_of;
use crate::commands::commands::fail;
use crate::commands::commands::reply_view;
use crate::commands::commands::Command;
use crate::commands::commands::Reply;
use crate::state::datastate::float_encoding;
use crate::state::datastate::int_encoding;
use crate::state::datastate::DataState;
use crate::state::datastate::DataType;
use crate::state::datastate::DataView;
use crate::state::datastate::StoreView;
use crate::state::shards::guarded;
use crate::state::clock::now_ms;
use crate::state::expires::clock_in_range;
use vstd::prelude::*;
use vstd::utf8::decode_utf8;
use vstd::utf8::valid_utf8;

verus! {

/// What is wrong with the arguments of GET, if anything: there must be one
/// key, which must be UTF-8.
pub open spec fn get_refusal(args: Seq<Seq<u8>>) -> Option<Seq<char>> {
    if args.len() != 1 {
        Some("Invalid number of arguments for GET command"@)
    } else if !valid_utf8(args[0]) {
        Some("Invalid utf8 key"@)
    } else {
        None
    }
}

/// What GET answers: the encoding of the key's value where that is an
/// integer, a float or a string.
pub open spec fn get_reply(store: StoreView, args: Seq<Seq<u8>>, now: u64) -> Reply {
    match get_refusal(args) {
        Some(message) => Err(message),
        None => {
            let key = decode_utf8(args[0]);
            if !store.live(key, now) {
                Err("Key not found"@)
            } else {
                match store.entries[key].data {
                    DataView::String(encoding) => Ok(Some(encoding)),
                    DataView::Int(n) => Ok(Some(int_encoding(n))),
                    DataView::Float(bits) => Ok(Some(float_encoding(bits))),
                    _ => Err("Data type is not simple"@),
                }
            }
        },
    }
}

/// The store after GET: an entry of the key that has expired is removed.
pub open spec fn get_next(store: StoreView, args: Seq<Seq<u8>>, now: u64) -> StoreView {
    match get_refusal(args) {
        Some(_) => store,
        None => store.evict(decode_utf8(args[0]), now),
    }
}

pub struct GetCmd {}

impl GetCmd {
    /// Runs GET now: reads the clock, and runs the command at that time.
    pub fn execute(data_state: &mut DataState, cmd: &Command) -> (r: Result<
        Option<Vec<u8>>,
        String,
    >)
        ensures
            exists|now: u64|
                #[trigger] clock_in_range(now)
                    && (reply_view(r) == get_reply(old(data_state)@, cmd.args(), now))
                    && (final(data_state)@ == get_next(old(data_state)@, cmd.args(), now)),
            old(data_state)@.valid() ==> final(data_state)@.valid(),
    {
        let now = now_ms();
        Self::execute_at(data_state, cmd, now)
    }

    /// Runs GET at time `now`.
    pub fn execute_at(data_state: &mut DataState, cmd: &Command, now: u64) -> (r: Result<
        Option<Vec<u8>>,
        String,
    >)
        ensures
            reply_view(r) == get_reply(old(data_state)@, cmd.args(), now),
            final(data_state)@ == get_next(old(data_state)@, cmd.args(), now),
            old(data_state)@.valid() ==> final(data_state)@.valid(),
    {
        if cmd.arguments.len() != 1 {
            return fail("Invalid number of arguments for GET command");
        }
        let key = match text_of(cmd.arguments[0]) {
            Some(k) => k,
            None => { return fail("Invalid utf8 key"); },
        };
        let result = data_state.get_at(key, now);
        match result {
            None => fail("Key not found"),
            Some(uresult) => {
                let value = guarded(&uresult).get_data();
                match value {
                    DataType::String(v) => Ok(Some(bytes_of(v.serialize().as_slice()))),
                    DataType::Int(v) => Ok(Some(bytes_of(&v.serialize()))),
                    DataType::Float(v) => Ok(Some(bytes_of(&v.serialize()))),
                    _ => fail("Data type is not simple"),
                }
            },
        }
    }
}

} // verus!
