//! LIST_LENGTH: the number of elements of the list under a key.
use crate::codec::text_of;
use crate::commands::commands::fail;
use crate::commands::commands::reply_view;
use crate::commands::commands::Command;
use crate::commands::commands::Reply;
use crate::state::datastate::length_encoding;
use crate::state::datastate::DataState;
use crate::state::datastate::DataType;
use crate::state::datastate::DataView;
use crate::state::datastate::StoreView;
use crate::state::shards::guarded;
use crate::state::clock::now_ms;
use crate::state::expires::clock_in_range;
use vstd::prelude::*;
use vstd::utf8::decode_utf8;
use vstd::utf8::valid_utf8;

verus! {

/// What is wrong with the arguments of LIST_LENGTH, if anything: there must
/// be one key, which must be UTF-8.
pub open spec fn llen_refusal(args: Seq<Seq<u8>>) -> Option<Seq<char>> {
    if args.len() != 1 {
        Some("Invalid number of arguments for LLEN command"@)
    } else if !valid_utf8(args[0]) {
        Some("Invalid utf8 key"@)
    } else {
        None
    }
}

/// What LIST_LENGTH answers: the number of elements, encoded as an integer.
pub open spec fn llen_reply(store: StoreView, args: Seq<Seq<u8>>, now: u64) -> Reply {
    match llen_refusal(args) {
        Some(message) => Err(message),
        None => {
            let key = decode_utf8(args[0]);
            if !store.live(key, now) {
                Err("Key not found"@)
            } else {
                match store.entries[key].data {
                    DataView::List(items) => Ok(
                        Some(length_encoding((items.len() % 0x1_0000_0000) as u32)),
                    ),
                    _ => Err("Data at specified key is not a list"@),
                }
            }
        },
    }
}

/// The store after LIST_LENGTH: an entry of the key that has expired is
/// removed.
pub open spec fn llen_next(store: StoreView, args: Seq<Seq<u8>>, now: u64) -> StoreView {
    match llen_refusal(args) {
        Some(_) => store,
        None => store.evict(decode_utf8(args[0]), now),
    }
}

pub struct LLenCmd {}

impl LLenCmd {
    /// Runs LIST_LENGTH now: reads the clock, and runs the command at that time.
    pub fn execute(data_state: &mut DataState, cmd: &Command) -> (r: Result<
        Option<Vec<u8>>,
        String,
    >)
        ensures
            exists|now: u64|
                #[trigger] clock_in_range(now)
                    && (reply_view(r) == llen_reply(old(data_state)@, cmd.args(), now))
                    && (final(data_state)@ == llen_next(old(data_state)@, cmd.args(), now)),
            old(data_state)@.valid() ==> final(data_state)@.valid(),
    {
        let now = now_ms();
        Self::execute_at(data_state, cmd, now)
    }

    /// Runs LIST_LENGTH at time `now`.
    pub fn execute_at(data_state: &mut DataState, cmd: &Command, now: u64) -> (r: Result<
        Option<Vec<u8>>,
        String,
    >)
        ensures
            reply_view(r) == llen_reply(old(data_state)@, cmd.args(), now),
            final(data_state)@ == llen_next(old(data_state)@, cmd.args(), now),
            old(data_state)@.valid() ==> final(data_state)@.valid(),
    {
        if cmd.arguments.len() != 1 {
            return fail("Invalid number of arguments for LLEN command");
        }
        let key = match text_of(cmd.arguments[0]) {
            Some(k) => k,
            None => { return fail("Invalid utf8 key"); },
        };
        let opt_list = data_state.get_at(key, now);
        match opt_list {
            None => fail("Key not found"),
            Some(result) => {
                let result_val = guarded(&result).get_data();
                match result_val {
                    DataType::List(list) => Ok(Some(list.srlz_len())),
                    _ => fail("Data at specified key is not a list"),
                }
            },
        }
    }
}

} // verus!
