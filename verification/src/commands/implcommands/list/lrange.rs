//! LIST_RANGE: reads a range of the list under a key.
use crate::codec::text_of;
use crate::commands::commands::fail;
use crate::commands::commands::read_word;
use crate::commands::commands::reply_view;
use crate::commands::commands::word_arg;
use crate::commands::commands::Command;
use crate::commands::commands::Reply;
use crate::state::datastate::range_encoding;
use crate::state::datastate::DataState;
use crate::state::datastate::DataType;
use crate::state::datastate::DataView;
use crate::state::datastate::StoreView;
use crate::state::shards::guarded;
use crate::state::clock::now_ms;
use crate::state::expires::clock_in_range;
use vstd::prelude::*;
use vstd::utf8::decode_utf8;
use vstd::utf8::valid_utf8;

verus! {

/// What is wrong with the arguments of LIST_RANGE, if anything: there must
/// be a key, which must be UTF-8, a start and an end.
pub open spec fn lrange_refusal(args: Seq<Seq<u8>>) -> Option<Seq<char>> {
    if args.len() != 3 {
        Some("Invalid number of arguments for LRANGE command"@)
    } else if !valid_utf8(args[0]) {
        Some("Invalid utf8 key"@)
    } else {
        None
    }
}

/// What LIST_RANGE answers: the encoding, as a list, of the elements from
/// the start up to the end, both clamped to the list's length.
pub open spec fn lrange_reply(store: StoreView, args: Seq<Seq<u8>>, now: u64) -> Reply {
    match lrange_refusal(args) {
        Some(message) => Err(message),
        None => {
            let key = decode_utf8(args[0]);
            if !store.live(key, now) {
                Err("Key not found"@)
            } else if word_arg(args[1]) is None || word_arg(args[2]) is None {
                Err("Invalid u32 value"@)
            } else {
                match store.entries[key].data {
                    DataView::List(items) => Ok(
                        Some(
                            range_encoding(
                                items,
                                word_arg(args[1])->0 as int,
                                word_arg(args[2])->0 as int,
                            ),
                        ),
                    ),
                    _ => Err("Data at specified key is not a list"@),
                }
            }
        },
    }
}

/// The store after LIST_RANGE: an entry of the key that has expired is
/// removed.
pub open spec fn lrange_next(store: StoreView, args: Seq<Seq<u8>>, now: u64) -> StoreView {
    match lrange_refusal(args) {
        Some(_) => store,
        None => store.evict(decode_utf8(args[0]), now),
    }
}

pub struct LRangeCmd {}

impl LRangeCmd {
    /// Runs LIST_RANGE now: reads the clock, and runs the command at that time.
    pub fn execute(data_state: &mut DataState, cmd: &Command) -> (r: Result<
        Option<Vec<u8>>,
        String,
    >)
        ensures
            exists|now: u64|
                #[trigger] clock_in_range(now)
                    && (reply_view(r) == lrange_reply(old(data_state)@, cmd.args(), now))
                    && (final(data_state)@ == lrange_next(old(data_state)@, cmd.args(), now)),
            old(data_state)@.valid() ==> final(data_state)@.valid(),
    {
        let now = now_ms();
        Self::execute_at(data_state, cmd, now)
    }

    /// Runs LIST_RANGE at time `now`.
    pub fn execute_at(data_state: &mut DataState, cmd: &Command, now: u64) -> (r: Result<
        Option<Vec<u8>>,
        String,
    >)
        ensures
            reply_view(r) == lrange_reply(old(data_state)@, cmd.args(), now),
            final(data_state)@ == lrange_next(old(data_state)@, cmd.args(), now),
            old(data_state)@.valid() ==> final(data_state)@.valid(),
    {
        if cmd.arguments.len() != 3 {
            return fail("Invalid number of arguments for LRANGE command");
        }
        let key = match text_of(cmd.arguments[0]) {
            Some(k) => k,
            None => { return fail("Invalid utf8 key"); },
        };
        let start = read_word(cmd.arguments[1]);
        let end = read_word(cmd.arguments[2]);
        let opt_list = data_state.get_at(key, now);
        match opt_list {
            None => fail("Key not found"),
            Some(value_obj) => {
                match (start, end) {
                    (Some(start_pos), Some(end_pos)) => {
                        match guarded(&value_obj).get_data() {
                            DataType::List(list) => Ok(
                                Some(
                                    list.srlz_range_with_start(
                                        start_pos as usize,
                                        end_pos as usize,
                                    ),
                                ),
                            ),
                            _ => fail("Data at specified key is not a list"),
                        }
                    },
                    _ => fail("Invalid u32 value"),
                }
            },
        }
    }
}

} // verus!
