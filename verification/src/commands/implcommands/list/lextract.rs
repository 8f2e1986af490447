//! LIST_EXTRACT: takes a range out of the list under a key.
use crate::codec::text_of;
use crate::commands::commands::fail;
use crate::commands::commands::read_word;
use crate::commands::commands::reply_view;
use crate::commands::commands::word_arg;
use crate::commands::commands::Command;
use crate::commands::commands::Reply;
use crate::state::datastate::range_encoding;
use crate::state::datastate::without_range;
use crate::state::datastate::DataState;
use crate::state::datastate::DataType;
use crate::state::datastate::DataView;
use crate::state::datastate::DataWrapper;
use crate::state::datastate::StoreView;
use crate::state::clock::now_ms;
use crate::state::expires::clock_in_range;
use vstd::prelude::*;
use vstd::utf8::decode_utf8;
use vstd::utf8::valid_utf8;

verus! {

/// What is wrong with the arguments of LIST_EXTRACT, if anything: there
/// must be a key, which must be UTF-8, a start and an end.
pub open spec fn lextract_refusal(args: Seq<Seq<u8>>) -> Option<Seq<char>> {
    if args.len() != 3 {
        Some("Invalid number of arguments for LEXTRACT command"@)
    } else if !valid_utf8(args[0]) {
        Some("Invalid utf8 key"@)
    } else {
        None
    }
}

/// What LIST_EXTRACT answers: the encoding, as a list, of the elements from
/// the start up to the end, both clamped to the list's length.
pub open spec fn lextract_reply(store: StoreView, args: Seq<Seq<u8>>, now: u64) -> Reply {
    match lextract_refusal(args) {
        Some(message) => Err(message),
        None => {
            let key = decode_utf8(args[0]);
            if !store.live(key, now) {
                Err("Key not found"@)
            } else if word_arg(args[1]) is None || word_arg(args[2]) is None {
                Err("Invalid u32 value"@)
            } else {
                match store.entries[key].data {
                    DataView::List(items) => Ok(
                        Some(
                            range_encoding(
                                items,
                                word_arg(args[1])->0 as int,
                                word_arg(args[2])->0 as int,
                            ),
                        ),
                    ),
                    _ => Err("Data at specified key is not a list"@),
                }
            }
        },
    }
}

/// The store after LIST_EXTRACT: the list is without the elements that were
/// answered, and keeps its expiry.
pub open spec fn lextract_next(store: StoreView, args: Seq<Seq<u8>>, now: u64) -> StoreView {
    match lextract_refusal(args) {
        Some(_) => store,
        None => {
            let key = decode_utf8(args[0]);
            if !store.live(key, now) {
                store.evict(key, now)
            } else if word_arg(args[1]) is None || word_arg(args[2]) is None {
                store
            } else {
                match store.entries[key].data {
                    DataView::List(items) => store.with_data(
                        key,
                        DataView::List(
                            without_range(
                                items,
                                word_arg(args[1])->0 as int,
                                word_arg(args[2])->0 as int,
                            ),
                        ),
                    ),
                    _ => store,
                }
            }
        },
    }
}

pub struct LExtractCmd {}

impl LExtractCmd {
    /// Runs LIST_EXTRACT now: reads the clock, and runs the command at that time.
    pub fn execute(data_state: &mut DataState, cmd: &Command) -> (r: Result<
        Option<Vec<u8>>,
        String,
    >)
        ensures
            exists|now: u64|
                #[trigger] clock_in_range(now)
                    && (reply_view(r) == lextract_reply(old(data_state)@, cmd.args(), now))
                    && (final(data_state)@ == lextract_next(old(data_state)@, cmd.args(), now)),
            old(data_state)@.valid() ==> final(data_state)@.valid(),
    {
        let now = now_ms();
        Self::execute_at(data_state, cmd, now)
    }

    /// Runs LIST_EXTRACT at time `now`.
    pub fn execute_at(data_state: &mut DataState, cmd: &Command, now: u64) -> (r: Result<
        Option<Vec<u8>>,
        String,
    >)
        ensures
            reply_view(r) == lextract_reply(old(data_state)@, cmd.args(), now),
            final(data_state)@ == lextract_next(old(data_state)@, cmd.args(), now),
            old(data_state)@.valid() ==> final(data_state)@.valid(),
    {
        if cmd.arguments.len() != 3 {
            return fail("Invalid number of arguments for LEXTRACT command");
        }
        let key = match text_of(cmd.arguments[0]) {
            Some(k) => k,
            None => { return fail("Invalid utf8 key"); },
        };
        let start = read_word(cmd.arguments[1]);
        let end = read_word(cmd.arguments[2]);
        let ghost before = old(data_state)@;
        let value_obj = match data_state.take(key, now) {
            Some(d) => d,
            None => { return fail("Key not found"); },
        };
        let expire: u64 = value_obj.expire_raw();
        let (start_pos, end_pos) = match (start, end) {
            (Some(s), Some(e)) => (s, e),
            _ => {
                data_state.put(key, value_obj);
                assert(data_state@.entries =~= before.entries);
                return fail("Invalid u32 value");
            },
        };
        match value_obj.into_data() {
            DataType::List(mut list) => {
                let response = list.srlz_extract_range_with_start(
                    start_pos as usize,
                    end_pos as usize,
                );
                data_state.put(key, DataWrapper::new(DataType::List(list), Some(expire)));
                assert(data_state@.entries =~= lextract_next(before, cmd.args(), now).entries);
                Ok(Some(response))
            },
            other => {
                data_state.put(key, DataWrapper::new(other, Some(expire)));
                assert(data_state@.entries =~= before.entries);
                fail("Data at specified key is not a list")
            },
        }
    }
}

} // verus!
