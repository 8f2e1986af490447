//! LIST_PUSH: appends strings to the list under a key.
use crate::codec::text_of;
use crate::commands::commands::bad_value;
use crate::commands::commands::fail;
use crate::commands::commands::first_invalid;
use crate::commands::commands::reply_view;
use crate::commands::commands::Command;
use crate::commands::commands::Reply;
use crate::codec::decimal_text;
use crate::state::datastate::string_encoding;
use crate::state::datastate::DataState;
use crate::state::datastate::DataType;
use crate::state::datastate::DataView;
use crate::state::datastate::DataWrapper;
use crate::state::datastate::ListType;
use crate::state::datastate::StoreView;
use crate::state::datastate::StringType;
use crate::state::expires::ExpireParameter;
use crate::state::clock::now_ms;
use crate::state::expires::clock_in_range;
use vstd::prelude::*;
use vstd::utf8::decode_utf8;
use vstd::utf8::decode_utf8_encode_utf8;
use vstd::utf8::valid_utf8;

verus! {

/// The encodings of the values as strings, in order.
pub open spec fn encodings_of(values: Seq<Seq<u8>>) -> Seq<Seq<u8>> {
    Seq::new(values.len(), |i: int| string_encoding(values[i]))
}

/// What is wrong with the arguments of LIST_PUSH, if anything: there must
/// be a key, which must be UTF-8, and at least one value.
pub open spec fn lpush_refusal(args: Seq<Seq<u8>>) -> Option<Seq<char>> {
    if args.len() < 2 {
        Some("Invalid number of arguments for LPUSH command"@)
    } else if !valid_utf8(args[0]) {
        Some("Invalid utf8 key"@)
    } else {
        None
    }
}

/// What LIST_PUSH answers: nothing where every value is UTF-8, else the
/// index of the first that is not.
pub open spec fn lpush_reply(store: StoreView, args: Seq<Seq<u8>>, now: u64) -> Reply {
    match lpush_refusal(args) {
        Some(message) => Err(message),
        None => {
            let key = decode_utf8(args[0]);
            let values = args.skip(1);
            let stop = first_invalid(values, 0);
            if store.live(key, now) && !(store.entries[key].data is List) {
                Err("Data at specified key is not a list"@)
            } else if stop < values.len() {
                Err("Invalid utf8 value at index "@ + decimal_text(stop as nat))
            } else {
                Ok(None)
            }
        },
    }
}

/// The store after LIST_PUSH. A list gets the values up to the first that
/// is not UTF-8 appended, and keeps its expiry. A key without a live entry
/// gets a list of the values, without expiry, where all of them are UTF-8.
pub open spec fn lpush_next(store: StoreView, args: Seq<Seq<u8>>, now: u64) -> StoreView {
    match lpush_refusal(args) {
        Some(_) => store,
        None => {
            let key = decode_utf8(args[0]);
            let values = args.skip(1);
            let stop = first_invalid(values, 0);
            if store.live(key, now) {
                match store.entries[key].data {
                    DataView::List(items) => store.with_data(
                        key,
                        DataView::List(items + encodings_of(values.take(stop))),
                    ),
                    _ => store,
                }
            } else if stop < values.len() {
                store.evict(key, now)
            } else {
                store.written(
                    key,
                    DataView::List(encodings_of(values)),
                    ExpireParameter::NONE,
                    now,
                )
            }
        },
    }
}

pub struct LPushCmd {}

impl LPushCmd {
    /// Runs LIST_PUSH now: reads the clock, and runs the command at that time.
    pub fn execute(data_state: &mut DataState, cmd: &Command) -> (r: Result<
        Option<Vec<u8>>,
        String,
    >)
        ensures
            exists|now: u64|
                #[trigger] clock_in_range(now)
                    && (reply_view(r) == lpush_reply(old(data_state)@, cmd.args(), now))
                    && (final(data_state)@ == lpush_next(old(data_state)@, cmd.args(), now)),
            old(data_state)@.valid() ==> final(data_state)@.valid(),
    {
        let now = now_ms();
        Self::execute_at(data_state, cmd, now)
    }

    /// Runs LIST_PUSH at time `now`.
    pub fn execute_at(data_state: &mut DataState, cmd: &Command, now: u64) -> (r: Result<
        Option<Vec<u8>>,
        String,
    >)
        ensures
            reply_view(r) == lpush_reply(old(data_state)@, cmd.args(), now),
            final(data_state)@ == lpush_next(old(data_state)@, cmd.args(), now),
            old(data_state)@.valid() ==> final(data_state)@.valid(),
    {
        if cmd.arguments.len() < 2 {
            return fail("Invalid number of arguments for LPUSH command");
        }
        let key = match text_of(cmd.arguments[0]) {
            Some(k) => k,
            None => { return fail("Invalid utf8 key"); },
        };
        let count: usize = cmd.arguments.len() - 1;
        let ghost before = old(data_state)@;
        let ghost values = cmd.args().skip(1);
        match data_state.take(key, now) {
            None => {
                let mut vec_values: Vec<String> = Vec::new();
                let mut i: usize = 0;
                while i < count
                    invariant
                        i <= count,
                        count == values.len(),
                        values == cmd.args().skip(1),
                        cmd.arguments@.len() == count + 1,
                        vec_values@.len() == i,
                        first_invalid(values, 0) == first_invalid(values, i as int),
                        forall|j: int| 0 <= j < i ==> valid_utf8(#[trigger] values[j]),
                        forall|j: int|
                            0 <= j < i ==> (#[trigger] vec_values@[j])@ == decode_utf8(values[j]),
                    ensures
                        i == first_invalid(values, 0),
                        i <= count,
                        vec_values@.len() == i,
                        forall|j: int| 0 <= j < i ==> valid_utf8(#[trigger] values[j]),
                        forall|j: int|
                            0 <= j < i ==> (#[trigger] vec_values@[j])@ == decode_utf8(values[j]),
                    decreases count - i,
                {
                    assert(values[i as int] == cmd.arguments@[i + 1]@);
                    match text_of(cmd.arguments[i + 1]) {
                        Some(value) => { vec_values.push(value.to_owned()); },
                        None => {
                            break ;
                        },
                    }
                    i = i + 1;
                }
                if i < count {
                    return bad_value(i);
                }
                let list = ListType::new(vec_values);
                proof {
                    assert forall|j: int| 0 <= j < count implies list@[j] == encodings_of(
                        values,
                    )[j] by {
                        decode_utf8_encode_utf8(values[j]);
                    }
                    assert(list@ =~= encodings_of(values));
                }
                let _ = data_state.set_at(key, DataType::List(list), ExpireParameter::NONE, now);
                assert(data_state@.entries =~= lpush_next(before, cmd.args(), now).entries);
                Ok(None)
            },
            Some(result) => {
                let expire: u64 = result.expire_raw();
                match result.into_data() {
                    DataType::List(mut l) => {
                        let ghost items = l@;
                        let mut i: usize = 0;
                        assert(items + encodings_of(values.take(0)) =~= items);
                        while i < count
                            invariant
                                i <= count,
                                count == values.len(),
                                values == cmd.args().skip(1),
                                cmd.arguments@.len() == count + 1,
                                first_invalid(values, 0) == first_invalid(values, i as int),
                                l@ == items + encodings_of(values.take(i as int)),
                            ensures
                                i == first_invalid(values, 0),
                                i <= count,
                                l@ == items + encodings_of(values.take(i as int)),
                            decreases count - i,
                        {
                            assert(values[i as int] == cmd.arguments@[i + 1]@);
                            match text_of(cmd.arguments[i + 1]) {
                                Some(value) => {
                                    proof {
                                        decode_utf8_encode_utf8(values[i as int]);
                                    }
                                    let _ = l.push(StringType::new(value.to_owned()));
                                    assert(l@ =~= items + encodings_of(values.take(i + 1)));
                                },
                                None => {
                                    break ;
                                },
                            }
                            i = i + 1;
                        }
                        data_state.put(key, DataWrapper::new(DataType::List(l), Some(expire)));
                        assert(data_state@.entries =~= lpush_next(
                            before,
                            cmd.args(),
                            now,
                        ).entries);
                        if i < count {
                            bad_value(i)
                        } else {
                            Ok(None)
                        }
                    },
                    other => {
                        data_state.put(key, DataWrapper::new(other, Some(expire)));
                        assert(data_state@.entries =~= before.entries);
                        fail("Data at specified key is not a list")
                    },
                }
            },
        }
    }
}

} // verus!
