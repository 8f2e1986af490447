//! INCR_FLOAT: adds to the float under a key.
//!
//! Floats are held as their binary32 bit patterns. Adding two of them is
//! left to the caller: `execute` hands back the two patterns, and
//! `store_sum` takes the sum's.
use crate::codec::bytes_of;
use crate::codec::text_of;
use crate::commands::commands::fail;
use crate::commands::commands::read_word;
use crate::commands::commands::reply_view;
use crate::commands::commands::word_arg;
use crate::commands::commands::Command;
use crate::commands::commands::Dispatch;
use crate::commands::commands::Outcome;
use crate::commands::commands::Reply;
use crate::state::datastate::float_encoding;
use crate::state::datastate::DataState;
use crate::state::datastate::DataType;
use crate::state::datastate::DataView;
use crate::state::datastate::DataWrapper;
use crate::state::datastate::FloatType;
use crate::state::datastate::StoreView;
use crate::state::expires::ExpireParameter;
use crate::state::shards::guarded;
use crate::state::clock::now_ms;
use crate::state::expires::clock_in_range;
use vstd::prelude::*;
use vstd::utf8::decode_utf8;
use vstd::utf8::valid_utf8;

verus! {

/// The binary32 bit pattern of 1.
pub const ONE: u32 = 0x3F80_0000;

/// What is wrong with the arguments of INCR_FLOAT, if anything: there must
/// be a key, it must be UTF-8, and a second argument must hold a float.
pub open spec fn incrf_refusal(args: Seq<Seq<u8>>) -> Option<Seq<char>> {
    if args.len() < 1 {
        Some("Invalid number of arguments for INCRF command"@)
    } else if !valid_utf8(args[0]) {
        Some("Invalid utf8 key"@)
    } else if args.len() > 1 && word_arg(args[1]) is None {
        Some("Invalid f32 value"@)
    } else {
        None
    }
}

/// The amount that INCR_FLOAT adds: the second argument, or 1 without one.
pub open spec fn incrf_amount(args: Seq<Seq<u8>>) -> u32 {
    if args.len() > 1 {
        word_arg(args[1])->0
    } else {
        ONE
    }
}

/// What INCR_FLOAT hands back. A key without a live entry starts from the
/// amount itself, and that is answered. For a float, the float and the
/// amount are handed back to be added.
pub open spec fn incrf_outcome(store: StoreView, args: Seq<Seq<u8>>, now: u64) -> Outcome {
    match incrf_refusal(args) {
        Some(message) => Outcome::Reply(Err(message)),
        None => {
            let key = decode_utf8(args[0]);
            if store.live(key, now) {
                match store.entries[key].data {
                    DataView::Float(bits) => Outcome::FloatSum {
                        key,
                        current: bits,
                        delta: incrf_amount(args),
                    },
                    _ => Outcome::Reply(Err("Invalid type"@)),
                }
            } else {
                Outcome::Reply(Ok(Some(float_encoding(incrf_amount(args)))))
            }
        },
    }
}

/// The store after INCR_FLOAT has handed back: a key without a live entry
/// has got the amount, without expiry; a live entry stays as it is.
pub open spec fn incrf_next(store: StoreView, args: Seq<Seq<u8>>, now: u64) -> StoreView {
    match incrf_refusal(args) {
        Some(_) => store,
        None => {
            let key = decode_utf8(args[0]);
            if store.live(key, now) {
                store
            } else {
                store.written(
                    key,
                    DataView::Float(incrf_amount(args)),
                    ExpireParameter::NONE,
                    now,
                )
            }
        },
    }
}

/// What the second step of INCR_FLOAT answers: the sum's encoding, where
/// the key holds a float.
pub open spec fn sum_reply(store: StoreView, key: Seq<char>, sum: u32, now: u64) -> Reply {
    if !store.live(key, now) {
        Err("Key not found"@)
    } else if store.entries[key].data is Float {
        Ok(Some(float_encoding(sum)))
    } else {
        Err("Invalid type"@)
    }
}

/// The store after the second step of INCR_FLOAT: a float is replaced by
/// the sum and keeps its expiry.
pub open spec fn sum_next(store: StoreView, key: Seq<char>, sum: u32, now: u64) -> StoreView {
    if !store.live(key, now) {
        store.evict(key, now)
    } else if store.entries[key].data is Float {
        store.with_data(key, DataView::Float(sum))
    } else {
        store
    }
}

pub struct IncrF {}

impl IncrF {
    /// Runs INCR_FLOAT now, up to the addition: reads the clock, and runs
    /// the command at that time.
    pub fn execute(data_state: &mut DataState, cmd: &Command) -> (r: Dispatch)
        ensures
            exists|now: u64|
                #[trigger] clock_in_range(now)
                    && (r@ == incrf_outcome(old(data_state)@, cmd.args(), now))
                    && (final(data_state)@ == incrf_next(old(data_state)@, cmd.args(), now)),
            old(data_state)@.valid() ==> final(data_state)@.valid(),
    {
        let now = now_ms();
        Self::execute_at(data_state, cmd, now)
    }

    /// Runs INCR_FLOAT at time `now`, up to the addition.
    pub fn execute_at(data_state: &mut DataState, cmd: &Command, now: u64) -> (r: Dispatch)
        ensures
            r@ == incrf_outcome(old(data_state)@, cmd.args(), now),
            final(data_state)@ == incrf_next(old(data_state)@, cmd.args(), now),
            old(data_state)@.valid() ==> final(data_state)@.valid(),
    {
        if cmd.arguments.len() < 1 {
            return Dispatch::Reply(fail("Invalid number of arguments for INCRF command"));
        }
        let key = match text_of(cmd.arguments[0]) {
            Some(k) => k,
            None => { return Dispatch::Reply(fail("Invalid utf8 key")); },
        };
        let mut by: u32 = ONE;
        if cmd.arguments.len() > 1 {
            match read_word(cmd.arguments[1]) {
                Some(bits) => { by = bits; },
                None => { return Dispatch::Reply(fail("Invalid f32 value")); },
            }
        }
        let ghost before = old(data_state)@;
        let found: Option<Option<u32>> = match data_state.get_at(key, now) {
            None => None,
            Some(d) => match guarded(&d).get_data() {
                DataType::Float(f) => Some(Some(*f.get())),
                _ => Some(None),
            },
        };
        match found {
            Some(Some(current)) => Dispatch::FloatSum { key: key.to_owned(), current, delta: by },
            Some(None) => Dispatch::Reply(fail("Invalid type")),
            None => {
                let _data = FloatType::new(by);
                let response: Vec<u8> = bytes_of(&_data.serialize());
                let _ = data_state.set_at(key, DataType::Float(_data), ExpireParameter::NONE, now);
                assert(data_state@.entries =~= incrf_next(before, cmd.args(), now).entries);
                Dispatch::Reply(Ok(Some(response)))
            },
        }
    }

    /// The second step of INCR_FLOAT now: reads the clock, and takes the
    /// step at that time.
    pub fn store_sum(data_state: &mut DataState, key: &str, sum: u32) -> (r: Result<
        Option<Vec<u8>>,
        String,
    >)
        ensures
            exists|now: u64|
                #[trigger] clock_in_range(now)
                    && (reply_view(r) == sum_reply(old(data_state)@, key@, sum, now))
                    && (final(data_state)@ == sum_next(old(data_state)@, key@, sum, now)),
            old(data_state)@.valid() ==> final(data_state)@.valid(),
    {
        let now = now_ms();
        Self::store_sum_at(data_state, key, sum, now)
    }

    /// The second step of INCR_FLOAT at time `now`: puts the sum in the
    /// float's place and answers it.
    pub fn store_sum_at(data_state: &mut DataState, key: &str, sum: u32, now: u64) -> (r: Result<
        Option<Vec<u8>>,
        String,
    >)
        ensures
            reply_view(r) == sum_reply(old(data_state)@, key@, sum, now),
            final(data_state)@ == sum_next(old(data_state)@, key@, sum, now),
            old(data_state)@.valid() ==> final(data_state)@.valid(),
    {
        let ghost before = old(data_state)@;
        let d = match data_state.take(key, now) {
            Some(d) => d,
            None => { return fail("Key not found"); },
        };
        let expire: u64 = d.expire_raw();
        match d.into_data() {
            DataType::Float(_) => {
                let updated = FloatType::new(sum);
                let response: Vec<u8> = bytes_of(&updated.serialize());
                data_state.put(key, DataWrapper::new(DataType::Float(updated), Some(expire)));
                assert(data_state@.entries =~= sum_next(before, key@, sum, now).entries);
                Ok(Some(response))
            },
            other => {
                data_state.put(key, DataWrapper::new(other, Some(expire)));
                assert(data_state@.entries =~= before.entries);
                fail("Invalid type")
            },
        }
    }
}

} // verus!
