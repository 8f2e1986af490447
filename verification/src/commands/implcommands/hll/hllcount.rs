//! HLL_COUNT: the estimated number of distinct strings recorded in the
//! sketch under a key.
use crate::codec::bytes_of;
use crate::codec::text_of;
use crate::commands::commands::Command;
use crate::commands::commands::Dispatch;
use crate::commands::commands::Outcome;
use crate::state::datastate::DataState;
use crate::state::datastate::DataType;
use crate::state::datastate::DataView;
use crate::state::datastate::StoreView;
use crate::state::shards::guarded;
use crate::state::clock::now_ms;
use crate::state::expires::clock_in_range;
use vstd::prelude::*;
use vstd::utf8::decode_utf8;
use vstd::utf8::valid_utf8;

verus! {

/// What is wrong with the arguments of HLL_COUNT, if anything: there must
/// be one key, which must be UTF-8.
pub open spec fn hllcount_refusal(args: Seq<Seq<u8>>) -> Option<Seq<char>> {
    if args.len() != 1 {
        Some("Invalid number of arguments for HLLCOUNT command"@)
    } else if !valid_utf8(args[0]) {
        Some("Invalid utf8 key"@)
    } else {
        None
    }
}

/// What HLL_COUNT hands back: the registers of the key's sketch, for the
/// cardinality to be estimated from them; or what went wrong.
pub open spec fn hllcount_outcome(store: StoreView, args: Seq<Seq<u8>>, now: u64) -> Outcome {
    match hllcount_refusal(args) {
        Some(message) => Outcome::Reply(Err(message)),
        None => {
            let key = decode_utf8(args[0]);
            if !store.live(key, now) {
                Outcome::Reply(Err("Key not found"@))
            } else {
                match store.entries[key].data {
                    DataView::HLL(sketch) => Outcome::Estimate {
                        bits: sketch.bits,
                        registers: sketch.registers,
                    },
                    _ => Outcome::Reply(Err("Data at specified key is not a valid HLL"@)),
                }
            }
        },
    }
}

/// The store after HLL_COUNT: an entry of the key that has expired is
/// removed.
pub open spec fn hllcount_next(store: StoreView, args: Seq<Seq<u8>>, now: u64) -> StoreView {
    match hllcount_refusal(args) {
        Some(_) => store,
        None => store.evict(decode_utf8(args[0]), now),
    }
}

pub struct HLLCountCmd {}

impl HLLCountCmd {
    /// Runs HLL_COUNT now, up to the estimate: reads the clock, and runs the
    /// command at that time.
    pub fn execute(data_state: &mut DataState, cmd: &Command) -> (r: Dispatch)
        ensures
            exists|now: u64|
                #[trigger] clock_in_range(now)
                    && (r@ == hllcount_outcome(old(data_state)@, cmd.args(), now))
                    && (final(data_state)@ == hllcount_next(old(data_state)@, cmd.args(), now)),
            old(data_state)@.valid() ==> final(data_state)@.valid(),
    {
        let now = now_ms();
        Self::execute_at(data_state, cmd, now)
    }

    /// Runs HLL_COUNT at time `now`, up to the estimate.
    pub fn execute_at(data_state: &mut DataState, cmd: &Command, now: u64) -> (r: Dispatch)
        ensures
            r@ == hllcount_outcome(old(data_state)@, cmd.args(), now),
            final(data_state)@ == hllcount_next(old(data_state)@, cmd.args(), now),
            old(data_state)@.valid() ==> final(data_state)@.valid(),
    {
        if cmd.arguments.len() != 1 {
            return Dispatch::Reply(
                Err("Invalid number of arguments for HLLCOUNT command".to_owned()),
            );
        }
        let key = match text_of(cmd.arguments[0]) {
            Some(k) => k,
            None => { return Dispatch::Reply(Err("Invalid utf8 key".to_owned())); },
        };
        let opt_key = data_state.get_at(key, now);
        match opt_key {
            None => Dispatch::Reply(Err("Key not found".to_owned())),
            Some(result) => {
                let result_val = guarded(&result).get_data();
                match result_val {
                    DataType::HLL(list) => Dispatch::Estimate {
                        bits: list.get().bucket_bits(),
                        registers: bytes_of(list.get().registers().as_slice()),
                    },
                    _ => Dispatch::Reply(
                        Err("Data at specified key is not a valid HLL".to_owned()),
                    ),
                }
            },
        }
    }
}

} // verus!
