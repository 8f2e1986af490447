//! HLL_RESET: empties the sketch under a key.
use crate::codec::text_of;
use crate::commands::commands::fail;
use crate::commands::commands::reply_view;
use crate::commands::commands::Command;
use crate::commands::commands::Reply;
use crate::data::hll::empty_registers;
use crate::data::hll::HllView;
use crate::data::hll::HLL;
use crate::state::datastate::DataState;
use crate::state::datastate::DataType;
use crate::state::datastate::DataView;
use crate::state::datastate::DataWrapper;
use crate::state::datastate::HLLType;
use crate::state::datastate::StoreView;
use crate::state::clock::now_ms;
use crate::state::expires::clock_in_range;
use vstd::prelude::*;
use vstd::utf8::decode_utf8;
use vstd::utf8::valid_utf8;

verus! {

/// What is wrong with the arguments of HLL_RESET, if anything: there must
/// be one key, which must be UTF-8.
pub open spec fn hllreset_refusal(args: Seq<Seq<u8>>) -> Option<Seq<char>> {
    if args.len() != 1 {
        Some("Invalid number of arguments for HLLRESET command"@)
    } else if !valid_utf8(args[0]) {
        Some("Invalid utf8 key"@)
    } else {
        None
    }
}

/// What HLL_RESET answers: nothing where the key holds a sketch.
pub open spec fn hllreset_reply(store: StoreView, args: Seq<Seq<u8>>, now: u64) -> Reply {
    match hllreset_refusal(args) {
        Some(message) => Err(message),
        None => {
            let key = decode_utf8(args[0]);
            if !store.live(key, now) {
                Err("Key not found"@)
            } else if store.entries[key].data is HLL {
                Ok(None)
            } else {
                Err("Data at specified key is not a valid HLL"@)
            }
        },
    }
}

/// The store after HLL_RESET: a sketch has every register at zero, and
/// keeps its precision and its expiry.
pub open spec fn hllreset_next(store: StoreView, args: Seq<Seq<u8>>, now: u64) -> StoreView {
    match hllreset_refusal(args) {
        Some(_) => store,
        None => {
            let key = decode_utf8(args[0]);
            if !store.live(key, now) {
                store.evict(key, now)
            } else {
                match store.entries[key].data {
                    DataView::HLL(sketch) => store.with_data(
                        key,
                        DataView::HLL(
                            HllView {
                                bits: sketch.bits,
                                registers: empty_registers(sketch.bits),
                            },
                        ),
                    ),
                    _ => store,
                }
            }
        },
    }
}

pub struct HLLResetCmd {}

impl HLLResetCmd {
    /// Runs HLL_RESET now: reads the clock, and runs the command at that time.
    pub fn execute(data_state: &mut DataState, cmd: &Command) -> (r: Result<
        Option<Vec<u8>>,
        String,
    >)
        requires
            old(data_state)@.valid(),
        ensures
            exists|now: u64|
                #[trigger] clock_in_range(now)
                    && (reply_view(r) == hllreset_reply(old(data_state)@, cmd.args(), now))
                    && (final(data_state)@ == hllreset_next(old(data_state)@, cmd.args(), now)),
            final(data_state)@.valid(),
    {
        let now = now_ms();
        Self::execute_at(data_state, cmd, now)
    }

    /// Runs HLL_RESET at time `now`.
    pub fn execute_at(data_state: &mut DataState, cmd: &Command, now: u64) -> (r: Result<
        Option<Vec<u8>>,
        String,
    >)
        requires
            old(data_state)@.valid(),
        ensures
            reply_view(r) == hllreset_reply(old(data_state)@, cmd.args(), now),
            final(data_state)@ == hllreset_next(old(data_state)@, cmd.args(), now),
            final(data_state)@.valid(),
    {
        if cmd.arguments.len() != 1 {
            return fail("Invalid number of arguments for HLLRESET command");
        }
        let key = match text_of(cmd.arguments[0]) {
            Some(k) => k,
            None => { return fail("Invalid utf8 key"); },
        };
        let ghost before = old(data_state)@;
        let result = match data_state.take(key, now) {
            Some(d) => d,
            None => { return fail("Key not found"); },
        };
        let expire: u64 = result.expire_raw();
        match result.into_data() {
            DataType::HLL(list) => {
                let mut storage: HLL = list.into_inner();
                storage.reset();
                data_state.put(
                    key,
                    DataWrapper::new(DataType::HLL(HLLType::new_from_hll(storage)), Some(expire)),
                );
                assert(data_state@.entries =~= hllreset_next(before, cmd.args(), now).entries);
                Ok(None)
            },
            other => {
                data_state.put(key, DataWrapper::new(other, Some(expire)));
                assert(data_state@.entries =~= before.entries);
                fail("Data at specified key is not a valid HLL")
            },
        }
    }
}

} // verus!
