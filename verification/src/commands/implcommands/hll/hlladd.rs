//! HLL_ADD: records strings in the sketch under a key.
use crate::codec::decimal_text;
use crate::codec::text_of;
use crate::commands::commands::bad_value;
use crate::commands::commands::fail;
use crate::commands::commands::too_long;
use crate::commands::commands::reply_view;
use crate::commands::commands::texts_of;
use crate::commands::commands::Command;
use crate::commands::commands::Reply;
use crate::data::hll::empty_registers;
use crate::data::hll::recorded;
use crate::data::hll::HllView;
use crate::data::hll::DIGEST_LIMIT;
use crate::data::hll::HLL;
use crate::state::datastate::DataState;
use crate::state::datastate::DataType;
use crate::state::datastate::DataView;
use crate::state::datastate::DataWrapper;
use crate::state::datastate::HLLType;
use crate::state::datastate::StoreView;
use crate::state::expires::ExpireParameter;
use vstd::pervasive::unreached;
use crate::state::clock::now_ms;
use crate::state::expires::clock_in_range;
use vstd::prelude::*;
use vstd::utf8::decode_utf8;
use vstd::utf8::decode_utf8_encode_utf8;
use vstd::utf8::valid_utf8;

verus! {

/// What is wrong with the arguments of HLL_ADD, if anything: there must be
/// a key, which must be UTF-8, and at least one value.
pub open spec fn hlladd_refusal(args: Seq<Seq<u8>>) -> Option<Seq<char>> {
    if args.len() < 2 {
        Some("Invalid number of arguments for HLLADD command"@)
    } else if !valid_utf8(args[0]) {
        Some("Invalid utf8 key"@)
    } else {
        None
    }
}

/// Whether a value can be recorded: it is UTF-8, and short enough to be
/// hashed.
pub open spec fn recordable(value: Seq<u8>) -> bool {
    valid_utf8(value) && value.len() < DIGEST_LIMIT
}

/// The index of the first value at or after `from` that cannot be recorded,
/// or the number of values where all from there on can.
pub open spec fn first_refused(values: Seq<Seq<u8>>, from: int) -> int
    decreases values.len() - from,
{
    if from >= values.len() {
        values.len() as int
    } else if !recordable(values[from]) {
        from
    } else {
        first_refused(values, from + 1)
    }
}

/// What HLL_ADD answers: nothing where every value can be recorded, else
/// the index of the first that cannot, and whether that is not UTF-8 or too
/// long.
pub open spec fn hlladd_reply(store: StoreView, args: Seq<Seq<u8>>, now: u64) -> Reply {
    match hlladd_refusal(args) {
        Some(message) => Err(message),
        None => {
            let key = decode_utf8(args[0]);
            let values = args.skip(1);
            let stop = first_refused(values, 0);
            if store.live(key, now) && !(store.entries[key].data is HLL) {
                Err("Data at specified key is not a valid HLL"@)
            } else if stop < values.len() {
                if !valid_utf8(values[stop]) {
                    Err("Invalid utf8 value at index "@ + decimal_text(stop as nat))
                } else {
                    Err("Value too long at index "@ + decimal_text(stop as nat))
                }
            } else {
                Ok(None)
            }
        },
    }
}

/// The store after HLL_ADD. A sketch has the values up to the first that
/// cannot be recorded recorded, and keeps its expiry. A key without a live
/// entry gets a sketch of 14 index bits with the values recorded, without
/// expiry, where all of them can be.
pub open spec fn hlladd_next(store: StoreView, args: Seq<Seq<u8>>, now: u64) -> StoreView {
    match hlladd_refusal(args) {
        Some(_) => store,
        None => {
            let key = decode_utf8(args[0]);
            let values = args.skip(1);
            let stop = first_refused(values, 0);
            if store.live(key, now) {
                match store.entries[key].data {
                    DataView::HLL(sketch) => store.with_data(
                        key,
                        DataView::HLL(
                            HllView {
                                bits: sketch.bits,
                                registers: recorded(
                                    sketch.registers,
                                    sketch.bits,
                                    texts_of(values.take(stop)),
                                ),
                            },
                        ),
                    ),
                    _ => store,
                }
            } else if stop < values.len() {
                store.evict(key, now)
            } else {
                store.written(
                    key,
                    DataView::HLL(
                        HllView {
                            bits: 14,
                            registers: recorded(empty_registers(14), 14, texts_of(values)),
                        },
                    ),
                    ExpireParameter::NONE,
                    now,
                )
            }
        },
    }
}

pub struct HLLAddCmd {}

impl HLLAddCmd {
    /// Records the values in a sketch, up to the first that cannot be
    /// recorded. The result is the number of values recorded.
    fn record_values(sketch: &mut HLL, cmd: &Command) -> (stop: usize)
        requires
            old(sketch)@.valid(),
            cmd.arguments@.len() >= 1,
        ensures
            final(sketch)@.valid(),
            final(sketch)@.bits == old(sketch)@.bits,
            stop == first_refused(cmd.args().skip(1), 0),
            stop <= cmd.arguments@.len() - 1,
            final(sketch)@.registers == recorded(
                old(sketch)@.registers,
                old(sketch)@.bits,
                texts_of(cmd.args().skip(1).take(stop as int)),
            ),
    {
        let count: usize = cmd.arguments.len() - 1;
        let ghost values = cmd.args().skip(1);
        let mut i: usize = 0;
        assert(texts_of(values.take(0)) =~= Seq::<Seq<char>>::empty());
        while i < count
            invariant
                i <= count,
                count == values.len(),
                values == cmd.args().skip(1),
                cmd.arguments@.len() == count + 1,
                first_refused(values, 0) == first_refused(values, i as int),
                sketch@.valid(),
                sketch@.bits == old(sketch)@.bits,
                sketch@.registers == recorded(
                    old(sketch)@.registers,
                    old(sketch)@.bits,
                    texts_of(values.take(i as int)),
                ),
            ensures
                i == first_refused(values, 0),
                i <= count,
                sketch@.valid(),
                sketch@.bits == old(sketch)@.bits,
                sketch@.registers == recorded(
                    old(sketch)@.registers,
                    old(sketch)@.bits,
                    texts_of(values.take(i as int)),
                ),
            decreases count - i,
        {
            assert(values[i as int] == cmd.arguments@[i + 1]@);
            if cmd.arguments[i + 1].len() >= DIGEST_LIMIT {
                break ;
            }
            match text_of(cmd.arguments[i + 1]) {
                Some(value) => {
                    proof {
                        decode_utf8_encode_utf8(values[i as int]);
                    }
                    sketch.add(value);
                    proof {
                        let longer = texts_of(values.take(i + 1));
                        assert(longer.drop_last() =~= texts_of(values.take(i as int)));
                        assert(longer.last() == value@);
                    }
                },
                None => {
                    break ;
                },
            }
            i = i + 1;
        }
        i
    }

    /// Runs HLL_ADD now: reads the clock, and runs the command at that time.
    pub fn execute(data_state: &mut DataState, cmd: &Command) -> (r: Result<
        Option<Vec<u8>>,
        String,
    >)
        requires
            old(data_state)@.valid(),
        ensures
            exists|now: u64|
                #[trigger] clock_in_range(now)
                    && (reply_view(r) == hlladd_reply(old(data_state)@, cmd.args(), now))
                    && (final(data_state)@ == hlladd_next(old(data_state)@, cmd.args(), now)),
            final(data_state)@.valid(),
    {
        let now = now_ms();
        Self::execute_at(data_state, cmd, now)
    }

    /// The answer to the value at `stop` among the values, which cannot be
    /// recorded.
    fn refuse(cmd: &Command, stop: usize) -> (r: Result<Option<Vec<u8>>, String>)
        requires
            stop + 1 < cmd.arguments@.len(),
        ensures
            reply_view(r) == if !valid_utf8(cmd.args().skip(1)[stop as int]) {
                Err::<Option<Seq<u8>>, Seq<char>>(
                    "Invalid utf8 value at index "@ + decimal_text(stop as nat),
                )
            } else {
                Err::<Option<Seq<u8>>, Seq<char>>(
                    "Value too long at index "@ + decimal_text(stop as nat),
                )
            },
    {
        let count: usize = cmd.arguments.len();
        assert(stop + 1 < count);
        assert(cmd.args().skip(1)[stop as int] == cmd.arguments@[stop + 1]@);
        match text_of(cmd.arguments[stop + 1]) {
            None => bad_value(stop),
            Some(_) => too_long(stop),
        }
    }

    /// Runs HLL_ADD at time `now`.
    pub fn execute_at(data_state: &mut DataState, cmd: &Command, now: u64) -> (r: Result<
        Option<Vec<u8>>,
        String,
    >)
        requires
            old(data_state)@.valid(),
        ensures
            reply_view(r) == hlladd_reply(old(data_state)@, cmd.args(), now),
            final(data_state)@ == hlladd_next(old(data_state)@, cmd.args(), now),
            final(data_state)@.valid(),
    {
        if cmd.arguments.len() < 2 {
            return fail("Invalid number of arguments for HLLADD command");
        }
        let key = match text_of(cmd.arguments[0]) {
            Some(k) => k,
            None => { return fail("Invalid utf8 key"); },
        };
        let count: usize = cmd.arguments.len() - 1;
        let ghost before = old(data_state)@;
        let ghost values = cmd.args().skip(1);
        match data_state.take(key, now) {
            None => {
                let mut hll: HLL = match HLL::new(14) {
                    Some(h) => h,
                    None => unreached(),
                };
                let stop = Self::record_values(&mut hll, cmd);
                if stop < count {
                    return Self::refuse(cmd, stop);
                }
                assert(values.take(stop as int) =~= values);
                let _ = data_state.set_at(
                    key,
                    DataType::HLL(HLLType::new_from_hll(hll)),
                    ExpireParameter::NONE,
                    now,
                );
                assert(data_state@.entries =~= hlladd_next(before, cmd.args(), now).entries);
                Ok(None)
            },
            Some(result) => {
                let expire: u64 = result.expire_raw();
                match result.into_data() {
                    DataType::HLL(l) => {
                        let mut storage: HLL = l.into_inner();
                        let stop = Self::record_values(&mut storage, cmd);
                        data_state.put(
                            key,
                            DataWrapper::new(
                                DataType::HLL(HLLType::new_from_hll(storage)),
                                Some(expire),
                            ),
                        );
                        assert(data_state@.entries =~= hlladd_next(
                            before,
                            cmd.args(),
                            now,
                        ).entries);
                        if stop < count {
                            Self::refuse(cmd, stop)
                        } else {
                            Ok(None)
                        }
                    },
                    other => {
                        data_state.put(key, DataWrapper::new(other, Some(expire)));
                        assert(data_state@.entries =~= before.entries);
                        fail("Data at specified key is not a valid HLL")
                    },
                }
            },
        }
    }
}

} // verus!
