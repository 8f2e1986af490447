//! INCR_INT: adds to the integer under a key.
use crate::codec::bytes_of;
use crate::codec::text_of;
use crate::commands::commands::fail;
use crate::commands::commands::int_arg;
use crate::commands::commands::read_int;
use crate::commands::commands::reply_view;
use crate::commands::commands::Command;
use crate::commands::commands::Reply;
use crate::state::datastate::int_encoding;
use crate::state::datastate::DataState;
use crate::state::datastate::DataType;
use crate::state::datastate::DataView;
use crate::state::datastate::DataWrapper;
use crate::state::datastate::IntType;
use crate::state::datastate::StoreView;
use crate::state::expires::ExpireParameter;
use crate::state::clock::now_ms;
use crate::state::expires::clock_in_range;
use vstd::prelude::*;
use vstd::utf8::decode_utf8;
use vstd::utf8::valid_utf8;

verus! {

/// The sum of two integers, wrapped to 32 bits.
pub open spec fn wrapped_sum(n: i32, by: i32) -> i32 {
    if n + by > i32::MAX {
        (n + by - 0x1_0000_0000) as i32
    } else if n + by < i32::MIN {
        (n + by + 0x1_0000_0000) as i32
    } else {
        (n + by) as i32
    }
}

/// The sum of two integers, wrapped to 32 bits.
pub fn wrapping_sum(n: i32, by: i32) -> (r: i32)
    ensures
        r == wrapped_sum(n, by),
{
    let wide: i64 = (n as i64) + (by as i64);
    if wide > 0x7FFF_FFFF {
        (wide - 0x1_0000_0000) as i32
    } else if wide < -0x8000_0000 {
        (wide + 0x1_0000_0000) as i32
    } else {
        wide as i32
    }
}

/// What is wrong with the arguments of INCR_INT, if anything: there must be
/// a key, it must be UTF-8, and a second argument must hold a number.
pub open spec fn incri_refusal(args: Seq<Seq<u8>>) -> Option<Seq<char>> {
    if args.len() < 1 {
        Some("Invalid number of arguments for INCRI command"@)
    } else if !valid_utf8(args[0]) {
        Some("Invalid utf8 key"@)
    } else if args.len() > 1 && int_arg(args[1]) is None {
        Some("Invalid u32 value"@)
    } else {
        None
    }
}

/// The amount that INCR_INT adds: the second argument, or 1 without one.
pub open spec fn incri_amount(args: Seq<Seq<u8>>) -> i32 {
    if args.len() > 1 {
        int_arg(args[1])->0
    } else {
        1
    }
}

/// What INCR_INT answers: the new value's encoding. A key without a live
/// entry starts from the amount itself.
pub open spec fn incri_reply(store: StoreView, args: Seq<Seq<u8>>, now: u64) -> Reply {
    match incri_refusal(args) {
        Some(message) => Err(message),
        None => {
            let key = decode_utf8(args[0]);
            if store.live(key, now) {
                match store.entries[key].data {
                    DataView::Int(n) => Ok(Some(int_encoding(wrapped_sum(n, incri_amount(args))))),
                    _ => Err("Invalid type"@),
                }
            } else {
                Ok(Some(int_encoding(incri_amount(args))))
            }
        },
    }
}

/// The store after INCR_INT: an integer is replaced by the sum and keeps its
/// expiry; a key without a live entry gets the amount, without expiry; a
/// value of another kind stays.
pub open spec fn incri_next(store: StoreView, args: Seq<Seq<u8>>, now: u64) -> StoreView {
    match incri_refusal(args) {
        Some(_) => store,
        None => {
            let key = decode_utf8(args[0]);
            if store.live(key, now) {
                match store.entries[key].data {
                    DataView::Int(n) => store.with_data(
                        key,
                        DataView::Int(wrapped_sum(n, incri_amount(args))),
                    ),
                    _ => store,
                }
            } else {
                store.written(key, DataView::Int(incri_amount(args)), ExpireParameter::NONE, now)
            }
        },
    }
}

pub struct IncrI {}

impl IncrI {
    /// Runs INCR_INT now: reads the clock, and runs the command at that time.
    pub fn execute(data_state: &mut DataState, cmd: &Command) -> (r: Result<
        Option<Vec<u8>>,
        String,
    >)
        ensures
            exists|now: u64|
                #[trigger] clock_in_range(now)
                    && (reply_view(r) == incri_reply(old(data_state)@, cmd.args(), now))
                    && (final(data_state)@ == incri_next(old(data_state)@, cmd.args(), now)),
            old(data_state)@.valid() ==> final(data_state)@.valid(),
    {
        let now = now_ms();
        Self::execute_at(data_state, cmd, now)
    }

    /// Runs INCR_INT at time `now`.
    pub fn execute_at(data_state: &mut DataState, cmd: &Command, now: u64) -> (r: Result<
        Option<Vec<u8>>,
        String,
    >)
        ensures
            reply_view(r) == incri_reply(old(data_state)@, cmd.args(), now),
            final(data_state)@ == incri_next(old(data_state)@, cmd.args(), now),
            old(data_state)@.valid() ==> final(data_state)@.valid(),
    {
        if cmd.arguments.len() < 1 {
            return fail("Invalid number of arguments for INCRI command");
        }
        let key = match text_of(cmd.arguments[0]) {
            Some(k) => k,
            None => { return fail("Invalid utf8 key"); },
        };
        let mut by: i32 = 1;
        if cmd.arguments.len() > 1 {
            match read_int(cmd.arguments[1]) {
                Some(n) => { by = n; },
                None => { return fail("Invalid u32 value"); },
            }
        }
        let ghost before = old(data_state)@;
        match data_state.take(key, now) {
            Some(d) => {
                let expire: u64 = d.expire_raw();
                match d.into_data() {
                    DataType::Int(i) => {
                        let updated = IntType::new(wrapping_sum(*i.get(), by));
                        let response: Vec<u8> = bytes_of(&updated.serialize());
                        data_state.put(key, DataWrapper::new(DataType::Int(updated), Some(expire)));
                        assert(data_state@.entries =~= incri_next(
                            before,
                            cmd.args(),
                            now,
                        ).entries);
                        Ok(Some(response))
                    },
                    other => {
                        data_state.put(key, DataWrapper::new(other, Some(expire)));
                        assert(data_state@.entries =~= before.entries);
                        fail("Invalid type")
                    },
                }
            },
            None => {
                let _data = IntType::new(by);
                let response: Vec<u8> = bytes_of(&_data.serialize());
                let _ = data_state.set_at(key, DataType::Int(_data), ExpireParameter::NONE, now);
                assert(data_state@.entries =~= incri_next(before, cmd.args(), now).entries);
                Ok(Some(response))
            },
        }
    }
}

} // verus!
