//! SET_INT: writes an integer under a key.
use crate::codec::text_of;
use crate::commands::commands::fail;
use crate::commands::commands::int_arg;
use crate::commands::commands::read_int;
use crate::commands::commands::reply_view;
use crate::commands::commands::Command;
use crate::commands::commands::Reply;
use crate::state::datastate::Data;
use crate::state::datastate::DataState;
use crate::state::datastate::DataType;
use crate::state::datastate::DataView;
use crate::state::datastate::StoreView;
use crate::state::expires::ExpireParameter;
use crate::state::clock::now_ms;
use crate::state::expires::clock_in_range;
use vstd::prelude::*;
use vstd::utf8::decode_utf8;
use vstd::utf8::valid_utf8;

verus! {

/// What is wrong with the arguments of SET_INT, if anything: there must be
/// a key, which must be UTF-8, and a number.
pub open spec fn seti_refusal(args: Seq<Seq<u8>>) -> Option<Seq<char>> {
    if args.len() != 2 {
        Some("Invalid number of arguments for SETI command"@)
    } else if !valid_utf8(args[0]) {
        Some("Invalid utf8 key"@)
    } else if int_arg(args[1]) is None {
        Some("Invalid u32 value"@)
    } else {
        None
    }
}

/// What SET_INT answers: nothing, or what is wrong with the arguments.
pub open spec fn seti_reply(args: Seq<Seq<u8>>) -> Reply {
    match seti_refusal(args) {
        Some(message) => Err(message),
        None => Ok(None),
    }
}

/// The store after SET_INT: the key holds the number, without expiry.
pub open spec fn seti_next(store: StoreView, args: Seq<Seq<u8>>, now: u64) -> StoreView {
    match seti_refusal(args) {
        Some(_) => store,
        None => store.written(
            decode_utf8(args[0]),
            DataView::Int(int_arg(args[1])->0),
            ExpireParameter::NONE,
            now,
        ),
    }
}

pub struct SetI {}

impl SetI {
    /// Runs SET_INT now: reads the clock, and runs the command at that time.
    pub fn execute(data_state: &mut DataState, cmd: &Command) -> (r: Result<
        Option<Vec<u8>>,
        String,
    >)
        ensures
            exists|now: u64|
                #[trigger] clock_in_range(now)
                    && (final(data_state)@ == seti_next(old(data_state)@, cmd.args(), now)),
            reply_view(r) == seti_reply(cmd.args()),
            old(data_state)@.valid() ==> final(data_state)@.valid(),
    {
        let now = now_ms();
        Self::execute_at(data_state, cmd, now)
    }

    /// Runs SET_INT at time `now`.
    pub fn execute_at(data_state: &mut DataState, cmd: &Command, now: u64) -> (r: Result<
        Option<Vec<u8>>,
        String,
    >)
        ensures
            reply_view(r) == seti_reply(cmd.args()),
            final(data_state)@ == seti_next(old(data_state)@, cmd.args(), now),
            old(data_state)@.valid() ==> final(data_state)@.valid(),
    {
        if cmd.arguments.len() != 2 {
            return fail("Invalid number of arguments for SETI command");
        }
        let key = match text_of(cmd.arguments[0]) {
            Some(k) => k,
            None => { return fail("Invalid utf8 key"); },
        };
        let value: i32 = match read_int(cmd.arguments[1]) {
            Some(n) => n,
            None => { return fail("Invalid u32 value"); },
        };
        let new_data = DataType::Int(Data::<i32>::new(value));
        let _ = data_state.set_at(key, new_data, ExpireParameter::NONE, now);
        Ok(None)
    }
}

} // verus!
