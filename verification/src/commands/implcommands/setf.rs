//! SET_FLOAT: writes a float under a key.
use crate::codec::text_of;
use crate::commands::commands::fail;
use crate::commands::commands::read_word;
use crate::commands::commands::reply_view;
use crate::commands::commands::word_arg;
use crate::commands::commands::Command;
use crate::commands::commands::Reply;
use crate::state::datastate::Data;
use crate::state::datastate::DataState;
use crate::state::datastate::DataType;
use crate::state::datastate::DataView;
use crate::state::datastate::StoreView;
use crate::state::expires::ExpireParameter;
use crate::state::clock::now_ms;
use crate::state::expires::clock_in_range;
use vstd::prelude::*;
use vstd::utf8::decode_utf8;
use vstd::utf8::valid_utf8;

verus! {

/// What is wrong with the arguments of SET_FLOAT, if anything: there must
/// be a key, which must be UTF-8, and the four bytes of a float.
pub open spec fn setf_refusal(args: Seq<Seq<u8>>) -> Option<Seq<char>> {
    if args.len() != 2 {
        Some("Invalid number of arguments for SETF command"@)
    } else if !valid_utf8(args[0]) {
        Some("Invalid utf8 key"@)
    } else if word_arg(args[1]) is None {
        Some("Invalid f32 value"@)
    } else {
        None
    }
}

/// What SET_FLOAT answers: nothing, or what is wrong with the arguments.
pub open spec fn setf_reply(args: Seq<Seq<u8>>) -> Reply {
    match setf_refusal(args) {
        Some(message) => Err(message),
        None => Ok(None),
    }
}

/// The store after SET_FLOAT: the key holds the float, without expiry.
pub open spec fn setf_next(store: StoreView, args: Seq<Seq<u8>>, now: u64) -> StoreView {
    match setf_refusal(args) {
        Some(_) => store,
        None => store.written(
            decode_utf8(args[0]),
            DataView::Float(word_arg(args[1])->0),
            ExpireParameter::NONE,
            now,
        ),
    }
}

pub struct SetF {}

impl SetF {
    /// Runs SET_FLOAT now: reads the clock, and runs the command at that time.
    pub fn execute(data_state: &mut DataState, cmd: &Command) -> (r: Result<
        Option<Vec<u8>>,
        String,
    >)
        ensures
            exists|now: u64|
                #[trigger] clock_in_range(now)
                    && (final(data_state)@ == setf_next(old(data_state)@, cmd.args(), now)),
            reply_view(r) == setf_reply(cmd.args()),
            old(data_state)@.valid() ==> final(data_state)@.valid(),
    {
        let now = now_ms();
        Self::execute_at(data_state, cmd, now)
    }

    /// Runs SET_FLOAT at time `now`.
    pub fn execute_at(data_state: &mut DataState, cmd: &Command, now: u64) -> (r: Result<
        Option<Vec<u8>>,
        String,
    >)
        ensures
            reply_view(r) == setf_reply(cmd.args()),
            final(data_state)@ == setf_next(old(data_state)@, cmd.args(), now),
            old(data_state)@.valid() ==> final(data_state)@.valid(),
    {
        if cmd.arguments.len() != 2 {
            return fail("Invalid number of arguments for SETF command");
        }
        let key = match text_of(cmd.arguments[0]) {
            Some(k) => k,
            None => { return fail("Invalid utf8 key"); },
        };
        let value: u32 = match read_word(cmd.arguments[1]) {
            Some(bits) => bits,
            None => { return fail("Invalid f32 value"); },
        };
        let new_data = DataType::Float(Data::<u32>::new(value));
        let _ = data_state.set_at(key, new_data, ExpireParameter::NONE, now);
        Ok(None)
    }
}

} // verus!
