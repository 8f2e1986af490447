//! SET_STRING: writes a string under a key, with an optional expiry.
use crate::codec::text_of;
use crate::commands::commands::fail;
use crate::commands::commands::reply_view;
use crate::commands::commands::Command;
use crate::commands::commands::Reply;
use crate::state::datastate::string_encoding;
use crate::state::datastate::DataState;
use crate::state::datastate::DataType;
use crate::state::datastate::DataView;
use crate::state::datastate::StoreView;
use crate::state::datastate::StringType;
use crate::state::expires::clock_in_range;
use crate::state::expires::directive_of;
use crate::state::expires::ExpireParameter;
use crate::state::clock::now_ms;
use vstd::prelude::*;
use vstd::utf8::decode_utf8;
use vstd::utf8::decode_utf8_encode_utf8;
use vstd::utf8::valid_utf8;

verus! {

/// What is wrong with the arguments of SET_STRING, if anything: there must
/// be a key and a value, both UTF-8, and at most one more argument.
pub open spec fn sets_refusal(args: Seq<Seq<u8>>) -> Option<Seq<char>> {
    if args.len() < 2 || args.len() > 3 {
        Some("Invalid number of arguments for SETS command"@)
    } else if !valid_utf8(args[0]) {
        Some("Invalid utf8 key"@)
    } else if !valid_utf8(args[1]) {
        Some("Invalid utf8 value"@)
    } else {
        None
    }
}

/// The directive for the expiry: what the third argument stands for, or
/// none without one.
pub open spec fn sets_directive(args: Seq<Seq<u8>>) -> ExpireParameter {
    if args.len() > 2 {
        directive_of(args[2])
    } else {
        ExpireParameter::NONE
    }
}

/// What SET_STRING answers: nothing, or what is wrong with the arguments.
pub open spec fn sets_reply(args: Seq<Seq<u8>>) -> Reply {
    match sets_refusal(args) {
        Some(message) => Err(message),
        None => Ok(None),
    }
}

/// The store after SET_STRING: the key holds the value's encoding, with the
/// expiry that the directive gives it.
pub open spec fn sets_next(store: StoreView, args: Seq<Seq<u8>>, now: u64) -> StoreView {
    match sets_refusal(args) {
        Some(_) => store,
        None => store.written(
            decode_utf8(args[0]),
            DataView::String(string_encoding(args[1])),
            sets_directive(args),
            now,
        ),
    }
}

pub struct SetSCmd {}

impl SetSCmd {
    /// Runs SET_STRING now: reads the clock, and runs the command at that time.
    pub fn execute(data_state: &mut DataState, cmd: &Command) -> (r: Result<
        Option<Vec<u8>>,
        String,
    >)
        ensures
            exists|now: u64|
                #[trigger] clock_in_range(now)
                    && (final(data_state)@ == sets_next(old(data_state)@, cmd.args(), now)),
            reply_view(r) == sets_reply(cmd.args()),
            old(data_state)@.valid() ==> final(data_state)@.valid(),
    {
        let now = now_ms();
        Self::execute_at(data_state, cmd, now)
    }

    /// Runs SET_STRING at time `now`.
    pub fn execute_at(data_state: &mut DataState, cmd: &Command, now: u64) -> (r: Result<
        Option<Vec<u8>>,
        String,
    >)
        requires
            clock_in_range(now),
        ensures
            reply_view(r) == sets_reply(cmd.args()),
            final(data_state)@ == sets_next(old(data_state)@, cmd.args(), now),
            old(data_state)@.valid() ==> final(data_state)@.valid(),
    {
        if cmd.arguments.len() < 2 {
            return fail("Invalid number of arguments for SETS command");
        }
        let mut expire: ExpireParameter = ExpireParameter::NONE;
        if cmd.arguments.len() > 2 {
            if cmd.arguments.len() > 3 {
                return fail("Invalid number of arguments for SETS command");
            }
            expire = ExpireParameter::from(cmd.arguments[2]);
        }
        let key = match text_of(cmd.arguments[0]) {
            Some(k) => k,
            None => { return fail("Invalid utf8 key"); },
        };
        let value = match text_of(cmd.arguments[1]) {
            Some(v) => v,
            None => { return fail("Invalid utf8 value"); },
        };
        proof {
            decode_utf8_encode_utf8(cmd.args()[1]);
        }
        let new_data = DataType::String(StringType::new(value.to_owned()));
        let _ = data_state.set_at(key, new_data, expire, now);
        Ok(None)
    }
}

} // verus!
