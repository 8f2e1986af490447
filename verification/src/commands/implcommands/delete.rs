//! DELETE: removes keys.
use crate::codec::text_of;
use crate::commands::commands::all_text;
use crate::commands::commands::fail;
use crate::commands::commands::texts_of;
use crate::commands::commands::reply_view;
use crate::commands::commands::Command;
use crate::commands::commands::Reply;
use crate::state::datastate::key_slices;
use crate::state::datastate::DataState;
use crate::state::datastate::StoreView;
use vstd::prelude::*;
use vstd::utf8::decode_utf8;
use vstd::utf8::valid_utf8;

verus! {

/// What is wrong with the arguments of DELETE, if anything: there must be
/// at least one key, and each must be UTF-8.
pub open spec fn delete_refusal(args: Seq<Seq<u8>>) -> Option<Seq<char>> {
    if args.len() < 1 {
        Some("Invalid number of arguments for DELETE command"@)
    } else if !all_text(args) {
        Some("Invalid utf8 key"@)
    } else {
        None
    }
}

/// What DELETE answers: nothing, or what is wrong with the arguments.
pub open spec fn delete_reply(args: Seq<Seq<u8>>) -> Reply {
    match delete_refusal(args) {
        Some(message) => Err(message),
        None => Ok(None),
    }
}

/// The store after DELETE: the keys are removed, one after another. A key
/// that is absent is passed over.
pub open spec fn delete_next(store: StoreView, args: Seq<Seq<u8>>) -> StoreView {
    match delete_refusal(args) {
        Some(_) => store,
        None => store.without_all(texts_of(args)),
    }
}

pub struct DeleteCmd {}

impl DeleteCmd {
    /// Runs DELETE.
    pub fn execute(data_state: &mut DataState, cmd: &Command) -> (r: Result<
        Option<Vec<u8>>,
        String,
    >)
        ensures
            reply_view(r) == delete_reply(cmd.args()),
            final(data_state)@ == delete_next(old(data_state)@, cmd.args()),
            old(data_state)@.valid() ==> final(data_state)@.valid(),
    {
        if cmd.arguments.len() < 1 {
            return fail("Invalid number of arguments for DELETE command");
        }
        let mut keys: Vec<&str> = Vec::new();
        let mut i: usize = 0;
        while i < cmd.arguments.len()
            invariant
                i <= cmd.arguments@.len(),
                keys@.len() == i,
                forall|j: int| 0 <= j < i ==> valid_utf8(#[trigger] cmd.args()[j]),
                forall|j: int| 0 <= j < i ==> (#[trigger] keys@[j])@ == decode_utf8(cmd.args()[j]),
            decreases cmd.arguments@.len() - i,
        {
            match text_of(cmd.arguments[i]) {
                Some(str_key) => { keys.push(str_key); },
                None => {
                    assert(!valid_utf8(cmd.args()[i as int]));
                    return fail("Invalid utf8 key");
                },
            }
            i = i + 1;
        }
        assert(key_slices(keys@) =~= texts_of(cmd.args()));
        data_state.remove_all(keys);
        Ok(None)
    }
}

} // verus!
