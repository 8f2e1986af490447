//! LIST_POP: takes elements off the end of the list under a key.
use crate::codec::push_all;
use crate::codec::text_of;
use crate::commands::commands::fail;
use crate::commands::commands::read_word;
use crate::commands::commands::reply_view;
use crate::commands::commands::word_arg;
use crate::commands::commands::Command;
use crate::commands::commands::Reply;
use crate::state::datastate::concat_reversed;
use crate::state::datastate::DataState;
use crate::state::datastate::DataType;
use crate::state::datastate::DataView;
use crate::state::datastate::DataWrapper;
use crate::state::datastate::StoreView;
use crate::state::clock::now_ms;
use crate::state::expires::clock_in_range;
use vstd::prelude::*;
use vstd::utf8::decode_utf8;
use vstd::utf8::valid_utf8;

verus! {

/// What is wrong with the arguments of LIST_POP, if anything: there must be
/// a key, which must be UTF-8.
pub open spec fn lpop_refusal(args: Seq<Seq<u8>>) -> Option<Seq<char>> {
    if args.len() < 1 {
        Some("Invalid number of arguments for LPOP command"@)
    } else if !valid_utf8(args[0]) {
        Some("Invalid utf8 key"@)
    } else {
        None
    }
}

/// How many elements LIST_POP is asked for: the number in the second of two
/// arguments, and 1 otherwise; `None` where the second of two arguments
/// holds no number.
pub open spec fn lpop_count(args: Seq<Seq<u8>>) -> Option<u32> {
    if args.len() == 2 {
        word_arg(args[1])
    } else {
        Some(1)
    }
}

/// How many elements LIST_POP takes from a list: as many as it is asked
/// for, or all where there are fewer.
pub open spec fn lpop_taken(items: Seq<Seq<u8>>, count: u32) -> int {
    if count < items.len() {
        count as int
    } else {
        items.len() as int
    }
}

/// What LIST_POP answers: the encodings of the elements it takes, the last
/// element of the list first.
pub open spec fn lpop_reply(store: StoreView, args: Seq<Seq<u8>>, now: u64) -> Reply {
    match lpop_refusal(args) {
        Some(message) => Err(message),
        None => {
            let key = decode_utf8(args[0]);
            if !store.live(key, now) {
                Err("Key not found"@)
            } else if lpop_count(args) is None {
                Err("Invalid u32 value"@)
            } else {
                match store.entries[key].data {
                    DataView::List(items) => Ok(
                        Some(
                            concat_reversed(
                                items.subrange(
                                    items.len() - lpop_taken(items, lpop_count(args)->0),
                                    items.len() as int,
                                ),
                            ),
                        ),
                    ),
                    _ => Err("Data at specified key is not a list"@),
                }
            }
        },
    }
}

/// The store after LIST_POP: the list is without the elements that were
/// taken, and keeps its expiry.
pub open spec fn lpop_next(store: StoreView, args: Seq<Seq<u8>>, now: u64) -> StoreView {
    match lpop_refusal(args) {
        Some(_) => store,
        None => {
            let key = decode_utf8(args[0]);
            if !store.live(key, now) {
                store.evict(key, now)
            } else if lpop_count(args) is None {
                store
            } else {
                match store.entries[key].data {
                    DataView::List(items) => store.with_data(
                        key,
                        DataView::List(
                            items.take(items.len() - lpop_taken(items, lpop_count(args)->0)),
                        ),
                    ),
                    _ => store,
                }
            }
        },
    }
}

/// The parts in reverse behind one more part that stands in front of them
/// are the parts in reverse, then that part.
pub proof fn lemma_concat_reversed_front(parts: Seq<Seq<u8>>)
    requires
        parts.len() > 0,
    ensures
        concat_reversed(parts) == concat_reversed(parts.drop_first()) + parts.first(),
    decreases parts.len(),
{
    if parts.len() == 1 {
        assert(parts.drop_last() =~= Seq::<Seq<u8>>::empty());
        assert(parts.drop_first() =~= Seq::<Seq<u8>>::empty());
        assert(concat_reversed(parts.drop_last()) =~= Seq::<u8>::empty());
        assert(concat_reversed(parts.drop_first()) =~= Seq::<u8>::empty());
        assert(concat_reversed(parts) =~= parts.last());
    } else {
        let inner = parts.drop_last();
        lemma_concat_reversed_front(inner);
        assert(inner.drop_first() =~= parts.drop_first().drop_last());
        assert(parts.drop_first().last() == parts.last());
        assert(inner.first() == parts.first());
        assert(concat_reversed(parts) =~= concat_reversed(parts.drop_first()) + parts.first());
    }
}

pub struct LPopCmd {}

impl LPopCmd {
    /// Runs LIST_POP now: reads the clock, and runs the command at that time.
    pub fn execute(data_state: &mut DataState, cmd: &Command) -> (r: Result<
        Option<Vec<u8>>,
        String,
    >)
        ensures
            exists|now: u64|
                #[trigger] clock_in_range(now)
                    && (reply_view(r) == lpop_reply(old(data_state)@, cmd.args(), now))
                    && (final(data_state)@ == lpop_next(old(data_state)@, cmd.args(), now)),
            old(data_state)@.valid() ==> final(data_state)@.valid(),
    {
        let now = now_ms();
        Self::execute_at(data_state, cmd, now)
    }

    /// Runs LIST_POP at time `now`.
    pub fn execute_at(data_state: &mut DataState, cmd: &Command, now: u64) -> (r: Result<
        Option<Vec<u8>>,
        String,
    >)
        ensures
            reply_view(r) == lpop_reply(old(data_state)@, cmd.args(), now),
            final(data_state)@ == lpop_next(old(data_state)@, cmd.args(), now),
            old(data_state)@.valid() ==> final(data_state)@.valid(),
    {
        if cmd.arguments.len() < 1 {
            return fail("Invalid number of arguments for LPOP command");
        }
        let key = match text_of(cmd.arguments[0]) {
            Some(k) => k,
            None => { return fail("Invalid utf8 key"); },
        };
        let asked: Option<u32> = if cmd.arguments.len() == 2 {
            read_word(cmd.arguments[1])
        } else {
            Some(1)
        };
        let ghost before = old(data_state)@;
        let value_obj = match data_state.take(key, now) {
            Some(d) => d,
            None => { return fail("Key not found"); },
        };
        let expire: u64 = value_obj.expire_raw();
        let value_count: u32 = match asked {
            Some(n) => n,
            None => {
                data_state.put(key, value_obj);
                assert(data_state@.entries =~= before.entries);
                return fail("Invalid u32 value");
            },
        };
        match value_obj.into_data() {
            DataType::List(mut list) => {
                let ghost items = list@;
                let mut result: Vec<u8> = Vec::new();
                let mut taken: u32 = 0;
                assert(items.subrange(items.len() as int, items.len() as int) =~= Seq::<
                    Seq<u8>,
                >::empty());
                assert(items.take(items.len() as int) =~= items);
                while taken < value_count
                    invariant
                        taken <= value_count,
                        taken <= items.len(),
                        list@ == items.take(items.len() - taken),
                        result@ == concat_reversed(
                            items.subrange(items.len() - taken, items.len() as int),
                        ),
                    ensures
                        taken == lpop_taken(items, value_count),
                        list@ == items.take(items.len() - taken),
                        result@ == concat_reversed(
                            items.subrange(items.len() - taken, items.len() as int),
                        ),
                    decreases value_count - taken,
                {
                    match list.pop() {
                        Some(element) => {
                            proof {
                                let longer = items.subrange(
                                    items.len() - taken - 1,
                                    items.len() as int,
                                );
                                lemma_concat_reversed_front(longer);
                                assert(longer.drop_first() =~= items.subrange(
                                    items.len() - taken,
                                    items.len() as int,
                                ));
                                assert(list@ =~= items.take(items.len() - taken - 1));
                            }
                            push_all(&mut result, element.serialize().as_slice());
                            taken = taken + 1;
                        },
                        None => {
                            break ;
                        },
                    }
                }
                data_state.put(key, DataWrapper::new(DataType::List(list), Some(expire)));
                assert(data_state@.entries =~= lpop_next(before, cmd.args(), now).entries);
                Ok(Some(result))
            },
            other => {
                data_state.put(key, DataWrapper::new(other, Some(expire)));
                assert(data_state@.entries =~= before.entries);
                fail("Data at specified key is not a list")
            },
        }
    }
}

} // verus!
