//! What holds of the commands taken together.
use crate::codec::lemma_i32_le_round_trip;
use crate::codec::u32_of_le;
use crate::commands::commands::first_invalid;
use crate::commands::commands::word_arg;
use crate::commands::implcommands::list::lextract::lextract_next;
use crate::commands::implcommands::list::lextract::lextract_refusal;
use crate::commands::implcommands::list::llen::llen_reply;
use crate::commands::implcommands::list::lpop::lpop_count;
use crate::commands::implcommands::list::lpop::lpop_next;
use crate::commands::implcommands::list::lpop::lpop_refusal;
use crate::commands::implcommands::list::lpop::lpop_taken;
use crate::commands::implcommands::list::lpush::lpush_next;
use crate::commands::implcommands::list::lpush::lpush_refusal;
use crate::state::datastate::clamp;
use crate::state::datastate::length_encoding;
use crate::commands::commands::texts_of;
use crate::commands::implcommands::delete::delete_next;
use crate::commands::implcommands::delete::delete_refusal;
use crate::commands::implcommands::get::get_reply;
use crate::commands::implcommands::incri::incri_amount;
use crate::commands::implcommands::incri::incri_next;
use crate::commands::implcommands::incri::incri_refusal;
use crate::commands::implcommands::incri::incri_reply;
use crate::commands::implcommands::incri::wrapped_sum;
use crate::commands::implcommands::sets::sets_next;
use crate::commands::implcommands::sets::sets_refusal;
use crate::state::datastate::int_decoding;
use crate::state::datastate::int_encoding;
use crate::state::datastate::key_set;
use crate::state::datastate::lemma_key_set;
use crate::state::datastate::lemma_without_all;
use crate::state::datastate::string_encoding;
use crate::state::datastate::DataView;
use crate::state::datastate::StoreView;
use crate::commands::commands::dispatch_next;
use crate::commands::commands::CommandType;
use crate::commands::implcommands::get::get_next;
use crate::commands::implcommands::hll::hlladd::hlladd_next;
use crate::commands::implcommands::hll::hllcount::hllcount_next;
use crate::commands::implcommands::hll::hllreset::hllreset_next;
use crate::commands::implcommands::incrf::incrf_next;
use crate::commands::implcommands::incrf::sum_next;
use crate::commands::implcommands::list::llen::llen_next;
use crate::commands::implcommands::list::lrange::lrange_next;
use crate::commands::implcommands::setf::setf_next;
use crate::commands::implcommands::seti::seti_next;
use vstd::prelude::*;
use vstd::utf8::decode_utf8;
use vstd::utf8::valid_utf8;

verus! {

/// A value that SET_STRING has written under a key is what GET answers for
/// the key, at any time at which the entry has not expired.
pub proof fn lemma_get_after_set_string(
    store: StoreView,
    args: Seq<Seq<u8>>,
    now: u64,
    later: u64,
)
    requires
        sets_refusal(args) is None,
        sets_next(store, args, now).live(decode_utf8(args[0]), later),
    ensures
        get_reply(sets_next(store, args, now), seq![args[0]], later) == Ok::<
            Option<Seq<u8>>,
            Seq<char>,
        >(Some(string_encoding(args[1]))),
{
}

/// A value that SET_STRING has written with a span of `span > 0`
/// milliseconds to live is what GET answers for the key before the span
/// has passed; from then on GET finds no key.
pub proof fn lemma_expire_in(store: StoreView, args: Seq<Seq<u8>>, now: u64, later: u64)
    requires
        sets_refusal(args) is None,
        args.len() == 3,
        args[2].len() == 4,
        u32_of_le(args[2]) > 0,
        now + u32_of_le(args[2]) <= u64::MAX,
        now <= later,
    ensures
        later - now < u32_of_le(args[2]) ==> get_reply(
            sets_next(store, args, now),
            seq![args[0]],
            later,
        ) == Ok::<Option<Seq<u8>>, Seq<char>>(Some(string_encoding(args[1]))),
        later - now >= u32_of_le(args[2]) ==> get_reply(
            sets_next(store, args, now),
            seq![args[0]],
            later,
        ) == Err::<Option<Seq<u8>>, Seq<char>>("Key not found"@),
{
}

/// INCR_INT on a key that holds the integer `n` answers the encoding of `n`
/// plus the amount, wrapped to 32 bits, and GET answers the same for the
/// key afterwards, at any time at which the entry has not expired.
pub proof fn lemma_get_after_incr_int(
    store: StoreView,
    args: Seq<Seq<u8>>,
    n: i32,
    now: u64,
    later: u64,
)
    requires
        incri_refusal(args) is None,
        store.live(decode_utf8(args[0]), now),
        store.entries[decode_utf8(args[0])].data == DataView::Int(n),
        store.entries[decode_utf8(args[0])].live(later),
    ensures
        incri_reply(store, args, now) == Ok::<Option<Seq<u8>>, Seq<char>>(
            Some(int_encoding(wrapped_sum(n, incri_amount(args)))),
        ),
        get_reply(incri_next(store, args, now), seq![args[0]], later) == incri_reply(
            store,
            args,
            now,
        ),
{
}

/// After DELETE of some keys, none of them is in the store.
pub proof fn lemma_deleted_keys_are_gone(store: StoreView, args: Seq<Seq<u8>>, i: int)
    requires
        delete_refusal(args) is None,
        0 <= i < args.len(),
    ensures
        !delete_next(store, args).entries.contains_key(decode_utf8(args[i])),
{
    let keys = texts_of(args);
    lemma_without_all(store, keys);
    lemma_key_set(keys);
    assert(keys[i] == decode_utf8(args[i]));
    assert(key_set(keys).contains(decode_utf8(args[i])));
}

/// After DELETE of some keys, GET finds none of them.
pub proof fn lemma_get_after_delete(store: StoreView, args: Seq<Seq<u8>>, i: int, now: u64)
    requires
        delete_refusal(args) is None,
        0 <= i < args.len(),
    ensures
        get_reply(delete_next(store, args), seq![args[i]], now) == Err::<
            Option<Seq<u8>>,
            Seq<char>,
        >("Key not found"@),
{
    lemma_deleted_keys_are_gone(store, args, i);
    assert(valid_utf8(args[i]));
}

/// Removing keys from a store that holds none of them changes nothing.
pub proof fn lemma_without_absent(store: StoreView, keys: Seq<Seq<char>>)
    requires
        forall|j: int| 0 <= j < keys.len() ==> !store.entries.contains_key(#[trigger] keys[j]),
    ensures
        store.without_all(keys) == store,
    decreases keys.len(),
{
    if keys.len() > 0 {
        let front = keys.drop_last();
        assert forall|j: int| 0 <= j < front.len() implies !store.entries.contains_key(
            #[trigger] front[j],
        ) by {
            assert(front[j] == keys[j]);
        }
        lemma_without_absent(store, front);
        assert(!store.entries.contains_key(keys[keys.len() - 1]));
    }
}

/// DELETE a second time answers as the first time and leaves the store as
/// the first time left it.
pub proof fn lemma_delete_twice(store: StoreView, args: Seq<Seq<u8>>)
    ensures
        delete_next(delete_next(store, args), args) == delete_next(store, args),
{
    if delete_refusal(args) is None {
        let keys = texts_of(args);
        let once = delete_next(store, args);
        assert forall|j: int| 0 <= j < keys.len() implies !once.entries.contains_key(
            #[trigger] keys[j],
        ) by {
            lemma_deleted_keys_are_gone(store, args, j);
        }
        lemma_without_absent(once, keys);
    }
}

/// FLUSH a second time leaves the store as the first time left it.
pub proof fn lemma_flush_twice(store: StoreView)
    ensures
        store.flushed().flushed() == store.flushed(),
{
}

/// The encoding of an integer has five bytes and decodes back to the
/// integer.
pub proof fn lemma_int_encoding_round_trip(n: i32)
    ensures
        int_encoding(n).len() == 5,
        int_decoding(int_encoding(n)) == Some(n),
{
    lemma_i32_le_round_trip(n);
    assert(int_encoding(n).skip(1) =~= crate::codec::le_bytes_i32(n));
}

/// The commands that change a list.
pub enum ListCommand {
    Push,
    Pop,
    Extract,
}

/// One command on a list: its arguments, and the time at which it is run.
pub struct ListStep {
    pub command: ListCommand,
    pub args: Seq<Seq<u8>>,
    pub now: u64,
}

impl ListStep {
    /// The store after the step.
    pub open spec fn next(self, store: StoreView) -> StoreView {
        match self.command {
            ListCommand::Push => lpush_next(store, self.args, self.now),
            ListCommand::Pop => lpop_next(store, self.args, self.now),
            ListCommand::Extract => lextract_next(store, self.args, self.now),
        }
    }

    /// How many elements the step appends: for LIST_PUSH, the values up to
    /// the first that is not UTF-8, where the key holds a list; all the
    /// values, where the key has no live entry and all are UTF-8.
    pub open spec fn pushed(self, store: StoreView) -> nat {
        if self.command is Push && lpush_refusal(self.args) is None {
            let key = decode_utf8(self.args[0]);
            let values = self.args.skip(1);
            let stop = first_invalid(values, 0);
            if store.live(key, self.now) {
                if store.entries[key].data is List {
                    stop as nat
                } else {
                    0
                }
            } else if stop < values.len() {
                0
            } else {
                values.len()
            }
        } else {
            0
        }
    }

    /// How many elements the step answers: for LIST_POP and LIST_EXTRACT
    /// on a list, those that it takes out.
    pub open spec fn returned(self, store: StoreView) -> nat {
        if self.args.len() < 1 {
            0
        } else {
            let key = decode_utf8(self.args[0]);
            if !store.live(key, self.now) {
                0
            } else {
                match (self.command, store.entries[key].data) {
                    (ListCommand::Pop, DataView::List(items)) => if lpop_refusal(self.args)
                        is None && lpop_count(self.args) is Some {
                        lpop_taken(items, lpop_count(self.args)->0) as nat
                    } else {
                        0
                    },
                    (ListCommand::Extract, DataView::List(items)) => if lextract_refusal(
                        self.args,
                    ) is None && word_arg(self.args[1]) is Some && word_arg(self.args[2])
                        is Some {
                        let s = clamp(word_arg(self.args[1])->0 as int, items.len() as int);
                        let e = clamp(word_arg(self.args[2])->0 as int, items.len() as int);
                        if e <= s {
                            0
                        } else {
                            (e - s) as nat
                        }
                    } else {
                        0
                    },
                    _ => 0,
                }
            }
        }
    }
}

/// Whether a command names a key: DELETE names each of its arguments, INFO
/// and TEST name none, and every other command names its first argument.
pub open spec fn names_key(command_type: CommandType, args: Seq<Seq<u8>>, key: Seq<char>) -> bool {
    match command_type {
        CommandType::Info | CommandType::Test | CommandType::Flush | CommandType::Unknown => false,
        CommandType::Delete => exists|i: int|
            0 <= i < args.len() && decode_utf8(#[trigger] args[i]) == key,
        _ => args.len() >= 1 && decode_utf8(args[0]) == key,
    }
}

/// Whether a command leaves every entry as it is, but for the removal of
/// one that has expired.
pub open spec fn reads_only(command_type: CommandType) -> bool {
    command_type is Get || command_type is ListLength || command_type is ListRange
        || command_type is HLLCount
}

/// One step in the history of a store.
pub enum Step {
    /// LIST_PUSH, LIST_POP or LIST_EXTRACT.
    List(ListStep),
    /// Any command, as it is dispatched.
    Command { command_type: CommandType, args: Seq<Seq<u8>>, now: u64 },
    /// The second step of INCR_FLOAT.
    Sum { key: Seq<char>, sum: u32, now: u64 },
    /// Housekeeping.
    Housekeeping { now: u64 },
}

impl Step {
    /// The store after the step.
    pub open spec fn next(self, store: StoreView) -> StoreView {
        match self {
            Step::List(step) => step.next(store),
            Step::Command { command_type, args, now } => dispatch_next(
                command_type,
                store,
                args,
                now,
            ),
            Step::Sum { key, sum, now } => sum_next(store, key, sum, now),
            Step::Housekeeping { now } => store.maintained(now),
        }
    }

    /// How many elements the step appends to a list.
    pub open spec fn pushed(self, store: StoreView) -> nat {
        match self {
            Step::List(step) => step.pushed(store),
            _ => 0,
        }
    }

    /// How many elements of a list the step answers.
    pub open spec fn returned(self, store: StoreView) -> nat {
        match self {
            Step::List(step) => step.returned(store),
            _ => 0,
        }
    }

    /// Whether the step belongs to a history in which the list under a key
    /// is changed by LIST_PUSH, LIST_POP and LIST_EXTRACT alone: a list step
    /// is on the key; any other command names another key, or none, or only
    /// reads; the second step of INCR_FLOAT is on another key.
    pub open spec fn keeps_to(self, key_arg: Seq<u8>) -> bool {
        match self {
            Step::List(step) => step.args.len() >= 1 ==> step.args[0] == key_arg,
            Step::Command { command_type, args, now } => reads_only(command_type) || !names_key(
                command_type,
                args,
                decode_utf8(key_arg),
            ),
            Step::Sum { key, sum, now } => key != decode_utf8(key_arg),
            Step::Housekeeping { now } => true,
        }
    }
}

/// The store after the steps, one after another.
pub open spec fn after_steps(store: StoreView, steps: Seq<Step>) -> StoreView
    decreases steps.len(),
{
    if steps.len() == 0 {
        store
    } else {
        steps.last().next(after_steps(store, steps.drop_last()))
    }
}

/// How many elements the steps append to a list, all together.
pub open spec fn pushed_by(store: StoreView, steps: Seq<Step>) -> nat
    decreases steps.len(),
{
    if steps.len() == 0 {
        0
    } else {
        pushed_by(store, steps.drop_last()) + steps.last().pushed(
            after_steps(store, steps.drop_last()),
        )
    }
}

/// How many elements of a list the steps answer, all together.
pub open spec fn returned_by(store: StoreView, steps: Seq<Step>) -> nat
    decreases steps.len(),
{
    if steps.len() == 0 {
        0
    } else {
        returned_by(store, steps.drop_last()) + steps.last().returned(
            after_steps(store, steps.drop_last()),
        )
    }
}

/// The length of the list under a key; 0 where the key holds no list.
pub open spec fn list_length(store: StoreView, key: Seq<char>) -> nat {
    if store.entries.contains_key(key) {
        match store.entries[key].data {
            DataView::List(items) => items.len(),
            _ => 0,
        }
    } else {
        0
    }
}

/// The first value that is not UTF-8 stands at or after the place from
/// which it is looked for, and not beyond the values.
pub proof fn lemma_first_invalid_bounds(values: Seq<Seq<u8>>, from: int)
    requires
        0 <= from <= values.len(),
    ensures
        from <= first_invalid(values, from) <= values.len(),
    decreases values.len() - from,
{
    if from < values.len() && valid_utf8(values[from]) {
        lemma_first_invalid_bounds(values, from + 1);
    }
}

/// Whether a key is absent or holds a list that never expires.
pub open spec fn plain_list_or_absent(store: StoreView, key: Seq<char>) -> bool {
    store.entries.contains_key(key) ==> store.entries[key].data is List
        && store.entries[key].expire == 0
}

/// One step on a key that is absent or holds a list that never expires:
/// afterwards the same holds of the key, and the list is longer by what the
/// step appended and shorter by what it answered.
pub proof fn lemma_list_step(store: StoreView, step: ListStep, key_arg: Seq<u8>)
    requires
        valid_utf8(key_arg),
        plain_list_or_absent(store, decode_utf8(key_arg)),
        step.args.len() >= 1 ==> step.args[0] == key_arg,
    ensures
        plain_list_or_absent(step.next(store), decode_utf8(key_arg)),
        list_length(step.next(store), decode_utf8(key_arg)) + step.returned(store)
            == list_length(store, decode_utf8(key_arg)) + step.pushed(store),
{
    let key = decode_utf8(key_arg);
    if step.args.len() >= 2 {
        lemma_first_invalid_bounds(step.args.skip(1), 0);
    }
}

/// Whether two stores hold the same under a key.
pub open spec fn same_under(a: StoreView, b: StoreView, key: Seq<char>) -> bool {
    a.entries.contains_key(key) == b.entries.contains_key(key) && (a.entries.contains_key(key)
        ==> a.entries[key] == b.entries[key])
}

/// DELETE of other keys leaves a key as it is.
pub proof fn lemma_delete_elsewhere(store: StoreView, args: Seq<Seq<u8>>, key: Seq<char>)
    requires
        !names_key(CommandType::Delete, args, key),
    ensures
        same_under(delete_next(store, args), store, key),
{
    if delete_refusal(args) is None {
        let keys = texts_of(args);
        lemma_without_all(store, keys);
        lemma_key_set(keys);
        if key_set(keys).contains(key) {
            let j = choose|j: int| 0 <= j < keys.len() && #[trigger] keys[j] == key;
            assert(decode_utf8(args[j]) == key);
        }
    }
}

/// A command that names another key, or none, or only reads, leaves a key
/// as it is that is absent or holds a list that never expires.
pub proof fn lemma_command_elsewhere(
    store: StoreView,
    command_type: CommandType,
    args: Seq<Seq<u8>>,
    now: u64,
    key: Seq<char>,
)
    requires
        plain_list_or_absent(store, key),
        reads_only(command_type) || !names_key(command_type, args, key),
    ensures
        same_under(dispatch_next(command_type, store, args, now), store, key),
{
    match command_type {
        CommandType::Delete => {
            lemma_delete_elsewhere(store, args, key);
        },
        CommandType::SetString => {
            assert(same_under(sets_next(store, args, now), store, key));
        },
        CommandType::SetInt => {
            assert(same_under(seti_next(store, args, now), store, key));
        },
        CommandType::SetFloat => {
            assert(same_under(setf_next(store, args, now), store, key));
        },
        CommandType::IncrementInt => {
            assert(same_under(incri_next(store, args, now), store, key));
        },
        CommandType::IncrementFloat => {
            assert(same_under(incrf_next(store, args, now), store, key));
        },
        CommandType::Get => {
            assert(same_under(get_next(store, args, now), store, key));
        },
        CommandType::ListPush => {
            assert(same_under(lpush_next(store, args, now), store, key));
        },
        CommandType::ListExtract => {
            assert(same_under(lextract_next(store, args, now), store, key));
        },
        CommandType::ListPop => {
            assert(same_under(lpop_next(store, args, now), store, key));
        },
        CommandType::ListRange => {
            assert(same_under(lrange_next(store, args, now), store, key));
        },
        CommandType::ListLength => {
            assert(same_under(llen_next(store, args, now), store, key));
        },
        CommandType::HLLAdd => {
            assert(same_under(hlladd_next(store, args, now), store, key));
        },
        CommandType::HLLCount => {
            assert(same_under(hllcount_next(store, args, now), store, key));
        },
        CommandType::HLLReset => {
            assert(same_under(hllreset_next(store, args, now), store, key));
        },
        _ => {},
    }
}

/// One step of a history that keeps to a key, on a store in which the key
/// is absent or holds a list that never expires: afterwards the same holds
/// of the key, and the list is longer by what the step appended and shorter
/// by what it answered.
pub proof fn lemma_step(store: StoreView, step: Step, key_arg: Seq<u8>)
    requires
        valid_utf8(key_arg),
        plain_list_or_absent(store, decode_utf8(key_arg)),
        step.keeps_to(key_arg),
    ensures
        plain_list_or_absent(step.next(store), decode_utf8(key_arg)),
        list_length(step.next(store), decode_utf8(key_arg)) + step.returned(store)
            == list_length(store, decode_utf8(key_arg)) + step.pushed(store),
{
    let key = decode_utf8(key_arg);
    match step {
        Step::List(list_step) => {
            lemma_list_step(store, list_step, key_arg);
        },
        Step::Command { command_type, args, now } => {
            lemma_command_elsewhere(store, command_type, args, now, key);
        },
        Step::Sum { key: other, sum, now } => {
            assert(same_under(sum_next(store, other, sum, now), store, key));
        },
        Step::Housekeeping { now } => {
            assert(same_under(store.maintained(now), store, key));
        },
    }
}

/// In a history that keeps to a key, which starts out absent, the list's
/// length is the number of elements that LIST_PUSH appended to it less the
/// number that LIST_POP and LIST_EXTRACT answered from it, and LIST_LENGTH
/// answers that length. Commands on other keys, commands that only read,
/// and housekeeping may stand anywhere in the history.
pub proof fn lemma_list_length_tally(
    store: StoreView,
    steps: Seq<Step>,
    key_arg: Seq<u8>,
    now: u64,
)
    requires
        valid_utf8(key_arg),
        !store.entries.contains_key(decode_utf8(key_arg)),
        forall|i: int| 0 <= i < steps.len() ==> (#[trigger] steps[i]).keeps_to(key_arg),
    ensures
        plain_list_or_absent(after_steps(store, steps), decode_utf8(key_arg)),
        list_length(after_steps(store, steps), decode_utf8(key_arg)) + returned_by(store, steps)
            == pushed_by(store, steps),
        after_steps(store, steps).entries.contains_key(decode_utf8(key_arg)) ==> llen_reply(
            after_steps(store, steps),
            seq![key_arg],
            now,
        ) == Ok::<Option<Seq<u8>>, Seq<char>>(
            Some(
                length_encoding(
                    ((pushed_by(store, steps) - returned_by(store, steps)) % 0x1_0000_0000) as u32,
                ),
            ),
        ),
        llen_next(after_steps(store, steps), seq![key_arg], now) == after_steps(store, steps),
    decreases steps.len(),
{
    if steps.len() > 0 {
        let front = steps.drop_last();
        assert forall|i: int| 0 <= i < front.len() implies (#[trigger] front[i]).keeps_to(
            key_arg,
        ) by {
            assert(front[i] == steps[i]);
        }
        lemma_list_length_tally(store, front, key_arg, now);
        lemma_step(after_steps(store, front), steps.last(), key_arg);
    }
}

} // verus!
