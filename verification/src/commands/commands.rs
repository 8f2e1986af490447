//! A request as it was read from a frame, and the commands it can name.
use crate::codec::u16_from_le;
use crate::codec::u16_of_le;
use crate::codec::decimal;
use crate::codec::decimal_text;
use crate::commands::implcommands::delete::delete_next;
use crate::commands::implcommands::delete::delete_reply;
use crate::commands::implcommands::delete::DeleteCmd;
use crate::commands::implcommands::get::get_next;
use crate::commands::implcommands::get::get_reply;
use crate::commands::implcommands::get::GetCmd;
use crate::commands::implcommands::hll::hlladd::hlladd_next;
use crate::commands::implcommands::hll::hlladd::hlladd_reply;
use crate::commands::implcommands::hll::hlladd::HLLAddCmd;
use crate::commands::implcommands::hll::hllcount::hllcount_next;
use crate::commands::implcommands::hll::hllcount::hllcount_outcome;
use crate::commands::implcommands::hll::hllcount::HLLCountCmd;
use crate::commands::implcommands::hll::hllreset::hllreset_next;
use crate::commands::implcommands::hll::hllreset::hllreset_reply;
use crate::commands::implcommands::hll::hllreset::HLLResetCmd;
use crate::commands::implcommands::incrf::incrf_next;
use crate::commands::implcommands::incrf::incrf_outcome;
use crate::commands::implcommands::incrf::IncrF;
use crate::commands::implcommands::incri::incri_next;
use crate::commands::implcommands::incri::incri_reply;
use crate::commands::implcommands::incri::IncrI;
use crate::commands::implcommands::info::info_reply;
use crate::commands::implcommands::info::InfoCmd;
use crate::commands::implcommands::list::lextract::lextract_next;
use crate::commands::implcommands::list::lextract::lextract_reply;
use crate::commands::implcommands::list::lextract::LExtractCmd;
use crate::commands::implcommands::list::llen::llen_next;
use crate::commands::implcommands::list::llen::llen_reply;
use crate::commands::implcommands::list::llen::LLenCmd;
use crate::commands::implcommands::list::lpop::lpop_next;
use crate::commands::implcommands::list::lpop::lpop_reply;
use crate::commands::implcommands::list::lpop::LPopCmd;
use crate::commands::implcommands::list::lpush::lpush_next;
use crate::commands::implcommands::list::lpush::lpush_reply;
use crate::commands::implcommands::list::lpush::LPushCmd;
use crate::commands::implcommands::list::lrange::lrange_next;
use crate::commands::implcommands::list::lrange::lrange_reply;
use crate::commands::implcommands::list::lrange::LRangeCmd;
use crate::commands::implcommands::setf::setf_next;
use crate::commands::implcommands::setf::setf_reply;
use crate::commands::implcommands::setf::SetF;
use crate::commands::implcommands::seti::seti_next;
use crate::commands::implcommands::seti::seti_reply;
use crate::commands::implcommands::seti::SetI;
use crate::commands::implcommands::sets::sets_next;
use crate::commands::implcommands::sets::sets_reply;
use crate::commands::implcommands::sets::SetSCmd;
use crate::commands::implcommands::test::TestCmd;
use crate::state::datastate::DataState;
use crate::state::datastate::StoreView;
use crate::state::expires::clock_in_range;
use crate::state::serverstate::ServerState;
use vstd::string::StringExecFns;
use crate::codec::i32_from_le;
use crate::codec::i32_of_le;
use crate::codec::u32_from_le;
use crate::codec::u32_of_le;
use crate::state::clock::now_ms;
use vstd::prelude::*;

verus! {

/// The commands of the protocol, in the order of their numbers on the wire,
/// which start at 0.
#[derive(Debug)]
pub enum CommandType {
    Info,
    Test,
    SetString,
    SetInt,
    SetFloat,
    Get,
    Delete,
    IncrementInt,
    IncrementFloat,
    ListPush,
    ListPop,
    ListRange,
    ListExtract,
    ListLength,
    HLLAdd,
    HLLCount,
    HLLReset,
    Flush,
    Unknown,
}

/// The command that a number stands for.
pub open spec fn command_of(code: u16) -> CommandType {
    if code == 0 {
        CommandType::Info
    } else if code == 1 {
        CommandType::Test
    } else if code == 2 {
        CommandType::SetString
    } else if code == 3 {
        CommandType::SetInt
    } else if code == 4 {
        CommandType::SetFloat
    } else if code == 5 {
        CommandType::Get
    } else if code == 6 {
        CommandType::Delete
    } else if code == 7 {
        CommandType::IncrementInt
    } else if code == 8 {
        CommandType::IncrementFloat
    } else if code == 9 {
        CommandType::ListPush
    } else if code == 10 {
        CommandType::ListPop
    } else if code == 11 {
        CommandType::ListRange
    } else if code == 12 {
        CommandType::ListExtract
    } else if code == 13 {
        CommandType::ListLength
    } else if code == 14 {
        CommandType::HLLAdd
    } else if code == 15 {
        CommandType::HLLCount
    } else if code == 16 {
        CommandType::HLLReset
    } else if code == 17 {
        CommandType::Flush
    } else {
        CommandType::Unknown
    }
}

impl From<[u8; 2]> for CommandType {
    /// The command that two little-endian bytes name.
    fn from(value: [u8; 2]) -> (r: Self) {
        let num: u16 = u16_from_le(value[0], value[1]);
        assert(value@ =~= seq![value[0], value[1]]);
        if num == 0 {
            CommandType::Info
        } else if num == 1 {
            CommandType::Test
        } else if num == 2 {
            CommandType::SetString
        } else if num == 3 {
            CommandType::SetInt
        } else if num == 4 {
            CommandType::SetFloat
        } else if num == 5 {
            CommandType::Get
        } else if num == 6 {
            CommandType::Delete
        } else if num == 7 {
            CommandType::IncrementInt
        } else if num == 8 {
            CommandType::IncrementFloat
        } else if num == 9 {
            CommandType::ListPush
        } else if num == 10 {
            CommandType::ListPop
        } else if num == 11 {
            CommandType::ListRange
        } else if num == 12 {
            CommandType::ListExtract
        } else if num == 13 {
            CommandType::ListLength
        } else if num == 14 {
            CommandType::HLLAdd
        } else if num == 15 {
            CommandType::HLLCount
        } else if num == 16 {
            CommandType::HLLReset
        } else if num == 17 {
            CommandType::Flush
        } else {
            CommandType::Unknown
        }
    }
}

impl vstd::std_specs::convert::FromSpecImpl<[u8; 2]> for CommandType {
    open spec fn obeys_from_spec() -> bool {
        true
    }

    open spec fn from_spec(value: [u8; 2]) -> Self {
        command_of(u16_of_le(value@))
    }
}

/// A request: the command it names and its arguments, which are slices of
/// the frame it came in.
#[derive(Debug)]
pub struct Command<'a> {
    pub command_type: CommandType,
    pub arguments: Vec<&'a [u8]>,
}

/// What a command answers, as plain data: a payload, nothing, or a message
/// that says what went wrong.
pub type Reply = Result<Option<Seq<u8>>, Seq<char>>;

/// An answer as plain data.
pub open spec fn reply_view(r: Result<Option<Vec<u8>>, String>) -> Reply {
    match r {
        Ok(Some(payload)) => Ok(Some(payload@)),
        Ok(None) => Ok(None),
        Err(message) => Err(message@),
    }
}

/// What a command hands back when it is run at time `now`. FLUSH is not
/// run here: it is dealt with before a request is dispatched.
pub open spec fn dispatch_outcome(
    command_type: CommandType,
    store: StoreView,
    server_state: ServerState,
    args: Seq<Seq<u8>>,
    now: u64,
) -> Outcome {
    match command_type {
        CommandType::Info => Outcome::Reply(info_reply(server_state, now)),
        CommandType::Test => Outcome::Reply(Ok(None)),
        CommandType::SetString => Outcome::Reply(sets_reply(args)),
        CommandType::SetInt => Outcome::Reply(seti_reply(args)),
        CommandType::SetFloat => Outcome::Reply(setf_reply(args)),
        CommandType::IncrementInt => Outcome::Reply(incri_reply(store, args, now)),
        CommandType::IncrementFloat => incrf_outcome(store, args, now),
        CommandType::Get => Outcome::Reply(get_reply(store, args, now)),
        CommandType::Delete => Outcome::Reply(delete_reply(args)),
        CommandType::ListPush => Outcome::Reply(lpush_reply(store, args, now)),
        CommandType::ListExtract => Outcome::Reply(lextract_reply(store, args, now)),
        CommandType::ListPop => Outcome::Reply(lpop_reply(store, args, now)),
        CommandType::ListRange => Outcome::Reply(lrange_reply(store, args, now)),
        CommandType::ListLength => Outcome::Reply(llen_reply(store, args, now)),
        CommandType::HLLAdd => Outcome::Reply(hlladd_reply(store, args, now)),
        CommandType::HLLCount => hllcount_outcome(store, args, now),
        CommandType::HLLReset => Outcome::Reply(hllreset_reply(store, args, now)),
        _ => Outcome::Reply(Err("Unknown command"@)),
    }
}

/// The store after a command has been run at time `now`.
pub open spec fn dispatch_next(
    command_type: CommandType,
    store: StoreView,
    args: Seq<Seq<u8>>,
    now: u64,
) -> StoreView {
    match command_type {
        CommandType::SetString => sets_next(store, args, now),
        CommandType::SetInt => seti_next(store, args, now),
        CommandType::SetFloat => setf_next(store, args, now),
        CommandType::IncrementInt => incri_next(store, args, now),
        CommandType::IncrementFloat => incrf_next(store, args, now),
        CommandType::Get => get_next(store, args, now),
        CommandType::Delete => delete_next(store, args),
        CommandType::ListPush => lpush_next(store, args, now),
        CommandType::ListExtract => lextract_next(store, args, now),
        CommandType::ListPop => lpop_next(store, args, now),
        CommandType::ListRange => lrange_next(store, args, now),
        CommandType::ListLength => llen_next(store, args, now),
        CommandType::HLLAdd => hlladd_next(store, args, now),
        CommandType::HLLCount => hllcount_next(store, args, now),
        CommandType::HLLReset => hllreset_next(store, args, now),
        _ => store,
    }
}

impl Command<'_> {
    /// The arguments as plain data.
    pub open spec fn args(&self) -> Seq<Seq<u8>> {
        Seq::new(self.arguments@.len(), |i: int| self.arguments@[i]@)
    }

    /// Runs the command now: reads the clock, and runs the command at that
    /// time.
    pub fn execute(&self, data_state: &mut DataState, server_state: &ServerState) -> (r:
        Dispatch)
        requires
            old(data_state)@.valid(),
        ensures
            exists|now: u64|
                #[trigger] clock_in_range(now)
                    && (r@ == dispatch_outcome(
                    self.command_type,
                    old(data_state)@,
                    *server_state,
                    self.args(),
                    now,
                ))
                    && (final(data_state)@ == dispatch_next(
                    self.command_type,
                    old(data_state)@,
                    self.args(),
                    now,
                )),
            final(data_state)@.valid(),
    {
        let now = now_ms();
        self.execute_at(data_state, server_state, now)
    }

    /// Runs the command at time `now`, given in milliseconds since the Unix
    /// epoch.
    pub fn execute_at(
        &self,
        data_state: &mut DataState,
        server_state: &ServerState,
        now: u64,
    ) -> (r: Dispatch)
        requires
            old(data_state)@.valid(),
            clock_in_range(now),
        ensures
            r@ == dispatch_outcome(
                self.command_type,
                old(data_state)@,
                *server_state,
                self.args(),
                now,
            ),
            final(data_state)@ == dispatch_next(
                self.command_type,
                old(data_state)@,
                self.args(),
                now,
            ),
            final(data_state)@.valid(),
    {
        match self.command_type {
            CommandType::Info => Dispatch::Reply(InfoCmd::execute_at(server_state, now)),
            CommandType::Test => Dispatch::Reply(TestCmd::execute()),
            CommandType::SetString => Dispatch::Reply(SetSCmd::execute_at(data_state, self, now)),
            CommandType::SetInt => Dispatch::Reply(SetI::execute_at(data_state, self, now)),
            CommandType::SetFloat => Dispatch::Reply(SetF::execute_at(data_state, self, now)),
            CommandType::IncrementInt => Dispatch::Reply(IncrI::execute_at(data_state, self, now)),
            CommandType::IncrementFloat => IncrF::execute_at(data_state, self, now),
            CommandType::Get => Dispatch::Reply(GetCmd::execute_at(data_state, self, now)),
            CommandType::Delete => Dispatch::Reply(DeleteCmd::execute(data_state, self)),
            CommandType::ListPush => Dispatch::Reply(LPushCmd::execute_at(data_state, self, now)),
            CommandType::ListExtract => Dispatch::Reply(
                LExtractCmd::execute_at(data_state, self, now),
            ),
            CommandType::ListPop => Dispatch::Reply(LPopCmd::execute_at(data_state, self, now)),
            CommandType::ListRange => Dispatch::Reply(LRangeCmd::execute_at(data_state, self, now)),
            CommandType::ListLength => Dispatch::Reply(LLenCmd::execute_at(data_state, self, now)),
            CommandType::HLLAdd => Dispatch::Reply(HLLAddCmd::execute_at(data_state, self, now)),
            CommandType::HLLCount => HLLCountCmd::execute_at(data_state, self, now),
            CommandType::HLLReset => Dispatch::Reply(
                HLLResetCmd::execute_at(data_state, self, now),
            ),
            _ => Dispatch::Reply(fail("Unknown command")),
        }
    }
}

/// What a command hands back: its answer, or the floating-point work that
/// stands between it and its answer. That work is the caller's.
pub enum Dispatch {
    /// The answer.
    Reply(Result<Option<Vec<u8>>, String>),
    /// INCR_FLOAT found a float under the key. The caller adds `delta` to
    /// `current`, both given as binary32 bit patterns, and hands the sum's
    /// pattern to `IncrF::store_sum`, which gives the answer.
    FloatSum { key: String, current: u32, delta: u32 },
    /// HLL_COUNT found a sketch under the key. The caller estimates the
    /// cardinality from the registers; `HLLType::srlz_count` of the estimate
    /// is the answer's payload.
    Estimate { bits: u8, registers: Vec<u8> },
}

/// What a command hands back, as plain data.
pub enum Outcome {
    Reply(Reply),
    FloatSum { key: Seq<char>, current: u32, delta: u32 },
    Estimate { bits: u8, registers: Seq<u8> },
}

impl View for Dispatch {
    type V = Outcome;

    open spec fn view(&self) -> Outcome {
        match self {
            Dispatch::Reply(r) => Outcome::Reply(reply_view(*r)),
            Dispatch::FloatSum { key, current, delta } => Outcome::FloatSum {
                key: key@,
                current: *current,
                delta: *delta,
            },
            Dispatch::Estimate { bits, registers } => Outcome::Estimate {
                bits: *bits,
                registers: registers@,
            },
        }
    }
}

/// Whether every argument is UTF-8.
pub open spec fn all_text(args: Seq<Seq<u8>>) -> bool {
    forall|i: int| 0 <= i < args.len() ==> vstd::utf8::valid_utf8(#[trigger] args[i])
}

/// The texts that the arguments encode.
pub open spec fn texts_of(args: Seq<Seq<u8>>) -> Seq<Seq<char>> {
    Seq::new(args.len(), |i: int| vstd::utf8::decode_utf8(args[i]))
}

/// An answer that says what went wrong.
pub fn fail(message: &str) -> (r: Result<Option<Vec<u8>>, String>)
    ensures
        reply_view(r) == Err::<Option<Seq<u8>>, Seq<char>>(message@),
{
    Err(message.to_owned())
}

/// The answer to a value that is not UTF-8: a message with the value's
/// index among the values.
pub fn bad_value(index: usize) -> (r: Result<Option<Vec<u8>>, String>)
    ensures
        reply_view(r) == Err::<Option<Seq<u8>>, Seq<char>>(
            "Invalid utf8 value at index "@ + decimal_text(index as nat),
        ),
{
    let mut message = String::from_str("Invalid utf8 value at index ");
    message.append(decimal(index as u64).as_str());
    Err(message)
}

/// The answer to a value that is too long to be recorded: a message with the
/// value's index among the values.
pub fn too_long(index: usize) -> (r: Result<Option<Vec<u8>>, String>)
    ensures
        reply_view(r) == Err::<Option<Seq<u8>>, Seq<char>>(
            "Value too long at index "@ + decimal_text(index as nat),
        ),
{
    let mut message = String::from_str("Value too long at index ");
    message.append(decimal(index as u64).as_str());
    Err(message)
}

/// The index of the first value at or after `from` that is not UTF-8, or the
/// number of values where all from there on are.
pub open spec fn first_invalid(values: Seq<Seq<u8>>, from: int) -> int
    decreases values.len() - from,
{
    if from >= values.len() {
        values.len() as int
    } else if !vstd::utf8::valid_utf8(values[from]) {
        from
    } else {
        first_invalid(values, from + 1)
    }
}

/// The number that an argument holds in its first four bytes, in
/// little-endian two's complement; `None` where it has fewer.
pub open spec fn int_arg(arg: Seq<u8>) -> Option<i32> {
    if arg.len() < 4 {
        None
    } else {
        Some(i32_of_le(arg))
    }
}

/// The unsigned number that an argument holds in its first four bytes, least
/// significant first; `None` where it has fewer.
pub open spec fn word_arg(arg: Seq<u8>) -> Option<u32> {
    if arg.len() < 4 {
        None
    } else {
        Some(u32_of_le(arg))
    }
}

/// Reads a signed number from an argument.
pub fn read_int(arg: &[u8]) -> (r: Option<i32>)
    ensures
        r == int_arg(arg@),
{
    if arg.len() < 4 {
        None
    } else {
        Some(i32_from_le(arg[0], arg[1], arg[2], arg[3]))
    }
}

/// Reads an unsigned number from an argument.
pub fn read_word(arg: &[u8]) -> (r: Option<u32>)
    ensures
        r == word_arg(arg@),
{
    if arg.len() < 4 {
        None
    } else {
        Some(u32_from_le(arg[0], arg[1], arg[2], arg[3]))
    }
}

} // verus!
