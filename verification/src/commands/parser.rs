//! Reading a request from the payload of a frame.
use crate::codec::u32_from_le;
use crate::codec::u32_of_le;
use crate::commands::commands::command_of;
use crate::commands::commands::Command;
use crate::commands::commands::CommandType;
use crate::codec::u16_of_le;
use vstd::prelude::*;

verus! {

/// The arguments that a run of bytes holds, each written as its length in
/// four little-endian bytes and then its bytes; or `None` where the run ends
/// inside a length or inside an argument.
pub open spec fn parsed_args(bytes: Seq<u8>) -> Option<Seq<Seq<u8>>>
    decreases bytes.len(),
{
    if bytes.len() == 0 {
        Some(Seq::empty())
    } else if bytes.len() < 4 {
        None
    } else {
        let n = u32_of_le(bytes) as int;
        if bytes.len() - 4 < n {
            None
        } else {
            match parsed_args(bytes.skip(4 + n)) {
                Some(rest) => Some(seq![bytes.subrange(4, 4 + n)] + rest),
                None => None,
            }
        }
    }
}

/// The request that a payload holds: two bytes that name the command, then
/// the arguments; or `None` where the payload is malformed.
pub open spec fn parsed(payload: Seq<u8>) -> Option<(CommandType, Seq<Seq<u8>>)> {
    if payload.len() < 2 {
        None
    } else {
        match parsed_args(payload.skip(2)) {
            Some(args) => Some((command_of(u16_of_le(payload)), args)),
            None => None,
        }
    }
}

enum ArgResult {
    Error,
    EOF,
}

/// The reader of requests.
pub struct Parser {}

impl Parser {
    /// Reads a request from the payload of a frame. The arguments of the
    /// result are slices of the payload.
    pub fn parse<'a>(command_data: &'a [u8]) -> (r: Result<Command<'a>, ()>)
        ensures
            r is Ok <==> parsed(command_data@) is Some,
            r matches Ok(cmd) ==> parsed(command_data@) == Some((cmd.command_type, cmd.args())),
    {
        if command_data.len() < 2 {
            return Err(());
        }
        let mut args_part: &[u8] = command_data.split_at(2).1;
        let mut args: Vec<&[u8]> = Vec::new();
        let ghost all = command_data@.skip(2);
        assert(args_part@ =~= all);
        let ghost mut read: Seq<Seq<u8>> = Seq::empty();
        assert(read + Seq::<Seq<u8>>::empty() =~= read);
        loop
            invariant
                read.len() == args@.len(),
                forall|i: int| 0 <= i < args@.len() ==> (#[trigger] args@[i])@ == read[i],
                parsed_args(all) == match parsed_args(args_part@) {
                    Some(rest) => Some(read + rest),
                    None => None,
                },
            ensures
                parsed_args(all) is Some ==> parsed_args(all) == Some(read) && read.len()
                    == args@.len(),
                parsed_args(all) is Some ==> forall|i: int|
                    0 <= i < args@.len() ==> (#[trigger] args@[i])@ == read[i],
                parsed_args(all) is None ==> args_part@.len() != 0,
                parsed_args(all) is Some ==> args_part@.len() == 0,
            decreases args_part@.len(),
        {
            let result = Self::get_arg(args_part);
            match result {
                Err(ArgResult::EOF) => {
                    assert(read + Seq::<Seq<u8>>::empty() =~= read);
                    break ;
                },
                Err(ArgResult::Error) => {
                    break ;
                },
                Ok((arg, remainder)) => {
                    proof {
                        let n = u32_of_le(args_part@) as int;
                        assert(parsed_args(args_part@) == match parsed_args(remainder@) {
                            Some(rest) => Some(seq![arg@] + rest),
                            None => None,
                        });
                        if parsed_args(remainder@) is Some {
                            let rest = parsed_args(remainder@)->0;
                            assert(read + (seq![arg@] + rest) =~= read.push(arg@) + rest);
                        }
                        read = read.push(arg@);
                    }
                    args_part = remainder;
                    args.push(arg);
                },
            };
        }
        if args_part.len() != 0 {
            return Err(());
        }
        let cmd = Command {
            command_type: CommandType::from([command_data[0], command_data[1]]),
            arguments: args,
        };
        proof {
            assert(seq![command_data[0], command_data[1]] =~= [command_data[0], command_data[1]]@);
            assert(cmd.args() =~= read);
        }
        Ok(cmd)
    }

    /// Reads one argument from the front of `data`: the argument and what
    /// follows it; `EOF` where `data` is empty, and `Error` where it ends
    /// inside the length or inside the argument.
    fn get_arg(data: &[u8]) -> (r: Result<(&[u8], &[u8]), ArgResult>)
        ensures
            data@.len() == 0 <==> r matches Err(ArgResult::EOF),
            r matches Err(ArgResult::Error) ==> data@.len() > 0 && parsed_args(data@) is None,
            r matches Ok((arg, remainder)) ==> {
                &&& data@.len() >= 4 + arg@.len()
                &&& arg@.len() == u32_of_le(data@)
                &&& arg@ == data@.subrange(4, 4 + arg@.len() as int)
                &&& remainder@ == data@.skip(4 + arg@.len() as int)
            },
    {
        if data.len() == 0 {
            return Err(ArgResult::EOF);
        }
        if data.len() < 4 {
            return Err(ArgResult::Error);
        }
        let split = data.split_at(4);
        let body: &[u8] = split.1;
        let len: u32 = u32_from_le(split.0[0], split.0[1], split.0[2], split.0[3]);
        assert(len == u32_of_le(data@));
        if body.len() < len as usize {
            Err(ArgResult::Error)
        } else {
            let parts = body.split_at(len as usize);
            assert(parts.0@ =~= data@.subrange(4, 4 + len));
            assert(parts.1@ =~= data@.skip(4 + len));
            Ok(parts)
        }
    }
}

} // verus!
