//! The server's counters, and the report that is made of them.
use crate::codec::decimal;
use crate::codec::decimal_text;
use crate::codec::lemma_encode_utf8_concat;
use string_builder::Builder;
use vstd::pervasive::unreached;
use crate::state::clock::now_ms;
use crate::state::expires::clock_in_range;
use vstd::prelude::*;
use vstd::utf8::encode_utf8;
use vstd::utf8::encode_utf8_valid_utf8;
use vstd::utf8::valid_utf8;

verus! {

/// Declares `string_builder::Builder`, of which nothing is known but what
/// the functions below state.
#[verifier::external_type_specification]
#[verifier::external_body]
pub struct ExBuilder(Builder);

/// The bytes that a builder has gathered.
pub uninterp spec fn built(builder: Builder) -> Seq<u8>;

/// Calls `Builder::new`. Trusted: the new builder has gathered nothing. The
/// size is that of the buffer allocated at once, which must not exceed what
/// an allocation can hold.
#[verifier::external_body]
fn builder_new(size: usize) -> (builder: Builder)
    requires
        size <= isize::MAX,
    ensures
        built(builder).len() == 0,
{
    Builder::new(size)
}

/// Calls `Builder::append` with a string slice. Trusted: the slice's UTF-8
/// bytes are added at the end of what was gathered.
#[verifier::external_body]
fn builder_append(builder: &mut Builder, text: &str)
    ensures
        built(*final(builder)) == built(*old(builder)) + encode_utf8(text@),
{
    builder.append(text)
}

/// Calls `Builder::string`. Trusted: where the gathered bytes are valid
/// UTF-8, the result is the string with those bytes; else there is none.
#[verifier::external_body]
fn builder_string(builder: Builder) -> (r: Option<String>)
    ensures
        r is Some <==> valid_utf8(built(builder)),
        r matches Some(s) ==> encode_utf8(s@) == built(builder),
{
    builder.string().ok()
}

/// Whole seconds from `start_time` to `now`, both in milliseconds; 0 where
/// `now` lies before `start_time`.
pub open spec fn uptime_secs(start_time: u64, now: u64) -> nat {
    if now >= start_time {
        ((now - start_time) / 1000) as nat
    } else {
        0
    }
}

/// The counters of a running server.
#[derive(Debug, Clone)]
pub struct ServerState {
    pub current_connections: u32,
    pub total_connections: u32,
    pub processed_commands: u64,
    pub version: String,
    /// When the server started, in milliseconds since the Unix epoch.
    pub start_time: u64,
}

impl ServerState {
    /// The report of the counters at time `now`: five lines, each a name and
    /// a value.
    pub open spec fn report(self, now: u64) -> Seq<char> {
        "current connections: "@ + decimal_text(self.current_connections as nat) + "\n"@
            + "total connections: "@ + decimal_text(self.total_connections as nat) + "\n"@
            + "processed_commands: "@ + decimal_text(self.processed_commands as nat) + "\n"@
            + "version: "@ + self.version@ + "\n"@ + "uptime: "@ + decimal_text(
            uptime_secs(self.start_time, now),
        )
    }

    /// The counters after one more command has been processed. The count
    /// stops at its greatest value.
    pub open spec fn counted(self) -> ServerState {
        ServerState {
            processed_commands: if self.processed_commands == u64::MAX {
                u64::MAX
            } else {
                (self.processed_commands + 1) as u64
            },
            ..self
        }
    }

    /// The counters of a server that starts now.
    pub fn new(version: &str) -> (r: Self)
        ensures
            r.current_connections == 0,
            r.total_connections == 0,
            r.processed_commands == 0,
            r.version@ == version@,
            clock_in_range(r.start_time),
    {
        Self::started_at(version, now_ms())
    }

    /// The counters of a server that starts at `start_time`.
    pub fn started_at(version: &str, start_time: u64) -> (r: Self)
        ensures
            r.current_connections == 0,
            r.total_connections == 0,
            r.processed_commands == 0,
            r.version@ == version@,
            r.start_time == start_time,
    {
        Self {
            current_connections: 0,
            total_connections: 0,
            processed_commands: 0,
            version: version.to_owned(),
            start_time,
        }
    }

    /// The report of the counters now.
    pub fn to_string(&self) -> (r: String)
        ensures
            exists|now: u64|
                #[trigger] clock_in_range(now)
                    && (r@ == self.report(now)),
    {
        let now = now_ms();
        self.to_string_at(now)
    }

    /// The report of the counters at time `now`.
    pub fn to_string_at(&self, now: u64) -> (r: String)
        ensures
            r@ == self.report(now),
    {
        let uptime: u64 = if now >= self.start_time {
            (now - self.start_time) / 1000
        } else {
            0
        };
        let mut str_b = builder_new(128);
        let ghost mut text: Seq<char> = Seq::empty();
        assert(built(str_b) =~= encode_utf8(text));
        let current = decimal(self.current_connections as u64);
        let total = decimal(self.total_connections as u64);
        let processed = decimal(self.processed_commands);
        let up = decimal(uptime);
        Self::gather(&mut str_b, "current connections: ", Ghost(text));
        proof { text = text + "current connections: "@; }
        Self::gather(&mut str_b, current.as_str(), Ghost(text));
        proof { text = text + current@; }
        Self::gather(&mut str_b, "\n", Ghost(text));
        proof { text = text + "\n"@; }
        Self::gather(&mut str_b, "total connections: ", Ghost(text));
        proof { text = text + "total connections: "@; }
        Self::gather(&mut str_b, total.as_str(), Ghost(text));
        proof { text = text + total@; }
        Self::gather(&mut str_b, "\n", Ghost(text));
        proof { text = text + "\n"@; }
        Self::gather(&mut str_b, "processed_commands: ", Ghost(text));
        proof { text = text + "processed_commands: "@; }
        Self::gather(&mut str_b, processed.as_str(), Ghost(text));
        proof { text = text + processed@; }
        Self::gather(&mut str_b, "\n", Ghost(text));
        proof { text = text + "\n"@; }
        Self::gather(&mut str_b, "version: ", Ghost(text));
        proof { text = text + "version: "@; }
        Self::gather(&mut str_b, self.version.as_str(), Ghost(text));
        proof { text = text + self.version@; }
        Self::gather(&mut str_b, "\n", Ghost(text));
        proof { text = text + "\n"@; }
        Self::gather(&mut str_b, "uptime: ", Ghost(text));
        proof { text = text + "uptime: "@; }
        Self::gather(&mut str_b, up.as_str(), Ghost(text));
        proof { text = text + up@; }
        assert(text == self.report(now));
        proof {
            encode_utf8_valid_utf8(text);
        }
        match builder_string(str_b) {
            Some(s) => {
                proof {
                    vstd::utf8::encode_utf8_decode_utf8(s@);
                    vstd::utf8::encode_utf8_decode_utf8(text);
                }
                s
            },
            None => unreached(),
        }
    }

    /// Appends a text to a builder that holds the UTF-8 form of `so_far`.
    fn gather(builder: &mut Builder, text: &str, Ghost(so_far): Ghost<Seq<char>>)
        requires
            built(*old(builder)) == encode_utf8(so_far),
        ensures
            built(*final(builder)) == encode_utf8(so_far + text@),
    {
        builder_append(builder, text);
        proof {
            lemma_encode_utf8_concat(so_far, text@);
        }
    }

    /// Admits a connection where fewer than `max_connections` are open: it
    /// is counted as open and in the total. The total stops at its greatest
    /// value.
    pub fn try_admit(&mut self, max_connections: u16) -> (admitted: bool)
        ensures
            admitted <==> old(self).current_connections < max_connections,
            admitted ==> final(self).current_connections == old(self).current_connections + 1
                && final(self).total_connections == if old(self).total_connections
                == u32::MAX {
                u32::MAX
            } else {
                (old(self).total_connections + 1) as u32
            },
            !admitted ==> final(self).current_connections == old(self).current_connections
                && final(self).total_connections == old(self).total_connections,
            final(self).processed_commands == old(self).processed_commands,
            final(self).version == old(self).version,
            final(self).start_time == old(self).start_time,
    {
        if self.current_connections >= max_connections as u32 {
            false
        } else {
            self.current_connections = self.current_connections + 1;
            if self.total_connections < u32::MAX {
                self.total_connections = self.total_connections + 1;
            }
            true
        }
    }

    /// Notes that a connection has closed: one fewer is open, and none
    /// fewer than zero.
    pub fn release(&mut self)
        ensures
            final(self).current_connections == if old(self).current_connections == 0 {
                0
            } else {
                (old(self).current_connections - 1) as u32
            },
            final(self).total_connections == old(self).total_connections,
            final(self).processed_commands == old(self).processed_commands,
            final(self).version == old(self).version,
            final(self).start_time == old(self).start_time,
    {
        if self.current_connections > 0 {
            self.current_connections = self.current_connections - 1;
        }
    }

    /// Counts one processed command. The count stops at its greatest value.
    pub fn count_command(&mut self)
        ensures
            *final(self) == old(self).counted(),
    {
        if self.processed_commands < u64::MAX {
            self.processed_commands = self.processed_commands + 1;
        }
    }
}

} // verus!
