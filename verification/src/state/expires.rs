//! Directives for the time-to-live of an entry.
use crate::codec::u32_from_le;
use crate::codec::u32_of_le;
use crate::codec::u64_from_le;
use crate::codec::u64_of_le;
use crate::state::clock::now_ms;
use vstd::prelude::*;

verus! {

/// What a write asks for the entry's expiry.
pub enum ExpireParameter {
    /// Expire at this time, in milliseconds since the Unix epoch.
    EXPIREAT(u64),
    /// Expire this many milliseconds from now.
    EXPIREIN(u32),
    /// Keep the expiry that the key's entry has, if it has one.
    KEEPTTL,
    /// Never expire.
    NONE,
}

/// The directive that an argument stands for, which goes by its length: eight
/// bytes are a time, four a span, one asks to keep the expiry, and anything
/// else asks for none.
pub open spec fn directive_of(bytes: Seq<u8>) -> ExpireParameter {
    if bytes.len() == 8 {
        ExpireParameter::EXPIREAT(u64_of_le(bytes))
    } else if bytes.len() == 4 {
        ExpireParameter::EXPIREIN(u32_of_le(bytes))
    } else if bytes.len() == 1 {
        ExpireParameter::KEEPTTL
    } else {
        ExpireParameter::NONE
    }
}

/// Whether the clock leaves room for a span of 32 bits to be added to it.
pub open spec fn clock_in_range(now: u64) -> bool {
    now + u32::MAX <= u64::MAX
}

impl ExpireParameter {
    /// The expiry that the directive gives an entry written at time `now`,
    /// where the key's entry had the expiry `current_expire` before.
    pub open spec fn expiry(self, current_expire: Option<u64>, now: u64) -> Option<u64> {
        match self {
            ExpireParameter::EXPIREAT(at) => Some(at),
            ExpireParameter::EXPIREIN(span) => Some((now + span) as u64),
            ExpireParameter::KEEPTTL => current_expire,
            ExpireParameter::NONE => None,
        }
    }

    /// Reads a directive from a command argument.
    pub fn from(data_ref: &[u8]) -> (r: Self)
        ensures
            r == directive_of(data_ref@),
    {
        if data_ref.len() == 8 {
            ExpireParameter::EXPIREAT(u64_from_le(data_ref))
        } else if data_ref.len() == 4 {
            assert(data_ref@ =~= seq![data_ref[0], data_ref[1], data_ref[2], data_ref[3]]);
            ExpireParameter::EXPIREIN(
                u32_from_le(data_ref[0], data_ref[1], data_ref[2], data_ref[3]),
            )
        } else if data_ref.len() == 1 {
            ExpireParameter::KEEPTTL
        } else {
            ExpireParameter::NONE
        }
    }

    /// The expiry of an entry written now, in milliseconds since the Unix
    /// epoch, or `None` for an entry that never expires.
    pub fn get_expire(&self, current_expire: Option<u64>) -> (r: Option<u64>)
        ensures
            exists|now: u64|
                #[trigger] clock_in_range(now)
                    && (r == self.expiry(current_expire, now)),
    {
        let now = now_ms();
        self.get_expire_at(current_expire, now)
    }

    /// The expiry of an entry written at time `now`, in milliseconds since
    /// the Unix epoch, or `None` for an entry that never expires.
    pub fn get_expire_at(&self, current_expire: Option<u64>, now: u64) -> (r: Option<u64>)
        requires
            *self matches ExpireParameter::EXPIREIN(span) ==> now + span <= u64::MAX,
        ensures
            r == self.expiry(current_expire, now),
    {
        match self {
            ExpireParameter::EXPIREAT(eat) => Some(*eat),
            ExpireParameter::EXPIREIN(ein) => Some(now + (*ein as u64)),
            ExpireParameter::KEEPTTL => current_expire,
            ExpireParameter::NONE => None,
        }
    }
}

} // verus!
