//! TEST: answers without doing anything.
use crate::commands::commands::reply_view;
use vstd::prelude::*;

verus! {

pub struct TestCmd {}

impl TestCmd {
    /// Runs TEST: there is no payload, which is answered as "OK".
    pub fn execute() -> (r: Result<Option<Vec<u8>>, String>)
        ensures
            reply_view(r) == Ok::<Option<Seq<u8>>, Seq<char>>(None),
    {
        Ok(None)
    }
}

} // verus!
