//! A fixed-size payload for measuring how fast records are taken in.
use vstd::prelude::*;

verus! {

#[derive(Debug, Clone, Copy)]
pub struct LogStruct {
    pub data: [u8; 10],
}

impl Default for LogStruct {
    fn default() -> (r: LogStruct)
        ensures
            r.data@ == seq![1u8, 2, 3, 4, 5, 6, 7, 8, 9, 10],
    {
        let r = LogStruct { data: [1, 2, 3, 4, 5, 6, 7, 8, 9, 10] };
        assert(r.data@ =~= seq![1u8, 2, 3, 4, 5, 6, 7, 8, 9, 10]);
        r
    }
}

} // verus!
