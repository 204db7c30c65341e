use vstd::prelude::*;

verus! {

/// A 32-byte block hash, held as four big-endian 64-bit words
/// (`words0` holds the first eight bytes).
#[derive(Clone, Copy, Debug, PartialEq, Eq, Structural)]
pub struct BlockHash {
    pub words0: u64,
    pub words1: u64,
    pub words2: u64,
    pub words3: u64,
}

impl BlockHash {
    pub fn from_words(words0: u64, words1: u64, words2: u64, words3: u64) -> (r: BlockHash)
        ensures
            r.words0 == words0,
            r.words1 == words1,
            r.words2 == words2,
            r.words3 == words3,
    {
        BlockHash { words0, words1, words2, words3 }
    }
}

} // verus!
