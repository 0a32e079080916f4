//! The answers of the archive writers, as values that contracts can speak
//! of.

use vstd::prelude::*;

verus! {

/// An answer without a value, with the words of a refusal as a sequence.
pub open spec fn told(r: Result<(), String>) -> Result<(), Seq<char>> {
    match r {
        Ok(_) => Ok(()),
        Err(words) => Err(words@),
    }
}

/// An answer in bytes, with bytes and words as sequences.
pub open spec fn told_bytes(r: Result<Vec<u8>, String>) -> Result<Seq<u8>, Seq<char>> {
    match r {
        Ok(bytes) => Ok(bytes@),
        Err(words) => Err(words@),
    }
}

} // verus!
