//! Secure randomness.

use vstd::prelude::*;

verus! {

/// `getrandom::fill` of the getrandom crate: fills a buffer with bytes that nobody can foresee,
/// or fails with a reason. Nothing is claimed of the bytes but how many they are, and nothing of
/// the reason.
#[verifier::external_body]
pub(crate) fn fill_random(count: usize) -> (filled: Result<Vec<u8>, String>)
    ensures
        filled matches Ok(filled) ==> filled@.len() == count,
{
    let mut filled = vec![0u8; count];
    getrandom::fill(&mut filled).map_err(|error| error.to_string())?;
    Ok(filled)
}

/// Whether a call of the system's random number source can have given these bytes.
pub closed spec fn drawn(bytes: Seq<u8>) -> bool {
    exists|filled: Vec<u8>|
        #![trigger filled@]
        filled@ == bytes && call_ensures(
            fill_random,
            (bytes.len() as usize,),
            Ok::<Vec<u8>, String>(filled),
        )
}

/// Whether a call of the system's random number source for so many bytes can have failed for this
/// reason.
pub closed spec fn refused(count: usize, reason: String) -> bool {
    call_ensures(fill_random, (count,), Err::<Vec<u8>, String>(reason))
}

/// Random bytes, or why the system has none.
pub(crate) fn random_bytes(count: usize) -> (random: Result<Vec<u8>, String>)
    ensures
        match random {
            Ok(random) => random@.len() == count && drawn(random@),
            Err(reason) => refused(count, reason),
        },
{
    let draw = fill_random;
    draw(count)
}

/// Eight random bytes, or why the system has none.
pub fn random_8() -> (random: Result<[u8; 8], String>)
    ensures
        match random {
            Ok(random) => drawn(random@),
            Err(reason) => refused(8, reason),
        },
{
    match random_bytes(8) {
        Ok(filled) => {
            let random: [u8; 8] = [
                filled[0],
                filled[1],
                filled[2],
                filled[3],
                filled[4],
                filled[5],
                filled[6],
                filled[7],
            ];
            assert(random@ =~= filled@);
            Ok(random)
        },
        Err(reason) => Err(reason),
    }
}

/// Sixteen random bytes, or why the system has none.
pub fn random_16() -> (random: Result<[u8; 16], String>)
    ensures
        match random {
            Ok(random) => drawn(random@),
            Err(reason) => refused(16, reason),
        },
{
    match random_bytes(16) {
        Ok(filled) => {
            assert(filled@.subrange(0, 16) =~= filled@);
            Ok(crate::bytes::array_16(filled.as_slice(), 0))
        },
        Err(reason) => Err(reason),
    }
}

/// Thirty-two random bytes, or why the system has none.
pub fn random_32() -> (random: Result<[u8; 32], String>)
    ensures
        match random {
            Ok(random) => drawn(random@),
            Err(reason) => refused(32, reason),
        },
{
    match random_bytes(32) {
        Ok(filled) => {
            assert(filled@.subrange(0, 32) =~= filled@);
            Ok(crate::bytes::array_32(filled.as_slice(), 0))
        },
        Err(reason) => Err(reason),
    }
}

} // verus!
