//! The worker's part: what it does to the payload of a job.

use vstd::prelude::*;

verus! {

/// The upper-case form of an ASCII byte: a lower-case letter becomes its
/// capital, every other byte stays.
pub open spec fn upper_of(byte: u8) -> u8 {
    if 0x61 <= byte <= 0x7a {
        (byte - 0x20) as u8
    } else {
        byte
    }
}

/// The result of a job: the payload with every ASCII letter in upper case.
pub fn upper_case(chunk: &[u8]) -> (result: Vec<u8>)
    ensures
        result@ == chunk@.map_values(|byte: u8| upper_of(byte)),
{
    let mut result: Vec<u8> = Vec::with_capacity(chunk.len());
    let mut i: usize = 0;
    while i < chunk.len()
        invariant
            0 <= i <= chunk@.len(),
            result@ == chunk@.take(i as int).map_values(|byte: u8| upper_of(byte)),
        decreases chunk@.len() - i,
    {
        let byte = chunk[i];
        let upper = if 0x61 <= byte && byte <= 0x7a {
            byte - 0x20
        } else {
            byte
        };
        result.push(upper);
        i += 1;
        assert(result@ =~= chunk@.take(i as int).map_values(|byte: u8| upper_of(byte)));
    }
    assert(chunk@.take(i as int) =~= chunk@);
    result
}

} // verus!
