//! Framing of the serialized slide description handed to the engine.

use vstd::prelude::*;

verus! {

/// Version byte that precedes the serialized slide description.
pub const WIRE_VERSION: u8 = 1;

/// The bytes handed to the engine: the wire version, then the serialized
/// slide description.
pub fn serialized_spec(payload: &[u8]) -> (bytes: Vec<u8>)
    ensures
        bytes@ == seq![WIRE_VERSION] + payload@,
{
    let mut bytes: Vec<u8> = Vec::new();
    bytes.push(WIRE_VERSION);
    let mut i: usize = 0;
    while i < payload.len()
        invariant
            i <= payload.len(),
            bytes@ == seq![WIRE_VERSION] + payload@.take(i as int),
        decreases payload.len() - i,
    {
        bytes.push(payload[i]);
        assert(payload@.take(i + 1) =~= payload@.take(i as int).push(payload@[i as int]));
        i = i + 1;
    }
    assert(payload@.take(payload.len() as int) =~= payload@);
    bytes
}

} // verus!
