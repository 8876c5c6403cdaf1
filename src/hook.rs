use vstd::prelude::*;
use crate::packet::Packet;

verus! {

/// Whether a hook's answer lets a chain of hooks go on to the next one: only
/// `Ok(Packet::Unhandled)` does; any other answer is the answer of the chain.
pub fn passes<E>(answer: &Result<Packet, E>) -> (r: bool)
    ensures
        r == (answer matches Ok(Packet::Unhandled)),
{
    match answer {
        Ok(Packet::Unhandled) => true,
        _ => false,
    }
}

} // verus!
