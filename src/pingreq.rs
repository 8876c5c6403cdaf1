use vstd::prelude::*;

verus! {

/// Appends a PINGREQ packet: the type in the upper nibble and an empty body.
pub fn pack(out: &mut Vec<u8>)
    ensures
        final(out)@ == old(out)@ + seq![0xC0u8, 0x00u8],
{
    out.push(0xC0);
    out.push(0x00);
    assert(final(out)@ =~= old(out)@ + seq![0xC0u8, 0x00u8]);
}

} // verus!
