//! Small helpers for assembling byte buffers.

use vstd::prelude::*;

verus! {

/// Append all of `data` to `out`.
pub fn push_bytes(out: &mut Vec<u8>, data: &[u8])
    ensures
        final(out)@ == old(out)@ + data@,
{
    out.extend_from_slice(data);
    proof {
        assert forall|i: int| 0 <= i < data@.len() implies out@[old(out)@.len() + i]
            == data@[i] by {
            assert(vstd::pervasive::cloned::<u8>(data@[i], out@[old(out)@.len() + i]));
        }
        assert(out@ =~= old(out)@ + data@);
    }
}

} // verus!
