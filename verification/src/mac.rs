//! The message authentication code a normal message carries.  The MAC is
//! computed by a collaborator; this layer only truncates it to the length
//! the wire format stores.

use vstd::prelude::*;

verus! {

/// How many bytes of a MAC the wire format keeps.
pub const MAC_TRUNCATED_LEN: usize = 8;

/// A full, untruncated message authentication code.
#[derive(Clone, Copy, Debug)]
pub struct Mac(pub [u8; 32]);

impl View for Mac {
    type V = Seq<u8>;

    open spec fn view(&self) -> Seq<u8> {
        self.0@
    }
}

impl Mac {
    /// The truncated form of the MAC: its first eight bytes.
    pub fn truncate(&self) -> (r: [u8; 8])
        ensures
            r@ == self@.subrange(0, 8),
    {
        let r: [u8; 8] = [
            self.0[0],
            self.0[1],
            self.0[2],
            self.0[3],
            self.0[4],
            self.0[5],
            self.0[6],
            self.0[7],
        ];
        proof {
            assert(r@ =~= self@.subrange(0, 8));
        }
        r
    }
}

} // verus!
