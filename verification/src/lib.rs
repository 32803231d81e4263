//! Protocol and runtime core of a Stratum V1 mining client.
//!
//! The crate has two halves:
//!
//! * the protocol message framework: the byte-level JSON codec
//!   ([`codec`] over the value model of [`json`]), wire framing of the
//!   JSON-RPC-style envelope ([`framing`]), typed payload conversion
//!   for the mining messages ([`messages`], with the hex field
//!   encodings of [`hex`]), and the visitor that routes an incoming
//!   typed message to a handler ([`dispatch`]);
//! * the task lifecycle supervisor ([`supervisor`]): a halt/join state
//!   machine with a cooperative cancellation signal, driven by the
//!   async runtime that hosts it.

pub mod codec;
pub mod dispatch;
pub mod framing;
pub mod hex;
pub mod supervisor;
pub mod json;
pub mod messages;

use vstd::prelude::*;

verus! {

/// Compare two byte slices for element-wise equality.
pub fn bytes_eq(a: &[u8], b: &[u8]) -> (r: bool)
    ensures
        r == (a@ == b@),
{
    if a.len() != b.len() {
        assert(a@ != b@) by {
            assert(a@.len() != b@.len());
        }
        return false;
    }
    let mut i: usize = 0;
    while i < a.len()
        invariant
            0 <= i <= a@.len(),
            a@.len() == b@.len(),
            forall|j: int| 0 <= j < i ==> a@[j] == b@[j],
        decreases a@.len() - i,
    {
        if a[i] != b[i] {
            return false;
        }
        i += 1;
    }
    assert(a@ =~= b@);
    true
}

} // verus!
