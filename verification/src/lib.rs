pub mod block;
pub mod client;
pub mod frame;
pub mod gen;
pub mod recv;
pub mod sender;
pub mod server;
pub mod varint;

use vstd::prelude::*;

verus! {

/// Errors of the block-transfer core.
///
/// `InvalidFrame` covers an unrecognized or malformed wire frame,
/// `UnexpectedFrame` a frame that is well formed but arrives out of
/// protocol order (block data for an unannounced block),
/// `AdmissionRejected` a new-connection attempt that failed validation,
/// and `ConfigEmpty` an empty descriptor sequence at session startup.
/// Transport backpressure and transport failures are signals of the
/// transport engine itself, handled where its calls are made; they
/// never reach the core's decisions as errors.
#[derive(Clone, Copy, Debug, PartialEq, Eq, Structural)]
pub enum DtpError {
    InvalidFrame,
    UnexpectedFrame,
    AdmissionRejected,
    ConfigEmpty,
}

/// Compares two byte strings for equality.
pub fn bytes_eq(a: &[u8], b: &[u8]) -> (r: bool)
    ensures
        r <==> a@ == b@,
{
    if a.len() != b.len() {
        proof {
            assert(a@.len() != b@.len());
        }
        return false;
    }
    let n = a.len();
    let mut i: usize = 0;
    while i < n
        invariant
            n == a@.len() == b@.len(),
            0 <= i <= n,
            forall|k: int| 0 <= k < i ==> a@[k] == b@[k],
        decreases n - i,
    {
        if a[i] != b[i] {
            return false;
        }
        i = i + 1;
    }
    proof {
        assert(a@ =~= b@);
    }
    true
}

} // verus!
