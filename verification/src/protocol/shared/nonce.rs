//! The random bytes of the two hellos, and the master password made of them.

use rand::Rng;
use vstd::prelude::*;

verus! {

/// The bound under which the random bytes of a hello are drawn.
pub const NONCE_BYTE_BOUND: u8 = 255;

/// `rand::Rng::gen_range` on the thread's generator, for the range from zero
/// up to but not including `bound`. It panics on an empty range, which the
/// precondition rules out.
/// Trusted: the byte drawn lies in the range.
#[verifier::external_body]
fn random_below(bound: u8) -> (byte: u8)
    requires
        bound > 0,
    ensures
        byte < bound,
{
    rand::thread_rng().gen_range(0..bound)
}

/// Twelve random bytes for a hello, each below `NONCE_BYTE_BOUND`.
pub fn fresh_nonce() -> (nonce: [u8; 12])
    ensures
        forall|i: int| 0 <= i < 12 ==> nonce@[i] < NONCE_BYTE_BOUND,
{
    let mut nonce: [u8; 12] = [0u8; 12];
    let mut i: usize = 0;
    while i < 12
        invariant
            i <= 12,
            forall|j: int| 0 <= j < i ==> nonce@[j] < NONCE_BYTE_BOUND,
        decreases 12 - i,
    {
        nonce[i] = random_below(NONCE_BYTE_BOUND);
        i += 1;
    }
    nonce
}

/// The master password: the client's hello, then the server's.
pub fn master_password(client_hello: &[u8; 12], server_hello: &[u8; 12]) -> (master: [u8; 24])
    ensures
        master@ == client_hello@ + server_hello@,
{
    let master: [u8; 24] = [
        client_hello[0],
        client_hello[1],
        client_hello[2],
        client_hello[3],
        client_hello[4],
        client_hello[5],
        client_hello[6],
        client_hello[7],
        client_hello[8],
        client_hello[9],
        client_hello[10],
        client_hello[11],
        server_hello[0],
        server_hello[1],
        server_hello[2],
        server_hello[3],
        server_hello[4],
        server_hello[5],
        server_hello[6],
        server_hello[7],
        server_hello[8],
        server_hello[9],
        server_hello[10],
        server_hello[11],
    ];
    assert(master@ =~= client_hello@ + server_hello@);
    master
}

} // verus!
