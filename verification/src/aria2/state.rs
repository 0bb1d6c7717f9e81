//! The secret that guards the RPC interface of aria2.

use crate::torrent::hex_of_bytes;
use crate::text::string_of;
use crate::types::push_hex_fixed;
use vstd::prelude::*;

verus! {

/// The port that the RPC interface is first tried on.
pub const DEFAULT_RPC_PORT: u16 = 6800;

/// The name of the file that keeps the secret.
pub const SECRET_FILE: &'static str = "rpc.secret";

/// `rand::thread_rng`, then `Rng::gen`: sixteen random bytes.
#[verifier::external_body]
fn random_bytes() -> (r: [u8; 16]) {
    rand::Rng::gen(&mut rand::thread_rng())
}

/// The secret that sixteen bytes make: their 32 lowercase hexadecimal
/// digits.
pub fn secret_of(bytes: &[u8; 16]) -> (r: String)
    ensures
        r@ == hex_of_bytes(bytes@),
{
    let mut out: Vec<char> = Vec::new();
    let mut i: usize = 0;
    assert(bytes@.take(0) =~= Seq::empty());
    while i < 16
        invariant
            i <= 16,
            out@ == hex_of_bytes(bytes@.take(i as int)),
        decreases 16 - i,
    {
        proof {
            assert(bytes@.take(i + 1).drop_last() == bytes@.take(i as int));
            assert(bytes@.take(i + 1).last() == bytes@[i as int]);
        }
        push_hex_fixed(&mut out, bytes[i] as u64, 2);
        i += 1;
    }
    assert(bytes@.take(16) == bytes@);
    string_of(&out)
}

/// The length of the hexadecimal text of some bytes is twice their number.
pub proof fn lemma_hex_len(bytes: Seq<u8>)
    ensures
        hex_of_bytes(bytes).len() == 2 * bytes.len(),
    decreases bytes.len(),
{
    if bytes.len() > 0 {
        lemma_hex_len(bytes.drop_last());
        crate::types::lemma_hex_fixed_len(bytes.last() as nat, 2);
    }
}

/// A fresh random secret: the 32 hexadecimal digits of sixteen random
/// bytes.
pub fn generate_secret() -> (r: String)
    ensures
        r@.len() == 32,
        exists|bytes: Seq<u8>| bytes.len() == 16 && r@ == #[trigger] hex_of_bytes(bytes),
{
    let bytes = random_bytes();
    proof {
        lemma_hex_len(bytes@);
    }
    secret_of(&bytes)
}

} // verus!
