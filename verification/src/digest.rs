//! The key under which a position is filed in storage.
use sha3::{Digest, Sha3_256};
use vstd::prelude::*;
use vstd::string::StringSliceAdditionalSpecFns;

verus! {

/// The SHA3-256 digest of a byte string.
pub uninterp spec fn sha3_256(data: Seq<u8>) -> Seq<u8>;

/// Calls `sha3::Sha3_256::digest`, the one-shot form of the hash, and
/// copies the digest into a vector. The contract names the digest and says
/// nothing more of it.
#[verifier::external_body]
fn sha3_256_digest(data: &[u8]) -> (r: Vec<u8>)
    ensures
        r@ == sha3_256(data@),
{
    Sha3_256::digest(data).to_vec()
}

/// The storage key of the position of `trader` in the market `vamm`: the
/// digest of the market's address followed by the trader's.
pub fn position_key(vamm: &str, trader: &str) -> (r: Vec<u8>)
    ensures
        r@ == sha3_256(vamm.spec_bytes() + trader.spec_bytes()),
{
    let first = vamm.as_bytes();
    let second = trader.as_bytes();
    let mut message: Vec<u8> = Vec::new();
    let mut i: usize = 0;
    while i < first.len()
        invariant
            i <= first@.len(),
            message@ == first@.subrange(0, i as int),
        decreases first@.len() - i,
    {
        message.push(first[i]);
        assert(message@ =~= first@.subrange(0, i + 1));
        i = i + 1;
    }
    assert(message@ =~= first@);
    let mut j: usize = 0;
    while j < second.len()
        invariant
            j <= second@.len(),
            message@ == first@ + second@.subrange(0, j as int),
        decreases second@.len() - j,
    {
        message.push(second[j]);
        assert(message@ =~= first@ + second@.subrange(0, j + 1));
        j = j + 1;
    }
    assert(message@ =~= first@ + second@);
    sha3_256_digest(message.as_slice())
}

} // verus!
