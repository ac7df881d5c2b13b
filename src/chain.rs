use vstd::prelude::*;

use vstd::string::StringSliceAdditionalSpecFns;

use crate::error::DidError;

verus! {

/// Number of leading bytes of an identity string that carry the chain identifier.
pub const CHAIN_PREFIX_LEN: usize = 6;

pub open spec fn is_digit(b: u8) -> bool {
    48 <= b <= 57
}

/// The base-10 value of a sequence of ASCII digits, most significant first.
pub open spec fn digits_value(b: Seq<u8>) -> int
    decreases b.len(),
{
    if b.len() == 0 {
        0
    } else {
        digits_value(b.drop_last()) * 10 + (b.last() - 48)
    }
}

pub open spec fn pow10(n: nat) -> int
    decreases n,
{
    if n == 0 {
        1
    } else {
        10 * pow10((n - 1) as nat)
    }
}

/// The chain identifier that the encoded identity string `b` names: its first
/// six bytes must all be ASCII digits, read as a base-10 number.
pub open spec fn chain_scope(b: Seq<u8>) -> Result<u64, DidError> {
    if b.len() < CHAIN_PREFIX_LEN || exists|i: int| 0 <= i < CHAIN_PREFIX_LEN && !is_digit(#[trigger] b[i]) {
        Err(DidError::InvalidChainScope)
    } else {
        Ok(digits_value(b.subrange(0, CHAIN_PREFIX_LEN as int)) as u64)
    }
}

proof fn lemma_digits_bound(b: Seq<u8>)
    requires
        forall|i: int| 0 <= i < b.len() ==> is_digit(#[trigger] b[i]),
    ensures
        0 <= digits_value(b) < pow10(b.len()),
    decreases b.len(),
{
    if b.len() > 0 {
        let p = b.drop_last();
        assert forall|i: int| 0 <= i < p.len() implies is_digit(#[trigger] p[i]) by {
            assert(p[i] == b[i]);
        }
        lemma_digits_bound(p);
        let v = digits_value(p);
        let q = pow10(p.len());
        assert(v * 10 + 9 < q * 10) by (nonlinear_arith)
            requires
                v < q,
        ;
    }
}

/// Reads the chain identifier from the first six bytes of `did`.
pub fn resolve_chain_id(did: &str) -> (r: Result<u64, DidError>)
    ensures
        r == chain_scope(did.spec_bytes()),
{
    let bytes = did.as_bytes();
    if bytes.len() < CHAIN_PREFIX_LEN {
        return Err(DidError::InvalidChainScope);
    }
    let mut value: u64 = 0;
    let mut i: usize = 0;
    proof {
        reveal_with_fuel(pow10, 7);
    }
    while i < CHAIN_PREFIX_LEN
        invariant
            0 <= i <= CHAIN_PREFIX_LEN,
            bytes@ == did.spec_bytes(),
            bytes@.len() >= CHAIN_PREFIX_LEN,
            forall|j: int| 0 <= j < i ==> is_digit(#[trigger] bytes@[j]),
            value as int == digits_value(bytes@.subrange(0, i as int)),
            pow10(6) == 1000000,
        decreases CHAIN_PREFIX_LEN - i,
    {
        let c = bytes[i];
        if c < 48 || c > 57 {
            assert(!is_digit(bytes@[i as int]));
            return Err(DidError::InvalidChainScope);
        }
        proof {
            let prefix = bytes@.subrange(0, i as int);
            let next = bytes@.subrange(0, i + 1);
            assert(next.drop_last() =~= prefix);
            assert forall|j: int| 0 <= j < prefix.len() implies is_digit(#[trigger] prefix[j]) by {
                assert(prefix[j] == bytes@[j]);
            }
            lemma_digits_bound(prefix);
            lemma_pow10_mono(i as nat, 5);
        }
        value = value * 10 + (c - 48) as u64;
        i = i + 1;
    }
    Ok(value)
}

proof fn lemma_pow10_pos(n: nat)
    ensures
        pow10(n) >= 1,
    decreases n,
{
    if n > 0 {
        lemma_pow10_pos((n - 1) as nat);
    }
}

proof fn lemma_pow10_mono(a: nat, b: nat)
    requires
        a <= b,
    ensures
        pow10(a) <= pow10(b),
    decreases b,
{
    if a < b {
        lemma_pow10_mono(a, (b - 1) as nat);
        lemma_pow10_pos((b - 1) as nat);
    }
}

} // verus!
