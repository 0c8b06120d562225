//! Keys, and the addresses that the program derives from seeds.

use vstd::prelude::*;

verus! {

/// A 32-byte key: an identity, or an address derived from seeds.
#[derive(Clone, Copy, Debug)]
pub struct Pubkey {
    pub bytes: [u8; 32],
}

impl Pubkey {
    /// The key made of the given bytes.
    pub fn new_from_array(bytes: [u8; 32]) -> (r: Pubkey)
        ensures
            r.bytes@ == bytes@,
    {
        Pubkey { bytes }
    }

    /// The key's bytes, as a vector.
    pub fn to_vec(&self) -> (r: Vec<u8>)
        ensures
            r@ == self.bytes@,
    {
        let mut out: Vec<u8> = Vec::new();
        let mut i: usize = 0;
        while i < 32
            invariant
                0 <= i <= 32,
                out@ == self.bytes@.subrange(0, i as int),
            decreases 32 - i,
        {
            out.push(self.bytes[i]);
            i = i + 1;
            assert(out@ =~= self.bytes@.subrange(0, i as int));
        }
        assert(out@ =~= self.bytes@);
        out
    }

    /// Whether two keys hold the same bytes.
    pub fn same_as(&self, other: &Pubkey) -> (r: bool)
        ensures
            r == (self.bytes@ == other.bytes@),
    {
        let mut i: usize = 0;
        while i < 32
            invariant
                0 <= i <= 32,
                forall|j: int| 0 <= j < i ==> self.bytes@[j] == other.bytes@[j],
            decreases 32 - i,
        {
            if self.bytes[i] != other.bytes[i] {
                return false;
            }
            i = i + 1;
        }
        assert(self.bytes@ =~= other.bytes@);
        true
    }
}

/// The address that the program with key `program_id` derives from `seeds`:
/// `None` when no bump seed gives an address off the curve.
pub uninterp spec fn program_address_of(seeds: Seq<Seq<u8>>, program_id: Seq<u8>) -> Option<Seq<u8>>;

/// The byte strings that a list of seeds holds.
pub open spec fn seeds_view(seeds: Seq<Vec<u8>>) -> Seq<Seq<u8>> {
    seeds.map_values(|s: Vec<u8>| s@)
}

/// The bytes of a key that may be absent.
pub open spec fn key_bytes(k: Option<Pubkey>) -> Option<Seq<u8>> {
    match k {
        Some(k) => Some(k.bytes@),
        None => None,
    }
}

/// Relies on `solana_program::pubkey::Pubkey::try_find_program_address`, as
/// anchor-lang re-exports it: off-chain it computes the address that a
/// program derives from seeds, trying bump seeds from 255 down and keeping
/// the first that gives an address off the curve, and answers `None` when
/// none does. The address depends on the seeds and the program's key alone.
#[verifier::external_body]
pub(crate) fn find_program_address(seeds: &Vec<Vec<u8>>, program_id: &Pubkey) -> (r: Option<Pubkey>)
    ensures
        key_bytes(r) == program_address_of(seeds_view(seeds@), program_id.bytes@),
{
    let slices: Vec<&[u8]> = seeds.iter().map(|s| s.as_slice()).collect();
    let program = anchor_lang::prelude::Pubkey::new_from_array(program_id.bytes);
    anchor_lang::prelude::Pubkey::try_find_program_address(&slices, &program)
        .map(|(k, _)| Pubkey { bytes: k.to_bytes() })
}

/// The eight bytes of `n`, least significant first.
pub open spec fn le_bytes(n: u64) -> Seq<u8> {
    Seq::new(8, |i: int| ((n as nat / pow256(i as nat)) % 256) as u8)
}

pub open spec fn pow256(k: nat) -> nat
    decreases k,
{
    if k == 0 {
        1
    } else {
        256 * pow256((k - 1) as nat)
    }
}

/// The eight bytes of `n`, least significant first.
pub fn to_le_bytes(n: u64) -> (r: Vec<u8>)
    ensures
        r@ == le_bytes(n),
{
    let mut out: Vec<u8> = Vec::new();
    let mut v: u64 = n;
    let mut i: usize = 0;
    assert(pow256(0) == 1);
    while i < 8
        invariant
            0 <= i <= 8,
            out@.len() == i,
            v as nat == n as nat / pow256(i as nat),
            forall|j: int| 0 <= j < i ==> out@[j] == le_bytes(n)[j],
        decreases 8 - i,
    {
        proof {
            lemma_div_step(n as nat, i as nat);
        }
        out.push((v % 256) as u8);
        v = v / 256;
        i = i + 1;
    }
    assert(out@ =~= le_bytes(n));
    out
}

proof fn lemma_div_step(n: nat, i: nat)
    ensures
        pow256(i) > 0,
        n / pow256(i) / 256 == n / pow256(i + 1),
    decreases i,
{
    if i > 0 {
        lemma_div_step(n, (i - 1) as nat);
    }
    assert(pow256(i + 1) == 256 * pow256(i));
    vstd::arithmetic::div_mod::lemma_div_denominator(n as int, pow256(i) as int, 256);
    assert(pow256(i) * 256 == 256 * pow256(i)) by (nonlinear_arith);
}

/// Two different numbers have different byte strings.
pub proof fn lemma_le_bytes_injective(a: u64, b: u64)
    requires
        a != b,
    ensures
        le_bytes(a) != le_bytes(b),
{
    if le_bytes(a) == le_bytes(b) {
        assert forall|i: nat| i <= 8 implies (a as nat / pow256(i)) == (b as nat / pow256(i)) by {
            lemma_le_prefix(a, b, i);
        }
        assert(pow256(0) == 1);
    }
}

proof fn lemma_le_prefix(a: u64, b: u64, i: nat)
    requires
        le_bytes(a) == le_bytes(b),
        i <= 8,
    ensures
        a as nat / pow256(i) == b as nat / pow256(i),
    decreases 8 - i,
{
    lemma_div_step(a as nat, i);
    lemma_div_step(b as nat, i);
    if i == 8 {
        lemma_pow256_8();
        vstd::arithmetic::div_mod::lemma_basic_div(a as int, pow256(8) as int);
        vstd::arithmetic::div_mod::lemma_basic_div(b as int, pow256(8) as int);
    } else {
        lemma_le_prefix(a, b, i + 1);
        let x = a as nat / pow256(i);
        let y = b as nat / pow256(i);
        assert(le_bytes(a)[i as int] == le_bytes(b)[i as int]);
        assert(le_bytes(a)[i as int] == (x % 256) as u8);
        assert(le_bytes(b)[i as int] == (y % 256) as u8);
        assert((x % 256) as u8 == (y % 256) as u8);
        assert(x % 256 == y % 256);
        assert(x / 256 == y / 256);
        vstd::arithmetic::div_mod::lemma_fundamental_div_mod(x as int, 256);
        vstd::arithmetic::div_mod::lemma_fundamental_div_mod(y as int, 256);
    }
}

proof fn lemma_pow256_8()
    ensures
        pow256(8) == 0x1_0000_0000_0000_0000,
{
    reveal_with_fuel(pow256, 9);
}

} // verus!
