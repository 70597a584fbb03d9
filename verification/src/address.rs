use vstd::prelude::*;
use crate::codec::ID_LEN;

verus! {

/// What `Pubkey::try_find_program_address` returns for the given seeds and
/// program id. The construction is a deterministic cryptographic search, a
/// pure function of its two arguments; its definition is not restated here.
pub uninterp spec fn derived_address_of(seeds: Seq<Seq<u8>>, program_id: Seq<u8>) -> Option<
    (Seq<u8>, u8),
>;

/// Relies on `Pubkey::try_find_program_address` (crate solana-pubkey, served
/// by solana-address, re-exported through anchor-lang): from the seeds and the
/// program id it deterministically derives a 32-byte address that is not a
/// valid externally-controlled identity, together with the bump that
/// disambiguated it, or reports that no bump in the bounded search space
/// works.
#[verifier::external_body]
fn find_address(seeds: &Vec<Vec<u8>>, program_id: &Vec<u8>) -> (r: Option<(Vec<u8>, u8)>)
    requires
        program_id@.len() == ID_LEN,
    ensures
        r is Some <==> derived_address_of(seeds.deep_view(), program_id@) is Some,
        r matches Some(p) ==> Some((p.0@, p.1)) == derived_address_of(
            seeds.deep_view(),
            program_id@,
        ) && p.0@.len() == ID_LEN,
{
    let seed_refs: Vec<&[u8]> = seeds.iter().map(|s| s.as_slice()).collect();
    let mut pid_bytes = [0u8; 32];
    pid_bytes.copy_from_slice(program_id.as_slice());
    let pid = anchor_lang::solana_program::pubkey::Pubkey::new_from_array(pid_bytes);
    let found = anchor_lang::solana_program::pubkey::Pubkey::try_find_program_address(
        &seed_refs,
        &pid,
    );
    found.map(|(addr, bump)| (addr.to_bytes().to_vec(), bump))
}

/// The namespace tag naming registry-state addresses: the bytes of "state".
pub open spec fn state_seed() -> Seq<u8> {
    seq![115u8, 116u8, 97u8, 116u8, 101u8]
}

/// The namespace tag naming topic-record addresses: the bytes of "topic".
pub open spec fn topic_seed() -> Seq<u8> {
    seq![116u8, 111u8, 112u8, 105u8, 99u8]
}

/// Big-endian bytes of a 64-bit index, as it enters address derivation.
pub open spec fn spec_u64_to_be_bytes(x: u64) -> Seq<u8> {
    seq![
        ((x >> 56) & 0xff) as u8,
        ((x >> 48) & 0xff) as u8,
        ((x >> 40) & 0xff) as u8,
        ((x >> 32) & 0xff) as u8,
        ((x >> 24) & 0xff) as u8,
        ((x >> 16) & 0xff) as u8,
        ((x >> 8) & 0xff) as u8,
        (x & 0xff) as u8,
    ]
}

/// Where the registry state of the namespace `program_id` lives, with its
/// bump, if any address can be derived at all.
pub open spec fn spec_state_address(program_id: Seq<u8>) -> Option<(Seq<u8>, u8)> {
    derived_address_of(seq![state_seed()], program_id)
}

/// Where the topic record of the given index lives, with its bump, if any
/// address can be derived at all.
pub open spec fn spec_topic_address(program_id: Seq<u8>, index: u64) -> Option<(Seq<u8>, u8)> {
    derived_address_of(seq![topic_seed(), spec_u64_to_be_bytes(index)], program_id)
}

pub fn u64_to_be_bytes(x: u64) -> (r: Vec<u8>)
    ensures
        r@ == spec_u64_to_be_bytes(x),
        r@.len() == 8,
{
    proof {
        assert((x >> 56) & 0xff < 256 && (x >> 48) & 0xff < 256 && (x >> 40) & 0xff < 256 && (x
            >> 32) & 0xff < 256 && (x >> 24) & 0xff < 256 && (x >> 16) & 0xff < 256 && (x >> 8)
            & 0xff < 256 && x & 0xff < 256) by (bit_vector);
    }
    let mut r: Vec<u8> = Vec::new();
    r.push(((x >> 56) & 0xff) as u8);
    r.push(((x >> 48) & 0xff) as u8);
    r.push(((x >> 40) & 0xff) as u8);
    r.push(((x >> 32) & 0xff) as u8);
    r.push(((x >> 24) & 0xff) as u8);
    r.push(((x >> 16) & 0xff) as u8);
    r.push(((x >> 8) & 0xff) as u8);
    r.push((x & 0xff) as u8);
    proof {
        assert(r@ =~= spec_u64_to_be_bytes(x));
    }
    r
}

/// Derives the registry-state address of the namespace: a pure function of
/// the namespace tag and the program id, reproducible by any party.
pub fn derive_state_address(program_id: &Vec<u8>) -> (r: Option<(Vec<u8>, u8)>)
    requires
        program_id@.len() == ID_LEN,
    ensures
        (match r {
            Some(p) => spec_state_address(program_id@) == Some((p.0@, p.1)) && p.0@.len()
                == ID_LEN,
            None => spec_state_address(program_id@) is None,
        }),
{
    let mut seed: Vec<u8> = Vec::new();
    seed.push(115u8);
    seed.push(116u8);
    seed.push(97u8);
    seed.push(116u8);
    seed.push(101u8);
    let mut seeds: Vec<Vec<u8>> = Vec::new();
    seeds.push(seed);
    proof {
        assert(seeds.deep_view() =~~= seq![state_seed()]);
    }
    find_address(&seeds, program_id)
}

/// Derives the address of the topic record with the given index: a pure
/// function of the namespace tag, the big-endian index bytes, and the program
/// id, reproducible by any party.
pub fn derive_topic_address(program_id: &Vec<u8>, index: u64) -> (r: Option<(Vec<u8>, u8)>)
    requires
        program_id@.len() == ID_LEN,
    ensures
        (match r {
            Some(p) => spec_topic_address(program_id@, index) == Some((p.0@, p.1)) && p.0@.len()
                == ID_LEN,
            None => spec_topic_address(program_id@, index) is None,
        }),
{
    let mut seed: Vec<u8> = Vec::new();
    seed.push(116u8);
    seed.push(111u8);
    seed.push(112u8);
    seed.push(105u8);
    seed.push(99u8);
    let mut seeds: Vec<Vec<u8>> = Vec::new();
    seeds.push(seed);
    seeds.push(u64_to_be_bytes(index));
    proof {
        assert(seeds.deep_view() =~~= seq![topic_seed(), spec_u64_to_be_bytes(index)]);
    }
    find_address(&seeds, program_id)
}

} // verus!
