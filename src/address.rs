use vstd::prelude::*;
use crate::store::Key;

verus! {

/// The program-derived address and bump seed that the ledger finds for a list of
/// seeds under a program id, or `None` where no bump seed gives a valid address.
pub uninterp spec fn program_address(seeds: Seq<Seq<u8>>, program_id: Seq<u8>) -> Option<(Seq<u8>, u8)>;

/// Relies on anchor_lang's `Pubkey::try_find_program_address`: a pure function of
/// the seeds and the program id, which returns `None` where the seeds break its
/// limits or no bump seed gives an address off the curve.
#[verifier::external_body]
fn find_program_address(seeds: &Vec<Vec<u8>>, program_id: &Key) -> (r: Option<(Key, u8)>)
    ensures
        r is Some <==> program_address(seeds@.map_values(|s: Vec<u8>| s@), program_id@) is Some,
        match r {
            Some((a, bump)) => program_address(seeds@.map_values(|s: Vec<u8>| s@), program_id@)
                == Some((a@, bump)),
            None => true,
        },
{
    let refs: Vec<&[u8]> = seeds.iter().map(|s| s.as_slice()).collect();
    let program = anchor_lang::prelude::Pubkey::new_from_array(*program_id);
    anchor_lang::prelude::Pubkey::try_find_program_address(&refs, &program)
        .map(|(a, bump)| (a.to_bytes(), bump))
}

/// "challenge"
pub open spec fn challenge_tag() -> Seq<u8> {
    seq![99u8, 104, 97, 108, 108, 101, 110, 103, 101]
}

/// "reward_vault"
pub open spec fn reward_vault_tag() -> Seq<u8> {
    seq![114u8, 101, 119, 97, 114, 100, 95, 118, 97, 117, 108, 116]
}

/// "submission"
pub open spec fn submission_tag() -> Seq<u8> {
    seq![115u8, 117, 98, 109, 105, 115, 115, 105, 111, 110]
}

/// "reputation"
pub open spec fn reputation_tag() -> Seq<u8> {
    seq![114u8, 101, 112, 117, 116, 97, 116, 105, 111, 110]
}

/// "session"
pub open spec fn session_tag() -> Seq<u8> {
    seq![115u8, 101, 115, 115, 105, 111, 110]
}

/// The address derived from `seeds`, without its bump seed.
pub open spec fn derived(seeds: Seq<Seq<u8>>, program_id: Seq<u8>) -> Option<Seq<u8>> {
    match program_address(seeds, program_id) {
        Some(p) => Some(p.0),
        None => None,
    }
}

pub open spec fn challenge_address_spec(program_id: Seq<u8>, challenge_id: Seq<u8>) -> Option<Seq<u8>> {
    derived(seq![challenge_tag(), challenge_id], program_id)
}

pub open spec fn vault_address_spec(program_id: Seq<u8>, challenge: Seq<u8>) -> Option<Seq<u8>> {
    derived(seq![reward_vault_tag(), challenge], program_id)
}

pub open spec fn submission_address_spec(
    program_id: Seq<u8>,
    challenge: Seq<u8>,
    contributor: Seq<u8>,
) -> Option<Seq<u8>> {
    derived(seq![submission_tag(), challenge, contributor], program_id)
}

pub open spec fn reputation_address_spec(program_id: Seq<u8>, contributor: Seq<u8>) -> Option<Seq<u8>> {
    derived(seq![reputation_tag(), contributor], program_id)
}

pub open spec fn session_address_spec(program_id: Seq<u8>, session_id: Seq<u8>) -> Option<Seq<u8>> {
    derived(seq![session_tag(), session_id], program_id)
}

fn key_bytes(k: &Key) -> (r: Vec<u8>)
    ensures
        r@ == k@,
{
    let mut v: Vec<u8> = Vec::new();
    let mut i: usize = 0;
    while i < 32
        invariant
            0 <= i <= 32,
            k@.len() == 32,
            v@ == k@.subrange(0, i as int),
        decreases 32 - i,
    {
        v.push(k[i]);
        i = i + 1;
        assert(v@ =~= k@.subrange(0, i as int));
    }
    assert(k@.subrange(0, 32) =~= k@);
    v
}

fn derive(seeds: &Vec<Vec<u8>>, program_id: &Key) -> (r: Option<Key>)
    ensures
        match r {
            Some(a) => derived(seeds@.map_values(|s: Vec<u8>| s@), program_id@) == Some(a@),
            None => derived(seeds@.map_values(|s: Vec<u8>| s@), program_id@) is None,
        },
{
    match find_program_address(seeds, program_id) {
        Some(p) => Some(p.0),
        None => None,
    }
}

/// Address of the challenge record with the given id.
pub fn challenge_address(program_id: &Key, challenge_id: &Key) -> (r: Option<Key>)
    ensures
        match r {
            Some(a) => challenge_address_spec(program_id@, challenge_id@) == Some(a@),
            None => challenge_address_spec(program_id@, challenge_id@) is None,
        },
{
    let mut seeds: Vec<Vec<u8>> = Vec::new();
    seeds.push(vec![99u8, 104, 97, 108, 108, 101, 110, 103, 101]);
    seeds.push(key_bytes(challenge_id));
    assert(seeds@.map_values(|s: Vec<u8>| s@) =~= seq![challenge_tag(), challenge_id@]);
    derive(&seeds, program_id)
}

/// Address of the escrow vault bound to a challenge record; the vault's
/// authority is this same derived address, so no private key controls it.
pub fn vault_address(program_id: &Key, challenge: &Key) -> (r: Option<Key>)
    ensures
        match r {
            Some(a) => vault_address_spec(program_id@, challenge@) == Some(a@),
            None => vault_address_spec(program_id@, challenge@) is None,
        },
{
    let mut seeds: Vec<Vec<u8>> = Vec::new();
    seeds.push(vec![114u8, 101, 119, 97, 114, 100, 95, 118, 97, 117, 108, 116]);
    seeds.push(key_bytes(challenge));
    assert(seeds@.map_values(|s: Vec<u8>| s@) =~= seq![reward_vault_tag(), challenge@]);
    derive(&seeds, program_id)
}

/// Address of the one submission that a contributor may make to a challenge.
pub fn submission_address(program_id: &Key, challenge: &Key, contributor: &Key) -> (r: Option<Key>)
    ensures
        match r {
            Some(a) => submission_address_spec(program_id@, challenge@, contributor@) == Some(a@),
            None => submission_address_spec(program_id@, challenge@, contributor@) is None,
        },
{
    let mut seeds: Vec<Vec<u8>> = Vec::new();
    seeds.push(vec![115u8, 117, 98, 109, 105, 115, 115, 105, 111, 110]);
    seeds.push(key_bytes(challenge));
    seeds.push(key_bytes(contributor));
    assert(seeds@.map_values(|s: Vec<u8>| s@) =~= seq![submission_tag(), challenge@, contributor@]);
    derive(&seeds, program_id)
}

/// Address of a contributor's reputation record.
pub fn reputation_address(program_id: &Key, contributor: &Key) -> (r: Option<Key>)
    ensures
        match r {
            Some(a) => reputation_address_spec(program_id@, contributor@) == Some(a@),
            None => reputation_address_spec(program_id@, contributor@) is None,
        },
{
    let mut seeds: Vec<Vec<u8>> = Vec::new();
    seeds.push(vec![114u8, 101, 112, 117, 116, 97, 116, 105, 111, 110]);
    seeds.push(key_bytes(contributor));
    assert(seeds@.map_values(|s: Vec<u8>| s@) =~= seq![reputation_tag(), contributor@]);
    derive(&seeds, program_id)
}

/// Address of the training session with the given id.
pub fn session_address(program_id: &Key, session_id: &Key) -> (r: Option<Key>)
    ensures
        match r {
            Some(a) => session_address_spec(program_id@, session_id@) == Some(a@),
            None => session_address_spec(program_id@, session_id@) is None,
        },
{
    let mut seeds: Vec<Vec<u8>> = Vec::new();
    seeds.push(vec![115u8, 101, 115, 115, 105, 111, 110]);
    seeds.push(key_bytes(session_id));
    assert(seeds@.map_values(|s: Vec<u8>| s@) =~= seq![session_tag(), session_id@]);
    derive(&seeds, program_id)
}

} // verus!
