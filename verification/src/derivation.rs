use vstd::prelude::*;
use vstd::bytes::{spec_u64_to_le_bytes, u64_to_le_bytes};
use vstd::slice::slice_to_vec;
use vstd::string::StringSliceAdditionalSpecFns;
use anchor_lang::prelude::Pubkey;
use crate::address::Address;

verus! {

/// What `Pubkey::create_program_address` returns for the given seeds and
/// program: the address created from them, or `None` where it reports an
/// error. `Pubkey` is the one of `anchor_lang`'s prelude.
pub uninterp spec fn created_program_address(seeds: Seq<Seq<u8>>, program: Seq<u8>) -> Option<Seq<u8>>;

/// What `Pubkey::try_find_program_address` returns for the given seeds and
/// program: the address found with its bump, or `None`.
pub uninterp spec fn found_program_address(seeds: Seq<Seq<u8>>, program: Seq<u8>) -> Option<(Seq<u8>, u8)>;

/// The byte strings that a list of seeds holds.
pub open spec fn seeds_view(seeds: Seq<Vec<u8>>) -> Seq<Seq<u8>> {
    seeds.map_values(|s: Vec<u8>| s@)
}

/// The bytes of an identity that may be absent.
pub open spec fn address_view(a: Option<Address>) -> Option<Seq<u8>> {
    match a {
        Some(a) => Some(a@),
        None => None,
    }
}

/// The bytes of an identity with its bump, where both may be absent.
pub open spec fn bumped_view(a: Option<(Address, u8)>) -> Option<(Seq<u8>, u8)> {
    match a {
        Some((a, bump)) => Some((a@, bump)),
        None => None,
    }
}

/// Calls `Pubkey::create_program_address`. Trusted, not proved: the result
/// is that function's result on the same seeds and program, an error of any
/// kind given as `None`.
#[verifier::external_body]
fn create_program_address(seeds: &Vec<Vec<u8>>, program: &Address) -> (r: Option<Address>)
    ensures
        address_view(r) == created_program_address(seeds_view(seeds@), program@),
{
    let parts: Vec<&[u8]> = seeds.iter().map(|s| s.as_slice()).collect();
    match Pubkey::create_program_address(&parts, &Pubkey::new_from_array(program.bytes)) {
        Ok(key) => Some(Address { bytes: key.to_bytes() }),
        Err(_) => None,
    }
}

/// Calls `Pubkey::try_find_program_address`. Trusted, not proved: the result
/// is that function's result on the same seeds and program; and, as that
/// function returns only an address that `create_program_address` gave it
/// for the seeds followed by the bump, the address found is the one created
/// from the seeds with the bump appended.
#[verifier::external_body]
fn try_find_program_address(seeds: &Vec<Vec<u8>>, program: &Address) -> (r: Option<(Address, u8)>)
    ensures
        bumped_view(r) == found_program_address(seeds_view(seeds@), program@),
        r matches Some((a, bump)) ==> created_program_address(
            seeds_view(seeds@).push(seq![bump]),
            program@,
        ) == Some(a@),
{
    let parts: Vec<&[u8]> = seeds.iter().map(|s| s.as_slice()).collect();
    match Pubkey::try_find_program_address(&parts, &Pubkey::new_from_array(program.bytes)) {
        Some((key, bump)) => Some((Address { bytes: key.to_bytes() }, bump)),
        None => None,
    }
}

/// The identity that a program may sign for by presenting `seeds`: the
/// address created from them under the program, if there is one.
pub open spec fn signer_of(seeds: Seq<Seq<u8>>, program: Seq<u8>) -> Option<Seq<u8>> {
    created_program_address(seeds, program)
}

/// The identity derived from `seeds` under `program`, with the bump that
/// completes the seeds: the address found for them, which is also the one
/// that the program signs for with the seeds followed by the bump.
pub open spec fn derived(seeds: Seq<Seq<u8>>, program: Seq<u8>) -> Option<(Seq<u8>, u8)> {
    match found_program_address(seeds, program) {
        Some((a, bump)) => if signer_of(seeds.push(seq![bump]), program) == Some(a) {
            Some((a, bump))
        } else {
            None
        },
        None => None,
    }
}

/// Derives the identity that belongs to `seeds` under `program`, and its bump.
/// `None` when no bump yields a valid address.
pub fn derive_address(seeds: &Vec<Vec<u8>>, program: &Address) -> (r: Option<(Address, u8)>)
    ensures
        bumped_view(r) == derived(seeds_view(seeds@), program@),
{
    try_find_program_address(seeds, program)
}

/// The identity that `program` signs for when it presents `seeds`, the bump
/// included. `None` when the seeds create no valid address.
pub fn sign(seeds: &Vec<Vec<u8>>, program: &Address) -> (r: Option<Address>)
    ensures
        address_view(r) == signer_of(seeds_view(seeds@), program@),
{
    create_program_address(seeds, program)
}

/// The bytes of a word used as the first seed of a derivation.
pub fn tag(word: &str) -> (r: Vec<u8>)
    ensures
        r@ == word.spec_bytes(),
{
    slice_to_vec(word.as_bytes())
}

/// Seeds of an escrow record: the word "escrow", the maker, and the maker's
/// seed as eight bytes, least significant first.
pub open spec fn escrow_seeds(maker: Seq<u8>, seed: u64) -> Seq<Seq<u8>> {
    seq!["escrow".spec_bytes(), maker, spec_u64_to_le_bytes(seed)]
}

/// Seeds with which the escrow program signs for a record: the record's seeds
/// followed by its bump.
pub open spec fn escrow_signer_seeds(maker: Seq<u8>, seed: u64, bump: u8) -> Seq<Seq<u8>> {
    escrow_seeds(maker, seed).push(seq![bump])
}

/// Seeds of a marketplace record: the word "marketplace" and the name's bytes.
pub open spec fn marketplace_seeds(name: Seq<u8>) -> Seq<Seq<u8>> {
    seq!["marketplace".spec_bytes(), name]
}

/// Seeds of a marketplace's reward mint: the word "rewards" and the record's address.
pub open spec fn rewards_seeds(marketplace: Seq<u8>) -> Seq<Seq<u8>> {
    seq!["rewards".spec_bytes(), marketplace]
}

/// Seeds of a marketplace's treasury: the word "treasury" and the record's address.
pub open spec fn treasury_seeds(marketplace: Seq<u8>) -> Seq<Seq<u8>> {
    seq!["treasury".spec_bytes(), marketplace]
}

/// Seeds of the holding account associated with a wallet and a mint: the
/// wallet, the token program and the mint.
pub open spec fn associated_seeds(wallet: Seq<u8>, token_program: Seq<u8>, mint: Seq<u8>) -> Seq<Seq<u8>> {
    seq![wallet, token_program, mint]
}

/// Builds [`escrow_seeds`].
pub fn make_escrow_seeds(maker: &Address, seed: u64) -> (r: Vec<Vec<u8>>)
    ensures
        seeds_view(r@) == escrow_seeds(maker@, seed),
{
    let mut r: Vec<Vec<u8>> = Vec::new();
    r.push(tag("escrow"));
    r.push(maker.to_vec());
    r.push(u64_to_le_bytes(seed));
    assert(seeds_view(r@) =~= escrow_seeds(maker@, seed));
    r
}

/// Builds [`escrow_signer_seeds`].
pub fn make_escrow_signer_seeds(maker: &Address, seed: u64, bump: u8) -> (r: Vec<Vec<u8>>)
    ensures
        seeds_view(r@) == escrow_signer_seeds(maker@, seed, bump),
{
    let mut r = make_escrow_seeds(maker, seed);
    let mut last: Vec<u8> = Vec::new();
    last.push(bump);
    assert(last@ =~= seq![bump]);
    r.push(last);
    assert(seeds_view(r@) =~= escrow_signer_seeds(maker@, seed, bump));
    r
}

/// Builds [`marketplace_seeds`] for a name given as text.
pub fn make_marketplace_seeds(name: &str) -> (r: Vec<Vec<u8>>)
    ensures
        seeds_view(r@) == marketplace_seeds(name.spec_bytes()),
{
    let mut r: Vec<Vec<u8>> = Vec::new();
    r.push(tag("marketplace"));
    r.push(tag(name));
    assert(seeds_view(r@) =~= marketplace_seeds(name.spec_bytes()));
    r
}

/// Builds [`rewards_seeds`].
pub fn make_rewards_seeds(marketplace: &Address) -> (r: Vec<Vec<u8>>)
    ensures
        seeds_view(r@) == rewards_seeds(marketplace@),
{
    let mut r: Vec<Vec<u8>> = Vec::new();
    r.push(tag("rewards"));
    r.push(marketplace.to_vec());
    assert(seeds_view(r@) =~= rewards_seeds(marketplace@));
    r
}

/// Builds [`treasury_seeds`].
pub fn make_treasury_seeds(marketplace: &Address) -> (r: Vec<Vec<u8>>)
    ensures
        seeds_view(r@) == treasury_seeds(marketplace@),
{
    let mut r: Vec<Vec<u8>> = Vec::new();
    r.push(tag("treasury"));
    r.push(marketplace.to_vec());
    assert(seeds_view(r@) =~= treasury_seeds(marketplace@));
    r
}

/// Builds [`associated_seeds`].
pub fn make_associated_seeds(wallet: &Address, token_program: &Address, mint: &Address) -> (r: Vec<Vec<u8>>)
    ensures
        seeds_view(r@) == associated_seeds(wallet@, token_program@, mint@),
{
    let mut r: Vec<Vec<u8>> = Vec::new();
    r.push(wallet.to_vec());
    r.push(token_program.to_vec());
    r.push(mint.to_vec());
    assert(seeds_view(r@) =~= associated_seeds(wallet@, token_program@, mint@));
    r
}

} // verus!
