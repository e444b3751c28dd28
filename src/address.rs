//! Ledger addresses and the addresses derived from the program identity.

use solana_program::pubkey::Pubkey;
use vstd::prelude::*;

verus! {

/// A ledger address: 32 raw bytes.
#[derive(Clone, Copy, Debug, PartialEq, Eq)]
pub struct Address {
    pub bytes: [u8; 32],
}

impl View for Address {
    type V = Seq<u8>;

    open spec fn view(&self) -> Seq<u8> {
        self.bytes@
    }
}

impl Address {
    pub fn new(bytes: [u8; 32]) -> (r: Address)
        ensures
            r@ == bytes@,
    {
        Address { bytes }
    }

    /// Byte-wise equality of two addresses.
    pub fn same(&self, other: &Address) -> (r: bool)
        ensures
            r == (self@ == other@),
    {
        let mut i: usize = 0;
        while i < 32
            invariant
                i <= 32,
                forall|j: int| 0 <= j < i ==> self@[j] == other@[j],
            decreases 32 - i,
        {
            if self.bytes[i] != other.bytes[i] {
                return false;
            }
            i = i + 1;
        }
        assert(self@ =~= other@);
        true
    }
}

/// The two seeds under which the program derives its own accounts.
#[derive(Clone, Copy, Debug, PartialEq, Eq)]
pub enum Seed {
    Vault,
    Price,
}

/// The bytes of a seed: the ASCII text "vault" or "price".
pub open spec fn seed_bytes(seed: Seed) -> Seq<u8> {
    match seed {
        Seed::Vault => seq![118u8, 97u8, 117u8, 108u8, 116u8],
        Seed::Price => seq![112u8, 114u8, 105u8, 99u8, 101u8],
    }
}

impl Seed {
    pub fn bytes(&self) -> (r: Vec<u8>)
        ensures
            r@ == seed_bytes(*self),
    {
        let r = match self {
            Seed::Vault => vec![118u8, 97u8, 117u8, 108u8, 116u8],
            Seed::Price => vec![112u8, 114u8, 105u8, 99u8, 101u8],
        };
        assert(r@ =~= seed_bytes(*self));
        r
    }
}

/// What the ledger's program-address search yields for one seed under a
/// program identity: the address and the bump that takes it off the curve,
/// or nothing where no bump does.
pub uninterp spec fn program_address_of(seed: Seq<u8>, program: Seq<u8>) -> Option<(Seq<u8>, u8)>;

/// What the program-address search yields for a wallet's token-holding
/// account: the seeds wallet, token program and mint under the
/// associated-account program; nothing where no bump gives an address.
pub uninterp spec fn associated_search_of(wallet: Seq<u8>, mint: Seq<u8>) -> Option<Seq<u8>>;

pub open spec fn found_view(r: Option<(Address, u8)>) -> Option<(Seq<u8>, u8)> {
    match r {
        Some((a, b)) => Some((a@, b)),
        None => None,
    }
}

/// Relies on solana_program's `Pubkey::try_find_program_address` with the one
/// seed given: the search hashes the seed, a bump and the program identity,
/// so its result depends on those bytes alone.
#[verifier::external_body]
fn try_find_program_address(seed: &[u8], program_id: &Address) -> (r: Option<(Address, u8)>)
    requires
        seed@.len() <= 32,
    ensures
        found_view(r) == program_address_of(seed@, program_id@),
{
    let program = Pubkey::new_from_array(program_id.bytes);
    Pubkey::try_find_program_address(&[seed], &program).map(|(k, b)| (Address { bytes: k.to_bytes() }, b))
}

pub open spec fn address_view(r: Option<Address>) -> Option<Seq<u8>> {
    match r {
        Some(a) => Some(a@),
        None => None,
    }
}

/// Relies on solana_program's `Pubkey::try_find_program_address` with the
/// seeds that spl_associated_token_account uses for a wallet's token-holding
/// account (wallet, `spl_token::id()`, mint, under
/// `spl_associated_token_account::id()`): the result depends on the wallet
/// and the mint alone.
#[verifier::external_body]
fn associated_token_address(wallet: &Address, mint: &Address) -> (r: Option<Address>)
    ensures
        address_view(r) == associated_search_of(wallet@, mint@),
{
    let token_program = spl_token::id().to_bytes();
    let seeds: [&[u8]; 3] = [&wallet.bytes, &token_program, &mint.bytes];
    Pubkey::try_find_program_address(&seeds, &spl_associated_token_account::id())
        .map(|(k, _)| Address { bytes: k.to_bytes() })
}

/// The token-holding account of `wallet` for `mint`, where the search finds one.
pub fn token_holder_address(wallet: &Address, mint: &Address) -> (r: Option<Address>)
    ensures
        address_view(r) == associated_search_of(wallet@, mint@),
{
    associated_token_address(wallet, mint)
}

/// An address derived from a seed under a program identity, with the bump
/// that lets the program sign on its behalf.
#[derive(Clone, Copy, Debug, PartialEq, Eq)]
pub struct DerivedAddress {
    pub seed: Seed,
    pub address: Address,
    pub bump: u8,
}

/// The derivation of `seed` under `program`, as an address and a bump.
pub open spec fn derivation(seed: Seed, program: Seq<u8>) -> Option<(Seq<u8>, u8)> {
    program_address_of(seed_bytes(seed), program)
}

pub open spec fn derived_view(r: Option<DerivedAddress>) -> Option<(Seq<u8>, u8)> {
    match r {
        Some(d) => Some((d.address@, d.bump)),
        None => None,
    }
}

/// Derives the address for `seed` under `program_id`.
pub fn derive_address(program_id: &Address, seed: Seed) -> (r: Option<DerivedAddress>)
    ensures
        derived_view(r) == derivation(seed, program_id@),
        r matches Some(d) ==> d.seed == seed,
{
    let bytes = seed.bytes();
    match try_find_program_address(bytes.as_slice(), program_id) {
        Some((address, bump)) => Some(DerivedAddress { seed, address, bump }),
        None => None,
    }
}

/// Derivation is a function of the program identity and the seed: two
/// derivations of one seed under one program give the same address and bump.
pub proof fn lemma_derivation_deterministic(
    program: Address,
    seed: Seed,
    first: Option<DerivedAddress>,
    second: Option<DerivedAddress>,
)
    requires
        derived_view(first) == derivation(seed, program@),
        derived_view(second) == derivation(seed, program@),
        first matches Some(d) ==> d.seed == seed,
        second matches Some(d) ==> d.seed == seed,
    ensures
        first == second,
{
    match (first, second) {
        (Some(a), Some(b)) => {
            assert(a.address.bytes@ =~= b.address.bytes@);
            assert(a.address.bytes == b.address.bytes);
        },
        _ => {},
    }
}

} // verus!
