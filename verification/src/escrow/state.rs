use vstd::prelude::*;
use crate::address::Address;

verus! {

/// The terms of one deal: who deposited, under which seed, which asset is
/// held, which asset and how much of it the maker asks for, and the bump of
/// the record's derived address.
#[derive(Clone, Copy, Debug, PartialEq, Eq)]
pub struct Escrow {
    pub maker: Address,
    pub mint_a: Address,
    pub mint_b: Address,
    pub receive_amount: u64,
    pub seed: u64,
    pub bump: u8,
}

/// An [`Escrow`] as contracts see it.
pub struct EscrowView {
    pub maker: Seq<u8>,
    pub mint_a: Seq<u8>,
    pub mint_b: Seq<u8>,
    pub receive_amount: u64,
    pub seed: u64,
    pub bump: u8,
}

impl View for Escrow {
    type V = EscrowView;

    open spec fn view(&self) -> EscrowView {
        EscrowView {
            maker: self.maker@,
            mint_a: self.mint_a@,
            mint_b: self.mint_b@,
            receive_amount: self.receive_amount,
            seed: self.seed,
            bump: self.bump,
        }
    }
}

/// The records of the escrow program, as contracts see them.
#[verifier::ext_equal]
pub struct EscrowState {
    /// The escrow program's own identity, under which records are derived.
    pub program: Seq<u8>,
    /// The active records, by address. A deal that was taken or refunded has none.
    pub records: Map<Seq<u8>, EscrowView>,
}

} // verus!
