use vstd::prelude::*;
use crate::derivation::{derived, escrow_seeds, escrow_signer_seeds, signer_of};
use crate::error::ErrorKind;
use crate::escrow::refund::RefundView;
use crate::escrow::state::{EscrowState, EscrowView};
use crate::ledger::{lemma_outcome_all_cons, lemma_outcome_all_pair, AccountView, LedgerCall, LedgerState};

verus! {

/// The escrow program's records together with the token ledger.
#[verifier::ext_equal]
pub struct World {
    pub escrows: EscrowState,
    pub ledger: LedgerState,
}

/// The world that a program state and a ledger state make up.
pub open spec fn world(escrows: EscrowState, ledger: LedgerState) -> World {
    World { escrows, ledger }
}

impl World {
    /// The calls on the ledger that Make consists of: the vault is created
    /// under the authority of the record's address, and the deposit moves
    /// into it from `source`, which the maker signs for.
    pub open spec fn make_calls(
        maker: Seq<u8>,
        mint_a: Seq<u8>,
        deposit: u64,
        decimals: u8,
        escrow: Seq<u8>,
        source: Seq<u8>,
        vault: Seq<u8>,
    ) -> Seq<LedgerCall> {
        seq![
            LedgerCall::CreateAccount { address: vault, mint: mint_a, authority: escrow },
            LedgerCall::TransferChecked {
                from: source,
                to: vault,
                mint: mint_a,
                amount: deposit,
                decimals,
                authority: maker,
            },
        ]
    }

    /// Make, on given accounts: no record may live at `escrow` and both
    /// mints must be known; the calls of Make are made, all or nothing, and
    /// the record is stored at `escrow`.
    pub open spec fn make_at(
        self,
        maker: Seq<u8>,
        seed: u64,
        mint_a: Seq<u8>,
        mint_b: Seq<u8>,
        deposit: u64,
        receive: u64,
        escrow: Seq<u8>,
        bump: u8,
        source: Seq<u8>,
        vault: Seq<u8>,
    ) -> Result<World, ErrorKind> {
        if self.escrows.records.contains_key(escrow) {
            Err(ErrorKind::Collision)
        } else if !self.ledger.mints.contains_key(mint_a) || !self.ledger.mints.contains_key(mint_b) {
            Err(ErrorKind::PreconditionFailed)
        } else {
            match self.ledger.outcome_all(
                Self::make_calls(maker, mint_a, deposit, self.ledger.mints[mint_a].decimals, escrow, source, vault),
            ) {
                Err(e) => Err(e),
                Ok(funded) => Ok(
                    World {
                        escrows: EscrowState {
                            records: self.escrows.records.insert(
                                escrow,
                                EscrowView { maker, mint_a, mint_b, receive_amount: receive, seed, bump },
                            ),
                            ..self.escrows
                        },
                        ledger: funded,
                    },
                ),
            }
        }
    }

    /// Make: the record lives at the address derived from the maker and the
    /// seed; the deposit comes from the maker's associated holding of
    /// `mint_a`; the vault is the holding of `mint_a` associated with the
    /// record's address. Gives the new world and the record's address.
    pub open spec fn make(
        self,
        maker: Seq<u8>,
        seed: u64,
        mint_a: Seq<u8>,
        mint_b: Seq<u8>,
        deposit: u64,
        receive: u64,
    ) -> Result<(World, Seq<u8>), ErrorKind> {
        match derived(escrow_seeds(maker, seed), self.escrows.program) {
            None => Err(ErrorKind::Collision),
            Some((escrow, bump)) => match self.ledger.associated(maker, mint_a) {
                None => Err(ErrorKind::Collision),
                Some(source) => match self.ledger.associated(escrow, mint_a) {
                    None => Err(ErrorKind::Collision),
                    Some(vault) => match self.make_at(
                        maker,
                        seed,
                        mint_a,
                        mint_b,
                        deposit,
                        receive,
                        escrow,
                        bump,
                        source,
                        vault,
                    ) {
                        Err(e) => Err(e),
                        Ok(after) => Ok((after, escrow)),
                    },
                },
            },
        }
    }

    /// The calls on the ledger that Take consists of: the taker's and the
    /// maker's receiving holdings are opened where they do not exist, the
    /// taker pays the maker, what the vault held moves to the taker under
    /// the authority of the record's address, the vault is closed in the
    /// taker's favour, and the record's closure in the maker's favour is noted.
    pub open spec fn take_calls(
        record: EscrowView,
        decimals_a: u8,
        decimals_b: u8,
        held: u64,
        escrow: Seq<u8>,
        taker: Seq<u8>,
        vault: Seq<u8>,
        taker_a: Seq<u8>,
        taker_b: Seq<u8>,
        maker_b: Seq<u8>,
    ) -> Seq<LedgerCall> {
        seq![
            LedgerCall::OpenAccount { address: taker_a, mint: record.mint_a, authority: taker },
            LedgerCall::OpenAccount { address: maker_b, mint: record.mint_b, authority: record.maker },
            LedgerCall::TransferChecked {
                from: taker_b,
                to: maker_b,
                mint: record.mint_b,
                amount: record.receive_amount,
                decimals: decimals_b,
                authority: taker,
            },
            LedgerCall::TransferChecked {
                from: vault,
                to: taker_a,
                mint: record.mint_a,
                amount: held,
                decimals: decimals_a,
                authority: escrow,
            },
            LedgerCall::CloseAccount { account: vault, destination: taker, authority: escrow },
            LedgerCall::Release { account: escrow, destination: record.maker },
        ]
    }

    /// What the calls of Take do to the ledger, call by call.
    pub open spec fn settle(
        ledger: LedgerState,
        record: EscrowView,
        escrow: Seq<u8>,
        taker: Seq<u8>,
        vault: Seq<u8>,
        taker_a: Seq<u8>,
        taker_b: Seq<u8>,
        maker_b: Seq<u8>,
    ) -> Result<LedgerState, ErrorKind> {
        match ledger.open_account(taker_a, record.mint_a, taker) {
            Err(e) => Err(e),
            Ok(l1) => match l1.open_account(maker_b, record.mint_b, record.maker) {
                Err(e) => Err(e),
                Ok(l2) => match l2.transfer_checked(
                    taker_b,
                    maker_b,
                    record.mint_b,
                    record.receive_amount,
                    ledger.mints[record.mint_b].decimals,
                    taker,
                ) {
                    Err(e) => Err(e),
                    Ok(l3) => match l3.transfer_checked(
                        vault,
                        taker_a,
                        record.mint_a,
                        ledger.holdings[vault].amount,
                        ledger.mints[record.mint_a].decimals,
                        escrow,
                    ) {
                        Err(e) => Err(e),
                        Ok(l4) => match l4.close_account(vault, taker, escrow) {
                            Err(e) => Err(e),
                            Ok(l5) => Ok(l5.release(escrow, record.maker)),
                        },
                    },
                },
            },
        }
    }

    /// Take, on given accounts and with the escrow program's signature
    /// standing for `signer`: the record must exist, `signer` be its
    /// address, its mints be known and the vault exist; the calls of Take
    /// are made, all or nothing, with what the vault holds as the amount to
    /// hand over; and the record is removed.
    pub open spec fn take_at(
        self,
        taker: Seq<u8>,
        escrow: Seq<u8>,
        signer: Option<Seq<u8>>,
        vault: Seq<u8>,
        taker_a: Seq<u8>,
        taker_b: Seq<u8>,
        maker_b: Seq<u8>,
    ) -> Result<World, ErrorKind> {
        if !self.escrows.records.contains_key(escrow) {
            Err(ErrorKind::NotFound)
        } else {
            let record = self.escrows.records[escrow];
            let ledger = self.ledger;
            if signer != Some(escrow) {
                Err(ErrorKind::InvariantViolation)
            } else if !ledger.mints.contains_key(record.mint_a) || !ledger.mints.contains_key(record.mint_b) {
                Err(ErrorKind::PreconditionFailed)
            } else if !ledger.holdings.contains_key(vault) {
                Err(ErrorKind::InvariantViolation)
            } else {
                match ledger.outcome_all(
                    Self::take_calls(
                        record,
                        ledger.mints[record.mint_a].decimals,
                        ledger.mints[record.mint_b].decimals,
                        ledger.holdings[vault].amount,
                        escrow,
                        taker,
                        vault,
                        taker_a,
                        taker_b,
                        maker_b,
                    ),
                ) {
                    Err(e) => Err(e),
                    Ok(settled) => Ok(
                        World {
                            escrows: EscrowState {
                                records: self.escrows.records.remove(escrow),
                                ..self.escrows
                            },
                            ledger: settled,
                        },
                    ),
                }
            }
        }
    }

    /// Take: the escrow program signs with the record's seeds and bump; the
    /// vault is the holding of `mint_a` associated with the record's
    /// address, and the other holdings are those associated with the taker
    /// and the maker.
    pub open spec fn take(self, taker: Seq<u8>, escrow: Seq<u8>) -> Result<World, ErrorKind> {
        if !self.escrows.records.contains_key(escrow) {
            Err(ErrorKind::NotFound)
        } else {
            let record = self.escrows.records[escrow];
            let ledger = self.ledger;
            match ledger.associated(escrow, record.mint_a) {
                None => Err(ErrorKind::Collision),
                Some(vault) => match ledger.associated(taker, record.mint_a) {
                    None => Err(ErrorKind::Collision),
                    Some(taker_a) => match ledger.associated(taker, record.mint_b) {
                        None => Err(ErrorKind::Collision),
                        Some(taker_b) => match ledger.associated(record.maker, record.mint_b) {
                            None => Err(ErrorKind::Collision),
                            Some(maker_b) => self.take_at(
                                taker,
                                escrow,
                                signer_of(
                                    escrow_signer_seeds(record.maker, record.seed, record.bump),
                                    self.escrows.program,
                                ),
                                vault,
                                taker_a,
                                taker_b,
                                maker_b,
                            ),
                        },
                    },
                },
            }
        }
    }

    /// The accounts that a refund of the record at `escrow` works on, when
    /// `caller` asks for it and names `maker_ata_a` as the holding to
    /// receive and `vault` as the vault: the record must exist and be the
    /// caller's; its two mints must be known; the receiving holding must be
    /// of `mint_a` and answer to the caller; and the vault must be of
    /// `mint_a` and answer to the record's address. A holding of another
    /// mint is a failed precondition, one under another authority a
    /// violated invariant, and so is a missing vault.
    pub open spec fn refund_accounts_at(
        self,
        caller: Seq<u8>,
        escrow: Seq<u8>,
        maker_ata_a: Seq<u8>,
        vault: Seq<u8>,
    ) -> Result<RefundView, ErrorKind> {
        if !self.escrows.records.contains_key(escrow) {
            Err(ErrorKind::NotFound)
        } else {
            let record = self.escrows.records[escrow];
            let ledger = self.ledger;
            if record.maker != caller {
                Err(ErrorKind::PreconditionFailed)
            } else if !ledger.mints.contains_key(record.mint_a) || !ledger.mints.contains_key(record.mint_b) {
                Err(ErrorKind::PreconditionFailed)
            } else if !ledger.holdings.contains_key(maker_ata_a) {
                Err(ErrorKind::PreconditionFailed)
            } else if ledger.holdings[maker_ata_a].mint != record.mint_a {
                Err(ErrorKind::PreconditionFailed)
            } else if ledger.holdings[maker_ata_a].authority != caller {
                Err(ErrorKind::InvariantViolation)
            } else if !ledger.holdings.contains_key(vault) {
                Err(ErrorKind::InvariantViolation)
            } else if ledger.holdings[vault].mint != record.mint_a {
                Err(ErrorKind::PreconditionFailed)
            } else if ledger.holdings[vault].authority != escrow {
                Err(ErrorKind::InvariantViolation)
            } else {
                Ok(
                    RefundView {
                        program: self.escrows.program,
                        maker: caller,
                        mint_a: AccountView { address: record.mint_a, data: ledger.mints[record.mint_a] },
                        mint_b: AccountView { address: record.mint_b, data: ledger.mints[record.mint_b] },
                        maker_ata_a: AccountView { address: maker_ata_a, data: ledger.holdings[maker_ata_a] },
                        escrow: AccountView { address: escrow, data: record },
                        vault: AccountView { address: vault, data: ledger.holdings[vault] },
                    },
                )
            }
        }
    }

    /// Refund, on given accounts and with the escrow program's signature
    /// standing for `signer`: the maker receives in `maker_ata_a` what
    /// `vault` held, and vault and record are closed in the maker's favour.
    pub open spec fn refund_at(
        self,
        caller: Seq<u8>,
        escrow: Seq<u8>,
        signer: Option<Seq<u8>>,
        maker_ata_a: Seq<u8>,
        vault: Seq<u8>,
    ) -> Result<World, ErrorKind> {
        match self.refund_accounts_at(caller, escrow, maker_ata_a, vault) {
            Err(e) => Err(e),
            Ok(accounts) => match accounts.withdrawal_signed(self.ledger, signer) {
                Err(e) => Err(e),
                Ok(withdrawn) => Ok(
                    World {
                        escrows: EscrowState {
                            records: self.escrows.records.remove(escrow),
                            ..self.escrows
                        },
                        ledger: withdrawn.release(escrow, caller),
                    },
                ),
            },
        }
    }

    /// Refund: the escrow program signs with the caller and the record's
    /// seed and bump; the receiving holding is the caller's associated
    /// holding of `mint_a`, and the vault is the one associated with the
    /// record's address.
    pub open spec fn refund(self, caller: Seq<u8>, escrow: Seq<u8>) -> Result<World, ErrorKind> {
        if !self.escrows.records.contains_key(escrow) {
            Err(ErrorKind::NotFound)
        } else {
            let record = self.escrows.records[escrow];
            match self.ledger.associated(caller, record.mint_a) {
                None => Err(ErrorKind::Collision),
                Some(maker_ata_a) => match self.ledger.associated(escrow, record.mint_a) {
                    None => Err(ErrorKind::Collision),
                    Some(vault) => self.refund_at(
                        caller,
                        escrow,
                        signer_of(escrow_signer_seeds(caller, record.seed, record.bump), self.escrows.program),
                        maker_ata_a,
                        vault,
                    ),
                },
            }
        }
    }
}

/// The calls of Make, made all or nothing, create the vault and then move
/// the deposit into it.
pub proof fn lemma_make_calls_steps(
    ledger: LedgerState,
    maker: Seq<u8>,
    mint_a: Seq<u8>,
    deposit: u64,
    decimals: u8,
    escrow: Seq<u8>,
    source: Seq<u8>,
    vault: Seq<u8>,
)
    ensures
        ledger.outcome_all(World::make_calls(maker, mint_a, deposit, decimals, escrow, source, vault)) == (
        match ledger.create_account(vault, mint_a, escrow) {
            Ok(opened) => opened.transfer_checked(source, vault, mint_a, deposit, decimals, maker),
            Err(e) => Err(e),
        }),
{
    let calls = World::make_calls(maker, mint_a, deposit, decimals, escrow, source, vault);
    lemma_outcome_all_pair(ledger, calls[0], calls[1]);
    assert(calls =~= seq![calls[0], calls[1]]);
}

/// The calls of Take, made all or nothing, do what [`World::settle`] spells
/// out call by call.
pub proof fn lemma_take_calls_settle(
    ledger: LedgerState,
    record: EscrowView,
    escrow: Seq<u8>,
    taker: Seq<u8>,
    vault: Seq<u8>,
    taker_a: Seq<u8>,
    taker_b: Seq<u8>,
    maker_b: Seq<u8>,
)
    ensures
        ledger.outcome_all(
            World::take_calls(
                record,
                ledger.mints[record.mint_a].decimals,
                ledger.mints[record.mint_b].decimals,
                ledger.holdings[vault].amount,
                escrow,
                taker,
                vault,
                taker_a,
                taker_b,
                maker_b,
            ),
        ) == World::settle(ledger, record, escrow, taker, vault, taker_a, taker_b, maker_b),
{
    let calls = World::take_calls(
        record,
        ledger.mints[record.mint_a].decimals,
        ledger.mints[record.mint_b].decimals,
        ledger.holdings[vault].amount,
        escrow,
        taker,
        vault,
        taker_a,
        taker_b,
        maker_b,
    );
    let from1 = calls.subrange(1, 6);
    let from2 = calls.subrange(2, 6);
    let from3 = calls.subrange(3, 6);
    let from4 = calls.subrange(4, 6);
    assert(calls =~= seq![calls[0]] + from1);
    assert(from1 =~= seq![calls[1]] + from2);
    assert(from2 =~= seq![calls[2]] + from3);
    assert(from3 =~= seq![calls[3]] + from4);
    assert(from4 =~= seq![calls[4], calls[5]]);
    lemma_outcome_all_cons(ledger, calls[0], from1);
    if ledger.outcome(calls[0]) is Ok {
        let l1 = ledger.outcome(calls[0])->Ok_0;
        lemma_outcome_all_cons(l1, calls[1], from2);
        if l1.outcome(calls[1]) is Ok {
            let l2 = l1.outcome(calls[1])->Ok_0;
            lemma_outcome_all_cons(l2, calls[2], from3);
            if l2.outcome(calls[2]) is Ok {
                let l3 = l2.outcome(calls[2])->Ok_0;
                lemma_outcome_all_cons(l3, calls[3], from4);
                if l3.outcome(calls[3]) is Ok {
                    let l4 = l3.outcome(calls[3])->Ok_0;
                    lemma_outcome_all_pair(l4, calls[4], calls[5]);
                }
            }
        }
    }
}

} // verus!
