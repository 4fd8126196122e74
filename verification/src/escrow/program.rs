use vstd::prelude::*;
use crate::address::Address;
use crate::derivation::{address_view, derive_address, make_escrow_seeds, make_escrow_signer_seeds, sign};
use crate::error::{follows, ErrorKind};
use crate::escrow::model::{world, World};
use crate::escrow::refund::Refund;
use crate::escrow::state::{Escrow, EscrowState};
use crate::laws::{
    law_make_binds_vault, law_refund_at_not_found, law_refund_not_found, law_take_at_not_found,
    law_take_not_found,
};
use crate::ledger::{calls_view, Instruction, Ledger};
use crate::table::Table;

verus! {

/// The escrow program: its identity and the records of the active deals.
pub struct EscrowProgram {
    program_id: Address,
    records: Table<Escrow>,
}

impl View for EscrowProgram {
    type V = EscrowState;

    closed spec fn view(&self) -> EscrowState {
        EscrowState { program: self.program_id@, records: self.records@ }
    }
}

impl EscrowProgram {
    /// The program's table of records is well formed.
    pub closed spec fn wf(&self) -> bool {
        self.records.wf()
    }

    /// The escrow program of the given identity, with no deal yet.
    pub fn new(program_id: Address) -> (p: EscrowProgram)
        ensures
            p.wf(),
            p@ == (EscrowState { program: program_id@, records: Map::empty() }),
    {
        let p = EscrowProgram { program_id, records: Table::new() };
        assert(p@ =~= (EscrowState { program: program_id@, records: Map::empty() }));
        p
    }

    /// The program's own identity.
    pub fn program_id(&self) -> (a: Address)
        ensures
            a@ == self@.program,
    {
        self.program_id
    }

    /// The record at `escrow`, if the deal there is active.
    pub fn record(&self, escrow: &Address) -> (r: Option<Escrow>)
        requires
            self.wf(),
        ensures
            match r {
                Some(record) => self@.records.contains_key(escrow@) && record@ == self@.records[escrow@],
                None => !self@.records.contains_key(escrow@),
            },
    {
        match self.records.get(escrow) {
            Some(record) => Some(*record),
            None => None,
        }
    }

    /// The calls on the ledger that Make consists of, in order: the
    /// creation of the vault under the authority of the record's address,
    /// and the transfer of the deposit into it.
    pub fn make_instructions(
        maker: &Address,
        mint_a: &Address,
        deposit: u64,
        decimals: u8,
        escrow: &Address,
        source: &Address,
        vault: &Address,
    ) -> (r: Vec<Instruction>)
        ensures
            calls_view(r@) == World::make_calls(maker@, mint_a@, deposit, decimals, escrow@, source@, vault@),
    {
        let mut r: Vec<Instruction> = Vec::new();
        r.push(Instruction::CreateAccount { address: *vault, mint: *mint_a, authority: *escrow });
        r.push(
            Instruction::TransferChecked {
                from: *source,
                to: *vault,
                mint: *mint_a,
                amount: deposit,
                decimals,
                authority: *maker,
            },
        );
        assert(calls_view(r@) =~= World::make_calls(maker@, mint_a@, deposit, decimals, escrow@, source@, vault@));
        r
    }

    /// Make, on given accounts: opens a deal whose record is stored at
    /// `escrow` with the given bump, whose vault is the new holding `vault`,
    /// and whose deposit comes from `source`. All or nothing.
    ///
    /// Fails with `Collision` where a record lives at `escrow` or the
    /// vault's address is in use; with `PreconditionFailed` where a mint is
    /// unknown or `source` is missing, of another mint, or holds less than
    /// `deposit`; and with `InvariantViolation` where `source` answers to
    /// another authority than the maker.
    pub fn make_at(
        &mut self,
        ledger: &mut Ledger,
        maker: &Address,
        seed: u64,
        mint_a: &Address,
        mint_b: &Address,
        deposit: u64,
        receive: u64,
        escrow: &Address,
        bump: u8,
        source: &Address,
        vault: &Address,
    ) -> (r: Result<(), ErrorKind>)
        requires
            old(self).wf(),
            old(ledger).wf(),
        ensures
            final(self).wf(),
            final(ledger).wf(),
            follows(
                world(old(self)@, old(ledger)@).make_at(
                    maker@,
                    seed,
                    mint_a@,
                    mint_b@,
                    deposit,
                    receive,
                    escrow@,
                    bump,
                    source@,
                    vault@,
                ),
                r,
                world(old(self)@, old(ledger)@),
                world(final(self)@, final(ledger)@),
            ),
    {
        if self.records.contains(escrow) {
            return Err(ErrorKind::Collision);
        }
        let decimals = match ledger.mint(mint_a) {
            Some(m) => m.decimals,
            None => return Err(ErrorKind::PreconditionFailed),
        };
        match ledger.mint(mint_b) {
            Some(_) => {},
            None => return Err(ErrorKind::PreconditionFailed),
        }
        let calls = Self::make_instructions(maker, mint_a, deposit, decimals, escrow, source, vault);
        match ledger.execute_all(&calls) {
            Err(e) => return Err(e),
            Ok(()) => {},
        }
        self.records.put(
            *escrow,
            Escrow { maker: *maker, mint_a: *mint_a, mint_b: *mint_b, receive_amount: receive, seed, bump },
        );
        proof {
            let expected = world(old(self)@, old(ledger)@).make_at(
                maker@,
                seed,
                mint_a@,
                mint_b@,
                deposit,
                receive,
                escrow@,
                bump,
                source@,
                vault@,
            );
            assert(world(self@, ledger@) =~= expected->Ok_0);
        }
        Ok(())
    }

    /// Make: opens a deal. The maker deposits `deposit` of `mint_a` into a
    /// new vault and asks for `receive` of `mint_b`. The record's address is
    /// derived from the maker and the seed, the vault is the holding of
    /// `mint_a` associated with that address, and the deposit comes from the
    /// maker's associated holding. Returns the record's address. All or nothing.
    ///
    /// Fails with `Collision` where one of these addresses cannot be
    /// derived, and otherwise as [`EscrowProgram::make_at`] does.
    pub fn make(
        &mut self,
        ledger: &mut Ledger,
        maker: &Address,
        seed: u64,
        mint_a: &Address,
        mint_b: &Address,
        deposit: u64,
        receive: u64,
    ) -> (r: Result<Address, ErrorKind>)
        requires
            old(self).wf(),
            old(ledger).wf(),
        ensures
            final(self).wf(),
            final(ledger).wf(),
            match world(old(self)@, old(ledger)@).make(maker@, seed, mint_a@, mint_b@, deposit, receive) {
                Ok((after, escrow)) => r matches Ok(a) && a@ == escrow && world(final(self)@, final(ledger)@)
                    == after,
                Err(e) => r == Err::<Address, ErrorKind>(e) && final(self)@ == old(self)@ && final(ledger)@
                    == old(ledger)@,
            },
            r matches Ok(a) ==> {
                &&& !old(self)@.records.contains_key(a@)
                &&& final(self)@.records.contains_key(a@)
                &&& final(self)@.records[a@].maker == maker@
                &&& final(self)@.records[a@].mint_a == mint_a@
                &&& final(self)@.records[a@].mint_b == mint_b@
                &&& final(self)@.records[a@].receive_amount == receive
                &&& final(self)@.records[a@].seed == seed
                &&& final(ledger)@.associated(a@, mint_a@) matches Some(vault)
                &&& final(ledger)@.holdings.contains_key(vault)
                &&& final(ledger)@.holdings[vault].mint == mint_a@
                &&& final(ledger)@.holdings[vault].authority == a@
                &&& final(ledger)@.holdings[vault].amount == deposit
            },
    {
        proof {
            if world(self@, ledger@).make(maker@, seed, mint_a@, mint_b@, deposit, receive) is Ok {
                law_make_binds_vault(world(self@, ledger@), maker@, seed, mint_a@, mint_b@, deposit, receive);
            }
        }
        let seeds = make_escrow_seeds(maker, seed);
        let (escrow, bump) = match derive_address(&seeds, &self.program_id) {
            Some(found) => found,
            None => return Err(ErrorKind::Collision),
        };
        let source = match ledger.associated_address(maker, mint_a) {
            Some(a) => a,
            None => return Err(ErrorKind::Collision),
        };
        let vault = match ledger.associated_address(&escrow, mint_a) {
            Some(a) => a,
            None => return Err(ErrorKind::Collision),
        };
        match self.make_at(ledger, maker, seed, mint_a, mint_b, deposit, receive, &escrow, bump, &source, &vault) {
            Err(e) => Err(e),
            Ok(()) => Ok(escrow),
        }
    }

    /// The calls on the ledger that Take consists of, in order: the opening
    /// of the two receiving holdings, the taker's payment, the transfer of
    /// what the vault held, the closure of the vault in the taker's favour,
    /// and the note of the record's closure in the maker's favour.
    pub fn take_instructions(
        record: &Escrow,
        decimals_a: u8,
        decimals_b: u8,
        held: u64,
        escrow: &Address,
        taker: &Address,
        vault: &Address,
        taker_a: &Address,
        taker_b: &Address,
        maker_b: &Address,
    ) -> (r: Vec<Instruction>)
        ensures
            calls_view(r@) == World::take_calls(
                record@,
                decimals_a,
                decimals_b,
                held,
                escrow@,
                taker@,
                vault@,
                taker_a@,
                taker_b@,
                maker_b@,
            ),
    {
        let mut r: Vec<Instruction> = Vec::new();
        r.push(Instruction::OpenAccount { address: *taker_a, mint: record.mint_a, authority: *taker });
        r.push(Instruction::OpenAccount { address: *maker_b, mint: record.mint_b, authority: record.maker });
        r.push(
            Instruction::TransferChecked {
                from: *taker_b,
                to: *maker_b,
                mint: record.mint_b,
                amount: record.receive_amount,
                decimals: decimals_b,
                authority: *taker,
            },
        );
        r.push(
            Instruction::TransferChecked {
                from: *vault,
                to: *taker_a,
                mint: record.mint_a,
                amount: held,
                decimals: decimals_a,
                authority: *escrow,
            },
        );
        r.push(Instruction::CloseAccount { account: *vault, destination: *taker, authority: *escrow });
        r.push(Instruction::Release { account: *escrow, destination: record.maker });
        assert(calls_view(r@) =~= World::take_calls(
            record@,
            decimals_a,
            decimals_b,
            held,
            escrow@,
            taker@,
            vault@,
            taker_a@,
            taker_b@,
            maker_b@,
        ));
        r
    }

    /// Take, on given accounts and under a signature of the escrow program
    /// that stands for `signer`: settles the deal at `escrow` for `taker`.
    /// The taker pays the maker the asked amount of `mint_b` from `taker_b`
    /// into `maker_b`, receives in `taker_a` what `vault` held, and vault
    /// and record are closed. The two receiving holdings are created where
    /// they do not exist. All or nothing.
    ///
    /// Fails with `NotFound` exactly where no record lives at `escrow`;
    /// with `InvariantViolation` where `signer` is not the record's address,
    /// the vault is missing or answers to another authority, or a receiving
    /// holding exists under another authority; with `Collision` where
    /// the address of a receiving holding is taken by a mint; and with
    /// `PreconditionFailed` where a mint is unknown, a holding is of another
    /// mint, `taker_b` is missing or holds too little, a receiving holding
    /// would exceed 64 bits, or the vault is left with a balance.
    pub fn take_at(
        &mut self,
        ledger: &mut Ledger,
        taker: &Address,
        escrow: &Address,
        signer: Option<Address>,
        vault: &Address,
        taker_a: &Address,
        taker_b: &Address,
        maker_b: &Address,
    ) -> (r: Result<(), ErrorKind>)
        requires
            old(self).wf(),
            old(ledger).wf(),
        ensures
            final(self).wf(),
            final(ledger).wf(),
            follows(
                world(old(self)@, old(ledger)@).take_at(
                    taker@,
                    escrow@,
                    address_view(signer),
                    vault@,
                    taker_a@,
                    taker_b@,
                    maker_b@,
                ),
                r,
                world(old(self)@, old(ledger)@),
                world(final(self)@, final(ledger)@),
            ),
            (r == Err::<(), ErrorKind>(ErrorKind::NotFound)) == !old(self)@.records.contains_key(escrow@),
            r is Ok ==> !final(self)@.records.contains_key(escrow@),
            r is Err ==> final(self)@ == old(self)@ && final(ledger)@ == old(ledger)@,
    {
        proof {
            law_take_at_not_found(
                world(self@, ledger@),
                taker@,
                escrow@,
                address_view(signer),
                vault@,
                taker_a@,
                taker_b@,
                maker_b@,
            );
        }
        let record = match self.records.get(escrow) {
            Some(record) => *record,
            None => return Err(ErrorKind::NotFound),
        };
        match signer {
            Some(a) => {
                if !a.same(escrow) {
                    return Err(ErrorKind::InvariantViolation);
                }
            },
            None => return Err(ErrorKind::InvariantViolation),
        }
        let decimals_a = match ledger.mint(&record.mint_a) {
            Some(m) => m.decimals,
            None => return Err(ErrorKind::PreconditionFailed),
        };
        let decimals_b = match ledger.mint(&record.mint_b) {
            Some(m) => m.decimals,
            None => return Err(ErrorKind::PreconditionFailed),
        };
        let held = match ledger.holding(vault) {
            Some(h) => h.amount,
            None => return Err(ErrorKind::InvariantViolation),
        };
        let calls = Self::take_instructions(
            &record,
            decimals_a,
            decimals_b,
            held,
            escrow,
            taker,
            vault,
            taker_a,
            taker_b,
            maker_b,
        );
        match ledger.execute_all(&calls) {
            Err(e) => return Err(e),
            Ok(()) => {},
        }
        self.records.remove(escrow);
        proof {
            let expected = world(old(self)@, old(ledger)@).take_at(
                taker@,
                escrow@,
                address_view(signer),
                vault@,
                taker_a@,
                taker_b@,
                maker_b@,
            );
            assert(world(self@, ledger@) =~= expected->Ok_0);
        }
        Ok(())
    }

    /// Take: settles the deal at `escrow` for `taker`. The escrow program
    /// signs with the record's seeds and bump; the vault is the holding of
    /// `mint_a` associated with the record's address, and the other holdings
    /// are those associated with the taker and the maker. All or nothing.
    ///
    /// Fails with `NotFound` exactly where no record lives at `escrow`;
    /// with `Collision` where the address of a holding cannot be derived;
    /// and otherwise as [`EscrowProgram::take_at`] does.
    pub fn take(&mut self, ledger: &mut Ledger, taker: &Address, escrow: &Address) -> (r: Result<(), ErrorKind>)
        requires
            old(self).wf(),
            old(ledger).wf(),
        ensures
            final(self).wf(),
            final(ledger).wf(),
            follows(
                world(old(self)@, old(ledger)@).take(taker@, escrow@),
                r,
                world(old(self)@, old(ledger)@),
                world(final(self)@, final(ledger)@),
            ),
            (r == Err::<(), ErrorKind>(ErrorKind::NotFound)) == !old(self)@.records.contains_key(escrow@),
            r is Ok ==> !final(self)@.records.contains_key(escrow@),
            r is Err ==> final(self)@ == old(self)@ && final(ledger)@ == old(ledger)@,
    {
        proof {
            law_take_not_found(world(self@, ledger@), taker@, escrow@);
        }
        let record = match self.records.get(escrow) {
            Some(record) => *record,
            None => return Err(ErrorKind::NotFound),
        };
        let vault = match ledger.associated_address(escrow, &record.mint_a) {
            Some(a) => a,
            None => return Err(ErrorKind::Collision),
        };
        let taker_a = match ledger.associated_address(taker, &record.mint_a) {
            Some(a) => a,
            None => return Err(ErrorKind::Collision),
        };
        let taker_b = match ledger.associated_address(taker, &record.mint_b) {
            Some(a) => a,
            None => return Err(ErrorKind::Collision),
        };
        let maker_b = match ledger.associated_address(&record.maker, &record.mint_b) {
            Some(a) => a,
            None => return Err(ErrorKind::Collision),
        };
        let signer_seeds = make_escrow_signer_seeds(&record.maker, record.seed, record.bump);
        let signer = sign(&signer_seeds, &self.program_id);
        self.take_at(ledger, taker, escrow, signer, &vault, &taker_a, &taker_b, &maker_b)
    }

    /// Refund, on given accounts and under a signature of the escrow
    /// program that stands for `signer`: gives the deal at `escrow` up for
    /// its `maker`, who receives in `maker_ata_a` what `vault` held. Vault
    /// and record are closed in the maker's favour. All or nothing.
    ///
    /// Fails as [`Refund::load_at`] and [`Refund::withdraw_and_close_signed`]
    /// do; with `NotFound` exactly where no record lives at `escrow`.
    pub fn refund_at(
        &mut self,
        ledger: &mut Ledger,
        maker: &Address,
        escrow: &Address,
        signer: Option<Address>,
        maker_ata_a: &Address,
        vault: &Address,
    ) -> (r: Result<(), ErrorKind>)
        requires
            old(self).wf(),
            old(ledger).wf(),
        ensures
            final(self).wf(),
            final(ledger).wf(),
            follows(
                world(old(self)@, old(ledger)@).refund_at(maker@, escrow@, address_view(signer), maker_ata_a@, vault@),
                r,
                world(old(self)@, old(ledger)@),
                world(final(self)@, final(ledger)@),
            ),
            (r == Err::<(), ErrorKind>(ErrorKind::NotFound)) == !old(self)@.records.contains_key(escrow@),
            r is Ok ==> !final(self)@.records.contains_key(escrow@),
            r is Err ==> final(self)@ == old(self)@ && final(ledger)@ == old(ledger)@,
    {
        proof {
            law_refund_at_not_found(
                world(self@, ledger@),
                maker@,
                escrow@,
                address_view(signer),
                maker_ata_a@,
                vault@,
            );
        }
        let mut accounts = match Refund::load_at(self, ledger, maker, escrow, maker_ata_a, vault) {
            Ok(accounts) => accounts,
            Err(e) => return Err(e),
        };
        match accounts.withdraw_and_close_signed(ledger, signer) {
            Err(e) => return Err(e),
            Ok(()) => {},
        }
        ledger.release(escrow, maker);
        self.records.remove(escrow);
        proof {
            let expected = world(old(self)@, old(ledger)@).refund_at(
                maker@,
                escrow@,
                address_view(signer),
                maker_ata_a@,
                vault@,
            );
            assert(world(self@, ledger@) =~= expected->Ok_0);
        }
        Ok(())
    }

    /// Refund: gives the deal at `escrow` up for its `maker`. The maker
    /// receives, in the associated holding of `mint_a`, what the vault held,
    /// and vault and record are closed in the maker's favour. The escrow
    /// program signs with the maker and the record's seed and bump. All or nothing.
    ///
    /// Fails with `NotFound` exactly where no record lives at `escrow`;
    /// with `Collision` where the address of a holding cannot be derived;
    /// and otherwise as [`EscrowProgram::refund_at`] does.
    pub fn refund(&mut self, ledger: &mut Ledger, maker: &Address, escrow: &Address) -> (r: Result<(), ErrorKind>)
        requires
            old(self).wf(),
            old(ledger).wf(),
        ensures
            final(self).wf(),
            final(ledger).wf(),
            follows(
                world(old(self)@, old(ledger)@).refund(maker@, escrow@),
                r,
                world(old(self)@, old(ledger)@),
                world(final(self)@, final(ledger)@),
            ),
            (r == Err::<(), ErrorKind>(ErrorKind::NotFound)) == !old(self)@.records.contains_key(escrow@),
            r is Ok ==> !final(self)@.records.contains_key(escrow@),
            r is Err ==> final(self)@ == old(self)@ && final(ledger)@ == old(ledger)@,
    {
        proof {
            law_refund_not_found(world(self@, ledger@), maker@, escrow@);
        }
        let record = match self.records.get(escrow) {
            Some(record) => *record,
            None => return Err(ErrorKind::NotFound),
        };
        let maker_ata_a = match ledger.associated_address(maker, &record.mint_a) {
            Some(a) => a,
            None => return Err(ErrorKind::Collision),
        };
        let vault = match ledger.associated_address(escrow, &record.mint_a) {
            Some(a) => a,
            None => return Err(ErrorKind::Collision),
        };
        let mut accounts = match Refund::load_at(self, ledger, maker, escrow, &maker_ata_a, &vault) {
            Ok(accounts) => accounts,
            Err(e) => return Err(e),
        };
        match accounts.withdraw_and_close(ledger) {
            Err(e) => return Err(e),
            Ok(()) => {},
        }
        ledger.release(escrow, maker);
        self.records.remove(escrow);
        proof {
            let expected = world(old(self)@, old(ledger)@).refund(maker@, escrow@);
            assert(world(self@, ledger@) =~= expected->Ok_0);
        }
        Ok(())
    }
}

} // verus!
