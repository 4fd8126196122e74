use vstd::prelude::*;
use crate::address::Address;
use crate::derivation::{address_view, escrow_signer_seeds, make_escrow_signer_seeds, sign, signer_of};
use crate::error::{follows, ErrorKind};
use crate::escrow::model::world;
use crate::escrow::program::EscrowProgram;
use crate::escrow::state::{Escrow, EscrowView};
use crate::ledger::{
    calls_view, lemma_outcome_all_pair, Account, AccountView, Holding, HoldingView, Instruction, Ledger,
    LedgerCall, LedgerState, Mint, MintView,
};

verus! {

/// The accounts of a refund, as contracts see them.
pub struct RefundView {
    pub program: Seq<u8>,
    pub maker: Seq<u8>,
    pub mint_a: AccountView<MintView>,
    pub mint_b: AccountView<MintView>,
    pub maker_ata_a: AccountView<HoldingView>,
    pub escrow: AccountView<EscrowView>,
    pub vault: AccountView<HoldingView>,
}

impl RefundView {
    /// The calls on the ledger that the withdrawal consists of: what the
    /// vault held moves into the maker's holding, and the vault is closed in
    /// the maker's favour, both under the authority of the record's address.
    pub open spec fn calls(self) -> Seq<LedgerCall> {
        seq![
            LedgerCall::TransferChecked {
                from: self.vault.address,
                to: self.maker_ata_a.address,
                mint: self.mint_a.address,
                amount: self.vault.data.amount,
                decimals: self.mint_a.data.decimals,
                authority: self.escrow.address,
            },
            LedgerCall::CloseAccount {
                account: self.vault.address,
                destination: self.maker,
                authority: self.escrow.address,
            },
        ]
    }

    /// Whether these accounts are the ones that the record names: the maker
    /// is the record's, and the two mints are the record's.
    pub open spec fn as_recorded(self) -> bool {
        &&& self.maker == self.escrow.data.maker
        &&& self.mint_a.address == self.escrow.data.mint_a
        &&& self.mint_b.address == self.escrow.data.mint_b
    }

    /// The calls to make when the escrow program's signature stands for
    /// `signer`. The accounts must be the ones that the record names, or
    /// the precondition has failed, whatever else holds; and `signer` must
    /// be the record's address, or an invariant is violated.
    pub open spec fn plan(self, signer: Option<Seq<u8>>) -> Result<Seq<LedgerCall>, ErrorKind> {
        if !self.as_recorded() {
            Err(ErrorKind::PreconditionFailed)
        } else if signer != Some(self.escrow.address) {
            Err(ErrorKind::InvariantViolation)
        } else {
            Ok(self.calls())
        }
    }

    /// What the withdrawal does to the ledger when the escrow program's
    /// signature stands for `signer`: the planned calls are made, all or
    /// nothing; where there is no plan, nothing is done.
    pub open spec fn withdrawal_signed(self, ledger: LedgerState, signer: Option<Seq<u8>>) -> Result<
        LedgerState,
        ErrorKind,
    > {
        match self.plan(signer) {
            Ok(calls) => ledger.outcome_all(calls),
            Err(e) => Err(e),
        }
    }

    /// The identity that the escrow program signs for with the seeds of
    /// these accounts: the word "escrow", the maker, and the record's seed and bump.
    pub open spec fn signer(self) -> Option<Seq<u8>> {
        signer_of(escrow_signer_seeds(self.maker, self.escrow.data.seed, self.escrow.data.bump), self.program)
    }

    /// What the withdrawal does to the ledger, the escrow program signing
    /// with the seeds of these accounts.
    pub open spec fn withdrawal(self, ledger: LedgerState) -> Result<LedgerState, ErrorKind> {
        self.withdrawal_signed(ledger, self.signer())
    }
}

/// The calls of a withdrawal, made all or nothing, move what the vault held
/// and then close the vault.
pub proof fn lemma_withdrawal_steps(accounts: RefundView, ledger: LedgerState)
    ensures
        ledger.outcome_all(accounts.calls()) == (match ledger.transfer_checked(
            accounts.vault.address,
            accounts.maker_ata_a.address,
            accounts.mint_a.address,
            accounts.vault.data.amount,
            accounts.mint_a.data.decimals,
            accounts.escrow.address,
        ) {
            Ok(moved) => moved.close_account(accounts.vault.address, accounts.maker, accounts.escrow.address),
            Err(e) => Err(e),
        }),
{
    let calls = accounts.calls();
    lemma_outcome_all_pair(ledger, calls[0], calls[1]);
    assert(calls =~= seq![calls[0], calls[1]]);
}

/// The accounts that a refund works on.
#[derive(Clone, Copy, Debug, PartialEq, Eq)]
pub struct Refund {
    /// The escrow program, which signs for the record.
    pub program: Address,
    /// The maker, who asks for the refund.
    pub maker: Address,
    pub mint_a: Account<Mint>,
    pub mint_b: Account<Mint>,
    /// The maker's holding of `mint_a`.
    pub maker_ata_a: Account<Holding>,
    /// The record of the deal.
    pub escrow: Account<Escrow>,
    /// The holding of `mint_a` that the record's address controls.
    pub vault: Account<Holding>,
}

impl View for Refund {
    type V = RefundView;

    open spec fn view(&self) -> RefundView {
        RefundView {
            program: self.program@,
            maker: self.maker@,
            mint_a: self.mint_a@,
            mint_b: self.mint_b@,
            maker_ata_a: self.maker_ata_a@,
            escrow: self.escrow@,
            vault: self.vault@,
        }
    }
}

impl Refund {
    /// Collects and checks the accounts of a refund that `maker` asks for,
    /// with `maker_ata_a` to receive and `vault` as the vault.
    ///
    /// Fails with `NotFound` where no record lives at `escrow`; with
    /// `PreconditionFailed` where the record is not `maker`'s, one of its
    /// mints is unknown, no holding lives at `maker_ata_a`, or the
    /// receiving holding or the vault is of another mint than the record's;
    /// and with `InvariantViolation` where the receiving holding or the
    /// vault answers to another authority, or the vault is missing.
    pub fn load_at(
        program: &EscrowProgram,
        ledger: &Ledger,
        maker: &Address,
        escrow: &Address,
        maker_ata_a: &Address,
        vault: &Address,
    ) -> (r: Result<Refund, ErrorKind>)
        requires
            program.wf(),
            ledger.wf(),
        ensures
            match world(program@, ledger@).refund_accounts_at(maker@, escrow@, maker_ata_a@, vault@) {
                Ok(accounts) => r matches Ok(found) && found@ == accounts,
                Err(e) => r == Err::<Refund, ErrorKind>(e),
            },
    {
        let record = match program.record(escrow) {
            Some(record) => record,
            None => return Err(ErrorKind::NotFound),
        };
        if !record.maker.same(maker) {
            return Err(ErrorKind::PreconditionFailed);
        }
        let mint_a = match ledger.mint(&record.mint_a) {
            Some(m) => m,
            None => return Err(ErrorKind::PreconditionFailed),
        };
        let mint_b = match ledger.mint(&record.mint_b) {
            Some(m) => m,
            None => return Err(ErrorKind::PreconditionFailed),
        };
        let maker_holding = match ledger.holding(maker_ata_a) {
            Some(h) => h,
            None => return Err(ErrorKind::PreconditionFailed),
        };
        if !maker_holding.mint.same(&record.mint_a) {
            return Err(ErrorKind::PreconditionFailed);
        }
        if !maker_holding.authority.same(maker) {
            return Err(ErrorKind::InvariantViolation);
        }
        let vault_holding = match ledger.holding(vault) {
            Some(h) => h,
            None => return Err(ErrorKind::InvariantViolation),
        };
        if !vault_holding.mint.same(&record.mint_a) {
            return Err(ErrorKind::PreconditionFailed);
        }
        if !vault_holding.authority.same(escrow) {
            return Err(ErrorKind::InvariantViolation);
        }
        Ok(
            Refund {
                program: program.program_id(),
                maker: *maker,
                mint_a: Account { address: record.mint_a, data: mint_a },
                mint_b: Account { address: record.mint_b, data: mint_b },
                maker_ata_a: Account { address: *maker_ata_a, data: maker_holding },
                escrow: Account { address: *escrow, data: record },
                vault: Account { address: *vault, data: vault_holding },
            },
        )
    }

    /// The calls on the ledger that the withdrawal consists of, in order:
    /// the transfer of what the vault held to the maker's holding, and the
    /// closure of the vault in the maker's favour, both under the authority
    /// of the record's address.
    pub fn calls(&self) -> (r: Vec<Instruction>)
        ensures
            calls_view(r@) == self@.calls(),
    {
        let mut r: Vec<Instruction> = Vec::new();
        r.push(
            Instruction::TransferChecked {
                from: self.vault.address,
                to: self.maker_ata_a.address,
                mint: self.mint_a.address,
                amount: self.vault.data.amount,
                decimals: self.mint_a.data.decimals,
                authority: self.escrow.address,
            },
        );
        r.push(
            Instruction::CloseAccount {
                account: self.vault.address,
                destination: self.maker,
                authority: self.escrow.address,
            },
        );
        assert(calls_view(r@) =~= self@.calls());
        r
    }

    /// Decides what to do when the escrow program's signature stands for
    /// `signer`: the calls of the withdrawal, in order, or why there are none.
    ///
    /// Fails with `PreconditionFailed` where the maker or a mint of these
    /// accounts is not the one that the record names, whoever signs; and
    /// with `InvariantViolation` where `signer` is not the record's address.
    pub fn plan(&self, signer: Option<Address>) -> (r: Result<Vec<Instruction>, ErrorKind>)
        ensures
            match self@.plan(address_view(signer)) {
                Ok(calls) => r matches Ok(planned) && calls_view(planned@) == calls,
                Err(e) => r == Err::<Vec<Instruction>, ErrorKind>(e),
            },
    {
        if !self.maker.same(&self.escrow.data.maker) || !self.mint_a.address.same(&self.escrow.data.mint_a)
            || !self.mint_b.address.same(&self.escrow.data.mint_b) {
            return Err(ErrorKind::PreconditionFailed);
        }
        match signer {
            Some(a) => {
                if !a.same(&self.escrow.address) {
                    return Err(ErrorKind::InvariantViolation);
                }
            },
            None => return Err(ErrorKind::InvariantViolation),
        }
        Ok(self.calls())
    }

    /// Returns what the vault held to the maker and closes the vault, all or
    /// nothing, under a signature of the escrow program that stands for `signer`.
    ///
    /// Fails, and leaves the ledger as it was, with `PreconditionFailed`
    /// where the maker or a mint of these accounts is not the one that the
    /// record names, a holding or the mint is unknown or not as these
    /// accounts say, the vault holds less than they say or more, or the
    /// maker's holding would exceed 64 bits; and with `InvariantViolation`
    /// where `signer` is not the record's address or the vault answers to
    /// another authority.
    pub fn withdraw_and_close_signed(&mut self, ledger: &mut Ledger, signer: Option<Address>) -> (r: Result<
        (),
        ErrorKind,
    >)
        requires
            old(ledger).wf(),
        ensures
            final(ledger).wf(),
            *final(self) == *old(self),
            follows(
                old(self)@.withdrawal_signed(old(ledger)@, address_view(signer)),
                r,
                old(ledger)@,
                final(ledger)@,
            ),
            !old(self)@.as_recorded() ==> r == Err::<(), ErrorKind>(ErrorKind::PreconditionFailed),
            r is Err ==> final(ledger)@ == old(ledger)@,
    {
        let calls = match self.plan(signer) {
            Ok(calls) => calls,
            Err(e) => return Err(e),
        };
        ledger.execute_all(&calls)
    }

    /// Returns what the vault held to the maker and closes the vault, all or
    /// nothing. The escrow program signs with the seeds of these accounts:
    /// the word "escrow", the maker, and the record's seed and bump. The
    /// signature stands for the identity that these derive, and the rest is
    /// [`Refund::withdraw_and_close_signed`] for that identity.
    pub fn withdraw_and_close(&mut self, ledger: &mut Ledger) -> (r: Result<(), ErrorKind>)
        requires
            old(ledger).wf(),
        ensures
            final(ledger).wf(),
            *final(self) == *old(self),
            follows(old(self)@.withdrawal(old(ledger)@), r, old(ledger)@, final(ledger)@),
            !old(self)@.as_recorded() ==> r == Err::<(), ErrorKind>(ErrorKind::PreconditionFailed),
            r is Err ==> final(ledger)@ == old(ledger)@,
    {
        let signer_seeds = make_escrow_signer_seeds(&self.maker, self.escrow.data.seed, self.escrow.data.bump);
        let signer = sign(&signer_seeds, &self.program);
        self.withdraw_and_close_signed(ledger, signer)
    }
}

} // verus!
