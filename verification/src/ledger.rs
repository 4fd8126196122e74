use vstd::prelude::*;
use crate::address::Address;
use crate::derivation::{address_view, associated_seeds, derive_address, derived, make_associated_seeds};
use crate::error::{follows, ErrorKind};
use crate::supply::{balanced, law_calls_keep_balance, law_empty_ledger_is_balanced};
use crate::table::Table;

verus! {

/// An asset type: how many decimals its amounts carry, who may issue it, and
/// how much of it has been issued.
#[derive(Clone, Copy, Debug, PartialEq, Eq)]
pub struct Mint {
    pub decimals: u8,
    pub authority: Address,
    pub supply: u64,
}

/// A [`Mint`] as contracts see it.
pub struct MintView {
    pub decimals: u8,
    pub authority: Seq<u8>,
    pub supply: u64,
}

impl View for Mint {
    type V = MintView;

    open spec fn view(&self) -> MintView {
        MintView { decimals: self.decimals, authority: self.authority@, supply: self.supply }
    }
}

/// An account that holds an amount of one asset and answers to one authority.
#[derive(Clone, Copy, Debug, PartialEq, Eq)]
pub struct Holding {
    pub mint: Address,
    pub authority: Address,
    pub amount: u64,
}

/// A [`Holding`] as contracts see it.
pub struct HoldingView {
    pub mint: Seq<u8>,
    pub authority: Seq<u8>,
    pub amount: u64,
}

impl View for Holding {
    type V = HoldingView;

    open spec fn view(&self) -> HoldingView {
        HoldingView { mint: self.mint@, authority: self.authority@, amount: self.amount }
    }
}

/// A closure: the storage deposit of `account` is owed to `destination`.
#[derive(Clone, Copy, Debug, PartialEq, Eq)]
pub struct Release {
    pub account: Address,
    pub destination: Address,
}

/// A [`Release`] as contracts see it.
pub struct ReleaseView {
    pub account: Seq<u8>,
    pub destination: Seq<u8>,
}

impl View for Release {
    type V = ReleaseView;

    open spec fn view(&self) -> ReleaseView {
        ReleaseView { account: self.account@, destination: self.destination@ }
    }
}

/// Something stored on the ledger, with the address at which it is stored.
#[derive(Clone, Copy, Debug, PartialEq, Eq)]
pub struct Account<T> {
    pub address: Address,
    pub data: T,
}

/// An [`Account`] as contracts see it.
pub struct AccountView<T> {
    pub address: Seq<u8>,
    pub data: T,
}

impl<T: View> View for Account<T> {
    type V = AccountView<T::V>;

    open spec fn view(&self) -> AccountView<T::V> {
        AccountView { address: self.address@, data: self.data@ }
    }
}

/// The token ledger as contracts see it.
#[verifier::ext_equal]
pub struct LedgerState {
    /// The program that owns mints and holdings.
    pub token_program: Seq<u8>,
    /// The program under which associated holdings are derived.
    pub associated_program: Seq<u8>,
    /// The mints, by address.
    pub mints: Map<Seq<u8>, MintView>,
    /// The holdings, by address.
    pub holdings: Map<Seq<u8>, HoldingView>,
    /// The closures so far, oldest first.
    pub released: Seq<ReleaseView>,
}

impl LedgerState {
    /// Whether a mint or a holding lives at `address`.
    pub open spec fn in_use(self, address: Seq<u8>) -> bool {
        self.mints.contains_key(address) || self.holdings.contains_key(address)
    }

    /// The address of the holding associated with `wallet` and `mint`.
    pub open spec fn associated(self, wallet: Seq<u8>, mint: Seq<u8>) -> Option<Seq<u8>> {
        match derived(associated_seeds(wallet, self.token_program, mint), self.associated_program) {
            Some((a, _)) => Some(a),
            None => None,
        }
    }

    /// The amount held at `address`; zero where no holding lives.
    pub open spec fn balance(self, address: Seq<u8>) -> int {
        if self.holdings.contains_key(address) {
            self.holdings[address].amount as int
        } else {
            0
        }
    }

    /// A new mint at a free address, with nothing issued yet.
    pub open spec fn create_mint(self, address: Seq<u8>, decimals: u8, authority: Seq<u8>) -> Result<LedgerState, ErrorKind> {
        if self.in_use(address) {
            Err(ErrorKind::Collision)
        } else {
            Ok(LedgerState {
                mints: self.mints.insert(address, MintView { decimals, authority, supply: 0 }),
                ..self
            })
        }
    }

    /// A new, empty holding of a known mint at a free address.
    pub open spec fn create_account(self, address: Seq<u8>, mint: Seq<u8>, authority: Seq<u8>) -> Result<LedgerState, ErrorKind> {
        if self.in_use(address) {
            Err(ErrorKind::Collision)
        } else if !self.mints.contains_key(mint) {
            Err(ErrorKind::PreconditionFailed)
        } else {
            Ok(LedgerState {
                holdings: self.holdings.insert(address, HoldingView { mint, authority, amount: 0 }),
                ..self
            })
        }
    }

    /// The holding at `address` for `mint` and `authority`: created empty
    /// where nothing lives there, accepted as it is where it is of that
    /// mint and answers to that authority, and rejected otherwise: as a
    /// wrong mint first, as a wrong authority second.
    pub open spec fn open_account(self, address: Seq<u8>, mint: Seq<u8>, authority: Seq<u8>) -> Result<LedgerState, ErrorKind> {
        if self.holdings.contains_key(address) {
            if self.holdings[address].mint != mint {
                Err(ErrorKind::PreconditionFailed)
            } else if self.holdings[address].authority != authority {
                Err(ErrorKind::InvariantViolation)
            } else {
                Ok(self)
            }
        } else {
            self.create_account(address, mint, authority)
        }
    }

    /// Issues `amount` of `mint` into the holding `to`, by the mint's authority.
    pub open spec fn mint_to(self, mint: Seq<u8>, to: Seq<u8>, amount: u64, authority: Seq<u8>) -> Result<LedgerState, ErrorKind> {
        if !self.mints.contains_key(mint) {
            Err(ErrorKind::PreconditionFailed)
        } else if self.mints[mint].authority != authority {
            Err(ErrorKind::InvariantViolation)
        } else if !self.holdings.contains_key(to) || self.holdings[to].mint != mint {
            Err(ErrorKind::PreconditionFailed)
        } else if self.mints[mint].supply + amount > u64::MAX || self.holdings[to].amount + amount > u64::MAX {
            Err(ErrorKind::PreconditionFailed)
        } else {
            Ok(LedgerState {
                mints: self.mints.insert(
                    mint,
                    MintView { supply: (self.mints[mint].supply + amount) as u64, ..self.mints[mint] },
                ),
                holdings: self.holdings.insert(
                    to,
                    HoldingView { amount: (self.holdings[to].amount + amount) as u64, ..self.holdings[to] },
                ),
                ..self
            })
        }
    }

    /// Moves `amount` of `mint` from the holding `from` to the holding `to`,
    /// by the authority of `from`. Both holdings must be of `mint`, and
    /// `decimals` must be the mint's.
    pub open spec fn transfer_checked(
        self,
        from: Seq<u8>,
        to: Seq<u8>,
        mint: Seq<u8>,
        amount: u64,
        decimals: u8,
        authority: Seq<u8>,
    ) -> Result<LedgerState, ErrorKind> {
        if !self.holdings.contains_key(from) {
            Err(ErrorKind::PreconditionFailed)
        } else if self.holdings[from].authority != authority {
            Err(ErrorKind::InvariantViolation)
        } else if !self.holdings.contains_key(to) || !self.mints.contains_key(mint) {
            Err(ErrorKind::PreconditionFailed)
        } else if self.holdings[from].mint != mint || self.holdings[to].mint != mint
            || self.mints[mint].decimals != decimals {
            Err(ErrorKind::PreconditionFailed)
        } else if self.holdings[from].amount < amount {
            Err(ErrorKind::PreconditionFailed)
        } else if from == to {
            Ok(self)
        } else if self.holdings[to].amount + amount > u64::MAX {
            Err(ErrorKind::PreconditionFailed)
        } else {
            Ok(LedgerState {
                holdings: self.holdings.insert(
                    from,
                    HoldingView { amount: (self.holdings[from].amount - amount) as u64, ..self.holdings[from] },
                ).insert(
                    to,
                    HoldingView { amount: (self.holdings[to].amount + amount) as u64, ..self.holdings[to] },
                ),
                ..self
            })
        }
    }

    /// Closes the empty holding `account`, by its authority; its storage
    /// deposit is owed to `destination`.
    pub open spec fn close_account(self, account: Seq<u8>, destination: Seq<u8>, authority: Seq<u8>) -> Result<LedgerState, ErrorKind> {
        if !self.holdings.contains_key(account) {
            Err(ErrorKind::NotFound)
        } else if self.holdings[account].authority != authority {
            Err(ErrorKind::InvariantViolation)
        } else if self.holdings[account].amount != 0 {
            Err(ErrorKind::PreconditionFailed)
        } else {
            Ok(LedgerState {
                holdings: self.holdings.remove(account),
                released: self.released.push(ReleaseView { account, destination }),
                ..self
            })
        }
    }

    /// Notes that the storage deposit of `account`, closed by the program
    /// that owned it, is owed to `destination`.
    pub open spec fn release(self, account: Seq<u8>, destination: Seq<u8>) -> LedgerState {
        LedgerState { released: self.released.push(ReleaseView { account, destination }), ..self }
    }
}

/// A call on the ledger, as contracts see it.
pub enum LedgerCall {
    CreateMint { address: Seq<u8>, decimals: u8, authority: Seq<u8> },
    CreateAccount { address: Seq<u8>, mint: Seq<u8>, authority: Seq<u8> },
    OpenAccount { address: Seq<u8>, mint: Seq<u8>, authority: Seq<u8> },
    MintTo { mint: Seq<u8>, to: Seq<u8>, amount: u64, authority: Seq<u8> },
    TransferChecked { from: Seq<u8>, to: Seq<u8>, mint: Seq<u8>, amount: u64, decimals: u8, authority: Seq<u8> },
    CloseAccount { account: Seq<u8>, destination: Seq<u8>, authority: Seq<u8> },
    Release { account: Seq<u8>, destination: Seq<u8> },
}

impl LedgerCall {
    /// The identity that signs a call which moves or closes a holding.
    pub open spec fn signer(self) -> Option<Seq<u8>> {
        match self {
            LedgerCall::TransferChecked { authority, .. } => Some(authority),
            LedgerCall::CloseAccount { authority, .. } => Some(authority),
            _ => None,
        }
    }
}

impl LedgerState {
    /// What a call would do, or why it would be rejected.
    pub open spec fn outcome(self, call: LedgerCall) -> Result<LedgerState, ErrorKind> {
        match call {
            LedgerCall::CreateMint { address, decimals, authority } => self.create_mint(address, decimals, authority),
            LedgerCall::CreateAccount { address, mint, authority } => self.create_account(address, mint, authority),
            LedgerCall::OpenAccount { address, mint, authority } => self.open_account(address, mint, authority),
            LedgerCall::MintTo { mint, to, amount, authority } => self.mint_to(mint, to, amount, authority),
            LedgerCall::TransferChecked { from, to, mint, amount, decimals, authority } => self.transfer_checked(
                from,
                to,
                mint,
                amount,
                decimals,
                authority,
            ),
            LedgerCall::CloseAccount { account, destination, authority } => self.close_account(
                account,
                destination,
                authority,
            ),
            LedgerCall::Release { account, destination } => Ok(self.release(account, destination)),
        }
    }

    /// The state after a call: changed as the call says where it is
    /// accepted, unchanged where it is rejected.
    pub open spec fn after(self, call: LedgerCall) -> LedgerState {
        match self.outcome(call) {
            Ok(next) => next,
            Err(_) => self,
        }
    }

    /// The state after a list of calls, made in order.
    pub open spec fn after_all(self, calls: Seq<LedgerCall>) -> LedgerState
        decreases calls.len(),
    {
        if calls.len() == 0 {
            self
        } else {
            self.after(calls[0]).after_all(calls.drop_first())
        }
    }
}

impl LedgerState {
    /// What a list of calls would do, made in order, all or nothing: the
    /// state after the last call where every call is accepted, and the
    /// first rejection otherwise.
    pub open spec fn outcome_all(self, calls: Seq<LedgerCall>) -> Result<LedgerState, ErrorKind>
        decreases calls.len(),
    {
        if calls.len() == 0 {
            Ok(self)
        } else {
            match self.outcome(calls[0]) {
                Ok(next) => next.outcome_all(calls.drop_first()),
                Err(e) => Err(e),
            }
        }
    }
}

/// Where a list of calls is accepted as a whole, it leaves the state that
/// the calls leave when made one after the other.
pub proof fn lemma_outcome_all_after_all(ledger: LedgerState, calls: Seq<LedgerCall>)
    requires
        ledger.outcome_all(calls) is Ok,
    ensures
        ledger.outcome_all(calls)->Ok_0 == ledger.after_all(calls),
    decreases calls.len(),
{
    if calls.len() > 0 {
        lemma_outcome_all_after_all(ledger.outcome(calls[0])->Ok_0, calls.drop_first());
    }
}

/// A list of calls that starts with `first` does what `first` does and then
/// what the rest does, or is rejected as `first` is.
pub proof fn lemma_outcome_all_cons(ledger: LedgerState, first: LedgerCall, rest: Seq<LedgerCall>)
    ensures
        ledger.outcome_all(seq![first] + rest) == (match ledger.outcome(first) {
            Ok(next) => next.outcome_all(rest),
            Err(e) => Err(e),
        }),
{
    let calls = seq![first] + rest;
    assert(calls[0] == first);
    assert(calls.drop_first() =~= rest);
}

/// A list of two calls does what the first does and then what the second does.
pub proof fn lemma_outcome_all_pair(ledger: LedgerState, first: LedgerCall, second: LedgerCall)
    ensures
        ledger.outcome_all(seq![first, second]) == (match ledger.outcome(first) {
            Ok(next) => next.outcome(second),
            Err(e) => Err(e),
        }),
{
    assert(seq![first, second] =~= seq![first] + seq![second]);
    lemma_outcome_all_cons(ledger, first, seq![second]);
    if ledger.outcome(first) is Ok {
        let next = ledger.outcome(first)->Ok_0;
        assert(seq![second] =~= seq![second] + Seq::<LedgerCall>::empty());
        lemma_outcome_all_cons(next, second, Seq::<LedgerCall>::empty());
    }
}

/// A call on the ledger.
#[derive(Clone, Copy, Debug, PartialEq, Eq)]
pub enum Instruction {
    CreateMint { address: Address, decimals: u8, authority: Address },
    CreateAccount { address: Address, mint: Address, authority: Address },
    OpenAccount { address: Address, mint: Address, authority: Address },
    MintTo { mint: Address, to: Address, amount: u64, authority: Address },
    TransferChecked { from: Address, to: Address, mint: Address, amount: u64, decimals: u8, authority: Address },
    CloseAccount { account: Address, destination: Address, authority: Address },
    Release { account: Address, destination: Address },
}

impl View for Instruction {
    type V = LedgerCall;

    open spec fn view(&self) -> LedgerCall {
        match *self {
            Instruction::CreateMint { address, decimals, authority } => LedgerCall::CreateMint {
                address: address@,
                decimals,
                authority: authority@,
            },
            Instruction::CreateAccount { address, mint, authority } => LedgerCall::CreateAccount {
                address: address@,
                mint: mint@,
                authority: authority@,
            },
            Instruction::OpenAccount { address, mint, authority } => LedgerCall::OpenAccount {
                address: address@,
                mint: mint@,
                authority: authority@,
            },
            Instruction::MintTo { mint, to, amount, authority } => LedgerCall::MintTo {
                mint: mint@,
                to: to@,
                amount,
                authority: authority@,
            },
            Instruction::TransferChecked { from, to, mint, amount, decimals, authority } => LedgerCall::TransferChecked {
                from: from@,
                to: to@,
                mint: mint@,
                amount,
                decimals,
                authority: authority@,
            },
            Instruction::CloseAccount { account, destination, authority } => LedgerCall::CloseAccount {
                account: account@,
                destination: destination@,
                authority: authority@,
            },
            Instruction::Release { account, destination } => LedgerCall::Release {
                account: account@,
                destination: destination@,
            },
        }
    }
}

/// The calls that a list of instructions holds, as contracts see them.
pub open spec fn calls_view(instructions: Seq<Instruction>) -> Seq<LedgerCall> {
    instructions.map_values(|i: Instruction| i@)
}

/// The closures that a list holds, as contracts see them.
pub open spec fn releases_view(released: Seq<Release>) -> Seq<ReleaseView> {
    released.map_values(|r: Release| r@)
}

/// A token ledger: mints, holdings of them, and a journal of closures.
pub struct Ledger {
    token_program: Address,
    associated_program: Address,
    mints: Table<Mint>,
    holdings: Table<Holding>,
    released: Vec<Release>,
}

impl View for Ledger {
    type V = LedgerState;

    closed spec fn view(&self) -> LedgerState {
        LedgerState {
            token_program: self.token_program@,
            associated_program: self.associated_program@,
            mints: self.mints@,
            holdings: self.holdings@,
            released: releases_view(self.released@),
        }
    }
}

impl Ledger {
    /// The ledger's tables are well formed, every holding is of a known
    /// mint, and of every mint as much is held as has been issued.
    pub closed spec fn wf(&self) -> bool {
        self.mints.wf() && self.holdings.wf() && balanced(self@)
    }

    /// On a ledger, every holding is of a known mint, and of every mint as
    /// much is held as has been issued.
    pub proof fn lemma_balanced(&self)
        requires
            self.wf(),
        ensures
            balanced(self@),
    {
    }

    /// A ledger has finitely many mints and holdings.
    pub proof fn lemma_finite(&self)
        ensures
            self@.mints.dom().finite(),
            self@.holdings.dom().finite(),
    {
        self.mints.lemma_finite();
        self.holdings.lemma_finite();
    }

    /// An empty ledger of the given token program, which derives associated
    /// holdings under the given program.
    pub fn new(token_program: Address, associated_program: Address) -> (l: Ledger)
        ensures
            l.wf(),
            l@ == (LedgerState {
                token_program: token_program@,
                associated_program: associated_program@,
                mints: Map::empty(),
                holdings: Map::empty(),
                released: Seq::empty(),
            }),
    {
        let l = Ledger {
            token_program,
            associated_program,
            mints: Table::new(),
            holdings: Table::new(),
            released: Vec::new(),
        };
        assert(l@.released =~= Seq::empty());
        proof {
            law_empty_ledger_is_balanced(l@);
        }
        l
    }

    /// The mint at `address`, if one lives there.
    pub fn mint(&self, address: &Address) -> (r: Option<Mint>)
        requires
            self.wf(),
        ensures
            match r {
                Some(m) => self@.mints.contains_key(address@) && m@ == self@.mints[address@],
                None => !self@.mints.contains_key(address@),
            },
    {
        match self.mints.get(address) {
            Some(m) => Some(*m),
            None => None,
        }
    }

    /// The holding at `address`, if one lives there.
    pub fn holding(&self, address: &Address) -> (r: Option<Holding>)
        requires
            self.wf(),
        ensures
            match r {
                Some(h) => self@.holdings.contains_key(address@) && h@ == self@.holdings[address@],
                None => !self@.holdings.contains_key(address@),
            },
    {
        match self.holdings.get(address) {
            Some(h) => Some(*h),
            None => None,
        }
    }

    /// The amount held at `address`; zero where no holding lives.
    pub fn balance(&self, address: &Address) -> (r: u64)
        requires
            self.wf(),
        ensures
            r == self@.balance(address@),
    {
        match self.holdings.get(address) {
            Some(h) => h.amount,
            None => 0,
        }
    }

    /// The closures so far, oldest first.
    pub fn released(&self) -> (r: Vec<Release>)
        ensures
            releases_view(r@) == self@.released,
    {
        let mut out: Vec<Release> = Vec::new();
        let mut i: usize = 0;
        while i < self.released.len()
            invariant
                i <= self.released@.len(),
                out@ == self.released@.subrange(0, i as int),
            decreases self.released@.len() - i,
        {
            out.push(self.released[i]);
            assert(out@ =~= self.released@.subrange(0, i + 1));
            i += 1;
        }
        assert(out@ =~= self.released@);
        out
    }

    /// A second ledger in the same state.
    pub fn duplicate(&self) -> (l: Ledger)
        requires
            self.wf(),
        ensures
            l.wf(),
            l@ == self@,
    {
        let released = self.released();
        let l = Ledger {
            token_program: self.token_program,
            associated_program: self.associated_program,
            mints: self.mints.duplicate(),
            holdings: self.holdings.duplicate(),
            released,
        };
        assert(l@ =~= self@);
        l
    }

    /// The address of the holding associated with `wallet` and `mint`.
    /// `None` when no address can be derived for them.
    pub fn associated_address(&self, wallet: &Address, mint: &Address) -> (r: Option<Address>)
        ensures
            address_view(r) == self@.associated(wallet@, mint@),
    {
        let seeds = make_associated_seeds(wallet, &self.token_program, mint);
        match derive_address(&seeds, &self.associated_program) {
            Some((a, _)) => Some(a),
            None => None,
        }
    }

    /// Creates a mint at `address`. Fails with `Collision` where the address is in use.
    pub fn create_mint(&mut self, address: &Address, decimals: u8, authority: &Address) -> (r: Result<(), ErrorKind>)
        requires
            old(self).wf(),
        ensures
            final(self).wf(),
            follows(old(self)@.create_mint(address@, decimals, authority@), r, old(self)@, final(self)@),
    {
        if self.mints.contains(address) || self.holdings.contains(address) {
            return Err(ErrorKind::Collision);
        }
        self.mints.put(*address, Mint { decimals, authority: *authority, supply: 0 });
        assert(self@ =~= old(self)@.create_mint(address@, decimals, authority@)->Ok_0);
        proof {
            law_calls_keep_balance(old(self)@, LedgerCall::CreateMint { address: address@, decimals, authority: authority@ });
        }
        Ok(())
    }

    /// Creates an empty holding of `mint` at `address`, answering to
    /// `authority`. Fails with `Collision` where the address is in use, and
    /// with `PreconditionFailed` where the mint is unknown.
    pub fn create_account(&mut self, address: &Address, mint: &Address, authority: &Address) -> (r: Result<(), ErrorKind>)
        requires
            old(self).wf(),
        ensures
            final(self).wf(),
            follows(old(self)@.create_account(address@, mint@, authority@), r, old(self)@, final(self)@),
    {
        if self.mints.contains(address) || self.holdings.contains(address) {
            return Err(ErrorKind::Collision);
        }
        if !self.mints.contains(mint) {
            return Err(ErrorKind::PreconditionFailed);
        }
        self.holdings.put(*address, Holding { mint: *mint, authority: *authority, amount: 0 });
        assert(self@ =~= old(self)@.create_account(address@, mint@, authority@)->Ok_0);
        proof {
            law_calls_keep_balance(old(self)@, LedgerCall::CreateAccount { address: address@, mint: mint@, authority: authority@ });
        }
        Ok(())
    }

    /// Makes sure that a holding of `mint` answering to `authority` lives at
    /// `address`: creates it where nothing lives there, fails with
    /// `PreconditionFailed` where a holding of another mint lives there, and
    /// with `InvariantViolation` where one of that mint answers to another
    /// authority.
    pub fn open_account(&mut self, address: &Address, mint: &Address, authority: &Address) -> (r: Result<(), ErrorKind>)
        requires
            old(self).wf(),
        ensures
            final(self).wf(),
            follows(old(self)@.open_account(address@, mint@, authority@), r, old(self)@, final(self)@),
    {
        match self.holding(address) {
            Some(h) => {
                if !h.mint.same(mint) {
                    Err(ErrorKind::PreconditionFailed)
                } else if !h.authority.same(authority) {
                    Err(ErrorKind::InvariantViolation)
                } else {
                    Ok(())
                }
            },
            None => self.create_account(address, mint, authority),
        }
    }

    /// Issues `amount` of `mint` into the holding `to`. Fails with
    /// `InvariantViolation` where `authority` is not the mint's, and with
    /// `PreconditionFailed` where the mint or the holding is unknown, the
    /// holding is of another mint, or an amount would exceed 64 bits.
    pub fn mint_to(&mut self, mint: &Address, to: &Address, amount: u64, authority: &Address) -> (r: Result<(), ErrorKind>)
        requires
            old(self).wf(),
        ensures
            final(self).wf(),
            follows(old(self)@.mint_to(mint@, to@, amount, authority@), r, old(self)@, final(self)@),
    {
        let m = match self.mint(mint) {
            Some(m) => m,
            None => return Err(ErrorKind::PreconditionFailed),
        };
        if !m.authority.same(authority) {
            return Err(ErrorKind::InvariantViolation);
        }
        let target = match self.holding(to) {
            Some(h) => h,
            None => return Err(ErrorKind::PreconditionFailed),
        };
        if !target.mint.same(mint) {
            return Err(ErrorKind::PreconditionFailed);
        }
        if m.supply > u64::MAX - amount || target.amount > u64::MAX - amount {
            return Err(ErrorKind::PreconditionFailed);
        }
        self.mints.put(*mint, Mint { decimals: m.decimals, authority: m.authority, supply: m.supply + amount });
        self.holdings.put(*to, Holding { mint: target.mint, authority: target.authority, amount: target.amount + amount });
        assert(self@ =~= old(self)@.mint_to(mint@, to@, amount, authority@)->Ok_0);
        proof {
            law_calls_keep_balance(old(self)@, LedgerCall::MintTo { mint: mint@, to: to@, amount, authority: authority@ });
        }
        Ok(())
    }

    /// Moves `amount` of `mint` from `from` to `to`. Fails with
    /// `InvariantViolation` where `authority` is not the one that `from`
    /// answers to, and with `PreconditionFailed` where a holding or the mint
    /// is unknown, a holding is of another mint, `decimals` is not the
    /// mint's, `from` holds less than `amount`, or `to` would exceed 64 bits.
    pub fn transfer_checked(
        &mut self,
        from: &Address,
        to: &Address,
        mint: &Address,
        amount: u64,
        decimals: u8,
        authority: &Address,
    ) -> (r: Result<(), ErrorKind>)
        requires
            old(self).wf(),
        ensures
            final(self).wf(),
            follows(
                old(self)@.transfer_checked(from@, to@, mint@, amount, decimals, authority@),
                r,
                old(self)@,
                final(self)@,
            ),
    {
        let source = match self.holding(from) {
            Some(h) => h,
            None => return Err(ErrorKind::PreconditionFailed),
        };
        if !source.authority.same(authority) {
            return Err(ErrorKind::InvariantViolation);
        }
        let target = match self.holding(to) {
            Some(h) => h,
            None => return Err(ErrorKind::PreconditionFailed),
        };
        let m = match self.mint(mint) {
            Some(m) => m,
            None => return Err(ErrorKind::PreconditionFailed),
        };
        if !source.mint.same(mint) || !target.mint.same(mint) || m.decimals != decimals {
            return Err(ErrorKind::PreconditionFailed);
        }
        if source.amount < amount {
            return Err(ErrorKind::PreconditionFailed);
        }
        if from.same(to) {
            return Ok(());
        }
        if target.amount > u64::MAX - amount {
            return Err(ErrorKind::PreconditionFailed);
        }
        self.holdings.put(*from, Holding { mint: source.mint, authority: source.authority, amount: source.amount - amount });
        self.holdings.put(*to, Holding { mint: target.mint, authority: target.authority, amount: target.amount + amount });
        assert(self@ =~= old(self)@.transfer_checked(from@, to@, mint@, amount, decimals, authority@)->Ok_0);
        proof {
            law_calls_keep_balance(old(self)@, LedgerCall::TransferChecked {
                    from: from@,
                    to: to@,
                    mint: mint@,
                    amount,
                    decimals,
                    authority: authority@,
                });
        }
        Ok(())
    }

    /// Closes the holding `account`. Fails with `NotFound` where no holding
    /// lives there, with `InvariantViolation` where `authority` is not the
    /// one it answers to, and with `PreconditionFailed` where it is not empty.
    pub fn close_account(&mut self, account: &Address, destination: &Address, authority: &Address) -> (r: Result<(), ErrorKind>)
        requires
            old(self).wf(),
        ensures
            final(self).wf(),
            follows(old(self)@.close_account(account@, destination@, authority@), r, old(self)@, final(self)@),
    {
        let h = match self.holding(account) {
            Some(h) => h,
            None => return Err(ErrorKind::NotFound),
        };
        if !h.authority.same(authority) {
            return Err(ErrorKind::InvariantViolation);
        }
        if h.amount != 0 {
            return Err(ErrorKind::PreconditionFailed);
        }
        self.holdings.remove(account);
        self.released.push(Release { account: *account, destination: *destination });
        assert(self@ =~= old(self)@.close_account(account@, destination@, authority@)->Ok_0);
        proof {
            law_calls_keep_balance(old(self)@, LedgerCall::CloseAccount { account: account@, destination: destination@, authority: authority@ });
        }
        Ok(())
    }

    /// Notes that the storage deposit of `account`, closed by the program
    /// that owned it, is owed to `destination`.
    pub fn release(&mut self, account: &Address, destination: &Address)
        requires
            old(self).wf(),
        ensures
            final(self).wf(),
            final(self)@ == old(self)@.release(account@, destination@),
    {
        self.released.push(Release { account: *account, destination: *destination });
        assert(self@ =~= old(self)@.release(account@, destination@));
        proof {
            law_calls_keep_balance(old(self)@, LedgerCall::Release { account: account@, destination: destination@ });
        }
    }

    /// Makes the call that `instruction` describes. Fails as that call does.
    pub fn execute(&mut self, instruction: &Instruction) -> (r: Result<(), ErrorKind>)
        requires
            old(self).wf(),
        ensures
            final(self).wf(),
            follows(old(self)@.outcome(instruction@), r, old(self)@, final(self)@),
    {
        match instruction {
            Instruction::CreateMint { address, decimals, authority } => self.create_mint(
                address,
                *decimals,
                authority,
            ),
            Instruction::CreateAccount { address, mint, authority } => self.create_account(address, mint, authority),
            Instruction::OpenAccount { address, mint, authority } => self.open_account(address, mint, authority),
            Instruction::MintTo { mint, to, amount, authority } => self.mint_to(mint, to, *amount, authority),
            Instruction::TransferChecked { from, to, mint, amount, decimals, authority } => self.transfer_checked(
                from,
                to,
                mint,
                *amount,
                *decimals,
                authority,
            ),
            Instruction::CloseAccount { account, destination, authority } => self.close_account(
                account,
                destination,
                authority,
            ),
            Instruction::Release { account, destination } => {
                self.release(account, destination);
                Ok(())
            },
        }
    }

    /// Makes the calls that `instructions` describe, in order, all or
    /// nothing: where one of them is rejected, the ledger is left as it was
    /// before the first, and the rejection is returned.
    pub fn execute_all(&mut self, instructions: &Vec<Instruction>) -> (r: Result<(), ErrorKind>)
        requires
            old(self).wf(),
        ensures
            final(self).wf(),
            follows(old(self)@.outcome_all(calls_view(instructions@)), r, old(self)@, final(self)@),
    {
        let ghost start = self@;
        let ghost calls = calls_view(instructions@);
        let before = self.duplicate();
        let mut i: usize = 0;
        assert(calls.subrange(0, calls.len() as int) =~= calls);
        while i < instructions.len()
            invariant
                self.wf(),
                before.wf(),
                before@ == start,
                start == old(self)@,
                calls == calls_view(instructions@),
                i <= instructions@.len(),
                start.outcome_all(calls) == self@.outcome_all(calls.subrange(i as int, calls.len() as int)),
            decreases instructions@.len() - i,
        {
            let ghost current = self@;
            let ghost rest = calls.subrange(i as int, calls.len() as int);
            proof {
                assert(rest[0] == instructions@[i as int]@);
                assert(rest.drop_first() =~= calls.subrange(i + 1, calls.len() as int));
                assert(current.outcome_all(rest) == (match current.outcome(rest[0]) {
                    Ok(next) => next.outcome_all(rest.drop_first()),
                    Err(e) => Err(e),
                }));
            }
            match self.execute(&instructions[i]) {
                Err(e) => {
                    *self = before;
                    return Err(e);
                },
                Ok(()) => {},
            }
            i += 1;
        }
        assert(calls.subrange(i as int, calls.len() as int) =~= Seq::<LedgerCall>::empty());
        Ok(())
    }
}

} // verus!
