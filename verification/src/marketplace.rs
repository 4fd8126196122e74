use vstd::prelude::*;
use vstd::utf8::encode_utf8;
use crate::address::{zero_bytes, Address};
use crate::derivation::{
    derive_address, derived, make_marketplace_seeds, make_rewards_seeds, make_treasury_seeds,
    marketplace_seeds, rewards_seeds, treasury_seeds,
};
use crate::error::{follows, ErrorKind};
use crate::ledger::{
    calls_view, lemma_outcome_all_cons, Account, Instruction, Ledger, LedgerCall, LedgerState, Mint,
};
use crate::table::Table;

verus! {

/// Largest fee that a marketplace may charge, in basis points.
pub const MAX_FEE_BPS: u16 = 10000;

/// Largest length of a marketplace's name, in bytes.
pub const MAX_NAME_LEN: usize = 32;

/// Decimals of every reward mint.
pub const REWARDS_DECIMALS: u8 = 6;

/// The configuration of one marketplace: who set it up, its name, its fee in
/// basis points, where its fees are kept, which asset it rewards with, and
/// the bump of the record's derived address.
#[derive(Clone, Debug, PartialEq, Eq)]
pub struct Marketplace {
    pub admin: Address,
    pub name: String,
    pub fee: u16,
    pub treasury: Address,
    pub rewards_mint: Address,
    pub bump: u8,
}

/// A [`Marketplace`] as contracts see it.
pub struct MarketplaceView {
    pub admin: Seq<u8>,
    pub name: Seq<char>,
    pub fee: u16,
    pub treasury: Seq<u8>,
    pub rewards_mint: Seq<u8>,
    pub bump: u8,
}

impl View for Marketplace {
    type V = MarketplaceView;

    open spec fn view(&self) -> MarketplaceView {
        MarketplaceView {
            admin: self.admin@,
            name: self.name@,
            fee: self.fee,
            treasury: self.treasury@,
            rewards_mint: self.rewards_mint@,
            bump: self.bump,
        }
    }
}

impl Default for Marketplace {
    /// A record with nothing in it: no name, no fee, and zero identities.
    fn default() -> (m: Marketplace)
        ensures
            m.name@ == Seq::<char>::empty(),
            m.fee == 0,
            m.bump == 0,
            m.admin@ == zero_bytes(),
            m.treasury@ == zero_bytes(),
            m.rewards_mint@ == zero_bytes(),
    {
        Marketplace {
            admin: Address::default(),
            name: String::new(),
            fee: 0,
            treasury: Address::default(),
            rewards_mint: Address::default(),
            bump: 0,
        }
    }
}

/// The bumps of the addresses derived for a new marketplace.
#[derive(Clone, Copy, Debug, PartialEq, Eq)]
pub struct InitializeBumps {
    pub marketplace: u8,
    pub rewards_mint: u8,
    pub treasury: u8,
}

/// Whether a name is acceptable for a marketplace: its bytes fit the limit.
pub open spec fn name_ok(name: Seq<char>) -> bool {
    encode_utf8(name).len() <= MAX_NAME_LEN
}

/// Whether a fee is acceptable for a marketplace: at most 10000 basis points.
pub open spec fn fee_ok(fee: u16) -> bool {
    fee <= MAX_FEE_BPS
}

/// Whether a name and a fee are acceptable for a marketplace.
pub open spec fn terms_ok(name: Seq<char>, fee: u16) -> bool {
    name_ok(name) && fee_ok(fee)
}

/// Whether a marketplace may be set up under a name and with a fee, where
/// `taken` says whether a marketplace of that name exists: the name must be
/// acceptable, or the precondition has failed; then the name must be free,
/// or it collides, whatever the fee; then the fee must be acceptable.
pub open spec fn admission(taken: bool, name: Seq<char>, fee: u16) -> Result<(), ErrorKind> {
    if !name_ok(name) {
        Err(ErrorKind::PreconditionFailed)
    } else if taken {
        Err(ErrorKind::Collision)
    } else if !fee_ok(fee) {
        Err(ErrorKind::PreconditionFailed)
    } else {
        Ok(())
    }
}

/// Decides [`name_ok`].
pub fn check_name(name: &str) -> (ok: bool)
    ensures
        ok == name_ok(name@),
{
    name.as_bytes().len() <= MAX_NAME_LEN
}

/// Decides [`fee_ok`].
pub fn check_fee(fee: u16) -> (ok: bool)
    ensures
        ok == fee_ok(fee),
{
    fee <= MAX_FEE_BPS
}

/// Decides [`terms_ok`].
pub fn check_terms(name: &str, fee: u16) -> (ok: bool)
    ensures
        ok == terms_ok(name@, fee),
{
    check_name(name) && check_fee(fee)
}

/// The accounts that the setup of a marketplace works on.
#[derive(Clone, Debug, PartialEq, Eq)]
pub struct Initialize {
    /// Who sets the marketplace up.
    pub admin: Address,
    /// The place of the record, at the address derived from the name, and
    /// the record that lives there, if the name is in use.
    pub marketplace: Account<Option<Marketplace>>,
    /// The reward mint, whose authority is the record's address.
    pub rewards_mint: Account<Mint>,
    /// Where the marketplace keeps its fees.
    pub treasury: Address,
}

/// The call on the ledger that creates a marketplace's reward mint: at
/// `rewards`, with six decimals, and under the authority of the record's
/// address, not of whoever sets the marketplace up.
pub open spec fn reward_mint_call(marketplace: Seq<u8>, rewards: Seq<u8>) -> LedgerCall {
    LedgerCall::CreateMint { address: rewards, decimals: REWARDS_DECIMALS, authority: marketplace }
}

impl Initialize {
    /// The calls on the ledger that the setup consists of: the creation of
    /// the reward mint.
    pub fn calls(&self) -> (r: Vec<Instruction>)
        ensures
            calls_view(r@) == seq![reward_mint_call(self.marketplace.address@, self.rewards_mint.address@)],
    {
        let mut r: Vec<Instruction> = Vec::new();
        r.push(
            Instruction::CreateMint {
                address: self.rewards_mint.address,
                decimals: REWARDS_DECIMALS,
                authority: self.marketplace.address,
            },
        );
        assert(calls_view(r@) =~= seq![reward_mint_call(self.marketplace.address@, self.rewards_mint.address@)]);
        r
    }

    /// Writes the record of the marketplace in its place.
    ///
    /// Fails, and changes nothing, with `PreconditionFailed` where the
    /// name's bytes exceed the limit; with `Collision` where a record lives
    /// in the place already, whoever asks and whatever the fee; and with
    /// `PreconditionFailed` where the fee exceeds 10000 basis points.
    pub fn init(&mut self, name: String, fee: u16, bumps: &InitializeBumps) -> (r: Result<(), ErrorKind>)
        ensures
            final(self).admin == old(self).admin,
            final(self).marketplace.address == old(self).marketplace.address,
            final(self).rewards_mint == old(self).rewards_mint,
            final(self).treasury == old(self).treasury,
            r == admission(old(self).marketplace.data is Some, name@, fee),
            r is Ok ==> final(self).marketplace.data is Some && final(self).marketplace.data->Some_0@
                == (MarketplaceView {
                admin: old(self).admin@,
                name: name@,
                fee,
                treasury: old(self).treasury@,
                rewards_mint: old(self).rewards_mint.address@,
                bump: bumps.marketplace,
            }),
            r is Err ==> final(self).marketplace.data == old(self).marketplace.data,
    {
        if !check_name(name.as_str()) {
            return Err(ErrorKind::PreconditionFailed);
        }
        if self.marketplace.data.is_some() {
            return Err(ErrorKind::Collision);
        }
        if !check_fee(fee) {
            return Err(ErrorKind::PreconditionFailed);
        }
        self.marketplace.data = Some(
            Marketplace {
                admin: self.admin,
                name,
                fee,
                treasury: self.treasury,
                rewards_mint: self.rewards_mint.address,
                bump: bumps.marketplace,
            },
        );
        Ok(())
    }
}

/// The records of the marketplace program, as contracts see them.
#[verifier::ext_equal]
pub struct MarketState {
    /// The marketplace program's own identity, under which records are derived.
    pub program: Seq<u8>,
    /// The marketplaces, by the address derived from their name.
    pub records: Map<Seq<u8>, MarketplaceView>,
}

/// The marketplace program's records together with the token ledger.
#[verifier::ext_equal]
pub struct Bazaar {
    pub markets: MarketState,
    pub ledger: LedgerState,
}

/// The marketplaces that a program state and a ledger state make up.
pub open spec fn bazaar(markets: MarketState, ledger: LedgerState) -> Bazaar {
    Bazaar { markets, ledger }
}

impl Bazaar {
    /// The address at which the marketplace of the given name is stored.
    pub open spec fn address_of(self, name: Seq<char>) -> Option<Seq<u8>> {
        match derived(marketplace_seeds(encode_utf8(name)), self.markets.program) {
            Some((a, _)) => Some(a),
            None => None,
        }
    }

    /// Init, on given accounts: the name must be acceptable, no record may
    /// live at `marketplace`, and the fee must be acceptable, tested in this
    /// order; the reward mint is created at `rewards`, and the record is
    /// stored at `marketplace`.
    pub open spec fn init_marketplace_at(
        self,
        admin: Seq<u8>,
        name: Seq<char>,
        fee: u16,
        marketplace: Seq<u8>,
        bump: u8,
        rewards: Seq<u8>,
        treasury: Seq<u8>,
    ) -> Result<Bazaar, ErrorKind> {
        match admission(self.markets.records.contains_key(marketplace), name, fee) {
            Err(e) => Err(e),
            Ok(()) => match self.ledger.outcome(reward_mint_call(marketplace, rewards)) {
                Err(e) => Err(e),
                Ok(minted) => Ok(
                    Bazaar {
                        markets: MarketState {
                            records: self.markets.records.insert(
                                marketplace,
                                MarketplaceView { admin, name, fee, treasury, rewards_mint: rewards, bump },
                            ),
                            ..self.markets
                        },
                        ledger: minted,
                    },
                ),
            },
        }
    }

    /// Init: the name must be acceptable; the record lives at the address
    /// derived from the name, the reward mint and the treasury at the
    /// addresses derived from the record's; the rest is Init on these
    /// accounts. Gives the new state and the record's address.
    pub open spec fn init_marketplace(self, admin: Seq<u8>, name: Seq<char>, fee: u16) -> Result<
        (Bazaar, Seq<u8>),
        ErrorKind,
    > {
        if !name_ok(name) {
            Err(ErrorKind::PreconditionFailed)
        } else {
            match derived(marketplace_seeds(encode_utf8(name)), self.markets.program) {
                None => Err(ErrorKind::Collision),
                Some((marketplace, bump)) => match derived(rewards_seeds(marketplace), self.markets.program) {
                    None => Err(ErrorKind::Collision),
                    Some((rewards, _)) => match derived(treasury_seeds(marketplace), self.markets.program) {
                        None => Err(ErrorKind::Collision),
                        Some((treasury, _)) => match self.init_marketplace_at(
                            admin,
                            name,
                            fee,
                            marketplace,
                            bump,
                            rewards,
                            treasury,
                        ) {
                            Err(e) => Err(e),
                            Ok(after) => Ok((after, marketplace)),
                        },
                    },
                },
            }
        }
    }
}

/// The marketplace program: its identity and the records of the marketplaces.
pub struct MarketplaceProgram {
    program_id: Address,
    records: Table<Marketplace>,
}

impl View for MarketplaceProgram {
    type V = MarketState;

    closed spec fn view(&self) -> MarketState {
        MarketState { program: self.program_id@, records: self.records@ }
    }
}

impl MarketplaceProgram {
    /// The program's table of records is well formed.
    pub closed spec fn wf(&self) -> bool {
        self.records.wf()
    }

    /// The marketplace program of the given identity, with no marketplace yet.
    pub fn new(program_id: Address) -> (p: MarketplaceProgram)
        ensures
            p.wf(),
            p@ == (MarketState { program: program_id@, records: Map::empty() }),
    {
        let p = MarketplaceProgram { program_id, records: Table::new() };
        assert(p@ =~= (MarketState { program: program_id@, records: Map::empty() }));
        p
    }

    /// The program's own identity.
    pub fn program_id(&self) -> (a: Address)
        ensures
            a@ == self@.program,
    {
        self.program_id
    }

    /// The record at `marketplace`, if one is stored there.
    pub fn record(&self, marketplace: &Address) -> (r: Option<&Marketplace>)
        requires
            self.wf(),
        ensures
            match r {
                Some(record) => self@.records.contains_key(marketplace@) && record@
                    == self@.records[marketplace@],
                None => !self@.records.contains_key(marketplace@),
            },
    {
        self.records.get(marketplace)
    }

    /// Init, on given accounts: sets up the marketplace of the given name
    /// for `admin`, with its record at `marketplace`, its reward mint at
    /// `rewards` and its treasury at `treasury`. All or nothing.
    ///
    /// Fails with `PreconditionFailed` where the name's bytes exceed the
    /// limit; with `Collision` where a record lives at `marketplace`,
    /// whoever asks and whatever the fee; with `PreconditionFailed` where
    /// the fee exceeds 10000 basis points; and with `Collision` where the
    /// reward mint's address is in use.
    pub fn init_marketplace_at(
        &mut self,
        ledger: &mut Ledger,
        admin: &Address,
        name: String,
        fee: u16,
        marketplace: &Address,
        bumps: &InitializeBumps,
        rewards: &Address,
        treasury: &Address,
    ) -> (r: Result<(), ErrorKind>)
        requires
            old(self).wf(),
            old(ledger).wf(),
        ensures
            final(self).wf(),
            final(ledger).wf(),
            follows(
                bazaar(old(self)@, old(ledger)@).init_marketplace_at(
                    admin@,
                    name@,
                    fee,
                    marketplace@,
                    bumps.marketplace,
                    rewards@,
                    treasury@,
                ),
                r,
                bazaar(old(self)@, old(ledger)@),
                bazaar(final(self)@, final(ledger)@),
            ),
            name_ok(name@) && old(self)@.records.contains_key(marketplace@) ==> r == Err::<(), ErrorKind>(
                ErrorKind::Collision,
            ),
    {
        if !check_name(name.as_str()) {
            return Err(ErrorKind::PreconditionFailed);
        }
        if self.records.contains(marketplace) {
            return Err(ErrorKind::Collision);
        }
        let mut accounts = Initialize {
            admin: *admin,
            marketplace: Account { address: *marketplace, data: None },
            rewards_mint: Account {
                address: *rewards,
                data: Mint { decimals: REWARDS_DECIMALS, authority: *marketplace, supply: 0 },
            },
            treasury: *treasury,
        };
        match accounts.init(name, fee, bumps) {
            Err(e) => return Err(e),
            Ok(()) => {},
        }
        let calls = accounts.calls();
        proof {
            let call = reward_mint_call(marketplace@, rewards@);
            assert(seq![call] =~= seq![call] + Seq::<LedgerCall>::empty());
            lemma_outcome_all_cons(ledger@, call, Seq::<LedgerCall>::empty());
        }
        match ledger.execute_all(&calls) {
            Err(e) => return Err(e),
            Ok(()) => {},
        }
        match accounts.marketplace.data {
            Some(record) => self.records.put(*marketplace, record),
            None => {
                assert(false);
            },
        }
        proof {
            let expected = bazaar(old(self)@, old(ledger)@).init_marketplace_at(
                admin@,
                name@,
                fee,
                marketplace@,
                bumps.marketplace,
                rewards@,
                treasury@,
            );
            assert(bazaar(self@, ledger@) =~= expected->Ok_0);
        }
        Ok(())
    }

    /// Init: sets up the marketplace of the given name for `admin`, with its
    /// reward mint. The record's address is derived from the name, the
    /// reward mint's and the treasury's from the record's. Returns the
    /// record's address. All or nothing.
    ///
    /// Fails with `PreconditionFailed` where the name's bytes exceed the
    /// limit; with `Collision` where one of the addresses cannot be derived
    /// or a marketplace of that name exists, whoever asks and whatever the
    /// fee; and otherwise as [`MarketplaceProgram::init_marketplace_at`] does.
    pub fn init_marketplace(&mut self, ledger: &mut Ledger, admin: &Address, name: String, fee: u16) -> (r: Result<
        Address,
        ErrorKind,
    >)
        requires
            old(self).wf(),
            old(ledger).wf(),
        ensures
            final(self).wf(),
            final(ledger).wf(),
            match bazaar(old(self)@, old(ledger)@).init_marketplace(admin@, name@, fee) {
                Ok((after, marketplace)) => r matches Ok(a) && a@ == marketplace && bazaar(
                    final(self)@,
                    final(ledger)@,
                ) == after,
                Err(e) => r == Err::<Address, ErrorKind>(e) && final(self)@ == old(self)@ && final(ledger)@
                    == old(ledger)@,
            },
            name_ok(name@) && bazaar(old(self)@, old(ledger)@).address_of(name@) is Some && old(
                self,
            )@.records.contains_key(bazaar(old(self)@, old(ledger)@).address_of(name@)->Some_0) ==> r == Err::<
                Address,
                ErrorKind,
            >(ErrorKind::Collision),
            r matches Ok(a) ==> {
                &&& !old(self)@.records.contains_key(a@)
                &&& final(self)@.records.contains_key(a@)
                &&& final(self)@.records[a@].admin == admin@
                &&& final(self)@.records[a@].name == name@
                &&& final(self)@.records[a@].fee == fee
                &&& fee <= MAX_FEE_BPS
                &&& final(ledger)@.mints.contains_key(final(self)@.records[a@].rewards_mint)
                &&& final(ledger)@.mints[final(self)@.records[a@].rewards_mint].authority == a@
                &&& final(ledger)@.mints[final(self)@.records[a@].rewards_mint].decimals == REWARDS_DECIMALS
                &&& final(ledger)@.mints[final(self)@.records[a@].rewards_mint].supply == 0
            },
    {
        if !check_name(name.as_str()) {
            return Err(ErrorKind::PreconditionFailed);
        }
        let seeds = make_marketplace_seeds(name.as_str());
        let (marketplace, bump) = match derive_address(&seeds, &self.program_id) {
            Some(found) => found,
            None => return Err(ErrorKind::Collision),
        };
        let (rewards, rewards_bump) = match derive_address(&make_rewards_seeds(&marketplace), &self.program_id) {
            Some(found) => found,
            None => return Err(ErrorKind::Collision),
        };
        let (treasury, treasury_bump) = match derive_address(&make_treasury_seeds(&marketplace), &self.program_id) {
            Some(found) => found,
            None => return Err(ErrorKind::Collision),
        };
        let bumps = InitializeBumps { marketplace: bump, rewards_mint: rewards_bump, treasury: treasury_bump };
        match self.init_marketplace_at(ledger, admin, name, fee, &marketplace, &bumps, &rewards, &treasury) {
            Err(e) => Err(e),
            Ok(()) => Ok(marketplace),
        }
    }
}

} // verus!
