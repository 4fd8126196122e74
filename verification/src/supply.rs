use vstd::prelude::*;
use crate::escrow::model::World;
use crate::ledger::{HoldingView, LedgerCall, LedgerState};

verus! {

/// What one holding adds to the amount of `mint` that is held.
pub open spec fn share(holding: HoldingView, mint: Seq<u8>) -> nat {
    if holding.mint == mint {
        holding.amount as nat
    } else {
        0
    }
}

/// The amount of `mint` that all holdings hold together.
pub open spec fn held(holdings: Map<Seq<u8>, HoldingView>, mint: Seq<u8>) -> nat
    decreases holdings.dom().len(),
    when holdings.dom().finite()
{
    if holdings.dom().len() == 0 {
        0
    } else {
        let first = holdings.dom().choose();
        share(holdings[first], mint) + held(holdings.remove(first), mint)
    }
}

/// The amount of `mint` that a call issues.
pub open spec fn issued(call: LedgerCall, mint: Seq<u8>) -> nat {
    match call {
        LedgerCall::MintTo { mint: of, amount, .. } => if of == mint {
            amount as nat
        } else {
            0
        },
        _ => 0,
    }
}

/// A ledger on which every holding is of a known mint, and of every mint as
/// much is held as has been issued.
pub open spec fn balanced(ledger: LedgerState) -> bool {
    &&& ledger.holdings.dom().finite()
    &&& forall|address: Seq<u8>| #[trigger]
        ledger.holdings.contains_key(address) ==> ledger.mints.contains_key(ledger.holdings[address].mint)
    &&& forall|mint: Seq<u8>| #[trigger]
        ledger.mints.contains_key(mint) ==> held(ledger.holdings, mint) == ledger.mints[mint].supply
}

/// The amount held is the share of any one holding and the amount held by the rest.
pub proof fn lemma_held_split(holdings: Map<Seq<u8>, HoldingView>, mint: Seq<u8>, address: Seq<u8>)
    requires
        holdings.dom().finite(),
        holdings.contains_key(address),
    ensures
        held(holdings, mint) == share(holdings[address], mint) + held(holdings.remove(address), mint),
    decreases holdings.dom().len(),
{
    let first = holdings.dom().choose();
    if first != address {
        let without_first = holdings.remove(first);
        let without_address = holdings.remove(address);
        lemma_held_split(without_first, mint, address);
        lemma_held_split(without_address, mint, first);
        assert(without_first.remove(address) =~= without_address.remove(first));
    }
}

/// Where no holding is of `mint`, nothing of it is held.
pub proof fn lemma_held_none(holdings: Map<Seq<u8>, HoldingView>, mint: Seq<u8>)
    requires
        holdings.dom().finite(),
        forall|address: Seq<u8>| #[trigger] holdings.contains_key(address) ==> holdings[address].mint != mint,
    ensures
        held(holdings, mint) == 0,
    decreases holdings.dom().len(),
{
    if holdings.dom().len() != 0 {
        let first = holdings.dom().choose();
        assert(holdings.contains_key(first));
        lemma_held_none(holdings.remove(first), mint);
    }
}

/// Putting a holding at an address changes the amount held by the
/// difference between its share and the share of what was there.
pub proof fn lemma_held_insert(
    holdings: Map<Seq<u8>, HoldingView>,
    mint: Seq<u8>,
    address: Seq<u8>,
    holding: HoldingView,
)
    requires
        holdings.dom().finite(),
    ensures
        held(holdings.insert(address, holding), mint) + (if holdings.contains_key(address) {
            share(holdings[address], mint)
        } else {
            0
        }) == held(holdings, mint) + share(holding, mint),
{
    let after = holdings.insert(address, holding);
    lemma_held_split(after, mint, address);
    if holdings.contains_key(address) {
        lemma_held_split(holdings, mint, address);
        assert(after.remove(address) =~= holdings.remove(address));
    } else {
        assert(after.remove(address) =~= holdings);
    }
}

/// Every accepted call leaves of every mint as much held as before and as
/// the call issues: no call but an issue creates an asset, and none destroys one.
pub proof fn law_calls_conserve(ledger: LedgerState, call: LedgerCall, mint: Seq<u8>)
    requires
        ledger.holdings.dom().finite(),
        ledger.outcome(call) is Ok,
    ensures
        ledger.outcome(call)->Ok_0.holdings.dom().finite(),
        held(ledger.outcome(call)->Ok_0.holdings, mint) == held(ledger.holdings, mint) + issued(call, mint),
{
    let after = ledger.outcome(call)->Ok_0;
    match call {
        LedgerCall::CreateMint { .. } => {},
        LedgerCall::CreateAccount { address, mint: of, authority } => {
            lemma_held_insert(ledger.holdings, mint, address, HoldingView { mint: of, authority, amount: 0 });
        },
        LedgerCall::OpenAccount { address, mint: of, authority } => {
            if !ledger.holdings.contains_key(address) {
                lemma_held_insert(ledger.holdings, mint, address, HoldingView { mint: of, authority, amount: 0 });
            }
        },
        LedgerCall::MintTo { mint: of, to, amount, authority } => {
            lemma_held_insert(
                ledger.holdings,
                mint,
                to,
                HoldingView { amount: (ledger.holdings[to].amount + amount) as u64, ..ledger.holdings[to] },
            );
        },
        LedgerCall::TransferChecked { from, to, mint: of, amount, decimals, authority } => {
            if from != to {
                let debited = ledger.holdings.insert(
                    from,
                    HoldingView { amount: (ledger.holdings[from].amount - amount) as u64, ..ledger.holdings[from] },
                );
                lemma_held_insert(
                    ledger.holdings,
                    mint,
                    from,
                    HoldingView { amount: (ledger.holdings[from].amount - amount) as u64, ..ledger.holdings[from] },
                );
                lemma_held_insert(
                    debited,
                    mint,
                    to,
                    HoldingView { amount: (ledger.holdings[to].amount + amount) as u64, ..ledger.holdings[to] },
                );
            }
        },
        LedgerCall::CloseAccount { account, destination, authority } => {
            lemma_held_split(ledger.holdings, mint, account);
        },
        LedgerCall::Release { .. } => {},
    }
}

/// Every call keeps a balanced ledger balanced.
pub proof fn law_calls_keep_balance(ledger: LedgerState, call: LedgerCall)
    requires
        balanced(ledger),
    ensures
        balanced(ledger.after(call)),
{
    if ledger.outcome(call) is Ok {
        let after = ledger.outcome(call)->Ok_0;
        assert forall|mint: Seq<u8>| #[trigger] after.mints.contains_key(mint) implies held(after.holdings, mint)
            == after.mints[mint].supply by {
            law_calls_conserve(ledger, call, mint);
            if !ledger.mints.contains_key(mint) {
                lemma_held_none(ledger.holdings, mint);
            }
        }
        law_calls_conserve(ledger, call, Seq::empty());
    }
}

/// Every list of calls keeps a balanced ledger balanced, and so does every
/// list that is made all or nothing.
pub proof fn law_balance_is_kept(ledger: LedgerState, calls: Seq<LedgerCall>)
    requires
        balanced(ledger),
    ensures
        balanced(ledger.after_all(calls)),
        ledger.outcome_all(calls) matches Ok(after) ==> balanced(after),
    decreases calls.len(),
{
    if calls.len() > 0 {
        law_calls_keep_balance(ledger, calls[0]);
        law_balance_is_kept(ledger.after(calls[0]), calls.drop_first());
    }
}

/// On a balanced ledger no transfer is rejected for want of room: what two
/// holdings of one mint hold together fits in 64 bits, as the supply does.
pub proof fn law_transfers_fit(ledger: LedgerState, from: Seq<u8>, to: Seq<u8>)
    requires
        balanced(ledger),
        ledger.holdings.contains_key(from),
        ledger.holdings.contains_key(to),
        from != to,
        ledger.holdings[from].mint == ledger.holdings[to].mint,
    ensures
        ledger.holdings[from].amount + ledger.holdings[to].amount <= u64::MAX,
{
    let mint = ledger.holdings[from].mint;
    lemma_held_split(ledger.holdings, mint, from);
    lemma_held_split(ledger.holdings.remove(from), mint, to);
    assert(ledger.mints.contains_key(mint));
}

/// A ledger without mints and holdings is balanced.
pub proof fn law_empty_ledger_is_balanced(ledger: LedgerState)
    requires
        ledger.mints == Map::<Seq<u8>, crate::ledger::MintView>::empty(),
        ledger.holdings == Map::<Seq<u8>, HoldingView>::empty(),
    ensures
        balanced(ledger),
{
}

/// A list of calls that issues nothing of `mint` and is accepted as a whole
/// leaves as much of `mint` held as before.
pub proof fn lemma_calls_without_issue_conserve(ledger: LedgerState, calls: Seq<LedgerCall>, mint: Seq<u8>)
    requires
        ledger.holdings.dom().finite(),
        ledger.outcome_all(calls) is Ok,
        forall|i: int| 0 <= i < calls.len() ==> issued(#[trigger] calls[i], mint) == 0,
    ensures
        ledger.outcome_all(calls)->Ok_0.holdings.dom().finite(),
        held(ledger.outcome_all(calls)->Ok_0.holdings, mint) == held(ledger.holdings, mint),
    decreases calls.len(),
{
    if calls.len() > 0 {
        let next = ledger.outcome(calls[0])->Ok_0;
        let later = calls.drop_first();
        law_calls_conserve(ledger, calls[0], mint);
        assert forall|i: int| 0 <= i < later.len() implies issued(#[trigger] later[i], mint) == 0 by {
            assert(later[i] == calls[i + 1]);
        }
        lemma_calls_without_issue_conserve(next, later, mint);
    }
}

/// Make creates and destroys nothing: where it succeeds, as much of every
/// mint is held afterwards as before.
pub proof fn law_make_conserves(
    w: World,
    maker: Seq<u8>,
    seed: u64,
    mint_a: Seq<u8>,
    mint_b: Seq<u8>,
    deposit: u64,
    receive: u64,
    escrow: Seq<u8>,
    bump: u8,
    source: Seq<u8>,
    vault: Seq<u8>,
    mint: Seq<u8>,
)
    requires
        w.ledger.holdings.dom().finite(),
        w.make_at(maker, seed, mint_a, mint_b, deposit, receive, escrow, bump, source, vault) is Ok,
    ensures
        ({
            let after = w.make_at(maker, seed, mint_a, mint_b, deposit, receive, escrow, bump, source, vault)->Ok_0;
            &&& held(after.ledger.holdings, mint) == held(w.ledger.holdings, mint)
            &&& after.ledger.mints == w.ledger.mints
            &&& balanced(w.ledger) ==> balanced(after.ledger)
        }),
{
    let calls = World::make_calls(maker, mint_a, deposit, w.ledger.mints[mint_a].decimals, escrow, source, vault);
    lemma_calls_without_issue_conserve(w.ledger, calls, mint);
    lemma_calls_keep_mints(w.ledger, calls);
    if balanced(w.ledger) {
        law_balance_is_kept(w.ledger, calls);
    }
}

/// Take creates and destroys nothing: where it succeeds, as much of every
/// mint is held afterwards as before.
pub proof fn law_take_conserves(
    w: World,
    taker: Seq<u8>,
    escrow: Seq<u8>,
    signer: Option<Seq<u8>>,
    vault: Seq<u8>,
    taker_a: Seq<u8>,
    taker_b: Seq<u8>,
    maker_b: Seq<u8>,
    mint: Seq<u8>,
)
    requires
        w.ledger.holdings.dom().finite(),
        w.take_at(taker, escrow, signer, vault, taker_a, taker_b, maker_b) is Ok,
    ensures
        ({
            let after = w.take_at(taker, escrow, signer, vault, taker_a, taker_b, maker_b)->Ok_0;
            &&& held(after.ledger.holdings, mint) == held(w.ledger.holdings, mint)
            &&& after.ledger.mints == w.ledger.mints
            &&& balanced(w.ledger) ==> balanced(after.ledger)
        }),
{
    let record = w.escrows.records[escrow];
    let calls = World::take_calls(
        record,
        w.ledger.mints[record.mint_a].decimals,
        w.ledger.mints[record.mint_b].decimals,
        w.ledger.holdings[vault].amount,
        escrow,
        taker,
        vault,
        taker_a,
        taker_b,
        maker_b,
    );
    lemma_calls_without_issue_conserve(w.ledger, calls, mint);
    lemma_calls_keep_mints(w.ledger, calls);
    if balanced(w.ledger) {
        law_balance_is_kept(w.ledger, calls);
    }
}

/// Refund creates and destroys nothing: where it succeeds, as much of every
/// mint is held afterwards as before.
pub proof fn law_refund_conserves(
    w: World,
    maker: Seq<u8>,
    escrow: Seq<u8>,
    signer: Option<Seq<u8>>,
    maker_ata_a: Seq<u8>,
    vault: Seq<u8>,
    mint: Seq<u8>,
)
    requires
        w.ledger.holdings.dom().finite(),
        w.refund_at(maker, escrow, signer, maker_ata_a, vault) is Ok,
    ensures
        ({
            let after = w.refund_at(maker, escrow, signer, maker_ata_a, vault)->Ok_0;
            &&& held(after.ledger.holdings, mint) == held(w.ledger.holdings, mint)
            &&& after.ledger.mints == w.ledger.mints
            &&& balanced(w.ledger) ==> balanced(after.ledger)
        }),
{
    let accounts = w.refund_accounts_at(maker, escrow, maker_ata_a, vault)->Ok_0;
    let calls = accounts.calls();
    lemma_calls_without_issue_conserve(w.ledger, calls, mint);
    lemma_calls_keep_mints(w.ledger, calls);
    if balanced(w.ledger) {
        law_balance_is_kept(w.ledger, calls);
    }
}

/// A list of calls that neither creates a mint nor issues, and is accepted
/// as a whole, leaves the mints as they were.
pub proof fn lemma_calls_keep_mints(ledger: LedgerState, calls: Seq<LedgerCall>)
    requires
        ledger.outcome_all(calls) is Ok,
        forall|i: int| 0 <= i < calls.len() ==> !((#[trigger] calls[i]) is MintTo) && !(calls[i] is CreateMint),
    ensures
        ledger.outcome_all(calls)->Ok_0.mints == ledger.mints,
    decreases calls.len(),
{
    if calls.len() > 0 {
        let next = ledger.outcome(calls[0])->Ok_0;
        let later = calls.drop_first();
        assert(!(calls[0] is MintTo) && !(calls[0] is CreateMint));
        assert forall|i: int| 0 <= i < later.len() implies !((#[trigger] later[i]) is MintTo) && !(later[i]
            is CreateMint) by {
            assert(later[i] == calls[i + 1]);
        }
        lemma_calls_keep_mints(next, later);
    }
}

} // verus!
