use vstd::prelude::*;
use vstd::bytes::lemma_auto_spec_u64_to_from_le_bytes;
use vstd::string::{is_ascii, is_ascii_spec_bytes, StringSliceAdditionalSpecFns};
use crate::derivation::{derived, escrow_seeds, escrow_signer_seeds, rewards_seeds, signer_of, treasury_seeds};
use crate::error::ErrorKind;
use crate::escrow::model::{lemma_make_calls_steps, lemma_take_calls_settle, World};
use crate::escrow::refund::{lemma_withdrawal_steps, RefundView};
use crate::escrow::state::EscrowView;
use crate::ledger::{lemma_outcome_all_after_all, LedgerCall, LedgerState, ReleaseView};
use crate::marketplace::{name_ok, terms_ok, Bazaar, REWARDS_DECIMALS};

verus! {

/// The words that open the seed lists are the ASCII bytes of "escrow",
/// "marketplace", "rewards" and "treasury".
pub proof fn law_tags_are_ascii_words()
    ensures
        "escrow".spec_bytes() == seq![101u8, 115u8, 99u8, 114u8, 111u8, 119u8],
        "marketplace".spec_bytes() == seq![
            109u8,
            97u8,
            114u8,
            107u8,
            101u8,
            116u8,
            112u8,
            108u8,
            97u8,
            99u8,
            101u8,
        ],
        "rewards".spec_bytes() == seq![114u8, 101u8, 119u8, 97u8, 114u8, 100u8, 115u8],
        "treasury".spec_bytes() == seq![116u8, 114u8, 101u8, 97u8, 115u8, 117u8, 114u8, 121u8],
{
    reveal_strlit("escrow");
    reveal_strlit("marketplace");
    reveal_strlit("rewards");
    reveal_strlit("treasury");
    assert(is_ascii("escrow"));
    assert(is_ascii("marketplace"));
    assert(is_ascii("rewards"));
    assert(is_ascii("treasury"));
    is_ascii_spec_bytes("escrow");
    is_ascii_spec_bytes("marketplace");
    is_ascii_spec_bytes("rewards");
    is_ascii_spec_bytes("treasury");
    assert("escrow".spec_bytes() =~= seq![101u8, 115u8, 99u8, 114u8, 111u8, 119u8]);
    assert("marketplace".spec_bytes() =~= seq![
        109u8,
        97u8,
        114u8,
        107u8,
        101u8,
        116u8,
        112u8,
        108u8,
        97u8,
        99u8,
        101u8,
    ]);
    assert("rewards".spec_bytes() =~= seq![114u8, 101u8, 119u8, 97u8, 114u8, 100u8, 115u8]);
    assert("treasury".spec_bytes() =~= seq![116u8, 114u8, 101u8, 97u8, 115u8, 117u8, 114u8, 121u8]);
}

/// Two lists of escrow seeds are the same only for the same maker and the
/// same seed: the seed list tells every deal of every maker apart.
pub proof fn law_escrow_seeds_tell_deals_apart(maker: Seq<u8>, seed: u64, other_maker: Seq<u8>, other_seed: u64)
    requires
        escrow_seeds(maker, seed) == escrow_seeds(other_maker, other_seed),
    ensures
        maker == other_maker,
        seed == other_seed,
{
    lemma_auto_spec_u64_to_from_le_bytes();
    let one = escrow_seeds(maker, seed);
    let other = escrow_seeds(other_maker, other_seed);
    assert(one[1] == other[1]);
    assert(one[2] == other[2]);
}

/// The identity derived for a maker and a seed is the one that the program
/// signs for when it presents the same maker and seed with the derived bump.
pub proof fn law_derived_identity_signs(maker: Seq<u8>, seed: u64, program: Seq<u8>)
    requires
        derived(escrow_seeds(maker, seed), program) is Some,
    ensures
        ({
            let (escrow, bump) = derived(escrow_seeds(maker, seed), program)->Some_0;
            signer_of(escrow_signer_seeds(maker, seed, bump), program) == Some(escrow)
        }),
{
}

/// Spells out, call by call, what Make does on the accounts that it derives.
proof fn make_call_by_call(w: World, maker: Seq<u8>, seed: u64, mint_a: Seq<u8>, deposit: u64)
    ensures
        ({
            let escrow = derived(escrow_seeds(maker, seed), w.escrows.program)->Some_0.0;
            let source = w.ledger.associated(maker, mint_a)->Some_0;
            let vault = w.ledger.associated(escrow, mint_a)->Some_0;
            let decimals = w.ledger.mints[mint_a].decimals;
            w.ledger.outcome_all(World::make_calls(maker, mint_a, deposit, decimals, escrow, source, vault)) == (
            match w.ledger.create_account(vault, mint_a, escrow) {
                Ok(opened) => opened.transfer_checked(source, vault, mint_a, deposit, decimals, maker),
                Err(e) => Err(e),
            })
        }),
{
    let escrow = derived(escrow_seeds(maker, seed), w.escrows.program)->Some_0.0;
    let source = w.ledger.associated(maker, mint_a)->Some_0;
    let vault = w.ledger.associated(escrow, mint_a)->Some_0;
    lemma_make_calls_steps(w.ledger, maker, mint_a, deposit, w.ledger.mints[mint_a].decimals, escrow, source, vault);
}

/// Spells out, call by call, what Take does on the accounts that it derives.
proof fn take_call_by_call(w: World, taker: Seq<u8>, escrow: Seq<u8>)
    ensures
        ({
            let record = w.escrows.records[escrow];
            let vault = w.ledger.associated(escrow, record.mint_a)->Some_0;
            let taker_a = w.ledger.associated(taker, record.mint_a)->Some_0;
            let taker_b = w.ledger.associated(taker, record.mint_b)->Some_0;
            let maker_b = w.ledger.associated(record.maker, record.mint_b)->Some_0;
            w.ledger.outcome_all(
                World::take_calls(
                    record,
                    w.ledger.mints[record.mint_a].decimals,
                    w.ledger.mints[record.mint_b].decimals,
                    w.ledger.holdings[vault].amount,
                    escrow,
                    taker,
                    vault,
                    taker_a,
                    taker_b,
                    maker_b,
                ),
            ) == World::settle(w.ledger, record, escrow, taker, vault, taker_a, taker_b, maker_b)
        }),
{
    let record = w.escrows.records[escrow];
    let vault = w.ledger.associated(escrow, record.mint_a)->Some_0;
    let taker_a = w.ledger.associated(taker, record.mint_a)->Some_0;
    let taker_b = w.ledger.associated(taker, record.mint_b)->Some_0;
    let maker_b = w.ledger.associated(record.maker, record.mint_b)->Some_0;
    lemma_take_calls_settle(w.ledger, record, escrow, taker, vault, taker_a, taker_b, maker_b);
}

/// Spells out, call by call, what Refund does on the accounts that it derives.
proof fn refund_call_by_call(w: World, caller: Seq<u8>, escrow: Seq<u8>)
    ensures
        ({
            let record = w.escrows.records[escrow];
            let maker_ata_a = w.ledger.associated(caller, record.mint_a)->Some_0;
            let vault = w.ledger.associated(escrow, record.mint_a)->Some_0;
            let accounts = w.refund_accounts_at(caller, escrow, maker_ata_a, vault)->Ok_0;
            w.ledger.outcome_all(accounts.calls()) == (match w.ledger.transfer_checked(
                accounts.vault.address,
                accounts.maker_ata_a.address,
                accounts.mint_a.address,
                accounts.vault.data.amount,
                accounts.mint_a.data.decimals,
                accounts.escrow.address,
            ) {
                Ok(moved) => moved.close_account(accounts.vault.address, accounts.maker, accounts.escrow.address),
                Err(e) => Err(e),
            })
        }),
{
    let record = w.escrows.records[escrow];
    let maker_ata_a = w.ledger.associated(caller, record.mint_a)->Some_0;
    let vault = w.ledger.associated(escrow, record.mint_a)->Some_0;
    let accounts = w.refund_accounts_at(caller, escrow, maker_ata_a, vault)->Ok_0;
    lemma_withdrawal_steps(accounts, w.ledger);
}

/// After a successful Make the record is stored at the address derived from
/// maker and seed, with the terms given; the vault is the holding of
/// `mint_a` associated with that address, holds exactly the deposit, and
/// answers to that address and to nobody else.
pub proof fn law_make_binds_vault(
    w: World,
    maker: Seq<u8>,
    seed: u64,
    mint_a: Seq<u8>,
    mint_b: Seq<u8>,
    deposit: u64,
    receive: u64,
)
    requires
        w.make(maker, seed, mint_a, mint_b, deposit, receive) is Ok,
    ensures
        ({
            let (after, escrow) = w.make(maker, seed, mint_a, mint_b, deposit, receive)->Ok_0;
            let bump = after.escrows.records[escrow].bump;
            let vault = after.ledger.associated(escrow, mint_a);
            &&& derived(escrow_seeds(maker, seed), w.escrows.program) == Some((escrow, bump))
            &&& signer_of(escrow_signer_seeds(maker, seed, bump), w.escrows.program) == Some(escrow)
            &&& !w.escrows.records.contains_key(escrow)
            &&& after.escrows.records.contains_key(escrow)
            &&& after.escrows.records[escrow] == (EscrowView {
                maker,
                mint_a,
                mint_b,
                receive_amount: receive,
                seed,
                bump,
            })
            &&& vault is Some
            &&& !w.ledger.holdings.contains_key(vault->Some_0)
            &&& after.ledger.holdings.contains_key(vault->Some_0)
            &&& after.ledger.holdings[vault->Some_0].mint == mint_a
            &&& after.ledger.holdings[vault->Some_0].authority == escrow
            &&& after.ledger.holdings[vault->Some_0].amount == deposit
        }),
{
    make_call_by_call(w, maker, seed, mint_a, deposit);
}

/// A transfer out of a holding, or its closure, that is signed by any other
/// identity than the holding's authority is rejected with `InvariantViolation`.
pub proof fn law_other_signer_rejected(
    ledger: LedgerState,
    from: Seq<u8>,
    to: Seq<u8>,
    mint: Seq<u8>,
    amount: u64,
    decimals: u8,
    signer: Seq<u8>,
)
    requires
        ledger.holdings.contains_key(from),
        signer != ledger.holdings[from].authority,
    ensures
        ledger.transfer_checked(from, to, mint, amount, decimals, signer) == Err::<LedgerState, ErrorKind>(
            ErrorKind::InvariantViolation,
        ),
        ledger.close_account(from, to, signer) == Err::<LedgerState, ErrorKind>(ErrorKind::InvariantViolation),
{
}

/// Authority exclusivity: once Make has succeeded, the vault's balance can
/// be moved only by a signer that is the identity derived from the record's
/// maker, seed and bump. Every other signer is rejected.
pub proof fn law_authority_exclusivity(
    w: World,
    maker: Seq<u8>,
    seed: u64,
    mint_a: Seq<u8>,
    mint_b: Seq<u8>,
    deposit: u64,
    receive: u64,
    signer: Seq<u8>,
    to: Seq<u8>,
    mint: Seq<u8>,
    amount: u64,
    decimals: u8,
)
    requires
        w.make(maker, seed, mint_a, mint_b, deposit, receive) is Ok,
    ensures
        ({
            let (after, escrow) = w.make(maker, seed, mint_a, mint_b, deposit, receive)->Ok_0;
            let bump = after.escrows.records[escrow].bump;
            let vault = after.ledger.associated(escrow, mint_a)->Some_0;
            Some(signer) != signer_of(escrow_signer_seeds(maker, seed, bump), w.escrows.program) ==> {
                &&& after.ledger.transfer_checked(vault, to, mint, amount, decimals, signer) == Err::<
                    LedgerState,
                    ErrorKind,
                >(ErrorKind::InvariantViolation)
                &&& after.ledger.close_account(vault, to, signer) == Err::<LedgerState, ErrorKind>(
                    ErrorKind::InvariantViolation,
                )
            }
        }),
{
    law_make_binds_vault(w, maker, seed, mint_a, mint_b, deposit, receive);
}

/// Take, on whatever accounts, fails with `NotFound` exactly when no record
/// lives at the address.
pub proof fn law_take_at_not_found(
    w: World,
    taker: Seq<u8>,
    escrow: Seq<u8>,
    signer: Option<Seq<u8>>,
    vault: Seq<u8>,
    taker_a: Seq<u8>,
    taker_b: Seq<u8>,
    maker_b: Seq<u8>,
)
    ensures
        w.take_at(taker, escrow, signer, vault, taker_a, taker_b, maker_b) == Err::<World, ErrorKind>(
            ErrorKind::NotFound,
        ) <==> !w.escrows.records.contains_key(escrow),
{
    lemma_take_calls_settle(w.ledger, w.escrows.records[escrow], escrow, taker, vault, taker_a, taker_b, maker_b);
}

/// Take fails with `NotFound` exactly when no record lives at the address.
pub proof fn law_take_not_found(w: World, taker: Seq<u8>, escrow: Seq<u8>)
    ensures
        w.take(taker, escrow) == Err::<World, ErrorKind>(ErrorKind::NotFound)
            <==> !w.escrows.records.contains_key(escrow),
{
    take_call_by_call(w, taker, escrow);
}

/// Refund, on whatever accounts, fails with `NotFound` exactly when no
/// record lives at the address.
pub proof fn law_refund_at_not_found(
    w: World,
    caller: Seq<u8>,
    escrow: Seq<u8>,
    signer: Option<Seq<u8>>,
    maker_ata_a: Seq<u8>,
    vault: Seq<u8>,
)
    ensures
        w.refund_at(caller, escrow, signer, maker_ata_a, vault) == Err::<World, ErrorKind>(ErrorKind::NotFound)
            <==> !w.escrows.records.contains_key(escrow),
{
    lemma_withdrawal_steps(w.refund_accounts_at(caller, escrow, maker_ata_a, vault)->Ok_0, w.ledger);
}

/// Refund fails with `NotFound` exactly when no record lives at the address.
pub proof fn law_refund_not_found(w: World, caller: Seq<u8>, escrow: Seq<u8>)
    ensures
        w.refund(caller, escrow) == Err::<World, ErrorKind>(ErrorKind::NotFound)
            <==> !w.escrows.records.contains_key(escrow),
{
    refund_call_by_call(w, caller, escrow);
}

/// Single settlement, after Take: once a Take has succeeded, the record is
/// gone, and with the records as Take left them every further Take or Refund
/// of the same address fails with `NotFound`, whoever asks and whatever has
/// happened on the ledger since.
pub proof fn law_single_settlement_after_take(
    w: World,
    taker: Seq<u8>,
    escrow: Seq<u8>,
    later: LedgerState,
    next: Seq<u8>,
)
    requires
        w.take(taker, escrow) is Ok,
    ensures
        ({
            let after = w.take(taker, escrow)->Ok_0;
            let again = World { escrows: after.escrows, ledger: later };
            let vault = w.ledger.associated(escrow, w.escrows.records[escrow].mint_a);
            &&& w.escrows.records.contains_key(escrow)
            &&& vault is Some
            &&& w.ledger.holdings.contains_key(vault->Some_0)
            &&& !after.ledger.holdings.contains_key(vault->Some_0)
            &&& !after.escrows.records.contains_key(escrow)
            &&& again.take(next, escrow) == Err::<World, ErrorKind>(ErrorKind::NotFound)
            &&& again.refund(next, escrow) == Err::<World, ErrorKind>(ErrorKind::NotFound)
        }),
{
    take_call_by_call(w, taker, escrow);
}

/// Single settlement, after Refund: once a Refund has succeeded, the record
/// is gone, and with the records as Refund left them every further Take or
/// Refund of the same address fails with `NotFound`, whoever asks and
/// whatever has happened on the ledger since.
pub proof fn law_single_settlement_after_refund(
    w: World,
    maker: Seq<u8>,
    escrow: Seq<u8>,
    later: LedgerState,
    next: Seq<u8>,
)
    requires
        w.refund(maker, escrow) is Ok,
    ensures
        ({
            let after = w.refund(maker, escrow)->Ok_0;
            let again = World { escrows: after.escrows, ledger: later };
            let vault = w.ledger.associated(escrow, w.escrows.records[escrow].mint_a);
            &&& w.escrows.records.contains_key(escrow)
            &&& w.escrows.records[escrow].maker == maker
            &&& vault is Some
            &&& w.ledger.holdings.contains_key(vault->Some_0)
            &&& !after.ledger.holdings.contains_key(vault->Some_0)
            &&& !after.escrows.records.contains_key(escrow)
            &&& again.take(next, escrow) == Err::<World, ErrorKind>(ErrorKind::NotFound)
            &&& again.refund(next, escrow) == Err::<World, ErrorKind>(ErrorKind::NotFound)
        }),
{
    refund_call_by_call(w, maker, escrow);
}

/// Take is paid for: it succeeds only if the taker's holding of `mint_b`
/// exists and holds at least what the record asks.
pub proof fn law_take_is_paid(w: World, taker: Seq<u8>, escrow: Seq<u8>)
    requires
        w.take(taker, escrow) is Ok,
    ensures
        ({
            let record = w.escrows.records[escrow];
            let taker_b = w.ledger.associated(taker, record.mint_b);
            &&& w.escrows.records.contains_key(escrow)
            &&& taker_b is Some
            &&& w.ledger.balance(taker_b->Some_0) >= record.receive_amount
        }),
{
    take_call_by_call(w, taker, escrow);
    let record = w.escrows.records[escrow];
    let taker_a = w.ledger.associated(taker, record.mint_a)->Some_0;
    let maker_b = w.ledger.associated(record.maker, record.mint_b)->Some_0;
    let l1 = w.ledger.open_account(taker_a, record.mint_a, taker)->Ok_0;
    let l2 = l1.open_account(maker_b, record.mint_b, record.maker)->Ok_0;
    assert(w.ledger.open_account(taker_a, record.mint_a, taker) is Ok);
    assert(l1.open_account(maker_b, record.mint_b, record.maker) is Ok);
}

/// Conservation: Make followed by Take, where the maker's and the taker's
/// holdings of the two assets and the vault are five different accounts.
/// The maker's holding of `mint_b` has grown by exactly the amount asked and
/// the taker's holding of `mint_a` by exactly the deposit; the maker has paid
/// the deposit and the taker the amount asked; the vault and the record are
/// gone; and nothing else has changed: no mint, so nothing was issued, and
/// no other holding.
pub proof fn law_conservation(
    w: World,
    maker: Seq<u8>,
    seed: u64,
    mint_a: Seq<u8>,
    mint_b: Seq<u8>,
    deposit: u64,
    receive: u64,
    taker: Seq<u8>,
)
    requires
        w.make(maker, seed, mint_a, mint_b, deposit, receive) is Ok,
        ({
            let (made, escrow) = w.make(maker, seed, mint_a, mint_b, deposit, receive)->Ok_0;
            made.take(taker, escrow) is Ok
        }),
        ({
            let (made, escrow) = w.make(maker, seed, mint_a, mint_b, deposit, receive)->Ok_0;
            let maker_a = w.ledger.associated(maker, mint_a)->Some_0;
            let maker_b = w.ledger.associated(maker, mint_b)->Some_0;
            let taker_a = w.ledger.associated(taker, mint_a)->Some_0;
            let taker_b = w.ledger.associated(taker, mint_b)->Some_0;
            let vault = w.ledger.associated(escrow, mint_a)->Some_0;
            &&& maker_a != maker_b
            &&& maker_a != taker_a
            &&& maker_a != taker_b
            &&& maker_a != vault
            &&& maker_b != taker_a
            &&& maker_b != taker_b
            &&& maker_b != vault
            &&& taker_a != taker_b
            &&& taker_a != vault
            &&& taker_b != vault
        }),
    ensures
        ({
            let (made, escrow) = w.make(maker, seed, mint_a, mint_b, deposit, receive)->Ok_0;
            let after = made.take(taker, escrow)->Ok_0;
            let maker_a = w.ledger.associated(maker, mint_a)->Some_0;
            let maker_b = w.ledger.associated(maker, mint_b)->Some_0;
            let taker_a = w.ledger.associated(taker, mint_a)->Some_0;
            let taker_b = w.ledger.associated(taker, mint_b)->Some_0;
            let vault = w.ledger.associated(escrow, mint_a)->Some_0;
            &&& after.ledger.balance(maker_b) == w.ledger.balance(maker_b) + receive
            &&& after.ledger.balance(taker_a) == w.ledger.balance(taker_a) + deposit
            &&& after.ledger.balance(maker_a) == w.ledger.balance(maker_a) - deposit
            &&& after.ledger.balance(taker_b) == w.ledger.balance(taker_b) - receive
            &&& !after.ledger.holdings.contains_key(vault)
            &&& !after.escrows.records.contains_key(escrow)
            &&& after.escrows == w.escrows
            &&& after.ledger.mints == w.ledger.mints
            &&& forall|other: Seq<u8>|
                other != maker_a && other != maker_b && other != taker_a && other != taker_b && other != vault ==> {
                    &&& #[trigger] after.ledger.holdings.contains_key(other) == w.ledger.holdings.contains_key(other)
                    &&& after.ledger.holdings[other] == w.ledger.holdings[other]
                }
        }),
{
    let (made, escrow) = w.make(maker, seed, mint_a, mint_b, deposit, receive)->Ok_0;
    make_call_by_call(w, maker, seed, mint_a, deposit);
    law_make_binds_vault(w, maker, seed, mint_a, mint_b, deposit, receive);
    take_call_by_call(made, taker, escrow);
    let after = made.take(taker, escrow)->Ok_0;
    let record = made.escrows.records[escrow];
    let maker_a = w.ledger.associated(maker, mint_a)->Some_0;
    let maker_b = w.ledger.associated(maker, mint_b)->Some_0;
    let taker_a = w.ledger.associated(taker, mint_a)->Some_0;
    let taker_b = w.ledger.associated(taker, mint_b)->Some_0;
    let vault = w.ledger.associated(escrow, mint_a)->Some_0;
    assert(made.ledger.associated(maker, mint_b) == w.ledger.associated(maker, mint_b));
    let l0 = made.ledger;
    let l1 = l0.open_account(taker_a, mint_a, taker)->Ok_0;
    assert(l0.open_account(taker_a, mint_a, taker) is Ok);
    let l2 = l1.open_account(maker_b, mint_b, maker)->Ok_0;
    assert(l1.open_account(maker_b, mint_b, maker) is Ok);
    let l3 = l2.transfer_checked(taker_b, maker_b, mint_b, receive, l0.mints[mint_b].decimals, taker)->Ok_0;
    assert(l2.transfer_checked(taker_b, maker_b, mint_b, receive, l0.mints[mint_b].decimals, taker) is Ok);
    let l4 = l3.transfer_checked(vault, taker_a, mint_a, l0.holdings[vault].amount, l0.mints[mint_a].decimals, escrow)->Ok_0;
    assert(l3.transfer_checked(vault, taker_a, mint_a, l0.holdings[vault].amount, l0.mints[mint_a].decimals, escrow) is Ok);
    let l5 = l4.close_account(vault, taker, escrow)->Ok_0;
    assert(l4.close_account(vault, taker, escrow) is Ok);
    assert(after.ledger == l5.release(escrow, maker));
    assert(after.escrows =~= w.escrows);
    assert(after.ledger.mints =~= w.ledger.mints);
}

/// Refund conservation: after a successful Make, a Refund that the maker
/// asks for succeeds, and it restores every holding, the maker's holding of
/// `mint_a` among them, to what it was before Make. No mint has changed and
/// the record is gone. The journal of closures has grown by the vault's and
/// the record's, both in the maker's favour.
pub proof fn law_refund_conservation(
    w: World,
    maker: Seq<u8>,
    seed: u64,
    mint_a: Seq<u8>,
    mint_b: Seq<u8>,
    deposit: u64,
    receive: u64,
)
    requires
        w.make(maker, seed, mint_a, mint_b, deposit, receive) is Ok,
    ensures
        ({
            let (made, escrow) = w.make(maker, seed, mint_a, mint_b, deposit, receive)->Ok_0;
            let maker_a = w.ledger.associated(maker, mint_a)->Some_0;
            let vault = w.ledger.associated(escrow, mint_a)->Some_0;
            &&& made.refund(maker, escrow) is Ok
            &&& made.refund(maker, escrow)->Ok_0.ledger.balance(maker_a) == w.ledger.balance(maker_a)
            &&& made.refund(maker, escrow)->Ok_0.ledger.holdings == w.ledger.holdings
            &&& made.refund(maker, escrow)->Ok_0.ledger.mints == w.ledger.mints
            &&& made.refund(maker, escrow)->Ok_0.escrows == w.escrows
            &&& made.refund(maker, escrow)->Ok_0.ledger.released == w.ledger.released.push(
                ReleaseView { account: vault, destination: maker },
            ).push(ReleaseView { account: escrow, destination: maker })
        }),
{
    let (made, escrow) = w.make(maker, seed, mint_a, mint_b, deposit, receive)->Ok_0;
    make_call_by_call(w, maker, seed, mint_a, deposit);
    law_make_binds_vault(w, maker, seed, mint_a, mint_b, deposit, receive);
    refund_call_by_call(made, maker, escrow);
    let maker_a = w.ledger.associated(maker, mint_a)->Some_0;
    let vault = w.ledger.associated(escrow, mint_a)->Some_0;
    let opened = w.ledger.create_account(vault, mint_a, escrow)->Ok_0;
    assert(made.ledger == opened.transfer_checked(maker_a, vault, mint_a, deposit, w.ledger.mints[mint_a].decimals, maker)->Ok_0);
    let accounts = made.refund_accounts_at(maker, escrow, maker_a, vault);
    assert(accounts is Ok);
    let moved = made.ledger.transfer_checked(vault, maker_a, mint_a, deposit, w.ledger.mints[mint_a].decimals, escrow);
    assert(moved is Ok);
    let closed = moved->Ok_0.close_account(vault, maker, escrow);
    assert(closed is Ok);
    assert(accounts->Ok_0.withdrawal(made.ledger) == closed);
    let after = made.refund(maker, escrow)->Ok_0;
    assert(after.ledger.holdings =~= w.ledger.holdings);
    assert(after.ledger.mints =~= w.ledger.mints);
    assert(after.escrows =~= w.escrows);
}

/// Custody: whatever calls are made on the ledger, as long as none of them
/// is signed by the authority of a holding, the holding stays where it is,
/// of the same mint and under the same authority, and holds no less than before.
pub proof fn law_custody(ledger: LedgerState, calls: Seq<LedgerCall>, holding: Seq<u8>)
    requires
        ledger.holdings.contains_key(holding),
        forall|i: int| 0 <= i < calls.len() ==> (#[trigger] calls[i]).signer() != Some(ledger.holdings[holding].authority),
    ensures
        ledger.after_all(calls).holdings.contains_key(holding),
        ledger.after_all(calls).holdings[holding].mint == ledger.holdings[holding].mint,
        ledger.after_all(calls).holdings[holding].authority == ledger.holdings[holding].authority,
        ledger.after_all(calls).holdings[holding].amount >= ledger.holdings[holding].amount,
    decreases calls.len(),
{
    if calls.len() > 0 {
        let next = ledger.after(calls[0]);
        let later = calls.drop_first();
        assert(calls[0].signer() != Some(ledger.holdings[holding].authority));
        assert forall|i: int| 0 <= i < later.len() implies (#[trigger] later[i]).signer() != Some(
            next.holdings[holding].authority,
        ) by {
            assert(later[i] == calls[i + 1]);
        }
        law_custody(next, later, holding);
    }
}

/// Custody under Make: a Make that succeeds leaves every holding that does
/// not answer to the maker where it is, of the same mint and under the same
/// authority, and holding no less than before.
pub proof fn law_make_spares_other_holdings(
    w: World,
    maker: Seq<u8>,
    seed: u64,
    mint_a: Seq<u8>,
    mint_b: Seq<u8>,
    deposit: u64,
    receive: u64,
    escrow: Seq<u8>,
    bump: u8,
    source: Seq<u8>,
    vault: Seq<u8>,
    holding: Seq<u8>,
)
    requires
        w.make_at(maker, seed, mint_a, mint_b, deposit, receive, escrow, bump, source, vault) is Ok,
        w.ledger.holdings.contains_key(holding),
        w.ledger.holdings[holding].authority != maker,
    ensures
        ({
            let after = w.make_at(maker, seed, mint_a, mint_b, deposit, receive, escrow, bump, source, vault)->Ok_0;
            &&& after.ledger.holdings.contains_key(holding)
            &&& after.ledger.holdings[holding].mint == w.ledger.holdings[holding].mint
            &&& after.ledger.holdings[holding].authority == w.ledger.holdings[holding].authority
            &&& after.ledger.holdings[holding].amount >= w.ledger.holdings[holding].amount
        }),
{
    let calls = World::make_calls(maker, mint_a, deposit, w.ledger.mints[mint_a].decimals, escrow, source, vault);
    lemma_outcome_all_after_all(w.ledger, calls);
    law_custody(w.ledger, calls, holding);
}

/// Custody under Take: a Take that succeeds leaves every holding that
/// answers neither to the taker nor to the record's address where it is, of
/// the same mint and under the same authority, and holding no less than
/// before. The vault of another deal is such a holding.
pub proof fn law_take_spares_other_holdings(
    w: World,
    taker: Seq<u8>,
    escrow: Seq<u8>,
    signer: Option<Seq<u8>>,
    vault: Seq<u8>,
    taker_a: Seq<u8>,
    taker_b: Seq<u8>,
    maker_b: Seq<u8>,
    holding: Seq<u8>,
)
    requires
        w.take_at(taker, escrow, signer, vault, taker_a, taker_b, maker_b) is Ok,
        w.ledger.holdings.contains_key(holding),
        w.ledger.holdings[holding].authority != taker,
        w.ledger.holdings[holding].authority != escrow,
    ensures
        ({
            let after = w.take_at(taker, escrow, signer, vault, taker_a, taker_b, maker_b)->Ok_0;
            &&& after.ledger.holdings.contains_key(holding)
            &&& after.ledger.holdings[holding].mint == w.ledger.holdings[holding].mint
            &&& after.ledger.holdings[holding].authority == w.ledger.holdings[holding].authority
            &&& after.ledger.holdings[holding].amount >= w.ledger.holdings[holding].amount
        }),
{
    let record = w.escrows.records[escrow];
    let calls = World::take_calls(
        record,
        w.ledger.mints[record.mint_a].decimals,
        w.ledger.mints[record.mint_b].decimals,
        w.ledger.holdings[vault].amount,
        escrow,
        taker,
        vault,
        taker_a,
        taker_b,
        maker_b,
    );
    lemma_outcome_all_after_all(w.ledger, calls);
    law_custody(w.ledger, calls, holding);
}

/// Custody under Refund: a Refund that succeeds leaves every holding that
/// does not answer to the record's address where it is, of the same mint and
/// under the same authority, and holding no less than before. The vault of
/// another deal is such a holding.
pub proof fn law_refund_spares_other_holdings(
    w: World,
    maker: Seq<u8>,
    escrow: Seq<u8>,
    signer: Option<Seq<u8>>,
    maker_ata_a: Seq<u8>,
    vault: Seq<u8>,
    holding: Seq<u8>,
)
    requires
        w.refund_at(maker, escrow, signer, maker_ata_a, vault) is Ok,
        w.ledger.holdings.contains_key(holding),
        w.ledger.holdings[holding].authority != escrow,
    ensures
        ({
            let after = w.refund_at(maker, escrow, signer, maker_ata_a, vault)->Ok_0;
            &&& after.ledger.holdings.contains_key(holding)
            &&& after.ledger.holdings[holding].mint == w.ledger.holdings[holding].mint
            &&& after.ledger.holdings[holding].authority == w.ledger.holdings[holding].authority
            &&& after.ledger.holdings[holding].amount >= w.ledger.holdings[holding].amount
        }),
{
    let accounts = w.refund_accounts_at(maker, escrow, maker_ata_a, vault)->Ok_0;
    let calls = accounts.calls();
    lemma_outcome_all_after_all(w.ledger, calls);
    law_custody(w.ledger, calls, holding);
}

/// Namespace uniqueness, first half: where a marketplace exists under a
/// name, Init with that name fails with `Collision`, whoever asks and
/// whatever the fee, acceptable or not. The name is one that Init accepts,
/// as the name of every marketplace is.
pub proof fn law_name_in_use_fails(b: Bazaar, admin: Seq<u8>, name: Seq<char>, fee: u16)
    requires
        name_ok(name),
        b.address_of(name) is Some,
        b.markets.records.contains_key(b.address_of(name)->Some_0),
    ensures
        b.init_marketplace(admin, name, fee) == Err::<(Bazaar, Seq<u8>), ErrorKind>(ErrorKind::Collision),
{
}

/// The same on given accounts: where a record lives in the place, Init with
/// an acceptable name fails with `Collision`, whoever asks and whatever the
/// fee, and the place of the reward mint and of the treasury.
pub proof fn law_place_in_use_fails(
    b: Bazaar,
    admin: Seq<u8>,
    name: Seq<char>,
    fee: u16,
    marketplace: Seq<u8>,
    bump: u8,
    rewards: Seq<u8>,
    treasury: Seq<u8>,
)
    requires
        name_ok(name),
        b.markets.records.contains_key(marketplace),
    ensures
        b.init_marketplace_at(admin, name, fee, marketplace, bump, rewards, treasury) == Err::<Bazaar, ErrorKind>(
            ErrorKind::Collision,
        ),
{
}

/// After Init has succeeded for a name, the record is stored at the address
/// of that name, and every further Init with the same name fails with
/// `Collision` and leaves the record as it is: whoever asks, whatever the
/// fee, acceptable or not, and whatever has happened on the ledger since.
pub proof fn law_init_once(
    b: Bazaar,
    admin: Seq<u8>,
    name: Seq<char>,
    fee: u16,
    later: LedgerState,
    next_admin: Seq<u8>,
    next_fee: u16,
)
    requires
        b.init_marketplace(admin, name, fee) is Ok,
    ensures
        ({
            let (after, marketplace) = b.init_marketplace(admin, name, fee)->Ok_0;
            let again = Bazaar { markets: after.markets, ledger: later };
            &&& b.address_of(name) == Some(marketplace)
            &&& after.markets.records.contains_key(marketplace)
            &&& again.init_marketplace(next_admin, name, next_fee) == Err::<(Bazaar, Seq<u8>), ErrorKind>(
                ErrorKind::Collision,
            )
        }),
{
}

/// Init under one name leaves the marketplaces of all other names as they
/// are: their records stay, unchanged, and the new one stands beside them.
pub proof fn law_other_names_coexist(b: Bazaar, admin: Seq<u8>, name: Seq<char>, fee: u16, other: Seq<u8>)
    requires
        b.init_marketplace(admin, name, fee) is Ok,
        b.markets.records.contains_key(other),
    ensures
        ({
            let (after, marketplace) = b.init_marketplace(admin, name, fee)->Ok_0;
            &&& other != marketplace
            &&& after.markets.records.contains_key(other)
            &&& after.markets.records[other] == b.markets.records[other]
            &&& after.markets.records.contains_key(marketplace)
        }),
{
}

/// A withdrawal on accounts that are not the ones the record names moves
/// nothing: it fails with `PreconditionFailed`, whoever signs and whatever
/// the ledger holds. A mint that is not the record's is such a case.
pub proof fn law_withdrawal_needs_the_recorded_accounts(
    accounts: RefundView,
    ledger: LedgerState,
    signer: Option<Seq<u8>>,
)
    requires
        accounts.maker != accounts.escrow.data.maker || accounts.mint_a.address != accounts.escrow.data.mint_a
            || accounts.mint_b.address != accounts.escrow.data.mint_b,
    ensures
        accounts.plan(signer) == Err::<Seq<LedgerCall>, ErrorKind>(ErrorKind::PreconditionFailed),
        accounts.withdrawal_signed(ledger, signer) == Err::<LedgerState, ErrorKind>(ErrorKind::PreconditionFailed),
        accounts.withdrawal(ledger) == Err::<LedgerState, ErrorKind>(ErrorKind::PreconditionFailed),
{
}

/// Namespace uniqueness, second half: Init with a fresh name succeeds
/// whenever the name and the fee are acceptable, the three addresses can be
/// derived, and the reward mint's address is free. It stores the record as
/// given, at the address of the name, and creates the reward mint with six
/// decimals, nothing issued, and the record's address as its authority:
/// whoever the admin is, the authority is not taken from the admin.
pub proof fn law_fresh_name_succeeds(b: Bazaar, admin: Seq<u8>, name: Seq<char>, fee: u16)
    requires
        terms_ok(name, fee),
        b.address_of(name) is Some,
        !b.markets.records.contains_key(b.address_of(name)->Some_0),
        derived(rewards_seeds(b.address_of(name)->Some_0), b.markets.program) is Some,
        derived(treasury_seeds(b.address_of(name)->Some_0), b.markets.program) is Some,
        !b.ledger.in_use(derived(rewards_seeds(b.address_of(name)->Some_0), b.markets.program)->Some_0.0),
    ensures
        b.init_marketplace(admin, name, fee) is Ok,
        ({
            let (after, marketplace) = b.init_marketplace(admin, name, fee)->Ok_0;
            let rewards = derived(rewards_seeds(marketplace), b.markets.program)->Some_0.0;
            let treasury = derived(treasury_seeds(marketplace), b.markets.program)->Some_0.0;
            let record = after.markets.records[marketplace];
            &&& Some(marketplace) == b.address_of(name)
            &&& after.markets.records.contains_key(marketplace)
            &&& record.admin == admin
            &&& record.name == name
            &&& record.fee == fee
            &&& record.treasury == treasury
            &&& record.rewards_mint == rewards
            &&& after.ledger.mints.contains_key(rewards)
            &&& after.ledger.mints[rewards].authority == marketplace
            &&& after.ledger.mints[rewards].decimals == REWARDS_DECIMALS
            &&& after.ledger.mints[rewards].supply == 0
            &&& after.ledger.holdings == b.ledger.holdings
        }),
{
}

/// The reward mint's authority is the same whoever sets the marketplace up.
pub proof fn law_rewards_authority_ignores_admin(
    b: Bazaar,
    admin: Seq<u8>,
    other_admin: Seq<u8>,
    name: Seq<char>,
    fee: u16,
)
    requires
        b.init_marketplace(admin, name, fee) is Ok,
    ensures
        b.init_marketplace(other_admin, name, fee) is Ok,
        b.init_marketplace(other_admin, name, fee)->Ok_0.1 == b.init_marketplace(admin, name, fee)->Ok_0.1,
        b.init_marketplace(other_admin, name, fee)->Ok_0.0.ledger == b.init_marketplace(admin, name, fee)->Ok_0.0.ledger,
{
}

/// Authority exclusivity over time: once Make has succeeded, whatever calls
/// are made on the ledger, as long as none of them is signed by the identity
/// derived from the record's maker, seed and bump, the vault stays where it
/// is, under that identity, and holds no less than the deposit.
pub proof fn law_vault_custody(
    w: World,
    maker: Seq<u8>,
    seed: u64,
    mint_a: Seq<u8>,
    mint_b: Seq<u8>,
    deposit: u64,
    receive: u64,
    calls: Seq<LedgerCall>,
)
    requires
        w.make(maker, seed, mint_a, mint_b, deposit, receive) is Ok,
        ({
            let (made, escrow) = w.make(maker, seed, mint_a, mint_b, deposit, receive)->Ok_0;
            let bump = made.escrows.records[escrow].bump;
            forall|i: int|
                0 <= i < calls.len() ==> (#[trigger] calls[i]).signer() != signer_of(
                    escrow_signer_seeds(maker, seed, bump),
                    w.escrows.program,
                )
        }),
    ensures
        ({
            let (made, escrow) = w.make(maker, seed, mint_a, mint_b, deposit, receive)->Ok_0;
            let vault = made.ledger.associated(escrow, mint_a)->Some_0;
            let later = made.ledger.after_all(calls);
            &&& later.holdings.contains_key(vault)
            &&& later.holdings[vault].authority == escrow
            &&& later.holdings[vault].mint == mint_a
            &&& later.holdings[vault].amount >= deposit
        }),
{
    law_make_binds_vault(w, maker, seed, mint_a, mint_b, deposit, receive);
    let (made, escrow) = w.make(maker, seed, mint_a, mint_b, deposit, receive)->Ok_0;
    let vault = made.ledger.associated(escrow, mint_a)->Some_0;
    law_custody(made.ledger, calls, vault);
}

/// Only a mint's authority issues: issuing that is signed by any other
/// identity is rejected with `InvariantViolation`.
pub proof fn law_only_authority_issues(ledger: LedgerState, mint: Seq<u8>, to: Seq<u8>, amount: u64, signer: Seq<u8>)
    requires
        ledger.mints.contains_key(mint),
        signer != ledger.mints[mint].authority,
    ensures
        ledger.mint_to(mint, to, amount, signer) == Err::<LedgerState, ErrorKind>(ErrorKind::InvariantViolation),
{
}

/// After Init, rewards are issued under the record's address only: issuing
/// that is signed by any other identity, the admin included unless the
/// admin is that address, is rejected.
pub proof fn law_rewards_issued_by_record_only(
    b: Bazaar,
    admin: Seq<u8>,
    name: Seq<char>,
    fee: u16,
    to: Seq<u8>,
    amount: u64,
    signer: Seq<u8>,
)
    requires
        b.init_marketplace(admin, name, fee) is Ok,
        signer != b.init_marketplace(admin, name, fee)->Ok_0.1,
    ensures
        ({
            let (after, marketplace) = b.init_marketplace(admin, name, fee)->Ok_0;
            let rewards = after.markets.records[marketplace].rewards_mint;
            &&& after.ledger.mints.contains_key(rewards)
            &&& after.ledger.mints[rewards].authority == marketplace
            &&& after.ledger.mint_to(rewards, to, amount, signer) == Err::<LedgerState, ErrorKind>(
                ErrorKind::InvariantViolation,
            )
        }),
{
}

} // verus!
