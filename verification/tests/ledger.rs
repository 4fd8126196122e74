use anchor_lang::prelude::Pubkey;
use anchor_spl::associated_token::get_associated_token_address_with_program_id;
use escrow_market::address::Address;
use escrow_market::error::ErrorKind;
use escrow_market::ledger::{Holding, Instruction, Ledger, Mint, Release};

fn addr(fill: u8) -> Address {
    Address::new([fill; 32])
}

fn token_program() -> Address {
    Address::new(anchor_spl::token::ID.to_bytes())
}

fn associated_program() -> Address {
    Address::new(anchor_spl::associated_token::ID.to_bytes())
}

/// A ledger with mint 100 (9 decimals, issuer 101), and the holdings 1
/// (authority 11, 500 units) and 2 (authority 12, empty) of it.
fn ledger_with_two_holdings() -> Ledger {
    let mut l = Ledger::new(token_program(), associated_program());
    assert_eq!(l.create_mint(&addr(100), 9, &addr(101)), Ok(()));
    assert_eq!(l.create_account(&addr(1), &addr(100), &addr(11)), Ok(()));
    assert_eq!(l.create_account(&addr(2), &addr(100), &addr(12)), Ok(()));
    assert_eq!(l.mint_to(&addr(100), &addr(1), 500, &addr(101)), Ok(()));
    l
}

#[test]
fn new_ledger_is_empty() {
    let l = Ledger::new(token_program(), associated_program());
    assert_eq!(l.mint(&addr(1)), None);
    assert_eq!(l.holding(&addr(1)), None);
    assert_eq!(l.balance(&addr(1)), 0);
    assert_eq!(l.released(), vec![]);
}

#[test]
fn create_mint_and_account() {
    let l = ledger_with_two_holdings();
    assert_eq!(l.mint(&addr(100)), Some(Mint { decimals: 9, authority: addr(101), supply: 500 }));
    assert_eq!(l.holding(&addr(1)), Some(Holding { mint: addr(100), authority: addr(11), amount: 500 }));
    assert_eq!(l.holding(&addr(2)), Some(Holding { mint: addr(100), authority: addr(12), amount: 0 }));
    assert_eq!(l.balance(&addr(1)), 500);
    assert_eq!(l.balance(&addr(2)), 0);
}

#[test]
fn create_rejects_an_address_in_use() {
    let mut l = ledger_with_two_holdings();
    assert_eq!(l.create_mint(&addr(100), 6, &addr(9)), Err(ErrorKind::Collision));
    assert_eq!(l.create_mint(&addr(1), 6, &addr(9)), Err(ErrorKind::Collision));
    assert_eq!(l.create_account(&addr(1), &addr(100), &addr(9)), Err(ErrorKind::Collision));
    assert_eq!(l.create_account(&addr(100), &addr(100), &addr(9)), Err(ErrorKind::Collision));
    assert_eq!(l.mint(&addr(100)), Some(Mint { decimals: 9, authority: addr(101), supply: 500 }));
    assert_eq!(l.holding(&addr(1)), Some(Holding { mint: addr(100), authority: addr(11), amount: 500 }));
}

#[test]
fn create_account_rejects_an_unknown_mint() {
    let mut l = ledger_with_two_holdings();
    assert_eq!(l.create_account(&addr(3), &addr(77), &addr(9)), Err(ErrorKind::PreconditionFailed));
    assert_eq!(l.holding(&addr(3)), None);
}

#[test]
fn open_account_creates_or_accepts() {
    let mut l = ledger_with_two_holdings();
    assert_eq!(l.open_account(&addr(3), &addr(100), &addr(13)), Ok(()));
    assert_eq!(l.holding(&addr(3)), Some(Holding { mint: addr(100), authority: addr(13), amount: 0 }));
    assert_eq!(l.open_account(&addr(1), &addr(100), &addr(11)), Ok(()));
    assert_eq!(l.balance(&addr(1)), 500);
    assert_eq!(l.open_account(&addr(1), &addr(100), &addr(12)), Err(ErrorKind::InvariantViolation));
    assert_eq!(l.create_mint(&addr(110), 9, &addr(101)), Ok(()));
    assert_eq!(l.open_account(&addr(1), &addr(110), &addr(11)), Err(ErrorKind::PreconditionFailed));
    assert_eq!(l.open_account(&addr(1), &addr(110), &addr(12)), Err(ErrorKind::PreconditionFailed));
    assert_eq!(l.open_account(&addr(4), &addr(77), &addr(11)), Err(ErrorKind::PreconditionFailed));
    assert_eq!(l.open_account(&addr(100), &addr(100), &addr(11)), Err(ErrorKind::Collision));
}

#[test]
fn mint_to_issues_and_checks_the_issuer() {
    let mut l = ledger_with_two_holdings();
    assert_eq!(l.mint_to(&addr(100), &addr(2), 40, &addr(101)), Ok(()));
    assert_eq!(l.balance(&addr(2)), 40);
    assert_eq!(l.mint(&addr(100)).unwrap().supply, 540);
    assert_eq!(l.mint_to(&addr(100), &addr(2), 1, &addr(11)), Err(ErrorKind::InvariantViolation));
    assert_eq!(l.mint_to(&addr(77), &addr(2), 1, &addr(101)), Err(ErrorKind::PreconditionFailed));
    assert_eq!(l.mint_to(&addr(100), &addr(9), 1, &addr(101)), Err(ErrorKind::PreconditionFailed));
    assert_eq!(l.mint_to(&addr(100), &addr(2), u64::MAX, &addr(101)), Err(ErrorKind::PreconditionFailed));
    assert_eq!(l.balance(&addr(2)), 40);
    assert_eq!(l.mint(&addr(100)).unwrap().supply, 540);
}

#[test]
fn mint_to_rejects_a_holding_of_another_mint() {
    let mut l = ledger_with_two_holdings();
    assert_eq!(l.create_mint(&addr(110), 9, &addr(101)), Ok(()));
    assert_eq!(l.mint_to(&addr(110), &addr(2), 1, &addr(101)), Err(ErrorKind::PreconditionFailed));
    assert_eq!(l.mint(&addr(110)).unwrap().supply, 0);
}

#[test]
fn transfer_moves_the_amount() {
    let mut l = ledger_with_two_holdings();
    assert_eq!(l.transfer_checked(&addr(1), &addr(2), &addr(100), 120, 9, &addr(11)), Ok(()));
    assert_eq!(l.balance(&addr(1)), 380);
    assert_eq!(l.balance(&addr(2)), 120);
    assert_eq!(l.mint(&addr(100)).unwrap().supply, 500);
    assert_eq!(l.transfer_checked(&addr(1), &addr(2), &addr(100), 380, 9, &addr(11)), Ok(()));
    assert_eq!(l.balance(&addr(1)), 0);
    assert_eq!(l.balance(&addr(2)), 500);
}

#[test]
fn transfer_to_the_same_holding_changes_nothing() {
    let mut l = ledger_with_two_holdings();
    assert_eq!(l.transfer_checked(&addr(1), &addr(1), &addr(100), 500, 9, &addr(11)), Ok(()));
    assert_eq!(l.balance(&addr(1)), 500);
    assert_eq!(l.transfer_checked(&addr(1), &addr(1), &addr(100), 501, 9, &addr(11)), Err(ErrorKind::PreconditionFailed));
}

#[test]
fn transfer_rejects_every_other_signer() {
    let mut l = ledger_with_two_holdings();
    for signer in [addr(12), addr(1), addr(100), addr(101), addr(0)] {
        assert_eq!(
            l.transfer_checked(&addr(1), &addr(2), &addr(100), 1, 9, &signer),
            Err(ErrorKind::InvariantViolation)
        );
    }
    assert_eq!(l.balance(&addr(1)), 500);
    assert_eq!(l.balance(&addr(2)), 0);
}

#[test]
fn transfer_rejects_bad_inputs() {
    let mut l = ledger_with_two_holdings();
    assert_eq!(l.create_mint(&addr(110), 9, &addr(101)), Ok(()));
    assert_eq!(l.create_account(&addr(3), &addr(110), &addr(11)), Ok(()));
    let pf = Err(ErrorKind::PreconditionFailed);
    assert_eq!(l.transfer_checked(&addr(9), &addr(2), &addr(100), 1, 9, &addr(11)), pf);
    assert_eq!(l.transfer_checked(&addr(1), &addr(9), &addr(100), 1, 9, &addr(11)), pf);
    assert_eq!(l.transfer_checked(&addr(1), &addr(2), &addr(77), 1, 9, &addr(11)), pf);
    assert_eq!(l.transfer_checked(&addr(1), &addr(2), &addr(110), 1, 9, &addr(11)), pf);
    assert_eq!(l.transfer_checked(&addr(1), &addr(3), &addr(100), 1, 9, &addr(11)), pf);
    assert_eq!(l.transfer_checked(&addr(1), &addr(2), &addr(100), 1, 8, &addr(11)), pf);
    assert_eq!(l.transfer_checked(&addr(1), &addr(2), &addr(100), 501, 9, &addr(11)), pf);
    assert_eq!(l.balance(&addr(1)), 500);
    assert_eq!(l.balance(&addr(2)), 0);
    assert_eq!(l.balance(&addr(3)), 0);
}

#[test]
fn supply_is_capped_at_64_bits() {
    let mut l = Ledger::new(token_program(), associated_program());
    assert_eq!(l.create_mint(&addr(100), 0, &addr(101)), Ok(()));
    assert_eq!(l.create_account(&addr(1), &addr(100), &addr(11)), Ok(()));
    assert_eq!(l.create_account(&addr(2), &addr(100), &addr(12)), Ok(()));
    assert_eq!(l.mint_to(&addr(100), &addr(1), u64::MAX, &addr(101)), Ok(()));
    assert_eq!(l.mint_to(&addr(100), &addr(2), 1, &addr(101)), Err(ErrorKind::PreconditionFailed));
    assert_eq!(l.balance(&addr(1)), u64::MAX);
    assert_eq!(l.balance(&addr(2)), 0);
    assert_eq!(l.transfer_checked(&addr(1), &addr(2), &addr(100), u64::MAX, 0, &addr(11)), Ok(()));
    assert_eq!(l.balance(&addr(2)), u64::MAX);
}

#[test]
fn close_needs_the_authority_and_an_empty_holding() {
    let mut l = ledger_with_two_holdings();
    assert_eq!(l.close_account(&addr(9), &addr(50), &addr(11)), Err(ErrorKind::NotFound));
    assert_eq!(l.close_account(&addr(2), &addr(50), &addr(11)), Err(ErrorKind::InvariantViolation));
    assert_eq!(l.close_account(&addr(1), &addr(50), &addr(11)), Err(ErrorKind::PreconditionFailed));
    assert_eq!(l.released(), vec![]);
    assert_eq!(l.close_account(&addr(2), &addr(50), &addr(12)), Ok(()));
    assert_eq!(l.holding(&addr(2)), None);
    assert_eq!(l.released(), vec![Release { account: addr(2), destination: addr(50) }]);
    assert_eq!(l.close_account(&addr(2), &addr(50), &addr(12)), Err(ErrorKind::NotFound));
    assert_eq!(l.create_account(&addr(2), &addr(100), &addr(13)), Ok(()));
}

#[test]
fn release_appends_to_the_journal() {
    let mut l = ledger_with_two_holdings();
    l.release(&addr(70), &addr(71));
    l.release(&addr(72), &addr(73));
    assert_eq!(
        l.released(),
        vec![
            Release { account: addr(70), destination: addr(71) },
            Release { account: addr(72), destination: addr(73) },
        ]
    );
    assert_eq!(l.balance(&addr(1)), 500);
}

#[test]
fn duplicate_ledger_is_independent() {
    let l = ledger_with_two_holdings();
    let mut copy = l.duplicate();
    assert_eq!(copy.transfer_checked(&addr(1), &addr(2), &addr(100), 500, 9, &addr(11)), Ok(()));
    assert_eq!(copy.close_account(&addr(1), &addr(11), &addr(11)), Ok(()));
    assert_eq!(l.balance(&addr(1)), 500);
    assert_eq!(l.balance(&addr(2)), 0);
    assert_eq!(l.released(), vec![]);
    assert_eq!(copy.balance(&addr(2)), 500);
    assert_eq!(copy.associated_address(&addr(5), &addr(100)), l.associated_address(&addr(5), &addr(100)));
}

#[test]
fn associated_address_agrees_with_the_token_sdk() {
    let l = Ledger::new(token_program(), associated_program());
    let wallet = addr(5);
    let mint = addr(100);
    let expected = get_associated_token_address_with_program_id(
        &Pubkey::new_from_array([5; 32]),
        &Pubkey::new_from_array([100; 32]),
        &anchor_spl::token::ID,
    );
    let found = l.associated_address(&wallet, &mint).expect("an address exists");
    assert_eq!(found.bytes, expected.to_bytes());
    assert_ne!(found, wallet);
    assert_ne!(l.associated_address(&addr(6), &mint), Some(found));
    assert_ne!(l.associated_address(&wallet, &addr(101)), Some(found));
}

#[test]
fn custody_other_signers_cannot_reduce_a_holding() {
    let mut l = ledger_with_two_holdings();
    let stranger = addr(12);
    let _ = l.transfer_checked(&addr(1), &addr(2), &addr(100), 500, 9, &stranger);
    let _ = l.close_account(&addr(1), &stranger, &stranger);
    let _ = l.transfer_checked(&addr(2), &addr(1), &addr(100), 0, 9, &stranger);
    let _ = l.mint_to(&addr(100), &addr(1), 5, &addr(101));
    let _ = l.open_account(&addr(1), &addr(100), &stranger);
    let _ = l.create_account(&addr(1), &addr(100), &stranger);
    l.release(&addr(1), &stranger);
    assert_eq!(l.holding(&addr(1)), Some(Holding { mint: addr(100), authority: addr(11), amount: 505 }));
}

#[test]
fn execute_makes_the_call_described() {
    let mut l = ledger_with_two_holdings();
    let transfer = Instruction::TransferChecked {
        from: addr(1),
        to: addr(2),
        mint: addr(100),
        amount: 120,
        decimals: 9,
        authority: addr(11),
    };
    assert_eq!(l.execute(&transfer), Ok(()));
    assert_eq!(l.balance(&addr(1)), 380);
    assert_eq!(l.balance(&addr(2)), 120);
    assert_eq!(
        l.execute(&Instruction::CreateMint { address: addr(110), decimals: 2, authority: addr(9) }),
        Ok(())
    );
    assert_eq!(l.mint(&addr(110)), Some(Mint { decimals: 2, authority: addr(9), supply: 0 }));
    assert_eq!(
        l.execute(&Instruction::CreateAccount { address: addr(3), mint: addr(110), authority: addr(13) }),
        Ok(())
    );
    assert_eq!(
        l.execute(&Instruction::OpenAccount { address: addr(3), mint: addr(110), authority: addr(12) }),
        Err(ErrorKind::InvariantViolation)
    );
    assert_eq!(
        l.execute(&Instruction::MintTo { mint: addr(110), to: addr(3), amount: 5, authority: addr(9) }),
        Ok(())
    );
    assert_eq!(l.balance(&addr(3)), 5);
    assert_eq!(
        l.execute(&Instruction::CloseAccount { account: addr(3), destination: addr(13), authority: addr(13) }),
        Err(ErrorKind::PreconditionFailed)
    );
    assert_eq!(l.execute(&Instruction::Release { account: addr(70), destination: addr(71) }), Ok(()));
    assert_eq!(l.released(), vec![Release { account: addr(70), destination: addr(71) }]);
}

#[test]
fn execute_all_is_all_or_nothing() {
    let mut l = ledger_with_two_holdings();
    let transfer = |amount: u64| Instruction::TransferChecked {
        from: addr(1),
        to: addr(2),
        mint: addr(100),
        amount,
        decimals: 9,
        authority: addr(11),
    };
    let close = Instruction::CloseAccount { account: addr(1), destination: addr(11), authority: addr(11) };
    let note = Instruction::Release { account: addr(70), destination: addr(71) };

    assert_eq!(l.execute_all(&vec![note, transfer(100), close]), Err(ErrorKind::PreconditionFailed));
    assert_eq!(l.balance(&addr(1)), 500);
    assert_eq!(l.balance(&addr(2)), 0);
    assert_eq!(l.released(), vec![]);

    assert_eq!(l.execute_all(&vec![transfer(100), transfer(401)]), Err(ErrorKind::PreconditionFailed));
    assert_eq!(l.balance(&addr(1)), 500);

    assert_eq!(l.execute_all(&vec![]), Ok(()));
    assert_eq!(l.balance(&addr(1)), 500);

    assert_eq!(l.execute_all(&vec![transfer(100), transfer(400), close, note]), Ok(()));
    assert_eq!(l.holding(&addr(1)), None);
    assert_eq!(l.balance(&addr(2)), 500);
    assert_eq!(
        l.released(),
        vec![
            Release { account: addr(1), destination: addr(11) },
            Release { account: addr(70), destination: addr(71) },
        ]
    );
}
