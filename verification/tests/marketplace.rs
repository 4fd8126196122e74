use anchor_lang::prelude::Pubkey;
use escrow_market::address::Address;
use escrow_market::error::ErrorKind;

use escrow_market::ledger::{Account, Instruction, Ledger, Mint};
use escrow_market::marketplace::{
    check_fee, check_name, check_terms, Initialize, InitializeBumps, Marketplace, MarketplaceProgram,
    MAX_FEE_BPS, MAX_NAME_LEN, REWARDS_DECIMALS,
};

const PROGRAM: u8 = 43;
const ADMIN: u8 = 5;

fn addr(fill: u8) -> Address {
    Address::new([fill; 32])
}

fn setup() -> (MarketplaceProgram, Ledger) {
    let ledger = Ledger::new(
        Address::new(anchor_spl::token::ID.to_bytes()),
        Address::new(anchor_spl::associated_token::ID.to_bytes()),
    );
    (MarketplaceProgram::new(addr(PROGRAM)), ledger)
}

fn blank_accounts() -> Initialize {
    Initialize {
        admin: addr(ADMIN),
        marketplace: Account { address: addr(60), data: None },
        rewards_mint: Account { address: addr(61), data: Mint { decimals: 6, authority: addr(60), supply: 0 } },
        treasury: addr(62),
    }
}

#[test]
fn limits() {
    assert_eq!(MAX_FEE_BPS, 10000);
    assert_eq!(MAX_NAME_LEN, 32);
    assert_eq!(REWARDS_DECIMALS, 6);
}

#[test]
fn check_terms_bounds_name_and_fee() {
    assert!(check_terms("bazaar", 250));
    assert!(check_terms("", 0));
    assert!(check_terms(&"x".repeat(32), 10000));
    assert!(!check_terms(&"x".repeat(33), 10000));
    assert!(!check_terms("bazaar", 10001));
    assert!(!check_terms("bazaar", u16::MAX));
    assert!(check_terms(&"é".repeat(16), 1));
    assert!(!check_terms(&"é".repeat(17), 1));
}

#[test]
fn init_fills_the_record() {
    let mut accounts = blank_accounts();
    let bumps = InitializeBumps { marketplace: 254, rewards_mint: 253, treasury: 252 };
    assert_eq!(accounts.init(String::from("bazaar"), 250, &bumps), Ok(()));
    assert_eq!(
        accounts.marketplace.data,
        Some(Marketplace {
            admin: addr(ADMIN),
            name: String::from("bazaar"),
            fee: 250,
            treasury: addr(62),
            rewards_mint: addr(61),
            bump: 254,
        })
    );
    assert_eq!(accounts.admin, addr(ADMIN));
    assert_eq!(accounts.marketplace.address, addr(60));
    assert_eq!(accounts.rewards_mint, blank_accounts().rewards_mint);
    assert_eq!(accounts.treasury, addr(62));
}

#[test]
fn init_rejects_a_fee_out_of_range() {
    let mut accounts = blank_accounts();
    let bumps = InitializeBumps { marketplace: 254, rewards_mint: 253, treasury: 252 };
    assert_eq!(accounts.init(String::from("bazaar"), 10001, &bumps), Err(ErrorKind::PreconditionFailed));
    assert_eq!(accounts, blank_accounts());
    assert_eq!(accounts.init(String::from("bazaar"), 10000, &bumps), Ok(()));
    assert_eq!(accounts.marketplace.data.unwrap().fee, 10000);
}

#[test]
fn init_rejects_a_name_that_is_too_long() {
    let mut accounts = blank_accounts();
    let bumps = InitializeBumps { marketplace: 254, rewards_mint: 253, treasury: 252 };
    assert_eq!(accounts.init("n".repeat(33), 1, &bumps), Err(ErrorKind::PreconditionFailed));
    assert_eq!(accounts, blank_accounts());
    assert_eq!(accounts.init("n".repeat(32), 1, &bumps), Ok(()));
    assert_eq!(accounts.marketplace.data.unwrap().name, "n".repeat(32));
}

#[test]
fn blank_record_is_zero() {
    let blank = Marketplace::default();
    assert_eq!(blank.admin.bytes, [0u8; 32]);
    assert_eq!(blank.treasury.bytes, [0u8; 32]);
    assert_eq!(blank.rewards_mint.bytes, [0u8; 32]);
    assert_eq!(blank.name, "");
    assert_eq!(blank.fee, 0);
    assert_eq!(blank.bump, 0);
}

#[test]
fn init_marketplace_stores_the_record_and_creates_the_reward_mint() {
    let (mut program, mut ledger) = setup();
    let marketplace = program.init_marketplace(&mut ledger, &addr(ADMIN), String::from("bazaar"), 250).unwrap();
    let id = Pubkey::new_from_array([PROGRAM; 32]);
    let (expected, bump) = Pubkey::find_program_address(&[b"marketplace", b"bazaar"], &id);
    let (rewards, _) = Pubkey::find_program_address(&[b"rewards", expected.as_ref()], &id);
    let (treasury, _) = Pubkey::find_program_address(&[b"treasury", expected.as_ref()], &id);
    assert_eq!(marketplace.bytes, expected.to_bytes());
    let rewards = Address::new(rewards.to_bytes());
    let treasury = Address::new(treasury.to_bytes());
    assert_eq!(
        program.record(&marketplace),
        Some(&Marketplace {
            admin: addr(ADMIN),
            name: String::from("bazaar"),
            fee: 250,
            treasury,
            rewards_mint: rewards,
            bump,
        })
    );
    assert_eq!(ledger.mint(&rewards), Some(Mint { decimals: 6, authority: marketplace, supply: 0 }));
    assert_ne!(marketplace, addr(ADMIN));
    assert_eq!(program.program_id(), addr(PROGRAM));
}

#[test]
fn reward_mint_answers_to_the_record_and_never_to_the_admin() {
    let (mut program, mut ledger) = setup();
    let marketplace = program.init_marketplace(&mut ledger, &addr(ADMIN), String::from("bazaar"), 250).unwrap();
    let rewards = program.record(&marketplace).unwrap().rewards_mint;
    ledger.create_account(&addr(70), &rewards, &addr(ADMIN)).unwrap();
    assert_eq!(ledger.mint_to(&rewards, &addr(70), 10, &addr(ADMIN)), Err(ErrorKind::InvariantViolation));
    assert_eq!(ledger.mint_to(&rewards, &addr(70), 10, &addr(PROGRAM)), Err(ErrorKind::InvariantViolation));
    assert_eq!(ledger.balance(&addr(70)), 0);
    assert_eq!(ledger.mint_to(&rewards, &addr(70), 10, &marketplace), Ok(()));
    assert_eq!(ledger.balance(&addr(70)), 10);
}

#[test]
fn init_marketplace_rejects_a_name_in_use() {
    let (mut program, mut ledger) = setup();
    let first = program.init_marketplace(&mut ledger, &addr(ADMIN), String::from("bazaar"), 250).unwrap();
    for (admin, fee) in [(ADMIN, 250u16), (ADMIN, 0), (6, 250), (6, 9999), (ADMIN, 10001), (6, u16::MAX)] {
        let again = program.init_marketplace(&mut ledger, &addr(admin), String::from("bazaar"), fee);
        assert_eq!(again, Err(ErrorKind::Collision));
    }
    let record = program.record(&first).unwrap();
    assert_eq!(record.admin, addr(ADMIN));
    assert_eq!(record.fee, 250);
    let other = program.init_marketplace(&mut ledger, &addr(6), String::from("souk"), 10).unwrap();
    assert_ne!(other, first);
    assert_eq!(program.record(&other).unwrap().admin, addr(6));
}

#[test]
fn init_marketplace_tests_the_name_then_the_place_then_the_fee() {
    let (mut program, mut ledger) = setup();
    let r = program.init_marketplace(&mut ledger, &addr(ADMIN), String::from("bazaar"), 10001);
    assert_eq!(r, Err(ErrorKind::PreconditionFailed));
    let r = program.init_marketplace(&mut ledger, &addr(ADMIN), "b".repeat(33), 1);
    assert_eq!(r, Err(ErrorKind::PreconditionFailed));
    let first = program.init_marketplace(&mut ledger, &addr(ADMIN), String::from("bazaar"), 10000).unwrap();
    assert_eq!(program.record(&first).unwrap().fee, 10000);
    let r = program.init_marketplace(&mut ledger, &addr(ADMIN), String::from("bazaar"), 10001);
    assert_eq!(r, Err(ErrorKind::Collision));
    let long = program.init_marketplace(&mut ledger, &addr(ADMIN), "b".repeat(32), 0).unwrap();
    assert_eq!(program.record(&long).unwrap().name, "b".repeat(32));
    let empty = program.init_marketplace(&mut ledger, &addr(ADMIN), String::new(), 0).unwrap();
    assert_eq!(program.record(&empty).unwrap().name, "");
}

#[test]
fn init_marketplace_rejects_a_reward_mint_address_in_use() {
    let (mut program, mut ledger) = setup();
    let id = Pubkey::new_from_array([PROGRAM; 32]);
    let (expected, _) = Pubkey::find_program_address(&[b"marketplace", b"bazaar"], &id);
    let (rewards, _) = Pubkey::find_program_address(&[b"rewards", expected.as_ref()], &id);
    let rewards = Address::new(rewards.to_bytes());
    ledger.create_mint(&rewards, 2, &addr(ADMIN)).unwrap();
    let r = program.init_marketplace(&mut ledger, &addr(ADMIN), String::from("bazaar"), 250);
    assert_eq!(r, Err(ErrorKind::Collision));
    assert_eq!(program.record(&Address::new(expected.to_bytes())), None);
    assert_eq!(ledger.mint(&rewards), Some(Mint { decimals: 2, authority: addr(ADMIN), supply: 0 }));
}

#[test]
fn init_marketplace_at_works_on_the_given_accounts() {
    let (mut program, mut ledger) = setup();
    let bumps = InitializeBumps { marketplace: 254, rewards_mint: 253, treasury: 252 };
    let r = program.init_marketplace_at(
        &mut ledger, &addr(ADMIN), String::from("bazaar"), 250, &addr(60), &bumps, &addr(61), &addr(62),
    );
    assert_eq!(r, Ok(()));
    assert_eq!(
        program.record(&addr(60)),
        Some(&Marketplace {
            admin: addr(ADMIN),
            name: String::from("bazaar"),
            fee: 250,
            treasury: addr(62),
            rewards_mint: addr(61),
            bump: 254,
        })
    );
    assert_eq!(ledger.mint(&addr(61)), Some(Mint { decimals: 6, authority: addr(60), supply: 0 }));
    let r = program.init_marketplace_at(
        &mut ledger, &addr(6), String::from("souk"), 1, &addr(60), &bumps, &addr(71), &addr(72),
    );
    assert_eq!(r, Err(ErrorKind::Collision));
    assert_eq!(ledger.mint(&addr(71)), None);
    let r = program.init_marketplace_at(
        &mut ledger, &addr(6), String::from("souk"), 10001, &addr(60), &bumps, &addr(71), &addr(72),
    );
    assert_eq!(r, Err(ErrorKind::Collision));
    let r = program.init_marketplace_at(
        &mut ledger, &addr(6), "s".repeat(33), 1, &addr(60), &bumps, &addr(71), &addr(72),
    );
    assert_eq!(r, Err(ErrorKind::PreconditionFailed));
    assert_eq!(program.record(&addr(60)).unwrap().name, "bazaar");
    assert_eq!(program.record(&addr(60)).unwrap().admin, addr(ADMIN));
    let r = program.init_marketplace_at(
        &mut ledger, &addr(6), String::from("souk"), 1, &addr(70), &bumps, &addr(61), &addr(72),
    );
    assert_eq!(r, Err(ErrorKind::Collision));
    assert_eq!(program.record(&addr(70)), None);
    let r = program.init_marketplace_at(
        &mut ledger, &addr(6), String::from("souk"), 10001, &addr(70), &bumps, &addr(71), &addr(72),
    );
    assert_eq!(r, Err(ErrorKind::PreconditionFailed));
    assert_eq!(program.record(&addr(70)), None);
    assert_eq!(ledger.mint(&addr(71)), None);
}

#[test]
fn setup_calls_create_the_reward_mint_under_the_record() {
    let accounts = blank_accounts();
    assert_eq!(
        accounts.calls(),
        vec![Instruction::CreateMint { address: addr(61), decimals: 6, authority: addr(60) }]
    );
    let mut other = blank_accounts();
    other.admin = addr(9);
    other.rewards_mint.data = Mint { decimals: 2, authority: addr(9), supply: 7 };
    assert_eq!(other.calls(), accounts.calls());
}

#[test]
fn check_name_and_check_fee() {
    assert!(check_name(""));
    assert!(check_name(&"x".repeat(32)));
    assert!(!check_name(&"x".repeat(33)));
    assert!(check_name(&"é".repeat(16)));
    assert!(!check_name(&"é".repeat(17)));
    assert!(check_fee(0));
    assert!(check_fee(10000));
    assert!(!check_fee(10001));
}

#[test]
fn init_on_a_place_in_use_collides_whatever_the_fee() {
    let bumps = InitializeBumps { marketplace: 254, rewards_mint: 253, treasury: 252 };
    let mut accounts = blank_accounts();
    assert_eq!(accounts.init(String::from("bazaar"), 250, &bumps), Ok(()));
    let taken = accounts.clone();
    for (admin, fee) in [(ADMIN, 250u16), (ADMIN, 10001), (6, 0), (6, u16::MAX)] {
        accounts.admin = addr(admin);
        assert_eq!(accounts.init(String::from("bazaar"), fee, &bumps), Err(ErrorKind::Collision));
        assert_eq!(accounts.marketplace, taken.marketplace);
    }
    accounts.admin = addr(ADMIN);
    assert_eq!(accounts.init("b".repeat(33), 250, &bumps), Err(ErrorKind::PreconditionFailed));
    assert_eq!(accounts, taken);
}

#[test]
fn second_init_leaves_the_record_and_other_names_coexist() {
    let (mut program, mut ledger) = setup();
    let first = program.init_marketplace(&mut ledger, &addr(ADMIN), String::from("bazaar"), 250).unwrap();
    let other = program.init_marketplace(&mut ledger, &addr(6), String::from("souk"), 10).unwrap();
    let again = program.init_marketplace(&mut ledger, &addr(6), String::from("bazaar"), 10001);
    assert_eq!(again, Err(ErrorKind::Collision));
    let record = program.record(&first).unwrap();
    assert_eq!((record.admin, record.fee, record.name.as_str()), (addr(ADMIN), 250, "bazaar"));
    let record = program.record(&other).unwrap();
    assert_eq!((record.admin, record.fee, record.name.as_str()), (addr(6), 10, "souk"));
    assert_eq!(ledger.mint(&program.record(&first).unwrap().rewards_mint).unwrap().authority, first);
    assert_eq!(ledger.mint(&program.record(&other).unwrap().rewards_mint).unwrap().authority, other);
}
