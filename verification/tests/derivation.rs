use anchor_lang::prelude::Pubkey;
use escrow_market::address::Address;
use escrow_market::derivation::{
    derive_address, make_escrow_seeds, make_escrow_signer_seeds, make_marketplace_seeds,
    make_rewards_seeds, make_treasury_seeds, make_associated_seeds, sign, tag,
};

fn addr(fill: u8) -> Address {
    Address::new([fill; 32])
}

#[test]
fn tag_is_the_ascii_word() {
    assert_eq!(tag("escrow"), b"escrow".to_vec());
    assert_eq!(tag("marketplace"), b"marketplace".to_vec());
}

#[test]
fn escrow_seeds_are_tag_maker_and_little_endian_seed() {
    let maker = addr(9);
    let seeds = make_escrow_seeds(&maker, 7);
    assert_eq!(seeds.len(), 3);
    assert_eq!(seeds[0], b"escrow".to_vec());
    assert_eq!(seeds[1], vec![9u8; 32]);
    assert_eq!(seeds[2], vec![7u8, 0, 0, 0, 0, 0, 0, 0]);
    let seeds = make_escrow_seeds(&maker, 0x0102030405060708);
    assert_eq!(seeds[2], vec![8u8, 7, 6, 5, 4, 3, 2, 1]);
}

#[test]
fn signer_seeds_end_with_the_bump() {
    let maker = addr(9);
    let seeds = make_escrow_signer_seeds(&maker, 7, 254);
    assert_eq!(seeds.len(), 4);
    assert_eq!(seeds[3], vec![254u8]);
    assert_eq!(seeds[..3].to_vec(), make_escrow_seeds(&maker, 7));
}

#[test]
fn other_seed_lists() {
    let m = addr(3);
    assert_eq!(make_marketplace_seeds("bazaar"), vec![b"marketplace".to_vec(), b"bazaar".to_vec()]);
    assert_eq!(make_rewards_seeds(&m), vec![b"rewards".to_vec(), vec![3u8; 32]]);
    assert_eq!(make_treasury_seeds(&m), vec![b"treasury".to_vec(), vec![3u8; 32]]);
    assert_eq!(
        make_associated_seeds(&addr(1), &addr(2), &addr(3)),
        vec![vec![1u8; 32], vec![2u8; 32], vec![3u8; 32]]
    );
}

#[test]
fn derive_agrees_with_the_sdk() {
    let program = addr(42);
    let maker = addr(9);
    let seeds = make_escrow_seeds(&maker, 7);
    let (found, bump) = derive_address(&seeds, &program).expect("a bump exists");
    let seed_bytes = 7u64.to_le_bytes();
    let (expected, expected_bump) = Pubkey::find_program_address(
        &[b"escrow", &[9u8; 32], &seed_bytes],
        &Pubkey::new_from_array([42; 32]),
    );
    assert_eq!(found.bytes, expected.to_bytes());
    assert_eq!(bump, expected_bump);
    assert_ne!(found, program);
    assert_ne!(found, maker);
}

#[test]
fn sign_reproduces_the_derived_identity() {
    let program = addr(42);
    let maker = addr(9);
    let (found, bump) = derive_address(&make_escrow_seeds(&maker, 7), &program).unwrap();
    let signer = sign(&make_escrow_signer_seeds(&maker, 7, bump), &program);
    assert_eq!(signer, Some(found));
}

#[test]
fn derive_is_deterministic_and_separates_inputs() {
    let program = addr(42);
    let a = derive_address(&make_escrow_seeds(&addr(9), 7), &program);
    let b = derive_address(&make_escrow_seeds(&addr(9), 7), &program);
    let c = derive_address(&make_escrow_seeds(&addr(9), 8), &program);
    let d = derive_address(&make_escrow_seeds(&addr(10), 7), &program);
    assert_eq!(a, b);
    assert_ne!(a.unwrap().0, c.unwrap().0);
    assert_ne!(a.unwrap().0, d.unwrap().0);
}

#[test]
fn derive_fails_on_an_overlong_seed() {
    let program = addr(42);
    let seeds = vec![b"marketplace".to_vec(), vec![b'x'; 33]];
    assert_eq!(derive_address(&seeds, &program), None);
    assert_eq!(sign(&seeds, &program), None);
}
