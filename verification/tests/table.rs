use escrow_market::address::Address;
use escrow_market::ledger::Holding;
use escrow_market::table::Table;

fn key(fill: u8) -> Address {
    Address::new([fill; 32])
}

fn holding(amount: u64) -> Holding {
    Holding { mint: key(200), authority: key(201), amount }
}

#[test]
fn table_starts_empty() {
    let t: Table<Holding> = Table::new();
    assert!(!t.contains(&key(1)));
    assert_eq!(t.get(&key(1)), None);
}

#[test]
fn table_put_then_get() {
    let mut t: Table<Holding> = Table::new();
    t.put(key(1), holding(10));
    t.put(key(2), holding(20));
    assert!(t.contains(&key(1)));
    assert_eq!(t.get(&key(1)), Some(&holding(10)));
    assert_eq!(t.get(&key(2)), Some(&holding(20)));
    assert_eq!(t.get(&key(3)), None);
}

#[test]
fn table_put_replaces_the_value_under_a_key() {
    let mut t: Table<Holding> = Table::new();
    t.put(key(1), holding(10));
    t.put(key(2), holding(20));
    t.put(key(1), holding(11));
    assert_eq!(t.get(&key(1)), Some(&holding(11)));
    assert_eq!(t.get(&key(2)), Some(&holding(20)));
    assert_eq!(t.remove(&key(1)), Some(holding(11)));
    assert_eq!(t.remove(&key(1)), None);
}

#[test]
fn table_remove_hands_the_value_out_and_keeps_the_rest() {
    let mut t: Table<Holding> = Table::new();
    t.put(key(1), holding(10));
    t.put(key(2), holding(20));
    t.put(key(3), holding(30));
    assert_eq!(t.remove(&key(2)), Some(holding(20)));
    assert!(!t.contains(&key(2)));
    assert_eq!(t.get(&key(1)), Some(&holding(10)));
    assert_eq!(t.get(&key(3)), Some(&holding(30)));
    assert_eq!(t.remove(&key(9)), None);
}

#[test]
fn table_keys_differ_by_any_byte() {
    let mut bytes = [0u8; 32];
    let first = Address::new(bytes);
    bytes[31] = 1;
    let second = Address::new(bytes);
    let mut t: Table<Holding> = Table::new();
    t.put(first, holding(1));
    assert!(!t.contains(&second));
    t.put(second, holding(2));
    assert_eq!(t.get(&first), Some(&holding(1)));
    assert_eq!(t.get(&second), Some(&holding(2)));
}

#[test]
fn table_duplicate_is_independent() {
    let mut t: Table<Holding> = Table::new();
    t.put(key(1), holding(10));
    let mut copy = t.duplicate();
    copy.put(key(1), holding(99));
    copy.put(key(2), holding(20));
    assert_eq!(t.get(&key(1)), Some(&holding(10)));
    assert!(!t.contains(&key(2)));
    assert_eq!(copy.get(&key(1)), Some(&holding(99)));
}

#[test]
fn address_same_and_bytes() {
    let a = key(7);
    let b = Address::new([7; 32]);
    let c = key(8);
    assert!(a.same(&b));
    assert!(!a.same(&c));
    assert_eq!(a.to_vec(), vec![7u8; 32]);
    assert_eq!(a.bytes, [7u8; 32]);
    assert_eq!(Address::default().bytes, [0u8; 32]);
    let mut bytes = [7u8; 32];
    bytes[0] = 6;
    assert!(!a.same(&Address::new(bytes)));
}
