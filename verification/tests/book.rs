use auto_trading::ProductBook;

#[test]
fn book_insert_and_find() {
    let mut b: ProductBook<u32> = ProductBook::new();
    assert_eq!(b.len(), 0);
    assert_eq!(b.find("BTC-USDT-SWAP"), None);
    b.insert("BTC-USDT-SWAP", 1);
    b.insert("ETH-USDT-SWAP", 2);
    assert_eq!(b.len(), 2);
    assert_eq!(b.find("BTC-USDT-SWAP"), Some(0));
    assert_eq!(b.find("ETH-USDT-SWAP"), Some(1));
    assert_eq!(*b.state(1), 2);
    assert_eq!(b.name(0), "BTC-USDT-SWAP");
}

#[test]
fn book_insert_replaces_in_place() {
    let mut b: ProductBook<u32> = ProductBook::new();
    b.insert("A", 1);
    b.insert("B", 2);
    b.insert("A", 3);
    assert_eq!(b.len(), 2);
    assert_eq!(b.find("A"), Some(0));
    assert_eq!(*b.state(0), 3);
    assert_eq!(*b.state(1), 2);
}

#[test]
fn book_remove_keeps_order() {
    let mut b: ProductBook<u32> = ProductBook::new();
    b.insert("A", 1);
    b.insert("B", 2);
    b.insert("C", 3);
    b.remove("B");
    assert_eq!(b.len(), 2);
    assert_eq!(b.find("B"), None);
    assert_eq!(b.find("C"), Some(1));
    assert_eq!(*b.state(1), 3);
    b.remove("Z");
    assert_eq!(b.len(), 2);
}

#[test]
fn book_state_mut() {
    let mut b: ProductBook<Vec<u64>> = ProductBook::new();
    b.insert("A", vec![]);
    b.state_mut(0).push(7);
    assert_eq!(b.state(0), &vec![7]);
    assert_eq!(b.name(0), "A");
}
