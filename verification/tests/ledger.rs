use block_ledger::block::{Block, ChainError};
use block_ledger::block_chain::BlockChain;
use block_ledger::text::{opt_hash_to_string, u64_to_string};

#[test]
fn it_works() {
    let b = Block::new(1, "Genesis".to_string());
    println!("{}", b.get_self_hash().unwrap());
}

#[test]
fn basics() {
    let mut b = BlockChain::new();
    b.append("Alice gave to Bob".to_owned()).unwrap();
    b.append("Bob gave to Alice".to_owned()).unwrap();
    println!("{}", b.render());
    b.append("Charlie gave Alice 30".to_owned()).unwrap();
    println!("{}", b.render());
}

#[test]
fn head_index_counts_appends() {
    let mut c = BlockChain::new();
    assert_eq!(c.len(), 1);
    assert_eq!(c.block_at(0).get_index(), 0);
    for k in 1..6u64 {
        c.append(format!("entry {}", k)).unwrap();
        assert_eq!(c.len(), (k + 1) as usize);
        assert_eq!(c.block_at(c.len() - 1).get_index(), k);
    }
}

#[test]
fn adjacent_blocks_cross_linked() {
    let mut c = BlockChain::new();
    c.append("one".to_owned()).unwrap();
    c.append("two".to_owned()).unwrap();
    c.append("three".to_owned()).unwrap();
    for i in 1..c.len() {
        let prev = c.block_at(i - 1);
        let cur = c.block_at(i);
        assert_eq!(cur.get_previous_hash(), prev.get_self_hash());
        assert_eq!(prev.get_next_hash(), cur.get_self_hash());
        assert_eq!(c.hash_pointer_at(i), prev.get_self_hash());
    }
    assert_eq!(c.hash_pointer_at(0), None);
    assert_eq!(c.block_at(0).get_previous_hash(), None);
    assert_eq!(c.block_at(c.len() - 1).get_next_hash(), None);
}

#[test]
fn second_link_write_rejected() {
    let mut b = Block::with_timestamp(3, 100, "payload".to_string());
    assert_eq!(b.set_next_hash(Some(11)), Ok(()));
    assert_eq!(b.set_next_hash(Some(22)), Err(ChainError::AlreadySet));
    assert_eq!(b.get_next_hash(), Some(11));
    assert_eq!(b.set_previous_hash(Some(33)), Ok(()));
    assert_eq!(b.set_previous_hash(Some(44)), Err(ChainError::AlreadySet));
    assert_eq!(b.get_previous_hash(), Some(33));
    assert_eq!(b.get_self_hash(), Some(Block::calculate_hash(&b)));
}

#[test]
fn tampered_block_rejects_links() {
    let mut b = Block::with_timestamp(2, 50, "original".to_string());
    let sealed_hash = b.get_self_hash();
    b.overwrite_data("altered".to_string());
    assert_eq!(b.set_next_hash(Some(1)), Err(ChainError::Tampered));
    assert_eq!(b.set_previous_hash(Some(2)), Err(ChainError::Tampered));
    assert_eq!(b.get_next_hash(), None);
    assert_eq!(b.get_previous_hash(), None);
    assert_eq!(b.get_self_hash(), sealed_hash);
}

#[test]
fn hash_deterministic_and_content_sensitive() {
    let a = Block::with_timestamp(5, 42, "hello".to_string());
    let b = Block::with_timestamp(5, 42, "hello".to_string());
    assert_eq!(a.get_self_hash(), b.get_self_hash());
    let c = Block::with_timestamp(5, 42, "hellp".to_string());
    assert_ne!(a.get_self_hash(), c.get_self_hash());
    let d = Block::with_timestamp(4, 42, "hello".to_string());
    assert_ne!(a.get_self_hash(), d.get_self_hash());
    let e = Block::with_timestamp(5, 43, "hello".to_string());
    assert_ne!(a.get_self_hash(), e.get_self_hash());
}

#[test]
fn digest_exact_values() {
    assert_eq!(
        Block::with_timestamp(0, 0, String::new()).get_self_hash(),
        Some(590684067820433389)
    );
    assert_eq!(
        Block::with_timestamp(1, 2, "abc".to_string()).get_self_hash(),
        Some(3790919004929928798)
    );
    assert_eq!(
        Block::with_timestamp(5, 42, "hello".to_string()).get_self_hash(),
        Some(3508469249360108574)
    );
}

#[test]
fn end_to_end_two_appends() {
    let mut c = BlockChain::new();
    c.append("Alice gave to Bob".to_string()).unwrap();
    c.append("Bob gave to Alice".to_string()).unwrap();
    assert_eq!(c.len(), 3);
    assert_eq!(c.block_at(0).get_index(), 0);
    assert_eq!(c.block_at(1).get_index(), 1);
    assert_eq!(c.block_at(2).get_index(), 2);
    assert_eq!(c.block_at(0).get_data().as_str(), "Genesis Block");
    assert_eq!(c.block_at(1).get_data().as_str(), "Alice gave to Bob");
    assert_eq!(c.block_at(2).get_data().as_str(), "Bob gave to Alice");
    assert_eq!(c.block_at(1).get_previous_hash(), c.block_at(0).get_self_hash());
    assert_eq!(c.block_at(0).get_next_hash(), c.block_at(1).get_self_hash());
    assert_eq!(c.block_at(2).get_previous_hash(), c.block_at(1).get_self_hash());
    assert_eq!(c.block_at(1).get_next_hash(), c.block_at(2).get_self_hash());
    let rendered = c.render();
    assert_eq!(rendered.matches("  Block: {").count(), 3);
    assert!(rendered.contains("Beginning is the most important part of the work."));
    assert!(rendered.ends_with("-Plato"));
}

#[test]
fn tampered_head_stops_append() {
    let mut c = BlockChain::new();
    c.append("honest".to_string()).unwrap();
    c.overwrite_head_data("forged".to_string());
    assert_eq!(c.append("next".to_string()), Err(ChainError::Tampered));
    assert_eq!(c.len(), 2);
    assert_eq!(c.block_at(1).get_data().as_str(), "forged");
    assert_eq!(c.block_at(1).get_next_hash(), None);
}

#[test]
fn empty_block_is_inert() {
    let mut e = Block::empty();
    assert_eq!(e.get_self_hash(), None);
    assert_eq!(e.get_index(), 0);
    assert_eq!(e.get_timestamp(), 0);
    assert_eq!(e.get_data().as_str(), "");
    assert_eq!(e.set_next_hash(Some(9)), Err(ChainError::Tampered));
    assert_eq!(e.set_previous_hash(Some(9)), Err(ChainError::Tampered));
    assert_eq!(e.get_next_hash(), None);
    assert_eq!(e.get_previous_hash(), None);
}

#[test]
fn decimal_rendering() {
    assert_eq!(u64_to_string(0).as_str(), "0");
    assert_eq!(u64_to_string(7).as_str(), "7");
    assert_eq!(u64_to_string(12345).as_str(), "12345");
    assert_eq!(u64_to_string(u64::MAX).as_str(), "18446744073709551615");
    assert_eq!(opt_hash_to_string(None).as_str(), "None");
    assert_eq!(opt_hash_to_string(Some(42)).as_str(), "42");
}

#[test]
fn block_render_exact() {
    let b = Block::with_timestamp(5, 42, "hello".to_string());
    assert_eq!(
        b.render().as_str(),
        "  Block: {\n    timestamp: 42,\n    data: hello,\n    hash: 3508469249360108574\n  }"
    );
}

#[test]
fn fresh_block_matches_recomputation() {
    let b = Block::new(9, "data".to_string());
    assert_eq!(b.get_self_hash(), Some(Block::calculate_hash(&b)));
    assert_eq!(b.get_index(), 9);
    assert_eq!(b.get_data().as_str(), "data");
    assert_eq!(b.get_previous_hash(), None);
    assert_eq!(b.get_next_hash(), None);
}
