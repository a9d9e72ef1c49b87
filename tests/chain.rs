use blockchain::block::{Block, Header, Timestamp, Transaction};
use blockchain::chain::Chain;
use blockchain::encoding::{push_framed, push_le, Encode};
use blockchain::ledger::Ledger;
use blockchain::pow::has_leading_zeros;

fn tx(sender: &str, receiver: &str, amount: u64) -> Transaction {
    Transaction { sender: sender.to_string(), receiver: receiver.to_string(), amount }
}

fn last_block(c: &Chain) -> &Block {
    c.blocks().last().unwrap()
}

fn zeros() -> String {
    "0".repeat(64)
}

#[test]
fn genesis_block_pays_the_miner() {
    let c = Chain::new("miner1".to_string(), 1);
    assert_eq!(c.blocks().len(), 1);
    let g = &c.blocks()[0];
    assert_eq!(g.count, 1);
    assert_eq!(g.transactions.len(), 1);
    assert_eq!(g.transactions[0].sender, "Root");
    assert_eq!(g.transactions[0].receiver, "miner1");
    assert_eq!(g.transactions[0].amount, 100);
    assert_eq!(g.header.pre_hash, zeros());
    assert_eq!(c.balance(&"miner1".to_string()), Some(100));
    let h = c.last_hash();
    assert_eq!(h.len(), 64);
    assert!(h.starts_with('0'));
    assert!(h.chars().all(|ch| ch.is_ascii_hexdigit() && !ch.is_ascii_uppercase()));
}

#[test]
fn transfer_then_block_moves_funds() {
    let mut c = Chain::new("miner1".to_string(), 1);
    assert!(c.new_transaction("miner1".to_string(), "bob".to_string(), 30));
    assert_eq!(c.pending_transactions().len(), 1);
    assert!(c.generate_new_block());
    let b = last_block(&c);
    assert_eq!(b.count, 2);
    assert_eq!(b.transactions.len(), 2);
    assert_eq!(b.transactions[0].receiver, "miner1");
    assert_eq!(b.transactions[1].sender, "miner1");
    assert_eq!(b.transactions[1].receiver, "bob");
    assert_eq!(b.transactions[1].amount, 30);
    assert_eq!(c.balance(&"miner1".to_string()), Some(170));
    assert_eq!(c.balance(&"bob".to_string()), Some(30));
    assert!(c.pending_transactions().is_empty());
    assert!(c.generate_new_block());
    assert_eq!(last_block(&c).transactions.len(), 1);
}

#[test]
fn insufficient_balance_is_rejected() {
    let mut c = Chain::new("miner1".to_string(), 1);
    assert!(!c.new_transaction("miner1".to_string(), "bob".to_string(), 101));
    assert_eq!(c.balance(&"miner1".to_string()), Some(100));
    assert_eq!(c.balance(&"bob".to_string()), None);
    assert!(c.pending_transactions().is_empty());
    assert!(c.generate_new_block());
    assert_eq!(last_block(&c).transactions.len(), 1);
    assert_eq!(c.balance(&"miner1".to_string()), Some(200));
}

#[test]
fn unknown_sender_is_rejected() {
    let mut c = Chain::new("miner1".to_string(), 1);
    assert!(!c.new_transaction("carol".to_string(), "bob".to_string(), 0));
    assert!(!c.check_transfer_availability(&"carol".to_string(), &"bob".to_string(), 5));
    assert_eq!(c.balance(&"carol".to_string()), None);
    assert_eq!(c.balance(&"bob".to_string()), None);
    assert!(c.pending_transactions().is_empty());
}

#[test]
fn exact_balance_transfer_and_self_transfer() {
    let mut c = Chain::new("miner1".to_string(), 0);
    assert!(c.new_transaction("miner1".to_string(), "miner1".to_string(), 40));
    assert_eq!(c.balance(&"miner1".to_string()), Some(100));
    assert!(c.new_transaction("miner1".to_string(), "bob".to_string(), 100));
    assert_eq!(c.balance(&"miner1".to_string()), Some(0));
    assert_eq!(c.balance(&"bob".to_string()), Some(100));
    assert!(c.generate_new_block());
    assert_eq!(last_block(&c).count, 3);
}

#[test]
fn blocks_are_hash_linked() {
    let mut c = Chain::new("m".to_string(), 1);
    assert!(c.generate_new_block());
    assert!(c.generate_new_block());
    let blocks = c.blocks();
    assert_eq!(blocks.len(), 3);
    assert_eq!(blocks[0].header.pre_hash, zeros());
    for i in 1..blocks.len() {
        assert_eq!(blocks[i].header.pre_hash, Chain::hash(&blocks[i - 1].header));
    }
    assert_eq!(c.last_hash(), Chain::hash(&blocks[2].header));
    for b in blocks {
        assert_eq!(b.count as usize, b.transactions.len());
        assert_eq!(b.header.merkle_root, Chain::get_merkle(&b.transactions));
    }
}

#[test]
fn sealed_headers_meet_difficulty() {
    for d in 0..3u32 {
        let c = Chain::new("m".to_string(), d);
        let h = c.last_hash();
        assert!(h[..d as usize].chars().all(|ch| ch == '0'));
    }
}

#[test]
fn proof_of_work_finds_smallest_nonce() {
    let mut h = Header {
        timestamp: Timestamp { secs: 1_700_000_000, nanos: 5 },
        nonce: 0,
        pre_hash: zeros(),
        merkle_root: "ab".to_string(),
        difficulty: 2,
    };
    assert!(Chain::proof_of_work(&mut h));
    assert!(Chain::hash(&h).starts_with("00"));
    let found = h.nonce;
    for n in 0..found {
        let mut probe = h.clone();
        probe.nonce = n;
        assert!(!Chain::hash(&probe).starts_with("00"));
    }
}

#[test]
fn proof_of_work_refuses_impossible_difficulty() {
    let mut h = Header {
        timestamp: Timestamp { secs: 0, nanos: 0 },
        nonce: 7,
        pre_hash: zeros(),
        merkle_root: zeros(),
        difficulty: 65,
    };
    assert!(!Chain::proof_of_work(&mut h));
    assert_eq!(h.nonce, 7);
}

#[test]
fn difficulty_zero_seals_at_once() {
    let mut h = Header {
        timestamp: Timestamp { secs: 3, nanos: 4 },
        nonce: 9,
        pre_hash: zeros(),
        merkle_root: zeros(),
        difficulty: 0,
    };
    assert!(Chain::proof_of_work(&mut h));
    assert_eq!(h.nonce, 9);
}

#[test]
fn merkle_root_depends_on_order() {
    let a = tx("alice", "bob", 1);
    let b = tx("bob", "carol", 2);
    let c = tx("carol", "alice", 3);
    let r1 = Chain::get_merkle(&vec![a.clone(), b.clone(), c.clone()]);
    let r2 = Chain::get_merkle(&vec![b.clone(), a.clone(), c.clone()]);
    let r3 = Chain::get_merkle(&vec![a.clone(), c.clone(), b.clone()]);
    assert_ne!(r1, r2);
    assert_ne!(r1, r3);
    assert_ne!(r2, r3);
}

#[test]
fn merkle_odd_list_equals_duplicated_last() {
    let a = tx("alice", "bob", 1);
    let b = tx("bob", "carol", 2);
    let c = tx("carol", "alice", 3);
    let odd = Chain::get_merkle(&vec![a.clone(), b.clone(), c.clone()]);
    let even = Chain::get_merkle(&vec![a.clone(), b.clone(), c.clone(), c.clone()]);
    assert_eq!(odd, even);
    let one = Chain::get_merkle(&vec![a.clone()]);
    assert_eq!(one, Chain::get_merkle(&vec![a.clone(), a.clone()]));
}

#[test]
fn merkle_of_one_transaction_hashes_the_pair() {
    let a = tx("alice", "bob", 1);
    let leaf = Chain::hash(&a);
    let pair = format!("{}{}", leaf, leaf);
    assert_eq!(Chain::get_merkle(&vec![a]), Chain::hash(&pair));
}

#[test]
fn merkle_of_three_folds_as_a_queue() {
    let a = tx("a", "b", 1);
    let b = tx("b", "c", 2);
    let c = tx("c", "a", 3);
    let (ha, hb, hc) = (Chain::hash(&a), Chain::hash(&b), Chain::hash(&c));
    let ab = Chain::hash(&format!("{}{}", ha, hb));
    let cc = Chain::hash(&format!("{}{}", hc, hc));
    let root = Chain::hash(&format!("{}{}", ab, cc));
    assert_eq!(Chain::get_merkle(&vec![a, b, c]), root);
}

#[test]
fn hash_is_sha256_in_hex() {
    assert_eq!(
        Chain::hash(&"abc".to_string()),
        "ba7816bf8f01cfea414140de5dae2223b00361a396177a9cb410ff61f20015ad"
    );
    assert_eq!(
        Chain::hash(&String::new()),
        "e3b0c44298fc1c149afbf4c8996fb92427ae41e4649b934ca495991b7852b855"
    );
}

#[test]
fn hex_to_string_pads_each_byte() {
    assert_eq!(Chain::hex_to_string(&[0x00, 0xab, 0x0f, 0x10, 0xff]), "00ab0f10ff");
    assert_eq!(Chain::hex_to_string(&[]), "");
}

#[test]
fn leading_zero_check() {
    assert!(has_leading_zeros(&"00ab".to_string(), 2));
    assert!(!has_leading_zeros(&"0a0b".to_string(), 2));
    assert!(has_leading_zeros(&"abcd".to_string(), 0));
    assert!(!has_leading_zeros(&"00".to_string(), 3));
}

#[test]
fn setters_affect_later_blocks() {
    let mut c = Chain::new("m".to_string(), 1);
    assert!(c.update_reward(50));
    assert!(c.update_difficulty(2));
    assert_eq!(c.reward(), 50);
    assert_eq!(c.difficulty(), 2);
    assert_eq!(c.miner_address(), "m");
    assert!(c.generate_new_block());
    assert_eq!(c.balance(&"m".to_string()), Some(150));
    let b = last_block(&c);
    assert_eq!(b.transactions[0].amount, 50);
    assert_eq!(b.header.difficulty, 2);
    assert!(c.last_hash().starts_with("00"));
    assert_eq!(c.blocks()[0].header.difficulty, 1);
    assert_eq!(c.blocks()[0].transactions[0].amount, 100);
}

#[test]
fn block_at_fixed_time_records_it() {
    let mut c = Chain::new("m".to_string(), 1);
    let t = Timestamp { secs: 42, nanos: 7 };
    assert!(c.generate_new_block_at(t));
    assert_eq!(last_block(&c).header.timestamp, t);
}

#[test]
fn ledger_credit_and_debit() {
    let mut l = Ledger::new();
    let a = "a".to_string();
    assert_eq!(l.balance(&a), None);
    l.credit(&a, 5);
    l.credit(&a, 7);
    assert_eq!(l.balance(&a), Some(12));
    l.debit(&a, 12);
    assert_eq!(l.balance(&a), Some(0));
}

#[test]
fn encodings_are_framed_little_endian() {
    let mut v = Vec::new();
    push_le(&mut v, 0x0102, 4);
    assert_eq!(v, vec![2, 1, 0, 0]);
    let mut w = Vec::new();
    push_framed(&mut w, "hé");
    assert_eq!(w, vec![3, 0, 0, 0, 0, 0, 0, 0, b'h', 0xc3, 0xa9]);
    let t = tx("a", "b", 258);
    assert_eq!(
        t.encode(),
        vec![1, 0, 0, 0, 0, 0, 0, 0, b'a', 1, 0, 0, 0, 0, 0, 0, 0, b'b', 2, 1, 0, 0, 0, 0, 0, 0]
    );
}
