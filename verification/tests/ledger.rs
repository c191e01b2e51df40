use powchain::{Block, Blockchain};

fn is_hex64(s: &str) -> bool {
    s.len() == 64 && s.bytes().all(|b| b.is_ascii_digit() || (b'a'..=b'f').contains(&b))
}

fn block(index: u64, timestamp: u64, proof_of_work: u64, previous_hash: &str, hash: &str) -> Block {
    Block {
        index,
        timestamp,
        proof_of_work,
        previous_hash: previous_hash.to_string(),
        hash: hash.to_string(),
    }
}

#[test]
fn calculate_hash_known_empty_fields() {
    let b = block(0, 0, 0, "", "");
    assert_eq!(
        b.calculate_hash(),
        "35773ef8f40a7fad93dd10ea4cf39cf31d16a8b30c06f5c37ba28b6d203dc364"
    );
}

#[test]
fn calculate_hash_known_plain_fields() {
    let b = block(3, 1234567890123, 99, "00abcdef", "");
    assert_eq!(
        b.calculate_hash(),
        "2af440e7fd75107255a8e94fcee82075c51d954adcfe870ed85d6cbddc31909d"
    );
}

#[test]
fn calculate_hash_escapes_quote() {
    let b = block(1, 2, 3, "a\"b", "");
    assert_eq!(
        b.calculate_hash(),
        "ae6185dd0f3080178adfc825db70baa34101587e1b5986f56e3f72e109928558"
    );
}

#[test]
fn calculate_hash_escapes_control_bytes() {
    let b = block(7, 1700000000000, 42, "\n\u{0001}", "");
    assert_eq!(
        b.calculate_hash(),
        "530f2aaa480c74dc2b1a14c1cb8adb7f7dbed913d705e5ef94f255897c2f5d53"
    );
}

#[test]
fn calculate_hash_deterministic() {
    let b = block(5, 777, 12, "00ff", "");
    assert_eq!(b.calculate_hash(), b.calculate_hash());
}

#[test]
fn calculate_hash_ignores_stored_hash() {
    let solved = block(3, 1234567890123, 99, "00abcdef", "");
    let stamped = block(3, 1234567890123, 99, "00abcdef", "not a real hash");
    assert_eq!(solved.calculate_hash(), stamped.calculate_hash());
}

#[test]
fn block_new_starts_unmined() {
    let b = Block::new(9, "xyz".to_string());
    assert_eq!(b.index, 9);
    assert_eq!(b.proof_of_work, 0);
    assert_eq!(b.previous_hash, "xyz");
    assert_eq!(b.hash, "");
}

#[test]
fn mine_solves_and_preserves_fields() {
    let mut b = Block::new(5, "00abcdef".to_string());
    b.mine(1);
    assert_eq!(b.index, 5);
    assert_eq!(b.previous_hash, "00abcdef");
    assert!(b.hash.starts_with("0"));
    assert_eq!(b.hash, b.calculate_hash());
}

#[test]
fn genesis_invariants() {
    let ledger = Blockchain::new(3);
    assert_eq!(ledger.chain.len(), 1);
    assert_eq!(ledger.chain[0].index, 0);
    assert_eq!(ledger.chain[0].proof_of_work, 0);
    assert_eq!(ledger.chain[0].previous_hash, "");
    assert_eq!(ledger.chain[0].hash, "");
    assert_eq!(ledger.genesis_block.index, 0);
    assert_eq!(ledger.genesis_block.previous_hash, "");
    assert_eq!(ledger.genesis_block.hash, "");
    assert_eq!(ledger.difficulty, 3);
}

#[test]
fn difficulty_zero_first_hash_wins() {
    let mut ledger = Blockchain::new(0);
    ledger.add_block();
    assert_eq!(ledger.chain.len(), 2);
    let b = &ledger.chain[1];
    assert!(is_hex64(&b.hash));
    assert_eq!(b.proof_of_work, 0);
    assert_eq!(b.index, 1);
}

#[test]
fn difficulty_one_finds_least_nonce() {
    let mut ledger = Blockchain::new(1);
    ledger.add_block();
    let b = &ledger.chain[1];
    assert!(b.hash.starts_with("0"));
    assert_eq!(b.hash, b.calculate_hash());
    if b.proof_of_work > 0 {
        let almost = Block {
            index: b.index,
            timestamp: b.timestamp,
            proof_of_work: b.proof_of_work - 1,
            previous_hash: b.previous_hash.clone(),
            hash: String::new(),
        };
        assert!(!almost.calculate_hash().starts_with("0"));
    }
}

#[test]
fn two_appends_grow_in_order() {
    let mut ledger = Blockchain::new(1);
    ledger.add_block();
    ledger.add_block();
    assert_eq!(ledger.chain.len(), 3);
    for (i, b) in ledger.chain.iter().enumerate() {
        assert_eq!(b.index, i as u64);
    }
    for b in &ledger.chain[1..] {
        assert!(b.hash.starts_with("0"));
        assert_eq!(b.hash, b.calculate_hash());
    }
}

#[test]
fn linkage_follows_previous_link() {
    let mut ledger = Blockchain::new(1);
    ledger.add_block();
    ledger.add_block();
    assert_eq!(ledger.chain[1].previous_hash, ledger.chain[0].previous_hash);
    assert_eq!(ledger.chain[2].previous_hash, ledger.chain[1].previous_hash);
}

#[test]
fn difficulty_two_prefix() {
    let mut b = Block::new(1, String::new());
    b.mine(2);
    assert!(b.hash.starts_with("00"));
    assert!(is_hex64(&b.hash));
}
