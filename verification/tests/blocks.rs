use vitabit::block::{has_leading_zeros, Block, MINING_DIFFICULTY};
use vitabit::digest::sha256_hex;

const GENESIS_MESSAGE: &str = "No princípio era o Verbo, imutável como VitaBit. alea jacta est";

fn plain_block(index: u64, timestamp: i64, previous_hash: &str, nonce: u64, data: &str, extra: u64) -> Block {
    Block {
        index,
        timestamp,
        previous_hash: previous_hash.to_string(),
        hash: String::new(),
        nonce,
        data: data.to_string(),
        extra_reward: extra,
    }
}

#[test]
fn test_block_creation() {
    let block = Block::new(0, String::from("0"), String::from("Genesis Block"), 0);
    assert!(block.hash.starts_with("0000"));
    assert_eq!(block.index, 0);
    assert_eq!(block.previous_hash, "0");
    assert_eq!(block.data, "Genesis Block");
}

#[test]
fn new_block_is_sealed_with_the_smallest_nonce() {
    let block = Block::new(5, String::from("before"), String::from("payload"), 17);
    assert_eq!(block.index, 5);
    assert_eq!(block.extra_reward, 17);
    assert_eq!(block.hash, block.calculate_hash());
    assert!(has_leading_zeros(&block.hash, MINING_DIFFICULTY));
    let mut earlier = block.clone();
    for nonce in 0..block.nonce.min(200) {
        earlier.nonce = nonce;
        assert!(!has_leading_zeros(&earlier.calculate_hash(), MINING_DIFFICULTY));
    }
}

#[test]
fn hash_is_the_digest_of_the_joined_fields() {
    let block = plain_block(1, 1700000000, "abc", 7, "payload", 3);
    assert_eq!(
        block.calculate_hash(),
        "9a24af6b043d1fe44794e8dad1f21730a2fa08851235e77f50297bfbb7b39642"
    );
    let negative = plain_block(0, -5, "0", 0, "", 0);
    assert_eq!(
        negative.calculate_hash(),
        "846112c5b34f0990da01b1887a662c6c65aced34d273d6371679663a0c723dc1"
    );
}

#[test]
fn hash_does_not_depend_on_the_hash_field() {
    let mut block = plain_block(1, 1700000000, "abc", 7, "payload", 3);
    let before = block.calculate_hash();
    block.hash = String::from("anything");
    assert_eq!(block.calculate_hash(), before);
}

#[test]
fn hash_changes_with_every_hashed_field() {
    let base = plain_block(1, 1700000000, "abc", 7, "payload", 3);
    let hash = base.calculate_hash();
    assert_ne!(plain_block(2, 1700000000, "abc", 7, "payload", 3).calculate_hash(), hash);
    assert_ne!(plain_block(1, 1700000001, "abc", 7, "payload", 3).calculate_hash(), hash);
    assert_ne!(plain_block(1, 1700000000, "abd", 7, "payload", 3).calculate_hash(), hash);
    assert_ne!(plain_block(1, 1700000000, "abc", 8, "payload", 3).calculate_hash(), hash);
    assert_ne!(plain_block(1, 1700000000, "abc", 7, "payloae", 3).calculate_hash(), hash);
    assert_ne!(plain_block(1, 1700000000, "abc", 7, "payload", 4).calculate_hash(), hash);
}

#[test]
fn mining_finds_the_first_nonce_that_meets_the_difficulty() {
    let mut block = plain_block(7, 1234567890, "prev", 999, "data", 9);
    block.mine(4);
    assert_eq!(block.nonce, 73525);
    assert_eq!(block.hash, "000043dcf8a2e1f54572ff342884fcdf4b906d4b53bf0aacecdc6a0c1117dc02");
    assert_eq!(block.index, 7);
    assert_eq!(block.timestamp, 1234567890);
    assert_eq!(block.previous_hash, "prev");
    assert_eq!(block.data, "data");
    assert_eq!(block.extra_reward, 9);
}

#[test]
fn mining_at_lower_difficulties() {
    let mut two = plain_block(3, 42, "p", 0, "x", 1);
    two.mine(2);
    assert_eq!(two.nonce, 191);
    assert_eq!(two.hash, "00b2d2489d61e903853b73fe26f034f02e6db32056471c3c9a8f2de786e4e059");
    let mut none = plain_block(3, 42, "p", 55, "x", 1);
    none.mine(0);
    assert_eq!(none.nonce, 0);
    assert_eq!(none.hash, "797d4c2ac08da7512287c9a0fd9b08923670850485050861d856fe385c96bc59");
}

#[test]
fn new_at_mines_at_difficulty_four() {
    let block = Block::new_at(1, 0, String::new(), String::new(), 0);
    assert_eq!(block.nonce, 65238);
    assert_eq!(block.hash, "000087d0845e1cea5f554f21a394fca5182d50843c8a3ca35a27029e747df3ae");
    assert_eq!(block.timestamp, 0);
}

#[test]
fn genesis_block_is_fixed_but_for_its_date() {
    let block = Block::genesis_at(1700000063);
    assert_eq!(block.index, 0);
    assert_eq!(block.timestamp, 1700000063);
    assert_eq!(block.previous_hash, "0");
    assert_eq!(block.data, GENESIS_MESSAGE);
    assert_eq!(block.extra_reward, 0);
    assert_eq!(block.nonce, 12);
    assert_eq!(block.hash, "00001d0b0bece1f294d83331966630224d14b5dafc396237b4e07e49a51fcb29");
}

#[test]
fn genesis_from_the_clock() {
    let block = Block::genesis();
    assert_eq!(block.index, 0);
    assert_eq!(block.previous_hash, "0");
    assert_eq!(block.data, GENESIS_MESSAGE);
    assert_eq!(block.extra_reward, 0);
    assert!(block.hash.starts_with("0000"));
    assert_eq!(block.hash, block.calculate_hash());
    assert!(block.timestamp > 1_600_000_000);
}

#[test]
fn leading_zeros_are_counted_in_characters() {
    assert!(has_leading_zeros("0000ab", 4));
    assert!(has_leading_zeros("0000ab", 0));
    assert!(has_leading_zeros("0000", 4));
    assert!(!has_leading_zeros("0000", 5));
    assert!(!has_leading_zeros("000a0", 4));
    assert!(!has_leading_zeros("", 1));
    assert!(has_leading_zeros("", 0));
    assert!(has_leading_zeros("00é0", 2));
    assert!(!has_leading_zeros("00é0", 3));
    assert!(!has_leading_zeros("é000", 1));
}

#[test]
fn digest_of_known_text() {
    assert_eq!(
        sha256_hex(b"abc"),
        "ba7816bf8f01cfea414140de5dae2223b00361a396177a9cb410ff61f20015ad"
    );
    assert_eq!(
        sha256_hex(b""),
        "e3b0c44298fc1c149afbf4c8996fb92427ae41e4649b934ca495991b7852b855"
    );
}
