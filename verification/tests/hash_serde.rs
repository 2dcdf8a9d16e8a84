use bcdn::digest::{hash_content, same_hash};
use bcdn::hash_serde::{deserialize, serialize, to_hash, HashTextError};

const HELLO: &str = "ea8f163db38682925e4491c5e58d4bb3506ef8c14eb78a86e908c5624a67200f";

#[test]
fn hash_of_hello() {
    let hash = hash_content(b"hello");
    assert_eq!(serialize(&hash), HELLO);
    assert_eq!(&hash, blake3::hash(b"hello").as_bytes());
}

#[test]
fn hash_of_nothing_is_not_the_hash_of_something() {
    let empty = hash_content(b"");
    assert_eq!(&empty, blake3::hash(b"").as_bytes());
    assert!(!same_hash(&empty, &hash_content(b"hello")));
    assert!(same_hash(&empty, &hash_content(&[])));
}

#[test]
fn serialize_writes_lower_case_pairs() {
    let mut hash = [0u8; 32];
    hash[0] = 0x01;
    hash[1] = 0xAB;
    hash[31] = 0xF0;
    let text = serialize(&hash);
    assert_eq!(text.len(), 64);
    assert_eq!(&text[..4], "01ab");
    assert_eq!(&text[62..], "f0");
    assert_eq!(&text[4..62], "0".repeat(58));
}

#[test]
fn deserialize_reads_either_case() {
    let hash = deserialize(HELLO).unwrap();
    assert_eq!(hash, hash_content(b"hello"));
    assert_eq!(deserialize(&HELLO.to_uppercase()), Ok(hash));
    assert_eq!(serialize(&hash), HELLO);
}

#[test]
fn deserialize_refuses_bad_text() {
    assert_eq!(deserialize("xyz"), Err(HashTextError::Hex));
    assert_eq!(deserialize("abc"), Err(HashTextError::Hex));
    assert_eq!(deserialize(&format!("{}g", &HELLO[..63])), Err(HashTextError::Hex));
    assert_eq!(deserialize("éé"), Err(HashTextError::Hex));
    assert_eq!(deserialize(""), Err(HashTextError::Length));
    assert_eq!(deserialize("abcd"), Err(HashTextError::Length));
    assert_eq!(deserialize(&format!("{}00", HELLO)), Err(HashTextError::Length));
    assert_eq!(HashTextError::Hex.message(), "Failed to decode hex");
    assert_eq!(HashTextError::Length.message(), "Invalid length");
}

#[test]
fn to_hash_needs_thirty_two_bytes() {
    let bytes: Vec<u8> = (0u8..32).collect();
    let hash = to_hash(&bytes).unwrap();
    assert_eq!(hash.to_vec(), bytes);
    assert_eq!(to_hash(&bytes[..31].to_vec()), Err(HashTextError::Length));
    assert_eq!(to_hash(&vec![]), Err(HashTextError::Length));
}
