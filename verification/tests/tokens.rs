use chat_relay::authorization::{
    aad, create_token, create_token_at, get_username_from_token_if_valid,
    get_username_from_token_if_valid_at, hash_password, Token, TokenAuthority, TokenError,
    TOKEN_LIFETIME,
};
use chat_relay::encoding::{push_all, push_be_bytes};
use hmac::{Hmac, Mac};
use sha3::{Digest, Sha3_256};

fn authority() -> TokenAuthority {
    let mut key = [0u8; 32];
    for (i, byte) in key.iter_mut().enumerate() {
        *byte = i as u8;
    }
    TokenAuthority::new(key)
}

fn key_bytes() -> Vec<u8> {
    (0u8..32).collect()
}

fn unix_seconds() -> i64 {
    std::time::SystemTime::now()
        .duration_since(std::time::UNIX_EPOCH)
        .unwrap()
        .as_secs() as i64
}

const NONCE: [u8; 12] = [1, 2, 3, 4, 5, 6, 7, 8, 9, 10, 11, 12];

#[test]
fn be_bytes_match_the_standard_encoding() {
    for x in [0i64, 1, -1, 255, 256, 86400, 1_700_000_000, i64::MAX, i64::MIN, -86400] {
        let mut out = vec![7u8];
        push_be_bytes(&mut out, x);
        let mut expected = vec![7u8];
        expected.extend_from_slice(&x.to_be_bytes());
        assert_eq!(out, expected);
    }
}

#[test]
fn push_all_appends() {
    let mut out = vec![1u8, 2];
    push_all(&mut out, &[3, 4, 5]);
    push_all(&mut out, &[]);
    assert_eq!(out, vec![1, 2, 3, 4, 5]);
}

#[test]
fn aad_is_username_then_time_then_nonce() {
    let bytes = aad("ab", 0x0102030405060708, NONCE);
    assert_eq!(
        bytes,
        vec![97, 98, 1, 2, 3, 4, 5, 6, 7, 8, 1, 2, 3, 4, 5, 6, 7, 8, 9, 10, 11, 12]
    );
}

#[test]
fn aad_of_empty_username_and_negative_time() {
    let bytes = aad("", -2, [0; 12]);
    let mut expected = vec![0xff, 0xff, 0xff, 0xff, 0xff, 0xff, 0xff, 0xfe];
    expected.extend_from_slice(&[0; 12]);
    assert_eq!(bytes, expected);
}

#[test]
fn aad_encodes_the_username_as_utf8() {
    let bytes = aad("é", 1, [9; 12]);
    assert_eq!(&bytes[..2], &[0xc3, 0xa9]);
    assert_eq!(bytes.len(), 2 + 8 + 12);
}

#[test]
fn token_expires_a_day_after_issue() {
    let token = create_token_at(&authority(), "alice", 1_000, NONCE).unwrap();
    assert_eq!(TOKEN_LIFETIME, 60 * 60 * 24);
    assert_eq!(token.expiration_time, 87_400);
    assert_eq!(token.username, "alice");
    assert_eq!(token.nonce, NONCE);
}

#[test]
fn token_tag_is_hmac_sha3_256_of_the_signed_fields() {
    let token = create_token_at(&authority(), "alice", 1_000, NONCE).unwrap();
    let mut mac = Hmac::<Sha3_256>::new_from_slice(&key_bytes()).unwrap();
    mac.update(b"alice");
    mac.update(&87_400i64.to_be_bytes());
    mac.update(&NONCE);
    let expected = mac.finalize().into_bytes().to_vec();
    assert_eq!(token.mac, expected);
    assert_eq!(token.mac.len(), 32);
}

#[test]
fn token_tag_matches_the_published_sample() {
    // Key 00..1f and the 34-byte text "Sample message for keylen<blocklen",
    // split into a username, a time and a nonce.
    let expiration = i64::from_be_bytes(*b" for key");
    let token = create_token_at(
        &authority(),
        "Sample message",
        expiration - TOKEN_LIFETIME,
        *b"len<blocklen",
    )
    .unwrap();
    let expected: Vec<u8> = vec![
        0x4f, 0xe8, 0xe2, 0x02, 0xc4, 0xf0, 0x58, 0xe8, 0xdd, 0xdc, 0x23, 0xd8, 0xc3, 0x4e, 0x46,
        0x73, 0x43, 0xe2, 0x35, 0x55, 0xe2, 0x4f, 0xc2, 0xf0, 0x25, 0xd5, 0x98, 0xf5, 0x58, 0xf6,
        0x72, 0x05,
    ];
    assert_eq!(token.mac, expected);
}

#[test]
fn issue_fails_when_the_expiration_overflows() {
    assert_eq!(
        create_token_at(&authority(), "alice", i64::MAX, NONCE),
        Err(TokenError::ExpirationOutOfRange)
    );
    assert_eq!(
        create_token_at(&authority(), "alice", i64::MAX - TOKEN_LIFETIME + 1, NONCE),
        Err(TokenError::ExpirationOutOfRange)
    );
    let last = create_token_at(&authority(), "alice", i64::MAX - TOKEN_LIFETIME, NONCE).unwrap();
    assert_eq!(last.expiration_time, i64::MAX);
}

#[test]
fn issued_token_verifies_immediately() {
    let authority = TokenAuthority::generate();
    for name in ["alice", "", "bob the builder", "zoë \"quoted\" \\ name", "名前"] {
        let token = create_token(&authority, name).unwrap();
        assert_eq!(get_username_from_token_if_valid(&authority, &token), Some(name));
    }
}

#[test]
fn issued_token_expires_a_day_from_now() {
    let before = unix_seconds();
    let token = create_token(&TokenAuthority::generate(), "alice").unwrap();
    let after = unix_seconds();
    assert!(before + TOKEN_LIFETIME <= token.expiration_time);
    assert!(token.expiration_time <= after + TOKEN_LIFETIME);
}

#[test]
fn token_is_valid_up_to_its_expiration_and_not_after() {
    let authority = authority();
    let token = create_token_at(&authority, "alice", 1_000, NONCE).unwrap();
    for now in [i64::MIN, -5, 0, 1_000, 50_000, 87_399, 87_400] {
        assert_eq!(
            get_username_from_token_if_valid_at(&authority, &token, now),
            Some("alice")
        );
    }
    for now in [87_401, 87_402, 1_000_000, i64::MAX] {
        assert_eq!(get_username_from_token_if_valid_at(&authority, &token, now), None);
    }
}

#[test]
fn expired_token_is_rejected_by_the_clock() {
    let authority = authority();
    let token = create_token_at(&authority, "alice", 0, NONCE).unwrap();
    assert_eq!(get_username_from_token_if_valid(&authority, &token), None);
    let fresh = create_token_at(&authority, "alice", unix_seconds(), NONCE).unwrap();
    assert_eq!(get_username_from_token_if_valid(&authority, &fresh), Some("alice"));
}

#[test]
fn flipping_a_byte_of_the_nonce_invalidates() {
    let authority = authority();
    let token = create_token_at(&authority, "alice", 1_000, NONCE).unwrap();
    for i in 0..12 {
        let mut altered = token.clone();
        altered.nonce[i] ^= 0xff;
        assert_eq!(get_username_from_token_if_valid_at(&authority, &altered, 1_000), None);
        let mut bit = token.clone();
        bit.nonce[i] ^= 0x01;
        assert_eq!(get_username_from_token_if_valid_at(&authority, &bit, 1_000), None);
    }
}

#[test]
fn flipping_a_byte_of_the_expiration_invalidates() {
    let authority = authority();
    let token = create_token_at(&authority, "alice", 1_000, NONCE).unwrap();
    for i in 0..8 {
        let mut bytes = token.expiration_time.to_be_bytes();
        bytes[i] ^= 0xff;
        let mut altered = token.clone();
        altered.expiration_time = i64::from_be_bytes(bytes);
        assert_eq!(get_username_from_token_if_valid_at(&authority, &altered, i64::MIN), None);
    }
}

#[test]
fn flipping_a_byte_of_the_tag_invalidates() {
    let authority = authority();
    let token = create_token_at(&authority, "alice", 1_000, NONCE).unwrap();
    for i in 0..token.mac.len() {
        let mut altered = token.clone();
        altered.mac[i] ^= 0xff;
        assert_eq!(get_username_from_token_if_valid_at(&authority, &altered, 1_000), None);
    }
}

#[test]
fn truncated_or_extended_tag_is_rejected() {
    let authority = authority();
    let token = create_token_at(&authority, "alice", 1_000, NONCE).unwrap();
    let mut short = token.clone();
    short.mac.pop();
    assert_eq!(get_username_from_token_if_valid_at(&authority, &short, 1_000), None);
    let mut long = token.clone();
    long.mac.push(0);
    assert_eq!(get_username_from_token_if_valid_at(&authority, &long, 1_000), None);
    let mut empty = token.clone();
    empty.mac.clear();
    assert_eq!(get_username_from_token_if_valid_at(&authority, &empty, 1_000), None);
}

#[test]
fn changing_the_username_invalidates() {
    let authority = authority();
    let token = create_token_at(&authority, "alice", 1_000, NONCE).unwrap();
    let altered = Token { username: "alicf".to_string(), ..token };
    assert_eq!(get_username_from_token_if_valid_at(&authority, &altered, 1_000), None);
}

#[test]
fn token_of_another_key_is_rejected() {
    let token = create_token_at(&authority(), "alice", 1_000, NONCE).unwrap();
    let other = TokenAuthority::new([7; 32]);
    assert_eq!(get_username_from_token_if_valid_at(&other, &token, 1_000), None);
    let generated = TokenAuthority::generate();
    assert_eq!(get_username_from_token_if_valid_at(&generated, &token, 1_000), None);
}

#[test]
fn generated_keys_differ() {
    let first = TokenAuthority::generate();
    let second = TokenAuthority::generate();
    let a = create_token_at(&first, "alice", 1_000, NONCE).unwrap();
    let b = create_token_at(&second, "alice", 1_000, NONCE).unwrap();
    assert_ne!(a.mac, b.mac);
}

#[test]
fn two_issued_tokens_differ_in_nonce_and_tag() {
    let authority = TokenAuthority::generate();
    let first = create_token(&authority, "alice").unwrap();
    let second = create_token(&authority, "alice").unwrap();
    assert_ne!(first.nonce, second.nonce);
    assert_ne!(first.mac, second.mac);
}

#[test]
fn issue_at_is_deterministic() {
    let first = create_token_at(&authority(), "alice", 1_000, NONCE).unwrap();
    let second = create_token_at(&authority(), "alice", 1_000, NONCE).unwrap();
    assert_eq!(first, second);
}

#[test]
fn password_hash_is_sha3_256_of_salt_then_password() {
    let salt = [0x5a; 32];
    let mut hasher = Sha3_256::new();
    hasher.update(salt);
    hasher.update("hunter2");
    let expected = hasher.finalize().to_vec();
    assert_eq!(hash_password("hunter2", salt), expected);
    assert_eq!(expected.len(), 32);
}

#[test]
fn password_hash_depends_on_the_salt() {
    let mut other = [0u8; 32];
    other[31] = 1;
    assert_ne!(hash_password("hunter2", [0; 32]), hash_password("hunter2", other));
    assert_ne!(hash_password("hunter2", [0; 32]), hash_password("hunter3", [0; 32]));
}

#[test]
fn password_hash_is_deterministic() {
    assert_eq!(hash_password("hunter2", [3; 32]), hash_password("hunter2", [3; 32]));
    assert_eq!(hash_password("", [0; 32]), hash_password("", [0; 32]));
}

#[test]
fn password_hash_of_empty_password_is_digest_of_the_salt() {
    let salt = [0u8; 32];
    let expected = Sha3_256::digest(salt).to_vec();
    assert_eq!(hash_password("", salt), expected);
}
