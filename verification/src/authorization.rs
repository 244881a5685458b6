//! The token authority: it issues and verifies signed, time-bounded identity
//! assertions from one secret key, and hashes passwords for the account
//! handlers. No token is stored; validity is recomputed from the token itself.

use crate::crypto::{
    digest, hmac_sha3_256, mac_matches, mac_tag, random_block, random_nonce, sha3_256,
    timestamp_in_range, unix_time,
};
use crate::encoding::{be_bytes, lemma_be_bytes_injective, push_all, push_be_bytes};
use vstd::prelude::*;
use vstd::utf8::{encode_utf8, encode_utf8_decode_utf8};

verus! {

/// How long a token stays valid after it was issued, in seconds: one day.
pub const TOKEN_LIFETIME: i64 = 86400;

/// The one secret of the relay: a 256-bit key, made once when the process
/// starts and kept for its lifetime. Tokens signed under another key do not
/// verify under this one.
pub struct TokenAuthority {
    key: [u8; 32],
}

/// Why no token was issued.
#[derive(Clone, Copy, Debug, PartialEq, Eq)]
pub enum TokenError {
    /// The expiration time, a day after the time of issue, is not a 64-bit
    /// number of seconds.
    ExpirationOutOfRange,
}

/// A signed identity assertion.
#[derive(Clone, Debug, PartialEq, Eq)]
pub struct Token {
    pub username: String,
    pub expiration_time: i64,
    pub nonce: [u8; 12],
    pub mac: Vec<u8>,
}

/// What a token holds.
pub struct TokenView {
    pub username: Seq<char>,
    pub expiration_time: i64,
    pub nonce: Seq<u8>,
    pub mac: Seq<u8>,
}

impl View for Token {
    type V = TokenView;

    open spec fn view(&self) -> TokenView {
        TokenView {
            username: self.username@,
            expiration_time: self.expiration_time,
            nonce: self.nonce@,
            mac: self.mac@,
        }
    }
}

impl TokenView {
    /// Every token carries a nonce of twelve bytes.
    pub open spec fn well_formed(self) -> bool {
        self.nonce.len() == 12
    }
}

impl TokenAuthority {
    /// The secret key.
    pub closed spec fn key(&self) -> Seq<u8> {
        self.key@
    }

    /// An authority that signs and verifies under `key`.
    pub fn new(key: [u8; 32]) -> (authority: TokenAuthority)
        ensures
            authority.key() == key@,
    {
        TokenAuthority { key }
    }

    /// An authority under a key drawn from the random source.
    pub fn generate() -> (authority: TokenAuthority)
        ensures
            authority.key().len() == 32,
    {
        TokenAuthority { key: random_block() }
    }
}

/// The bytes that a token's tag authenticates: the username in UTF-8, the
/// expiration time in eight big-endian bytes, then the nonce.
pub open spec fn aad_spec(username: Seq<char>, expiration_time: i64, nonce: Seq<u8>) -> Seq<u8> {
    encode_utf8(username) + be_bytes(expiration_time) + nonce
}

/// The tag that `key` gives to the three signed fields.
pub open spec fn tag_spec(
    key: Seq<u8>,
    username: Seq<char>,
    expiration_time: i64,
    nonce: Seq<u8>,
) -> Seq<u8> {
    hmac_sha3_256(key, aad_spec(username, expiration_time, nonce))
}

/// The token that `key` issues to `username` at time `now` with `nonce`.
pub open spec fn issued(key: Seq<u8>, username: Seq<char>, now: i64, nonce: Seq<u8>) -> TokenView
    recommends
        now + TOKEN_LIFETIME <= i64::MAX,
{
    let expiration_time = (now + TOKEN_LIFETIME) as i64;
    TokenView {
        username,
        expiration_time,
        nonce,
        mac: tag_spec(key, username, expiration_time, nonce),
    }
}

/// A token is authentic under `key` when its tag is the one that `key` gives
/// to its other three fields.
pub open spec fn authentic(key: Seq<u8>, token: TokenView) -> bool {
    token.mac == tag_spec(key, token.username, token.expiration_time, token.nonce)
}

/// What verification under `key` at time `now` says of `token`: the username
/// where the token has not expired and is authentic, nothing otherwise.
pub open spec fn verified(key: Seq<u8>, token: TokenView, now: i64) -> Option<Seq<char>> {
    if now <= token.expiration_time && authentic(key, token) {
        Some(token.username)
    } else {
        None
    }
}

/// The digest stored for a password: SHA3-256 of the salt followed by the
/// password in UTF-8.
pub open spec fn password_digest(password: Seq<char>, salt: Seq<u8>) -> Seq<u8> {
    sha3_256(salt + encode_utf8(password))
}

/// Builds the bytes that a token's tag authenticates.
pub fn aad(username: &str, expiration_time: i64, nonce: [u8; 12]) -> (out: Vec<u8>)
    ensures
        out@ == aad_spec(username@, expiration_time, nonce@),
{
    let mut out: Vec<u8> = Vec::new();
    push_all(&mut out, username.as_bytes());
    push_be_bytes(&mut out, expiration_time);
    push_all(&mut out, nonce.as_slice());
    assert(out@ =~= aad_spec(username@, expiration_time, nonce@));
    out
}

/// Issues a token to `username` at time `now` with the given nonce: it
/// expires a day after `now`, and its tag signs the username, the
/// expiration time and the nonce.
pub fn create_token_at(
    authority: &TokenAuthority,
    username: &str,
    now: i64,
    nonce: [u8; 12],
) -> (res: Result<Token, TokenError>)
    ensures
        match res {
            Ok(token) => now + TOKEN_LIFETIME <= i64::MAX && token@ == issued(
                authority.key(),
                username@,
                now,
                nonce@,
            ),
            Err(e) => now + TOKEN_LIFETIME > i64::MAX && e == TokenError::ExpirationOutOfRange,
        },
{
    if now > i64::MAX - TOKEN_LIFETIME {
        return Err(TokenError::ExpirationOutOfRange);
    }
    let expiration_time: i64 = now + TOKEN_LIFETIME;
    let signed = aad(username, expiration_time, nonce);
    let mac = mac_tag(authority.key.as_slice(), signed.as_slice());
    Ok(Token { username: username.to_owned(), expiration_time, nonce, mac })
}

/// Issues a token to `username` now, with a fresh random nonce. This always
/// succeeds: a day after any time that the clock can show is still a 64-bit
/// number of seconds. The token is the one that `create_token_at` gives for
/// the time that the clock showed and the nonce that was drawn.
pub fn create_token(authority: &TokenAuthority, username: &str) -> (res: Result<Token, TokenError>)
    ensures
        res is Ok,
        exists|now: i64|
            timestamp_in_range(now) && res->Ok_0@ == #[trigger] issued(
                authority.key(),
                username@,
                now,
                res->Ok_0@.nonce,
            ),
{
    let now = unix_time();
    let nonce = random_nonce();
    let res = create_token_at(authority, username, now, nonce);
    proof {
        assert(now + TOKEN_LIFETIME <= i64::MAX);
        assert(res->Ok_0@ == issued(authority.key(), username@, now, res->Ok_0@.nonce));
    }
    res
}

/// Verifies `token` at time `now`: the username where the token has not
/// expired and its tag is the one that the authority's key gives to its
/// fields, nothing otherwise. The tag is compared in constant time.
pub fn get_username_from_token_if_valid_at<'a>(
    authority: &TokenAuthority,
    token: &'a Token,
    now: i64,
) -> (res: Option<&'a str>)
    ensures
        match res {
            Some(username) => verified(authority.key(), token@, now) == Some(username@),
            None => verified(authority.key(), token@, now) is None,
        },
{
    if now > token.expiration_time {
        return None;
    }
    let signed = aad(token.username.as_str(), token.expiration_time, token.nonce);
    if !mac_matches(authority.key.as_slice(), signed.as_slice(), token.mac.as_slice()) {
        return None;
    }
    Some(token.username.as_str())
}

/// Verifies `token` against the clock: the answer is the one that
/// `get_username_from_token_if_valid_at` gives for the time that the clock
/// showed.
pub fn get_username_from_token_if_valid<'a>(authority: &TokenAuthority, token: &'a Token) -> (res:
    Option<&'a str>)
    ensures
        exists|now: i64|
            match res {
                Some(username) => #[trigger] verified(authority.key(), token@, now) == Some(
                    username@,
                ),
                None => verified(authority.key(), token@, now) is None,
            },
{
    let now = unix_time();
    get_username_from_token_if_valid_at(authority, token, now)
}

/// Hashes a password for storage: SHA3-256 of the salt followed by the
/// password. The result is a function of the two arguments.
pub fn hash_password(password: &str, salt: [u8; 32]) -> (out: Vec<u8>)
    ensures
        out@ == password_digest(password@, salt@),
{
    let mut salted: Vec<u8> = Vec::new();
    push_all(&mut salted, salt.as_slice());
    push_all(&mut salted, password.as_bytes());
    assert(salted@ =~= salt@ + encode_utf8(password@));
    digest(salted.as_slice())
}

/// The signed bytes determine the three signed fields: two usernames,
/// expiration times and twelve-byte nonces with the same signed bytes are
/// the same.
pub proof fn lemma_aad_injective(
    username1: Seq<char>,
    expiration_time1: i64,
    nonce1: Seq<u8>,
    username2: Seq<char>,
    expiration_time2: i64,
    nonce2: Seq<u8>,
)
    requires
        nonce1.len() == 12,
        nonce2.len() == 12,
        aad_spec(username1, expiration_time1, nonce1) == aad_spec(
            username2,
            expiration_time2,
            nonce2,
        ),
    ensures
        username1 == username2,
        expiration_time1 == expiration_time2,
        nonce1 == nonce2,
{
    let a1 = aad_spec(username1, expiration_time1, nonce1);
    let a2 = aad_spec(username2, expiration_time2, nonce2);
    let e1 = encode_utf8(username1);
    let e2 = encode_utf8(username2);
    let n = e1.len() as int;
    assert(a1.len() == e1.len() + 8 + 12);
    assert(a2.len() == e2.len() + 8 + 12);
    assert(e1 =~= a1.subrange(0, n));
    assert(e2 =~= a2.subrange(0, n));
    assert(be_bytes(expiration_time1) =~= a1.subrange(n, n + 8));
    assert(be_bytes(expiration_time2) =~= a2.subrange(n, n + 8));
    assert(nonce1 =~= a1.subrange(n + 8, n + 20));
    assert(nonce2 =~= a2.subrange(n + 8, n + 20));
    encode_utf8_decode_utf8(username1);
    encode_utf8_decode_utf8(username2);
    lemma_be_bytes_injective(expiration_time1, expiration_time2);
}

/// A token verifies as its username from the moment it is issued until its
/// expiration time, that time included, and not after it.
pub proof fn lemma_issued_token_verifies_until_expiry(
    key: Seq<u8>,
    username: Seq<char>,
    now: i64,
    nonce: Seq<u8>,
    check_time: i64,
)
    requires
        now + TOKEN_LIFETIME <= i64::MAX,
    ensures
        issued(key, username, now, nonce).expiration_time == now + TOKEN_LIFETIME,
        verified(key, issued(key, username, now, nonce), now) == Some(username),
        check_time <= now + TOKEN_LIFETIME ==> verified(
            key,
            issued(key, username, now, nonce),
            check_time,
        ) == Some(username),
        check_time > now + TOKEN_LIFETIME ==> verified(
            key,
            issued(key, username, now, nonce),
            check_time,
        ) is None,
{
}

/// Whatever its tag, a token is rejected at every time after its expiration
/// time; an authentic one is accepted at every time up to it.
pub proof fn lemma_expiration_bounds_validity(key: Seq<u8>, token: TokenView, check_time: i64)
    ensures
        check_time > token.expiration_time ==> verified(key, token, check_time) is None,
        check_time <= token.expiration_time && authentic(key, token) ==> verified(
            key,
            token,
            check_time,
        ) == Some(token.username),
{
}

/// A token whose tag was altered, in one byte or in more, is rejected.
pub proof fn lemma_altered_tag_is_rejected(
    key: Seq<u8>,
    token: TokenView,
    altered: TokenView,
    check_time: i64,
)
    requires
        authentic(key, token),
        altered.username == token.username,
        altered.expiration_time == token.expiration_time,
        altered.nonce == token.nonce,
        altered.mac != token.mac,
    ensures
        verified(key, altered, check_time) is None,
{
}

/// A token whose username, expiration time or nonce was altered, in one byte
/// or in more, no longer carries the bytes that its tag signed. It is
/// rejected unless the key gives the altered bytes the very tag that it gave
/// to the unaltered ones: a collision of the keyed tag.
pub proof fn lemma_altered_fields_are_rejected(
    key: Seq<u8>,
    token: TokenView,
    altered: TokenView,
    check_time: i64,
)
    requires
        token.well_formed(),
        altered.well_formed(),
        authentic(key, token),
        altered.mac == token.mac,
        altered.username != token.username || altered.expiration_time != token.expiration_time
            || altered.nonce != token.nonce,
    ensures
        aad_spec(altered.username, altered.expiration_time, altered.nonce) != aad_spec(
            token.username,
            token.expiration_time,
            token.nonce,
        ),
        hmac_sha3_256(key, aad_spec(altered.username, altered.expiration_time, altered.nonce))
            != hmac_sha3_256(key, aad_spec(token.username, token.expiration_time, token.nonce))
            ==> verified(key, altered, check_time) is None,
{
    if aad_spec(altered.username, altered.expiration_time, altered.nonce) == aad_spec(
        token.username,
        token.expiration_time,
        token.nonce,
    ) {
        lemma_aad_injective(
            altered.username,
            altered.expiration_time,
            altered.nonce,
            token.username,
            token.expiration_time,
            token.nonce,
        );
    }
}

/// Two tokens issued with different nonces sign different bytes, whatever
/// the usernames and the times of issue.
pub proof fn lemma_fresh_nonce_changes_signed_bytes(
    key: Seq<u8>,
    username1: Seq<char>,
    now1: i64,
    nonce1: Seq<u8>,
    username2: Seq<char>,
    now2: i64,
    nonce2: Seq<u8>,
)
    requires
        nonce1.len() == 12,
        nonce2.len() == 12,
        nonce1 != nonce2,
    ensures
        issued(key, username1, now1, nonce1).nonce != issued(key, username2, now2, nonce2).nonce,
        aad_spec(username1, issued(key, username1, now1, nonce1).expiration_time, nonce1)
            != aad_spec(username2, issued(key, username2, now2, nonce2).expiration_time, nonce2),
{
    let t1 = issued(key, username1, now1, nonce1);
    let t2 = issued(key, username2, now2, nonce2);
    if aad_spec(username1, t1.expiration_time, nonce1) == aad_spec(
        username2,
        t2.expiration_time,
        nonce2,
    ) {
        lemma_aad_injective(
            username1,
            t1.expiration_time,
            nonce1,
            username2,
            t2.expiration_time,
            nonce2,
        );
    }
}

/// Two different salts of one length put different bytes under the digest of
/// one password.
pub proof fn lemma_salt_changes_hashed_bytes(password: Seq<char>, salt1: Seq<u8>, salt2: Seq<u8>)
    requires
        salt1.len() == salt2.len(),
        salt1 != salt2,
    ensures
        salt1 + encode_utf8(password) != salt2 + encode_utf8(password),
{
    let n = salt1.len() as int;
    let a = salt1 + encode_utf8(password);
    let b = salt2 + encode_utf8(password);
    if a == b {
        assert(salt1 =~= a.subrange(0, n));
        assert(salt2 =~= b.subrange(0, n));
    }
}

} // verus!
