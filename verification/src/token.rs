//! Tokens: a user identifier sealed under the secret key, as base64 text.
//!
//! The bytes of a token are `nonce || ciphertext || tag`: twelve bytes of
//! nonce, the eight bytes of the identifier encrypted with AES-256-GCM, and
//! the sixteen bytes of the authentication tag. No associated data is used.

use crate::bytes::{be_bytes, be_value, i64_from_be_bytes, i64_to_be_bytes, lemma_be_value_of_bytes};
use crate::error::AuthError;
use crate::key::{get_key, KeyStore};
use crate::user::UserID;
use aes_gcm::aead::generic_array::GenericArray;
use aes_gcm::aead::Aead;
use aes_gcm::{AeadInPlace, Aes256Gcm, NewAead};
use rand::RngCore;
use vstd::prelude::*;
use vstd::slice::slice_to_vec;

verus! {

/// The number of bytes in a nonce.
pub const NONCE_LEN: usize = 12;

/// The number of bytes in an authentication tag.
pub const TAG_LEN: usize = 16;

/// The number of bytes that a user identifier takes, sealed or not.
pub const ID_LEN: usize = 8;

/// The number of bytes in a token, before it is written as base64.
pub const TOKEN_LEN: usize = 36;

/// The number of characters in a token.
pub const TOKEN_TEXT_LEN: usize = 48;

/// The longest plaintext, in bytes, that is handed to AES-GCM for sealing.
/// It lies two blocks below 2^36 bytes: from one block below, the cipher's
/// 32-bit block counter would run out.
pub const GCM_MAX_PLAINTEXT: u64 = 0xF_FFFF_FFE0;

/// The longest ciphertext with its tag, in bytes, that is handed to AES-GCM
/// for opening: what seals the longest plaintext.
pub const GCM_MAX_SEALED: u64 = 0xF_FFFF_FFF0;

/// The ciphertext and the tag that AES-256-GCM gives for `plaintext` under
/// `key` and `nonce`, with no associated data: what
/// `AeadInPlace::encrypt_in_place_detached` of `aes_gcm::Aes256Gcm` leaves in
/// its buffer, and what it returns.
pub uninterp spec fn gcm_seal(key: Seq<u8>, nonce: Seq<u8>, plaintext: Seq<u8>) -> (
    Seq<u8>,
    Seq<u8>,
);

/// The plaintext that AES-256-GCM recovers from `sealed`, a ciphertext with
/// its tag behind it, under `key` and `nonce` with no associated data; `None`
/// where `sealed` does not authenticate. It is what `Aead::decrypt` of
/// `aes_gcm::Aes256Gcm` returns.
pub uninterp spec fn gcm_open(key: Seq<u8>, nonce: Seq<u8>, sealed: Seq<u8>) -> Option<Seq<u8>>;

/// The standard base64 text, padded, of `bytes`: what `base64::encode`
/// returns.
pub uninterp spec fn base64_text(bytes: Seq<u8>) -> Seq<char>;

/// The bytes that `text` stands for as standard base64, with or without its
/// padding; `None` where `text` is not base64. It is what `base64::decode`
/// returns.
pub uninterp spec fn base64_bytes(text: Seq<char>) -> Option<Seq<u8>>;

/// `AeadInPlace::encrypt_in_place_detached` of `Aes256Gcm`, with the cipher
/// made from `key` by `NewAead::new` and with empty associated data.
///
/// On a buffer no longer than `GCM_MAX_PLAINTEXT` the call succeeds: it
/// replaces the plaintext in the buffer by a ciphertext of the same length and
/// returns the tag. Opening that ciphertext, with the tag behind it, under
/// the same key and nonce gives the plaintext back: decryption computes the
/// tag in the same way and undoes the same keystream. On a longer buffer the
/// call panics or fails, so none is handed to it.
#[verifier::external_body]
fn aes_gcm_seal(key: &[u8; 32], nonce: &[u8; 12], buffer: &mut Vec<u8>) -> (tag: Option<[u8; 16]>)
    requires
        old(buffer)@.len() <= GCM_MAX_PLAINTEXT,
    ensures
        tag is Some,
        tag matches Some(t) ==> (final(buffer)@, t@) == gcm_seal(key@, nonce@, old(buffer)@),
        final(buffer)@.len() == old(buffer)@.len(),
        tag matches Some(t) ==> gcm_open(key@, nonce@, final(buffer)@ + t@) == Some(old(buffer)@),
{
    let cipher = Aes256Gcm::new(GenericArray::from_slice(key));
    let nonce = GenericArray::from_slice(nonce);
    match cipher.encrypt_in_place_detached(nonce, b"", buffer.as_mut_slice()) {
        Ok(tag) => Some(tag.into()),
        Err(_) => None,
    }
}

/// `Aead::decrypt` of `Aes256Gcm`, with the cipher made from `key` by
/// `NewAead::new` and with empty associated data.
///
/// An error of the call comes back as `None`. The call panics on a nonce of
/// another length than twelve bytes, and on an authentic message so long
/// that the cipher's block counter would run out: `requires` leaves both
/// out.
#[verifier::external_body]
fn aes_gcm_open(key: &[u8; 32], nonce: &[u8], sealed: &[u8]) -> (plain: Option<Vec<u8>>)
    requires
        nonce@.len() == NONCE_LEN,
        sealed@.len() <= GCM_MAX_SEALED,
    ensures
        plain is Some <==> gcm_open(key@, nonce@, sealed@) is Some,
        plain matches Some(p) ==> gcm_open(key@, nonce@, sealed@) == Some(p@),
{
    let cipher = Aes256Gcm::new(GenericArray::from_slice(key));
    cipher.decrypt(GenericArray::from_slice(nonce), sealed).ok()
}

/// `base64::encode`: the standard alphabet, with padding.
///
/// The text has four characters for every three bytes, the last group
/// padded, and `base64::decode` reads it back as `bytes`. The call panics
/// where that length does not fit in `usize`.
#[verifier::external_body]
fn base64_encode(bytes: &Vec<u8>) -> (text: String)
    requires
        bytes@.len() / 3 * 4 + 4 <= usize::MAX,
    ensures
        text@ == base64_text(bytes@),
        text@.len() == (bytes@.len() + 2) / 3 * 4,
        base64_bytes(text@) == Some(bytes@),
{
    base64::encode(bytes)
}

/// `base64::decode`: the standard alphabet; the padding at the end may be
/// left out. An error of the call, whatever its kind, comes back as `None`.
#[verifier::external_body]
fn base64_decode(text: &String) -> (bytes: Option<Vec<u8>>)
    ensures
        bytes is Some <==> base64_bytes(text@) is Some,
        bytes matches Some(b) ==> base64_bytes(text@) == Some(b@),
{
    base64::decode(text).ok()
}

/// `RngCore::try_fill_bytes` on `rand::thread_rng()`: twelve bytes from the
/// thread's generator, which the operating system seeds. Nothing is known of
/// the value. The thread's generator reports no error from this call; the
/// call aborts only if the operating system's source of entropy fails when
/// the generator is seeded, at its first use in a thread or at a later
/// reseeding.
#[verifier::external_body]
fn random_nonce() -> (nonce: [u8; 12]) {
    let mut nonce = [0u8; 12];
    rand::thread_rng().try_fill_bytes(&mut nonce).expect("couldn't random fill nonce");
    nonce
}

/// The bytes of the token for `user` under `key` and `nonce`.
pub open spec fn sealed_bytes(key: Seq<u8>, nonce: Seq<u8>, user: UserID) -> Seq<u8> {
    let (ciphertext, tag) = gcm_seal(key, nonce, be_bytes(user.0));
    nonce + ciphertext + tag
}

/// The token for `user` under `key` and `nonce`.
pub open spec fn token_text(key: Seq<u8>, nonce: Seq<u8>, user: UserID) -> Seq<char> {
    base64_text(sealed_bytes(key, nonce, user))
}

/// Whether `text` is the token for `user` under `key` and `nonce`, in all its
/// parts: twelve bytes of nonce, then the eight bytes of ciphertext and the
/// sixteen of tag that seal the big-endian bytes of the identifier, written
/// as base64 that reads back as those bytes; and the ciphertext with the tag
/// opens, under the key and the nonce, to the bytes of the identifier.
pub open spec fn is_token_of(key: Seq<u8>, nonce: Seq<u8>, user: UserID, text: Seq<char>) -> bool {
    let (ciphertext, tag) = gcm_seal(key, nonce, be_bytes(user.0));
    &&& nonce.len() == NONCE_LEN
    &&& ciphertext.len() == ID_LEN
    &&& tag.len() == TAG_LEN
    &&& gcm_open(key, nonce, ciphertext + tag) == Some(be_bytes(user.0))
    &&& text == token_text(key, nonce, user)
    &&& text.len() == TOKEN_TEXT_LEN
    &&& base64_bytes(text) == Some(sealed_bytes(key, nonce, user))
}

/// The user that an opened token names: the plaintext must be there and be
/// the eight bytes of an identifier.
pub open spec fn opened_user(plain: Option<Seq<u8>>) -> Result<UserID, AuthError> {
    match plain {
        Some(p) => if p.len() == ID_LEN {
            Ok(UserID(be_value(p)))
        } else {
            Err(AuthError::DecryptError)
        },
        None => Err(AuthError::DecryptError),
    }
}

/// The user that the bytes of a token name under `key`.
///
/// Bytes that hold no more than a nonce are too short. Bytes of any other
/// length than that of a token cannot hold an identifier. The rest names a
/// user if it opens under the key and the nonce it starts with.
pub open spec fn unsealed(key: Seq<u8>, data: Seq<u8>) -> Result<UserID, AuthError> {
    if data.len() <= NONCE_LEN {
        Err(AuthError::ShortData)
    } else if data.len() != TOKEN_LEN {
        Err(AuthError::DecryptError)
    } else {
        opened_user(
            gcm_open(
                key,
                data.subrange(0, NONCE_LEN as int),
                data.subrange(NONCE_LEN as int, data.len() as int),
            ),
        )
    }
}

/// The user that a token names under `key`.
pub open spec fn decoded(key: Seq<u8>, text: Seq<char>) -> Result<UserID, AuthError> {
    match base64_bytes(text) {
        Some(data) => unsealed(key, data),
        None => Err(AuthError::BadBase64),
    }
}

/// A token names a user only where its text is base64 of exactly as many
/// bytes as a token has. Text that is not base64 is `BadBase64`; base64 of no
/// more bytes than a nonce is `ShortData`; base64 of any other number of
/// bytes than a token has is `DecryptError`, as is a token that does not open
/// under the key.
pub proof fn lemma_malformed_token(key: Seq<u8>, text: Seq<char>)
    ensures
        base64_bytes(text) is None ==> decoded(key, text) == Err::<UserID, AuthError>(
            AuthError::BadBase64,
        ),
        base64_bytes(text) matches Some(data) ==> (data.len() <= NONCE_LEN ==> decoded(key, text)
            == Err::<UserID, AuthError>(AuthError::ShortData)),
        base64_bytes(text) matches Some(data) ==> (data.len() > NONCE_LEN && data.len()
            != TOKEN_LEN ==> decoded(key, text) == Err::<UserID, AuthError>(
            AuthError::DecryptError,
        )),
        decoded(key, text) is Ok ==> base64_bytes(text) is Some && base64_bytes(text).unwrap().len()
            == TOKEN_LEN,
        decoded(key, text) matches Err(reason) ==> reason == AuthError::BadBase64 || reason
            == AuthError::ShortData || reason == AuthError::DecryptError,
{
}

/// A token that does not open under the key fails to decrypt: where the
/// text is base64 of more bytes than a nonce, and what follows the nonce does
/// not open under the key and that nonce, the token is `DecryptError`,
/// whatever the key and whatever the bytes.
pub proof fn lemma_unopened_token(key: Seq<u8>, text: Seq<char>)
    requires
        base64_bytes(text) matches Some(data) && data.len() > NONCE_LEN && gcm_open(
            key,
            data.subrange(0, NONCE_LEN as int),
            data.subrange(NONCE_LEN as int, data.len() as int),
        ) is None,
    ensures
        decoded(key, text) == Err::<UserID, AuthError>(AuthError::DecryptError),
{
}

/// The parts of a token stand at fixed places in its bytes: the nonce in the
/// first twelve, the ciphertext in the next eight, the tag in the last
/// sixteen. The token reads back as its user, and tokens of different nonces
/// differ.
pub proof fn lemma_token_parts(key: Seq<u8>, nonce: Seq<u8>, user: UserID, text: Seq<char>)
    requires
        is_token_of(key, nonce, user, text),
    ensures
        base64_bytes(text) matches Some(data) && data.len() == TOKEN_LEN && data.subrange(
            0,
            NONCE_LEN as int,
        ) == nonce && data.subrange(NONCE_LEN as int, NONCE_LEN + ID_LEN) == gcm_seal(
            key,
            nonce,
            be_bytes(user.0),
        ).0 && data.subrange(NONCE_LEN + ID_LEN, TOKEN_LEN as int) == gcm_seal(
            key,
            nonce,
            be_bytes(user.0),
        ).1,
        decoded(key, text) == Ok::<UserID, AuthError>(user),
        forall|other: Seq<u8>, whom: UserID|
            other != nonce ==> !#[trigger] is_token_of(key, other, whom, text),
{
    let (ciphertext, tag) = gcm_seal(key, nonce, be_bytes(user.0));
    let data = sealed_bytes(key, nonce, user);
    assert(data.subrange(0, NONCE_LEN as int) =~= nonce);
    assert(data.subrange(NONCE_LEN as int, NONCE_LEN + ID_LEN) =~= ciphertext);
    assert(data.subrange(NONCE_LEN + ID_LEN, TOKEN_LEN as int) =~= tag);
    assert(data.subrange(NONCE_LEN as int, data.len() as int) =~= ciphertext + tag);
    lemma_be_value_of_bytes(user.0);
    assert forall|other: Seq<u8>, whom: UserID| other != nonce implies !#[trigger] is_token_of(
        key,
        other,
        whom,
        text,
    ) by {
        if is_token_of(key, other, whom, text) {
            let theirs = sealed_bytes(key, other, whom);
            assert(theirs == data);
            assert(theirs.subrange(0, NONCE_LEN as int) =~= other);
        }
    }
}

/// Adds the bytes of `part` to the end of `out`.
fn append(out: &mut Vec<u8>, part: &[u8])
    ensures
        final(out)@ == old(out)@ + part@,
{
    let mut i: usize = 0;
    while i < part.len()
        invariant
            i <= part@.len(),
            out@ == old(out)@ + part@.subrange(0, i as int),
        decreases part@.len() - i,
    {
        out.push(part[i]);
        i += 1;
    }
    assert(part@.subrange(0, part@.len() as int) =~= part@);
}

/// Puts the three parts of a token one behind the other.
pub fn frame_token(nonce: &[u8; 12], ciphertext: &[u8], tag: &[u8; 16]) -> (data: Vec<u8>)
    ensures
        data@ == nonce@ + ciphertext@ + tag@,
{
    let mut data: Vec<u8> = Vec::new();
    append(&mut data, nonce);
    append(&mut data, ciphertext);
    append(&mut data, tag);
    data
}

/// Reads the plaintext of an opened token as a user identifier. A token that
/// did not open, or whose plaintext is not eight bytes long, fails to
/// decrypt.
pub fn user_of_plaintext(plain: Option<Vec<u8>>) -> (r: Result<UserID, AuthError>)
    ensures
        r == match plain {
            Some(p) => opened_user(Some(p@)),
            None => opened_user(None),
        },
{
    match plain {
        Some(p) => {
            if p.len() == ID_LEN {
                let bytes: [u8; 8] = [p[0], p[1], p[2], p[3], p[4], p[5], p[6], p[7]];
                assert(bytes@ =~= p@);
                Ok(UserID(i64_from_be_bytes(&bytes)))
            } else {
                Err(AuthError::DecryptError)
            }
        },
        None => Err(AuthError::DecryptError),
    }
}

/// Opens the bytes of a token under the key of the store.
pub fn unseal_user(store: &KeyStore, data: &[u8]) -> (r: Result<UserID, AuthError>)
    requires
        store.is_set(),
    ensures
        r == unsealed(store.key_bytes(), data@),
{
    if data.len() <= NONCE_LEN {
        return Err(AuthError::ShortData);
    }
    if data.len() != TOKEN_LEN {
        return Err(AuthError::DecryptError);
    }
    let (nonce, cipher) = data.split_at(NONCE_LEN);
    let plain = aes_gcm_open(get_key(store), nonce, cipher);
    user_of_plaintext(plain)
}

/// Seals `user` under the key of the store with the nonce given, and writes
/// the token out as base64.
///
/// A nonce must never serve twice under one key: this function is for callers
/// that draw a fresh one for every call.
pub fn user_cookie_with_nonce(store: &KeyStore, nonce: &[u8; 12], user: UserID) -> (token: String)
    requires
        store.is_set(),
    ensures
        is_token_of(store.key_bytes(), nonce@, user, token@),
        decoded(store.key_bytes(), token@) == Ok::<UserID, AuthError>(user),
{
    let key = get_key(store);
    let plain = i64_to_be_bytes(user.0);
    let mut in_out = slice_to_vec(&plain);
    let tag = aes_gcm_seal(key, nonce, &mut in_out).unwrap();
    let data = frame_token(nonce, in_out.as_slice(), &tag);
    proof {
        lemma_be_value_of_bytes(user.0);
        assert(data@.subrange(0, NONCE_LEN as int) =~= nonce@);
        assert(data@.subrange(NONCE_LEN as int, data@.len() as int) =~= in_out@ + tag@);
    }
    base64_encode(&data)
}

/// Makes the token for `user`: the identifier sealed under the key of the
/// store with a nonce drawn afresh, as base64 text.
pub fn user_cookie_generate(store: &KeyStore, user: UserID) -> (token: String)
    requires
        store.is_set(),
    ensures
        exists|nonce: Seq<u8>| #[trigger] is_token_of(store.key_bytes(), nonce, user, token@),
        token@.len() == TOKEN_TEXT_LEN,
        decoded(store.key_bytes(), token@) == Ok::<UserID, AuthError>(user),
{
    let nonce = random_nonce();
    let token = user_cookie_with_nonce(store, &nonce, user);
    assert(is_token_of(store.key_bytes(), nonce@, user, token@));
    token
}

/// Reads a token: the user it names under the key of the store, or the
/// first reason for which it names none.
pub fn user_cookie_decode(store: &KeyStore, cookie: String) -> (r: Result<UserID, AuthError>)
    requires
        store.is_set(),
    ensures
        r == decoded(store.key_bytes(), cookie@),
{
    match base64_decode(&cookie) {
        Some(data) => unseal_user(store, data.as_slice()),
        None => Err(AuthError::BadBase64),
    }
}

} // verus!
