use std::collections::HashSet;

use aes_gcm::aead::generic_array::GenericArray;
use aes_gcm::aead::Aead;
use aes_gcm::{Aes256Gcm, NewAead};
use dim_auth::token::{
    frame_token, unseal_user, user_cookie_with_nonce, user_of_plaintext, ID_LEN, NONCE_LEN,
    TAG_LEN, TOKEN_LEN, TOKEN_TEXT_LEN,
};
use dim_auth::{
    generate_key, set_key, user_cookie_decode, user_cookie_generate, AuthError, KeyStore, UserID,
};

fn store_with(key: [u8; 32]) -> KeyStore {
    let mut store = KeyStore::new();
    set_key(&mut store, key);
    store
}

fn counting_key() -> [u8; 32] {
    let mut key = [0u8; 32];
    for (i, b) in key.iter_mut().enumerate() {
        *b = i as u8;
    }
    key
}

fn counting_nonce() -> [u8; 12] {
    let mut nonce = [0u8; 12];
    for (i, b) in nonce.iter_mut().enumerate() {
        *b = 100 + i as u8;
    }
    nonce
}

#[test]
fn lengths_add_up() {
    assert_eq!(NONCE_LEN, 12);
    assert_eq!(ID_LEN, 8);
    assert_eq!(TAG_LEN, 16);
    assert_eq!(TOKEN_LEN, NONCE_LEN + ID_LEN + TAG_LEN);
    assert_eq!(TOKEN_TEXT_LEN, (TOKEN_LEN + 2) / 3 * 4);
}

#[test]
fn generated_key_seals_and_opens_user_42() {
    let key = generate_key();
    assert_eq!(key.len(), 32);
    let store = store_with(key);
    let token = user_cookie_generate(&store, UserID(42));
    assert_eq!(token.len(), 48);
    assert!(token.bytes().all(|c| c.is_ascii_alphanumeric() || c == b'+' || c == b'/'));
    assert_eq!(user_cookie_decode(&store, token), Ok(UserID(42)));
}

#[test]
fn token_reads_back_as_its_user() {
    let store = store_with(generate_key());
    for id in [0, 1, -1, 42, 255, 256, 1 << 40, -(1 << 40), i64::MIN, i64::MAX] {
        let token = user_cookie_generate(&store, UserID(id));
        assert_eq!(token.len(), 48);
        assert_eq!(user_cookie_decode(&store, token), Ok(UserID(id)));
    }
}

#[test]
fn token_with_given_nonce_reads_back_as_its_user() {
    let store = store_with(counting_key());
    for id in [0, 7, -7, i64::MIN, i64::MAX] {
        let token = user_cookie_with_nonce(&store, &counting_nonce(), UserID(id));
        assert_eq!(user_cookie_decode(&store, token), Ok(UserID(id)));
    }
}

#[test]
fn token_of_zero_key_and_nonce_is_known() {
    let store = store_with([0u8; 32]);
    assert_eq!(
        user_cookie_with_nonce(&store, &[0u8; 12], UserID(0)),
        "AAAAAAAAAAAAAAAAzqdAPU1ga25mUGcgQ4q2PjQcuOCakdJj"
    );
    assert_eq!(
        user_cookie_with_nonce(&store, &[0u8; 12], UserID(42)),
        "AAAAAAAAAAAAAAAAzqdAPU1ga0S8atC3qpStoX+tCgqQhOpb"
    );
}

#[test]
fn token_of_counting_key_and_nonce_is_known() {
    let store = store_with(counting_key());
    assert_eq!(
        user_cookie_with_nonce(&store, &counting_nonce(), UserID(42)),
        "ZGVmZ2hpamtsbW5vSBveZnnpVrTbFL1cVqEj5KUP05UoFXOF"
    );
    assert_eq!(
        user_cookie_with_nonce(&store, &counting_nonce(), UserID(i64::MIN)),
        "ZGVmZ2hpamtsbW5vyBveZnnpVp57iMWZaKtLv1Fr6X/qobpW"
    );
    assert_eq!(
        user_cookie_with_nonce(&store, &counting_nonce(), UserID(i64::MAX)),
        "ZGVmZ2hpamtsbW5vN+QhmYYWqWHhjak0d7pI7lTcOZcLYZdM"
    );
    let store = store_with([7u8; 32]);
    assert_eq!(
        user_cookie_with_nonce(&store, &[9u8; 12], UserID(-1)),
        "CQkJCQkJCQkJCQkJ2Hp7a0EPPp50HBr7H1YIW1nqxzvRPQxO"
    );
}

#[test]
fn known_token_reads_back() {
    let store = store_with(counting_key());
    let token = String::from("ZGVmZ2hpamtsbW5vSBveZnnpVrTbFL1cVqEj5KUP05UoFXOF");
    assert_eq!(user_cookie_decode(&store, token), Ok(UserID(42)));
    let store = store_with([7u8; 32]);
    let token = String::from("CQkJCQkJCQkJCQkJ2Hp7a0EPPp50HBr7H1YIW1nqxzvRPQxO");
    assert_eq!(user_cookie_decode(&store, token), Ok(UserID(-1)));
}

#[test]
fn token_is_nonce_then_ciphertext_then_tag() {
    let key = counting_key();
    let nonce = counting_nonce();
    let store = store_with(key);
    let token = user_cookie_with_nonce(&store, &nonce, UserID(0x0102_0304_0506_0708));
    let data = base64::decode(&token).unwrap();
    assert_eq!(data.len(), 36);
    assert_eq!(&data[..12], &nonce);
    let plain: [u8; 8] = [1, 2, 3, 4, 5, 6, 7, 8];
    assert_ne!(&data[12..20], &plain);
    let cipher = Aes256Gcm::new(GenericArray::from_slice(&key));
    let sealed = cipher.encrypt(GenericArray::from_slice(&nonce), &plain[..]).unwrap();
    assert_eq!(&data[12..], &sealed[..]);
    assert_eq!(base64::encode(&data), token);
}

#[test]
fn successive_tokens_have_different_nonces() {
    let store = store_with(generate_key());
    let mut seen: HashSet<Vec<u8>> = HashSet::new();
    for _ in 0..2000 {
        let token = user_cookie_generate(&store, UserID(42));
        let data = base64::decode(&token).unwrap();
        assert_eq!(data.len(), 36);
        assert!(seen.insert(data[..12].to_vec()));
    }
    assert_eq!(seen.len(), 2000);
}

#[test]
fn any_flipped_bit_fails_to_decrypt() {
    let store = store_with(generate_key());
    let token = user_cookie_generate(&store, UserID(42));
    let data = base64::decode(&token).unwrap();
    assert_eq!(data.len(), 36);
    for byte in 0..data.len() {
        for bit in 0..8 {
            let mut tampered = data.clone();
            tampered[byte] ^= 1 << bit;
            assert_eq!(unseal_user(&store, &tampered), Err(AuthError::DecryptError));
            assert_eq!(
                user_cookie_decode(&store, base64::encode(&tampered)),
                Err(AuthError::DecryptError)
            );
        }
    }
    assert_eq!(user_cookie_decode(&store, token), Ok(UserID(42)));
}

#[test]
fn token_of_another_key_fails_to_decrypt() {
    let first = store_with(counting_key());
    let second = store_with([7u8; 32]);
    let token = user_cookie_generate(&first, UserID(42));
    assert_eq!(user_cookie_decode(&second, token.clone()), Err(AuthError::DecryptError));
    assert_eq!(user_cookie_decode(&first, token), Ok(UserID(42)));
    let fixed = String::from("ZGVmZ2hpamtsbW5vSBveZnnpVrTbFL1cVqEj5KUP05UoFXOF");
    assert_eq!(user_cookie_decode(&second, fixed), Err(AuthError::DecryptError));
}

#[test]
fn empty_text_is_short_data() {
    let store = store_with(counting_key());
    assert_eq!(user_cookie_decode(&store, String::new()), Err(AuthError::ShortData));
}

#[test]
fn text_that_is_not_base64_is_bad_base64() {
    let store = store_with(counting_key());
    for text in ["not base64!", "****", "A", "AAAA=AAA", "ZGVm ZGVm", "ZGVmZ2hp\n", "AB==CD=="] {
        assert_eq!(user_cookie_decode(&store, text.to_string()), Err(AuthError::BadBase64));
    }
    assert_eq!(user_cookie_decode(&store, "zqdé".to_string()), Err(AuthError::BadBase64));
}

#[test]
fn base64_of_few_bytes_is_short_data() {
    let store = store_with(counting_key());
    for len in 0..=12usize {
        let text = base64::encode(vec![0xabu8; len]);
        assert_eq!(user_cookie_decode(&store, text), Err(AuthError::ShortData));
    }
    assert_eq!(
        user_cookie_decode(&store, "AAAAAAAAAAAAAAAA".to_string()),
        Err(AuthError::ShortData)
    );
    assert_eq!(user_cookie_decode(&store, "AAA".to_string()), Err(AuthError::ShortData));
    assert_eq!(user_cookie_decode(&store, "AAA=".to_string()), Err(AuthError::ShortData));
}

#[test]
fn base64_of_more_bytes_than_a_nonce_fails_to_decrypt() {
    let store = store_with(counting_key());
    for len in [13usize, 14, 20, 27, 28, 35, 36, 37, 44, 100] {
        let text = base64::encode(vec![0xabu8; len]);
        assert_eq!(user_cookie_decode(&store, text), Err(AuthError::DecryptError));
    }
    assert_eq!(
        user_cookie_decode(&store, "AAAAAAAAAAAAAAAAAA==".to_string()),
        Err(AuthError::DecryptError)
    );
}

#[test]
fn bytes_no_longer_than_a_nonce_are_short() {
    let store = store_with(counting_key());
    assert_eq!(unseal_user(&store, &[]), Err(AuthError::ShortData));
    assert_eq!(unseal_user(&store, &[1, 2, 3]), Err(AuthError::ShortData));
    assert_eq!(unseal_user(&store, &[0u8; 12]), Err(AuthError::ShortData));
    assert_eq!(unseal_user(&store, &[0u8; 13]), Err(AuthError::DecryptError));
}

#[test]
fn sealed_bytes_of_another_length_fail_to_decrypt() {
    let key = counting_key();
    let nonce = counting_nonce();
    let store = store_with(key);
    let cipher = Aes256Gcm::new(GenericArray::from_slice(&key));
    for plain in [&b""[..], &b"1234567"[..], &b"123456789"[..], &b"0123456789abcdef"[..]] {
        let sealed = cipher.encrypt(GenericArray::from_slice(&nonce), plain).unwrap();
        let mut data = nonce.to_vec();
        data.extend_from_slice(&sealed);
        assert_eq!(unseal_user(&store, &data), Err(AuthError::DecryptError));
    }
    let sealed = cipher.encrypt(GenericArray::from_slice(&nonce), &b"\0\0\0\0\0\0\x01\x02"[..]).unwrap();
    let mut data = nonce.to_vec();
    data.extend_from_slice(&sealed);
    assert_eq!(unseal_user(&store, &data), Ok(UserID(258)));
}

#[test]
fn opened_bytes_name_the_user() {
    let store = store_with(counting_key());
    let nonce = counting_nonce();
    let token = user_cookie_with_nonce(&store, &nonce, UserID(-12345));
    let data = base64::decode(&token).unwrap();
    assert_eq!(unseal_user(&store, &data), Ok(UserID(-12345)));
}

#[test]
fn frame_puts_the_parts_in_order() {
    let nonce = counting_nonce();
    let tag = [0xeeu8; 16];
    let data = frame_token(&nonce, &[1, 2, 3, 4, 5, 6, 7, 8], &tag);
    assert_eq!(data.len(), 36);
    assert_eq!(&data[..12], &nonce);
    assert_eq!(&data[12..20], &[1, 2, 3, 4, 5, 6, 7, 8]);
    assert_eq!(&data[20..], &tag);
    let bare = frame_token(&nonce, &[], &tag);
    assert_eq!(bare.len(), 28);
    assert_eq!(&bare[12..], &tag);
}

#[test]
fn plaintext_of_eight_bytes_is_a_user() {
    assert_eq!(user_of_plaintext(Some(vec![0, 0, 0, 0, 0, 0, 0, 42])), Ok(UserID(42)));
    assert_eq!(user_of_plaintext(Some(vec![255; 8])), Ok(UserID(-1)));
    assert_eq!(user_of_plaintext(Some(vec![0x80, 0, 0, 0, 0, 0, 0, 0])), Ok(UserID(i64::MIN)));
}

#[test]
fn plaintext_of_another_length_fails_to_decrypt() {
    assert_eq!(user_of_plaintext(Some(vec![])), Err(AuthError::DecryptError));
    assert_eq!(user_of_plaintext(Some(vec![0; 7])), Err(AuthError::DecryptError));
    assert_eq!(user_of_plaintext(Some(vec![0; 9])), Err(AuthError::DecryptError));
    assert_eq!(user_of_plaintext(Some(vec![0; 16])), Err(AuthError::DecryptError));
}

#[test]
fn missing_plaintext_fails_to_decrypt() {
    assert_eq!(user_of_plaintext(None), Err(AuthError::DecryptError));
}
