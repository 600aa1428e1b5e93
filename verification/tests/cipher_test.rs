use copiepate::cipher::{Cipher, CipherError, TAG_SIZE};
use copiepate::nonce::Nonce;
use copiepate::KEY_SIZE;

const CIPHER_TEST_KEY: &[u8; KEY_SIZE] = b"__WARNING_UNSECURE_KEY_TESTING__";

fn test_cipher() -> Cipher {
    Cipher::new(CIPHER_TEST_KEY)
}

#[test]
fn decrypt_gives_back_what_encrypt_took() {
    let cipher = test_cipher();
    let nonce = Nonce::from([4; 12]);
    for message in [&b""[..], &b"c"[..], &b"Test Message"[..], &[0u8; 1000][..]] {
        let sealed = cipher.encrypt(&nonce, message).unwrap();
        assert_eq!(sealed.len(), message.len() + TAG_SIZE);
        assert_eq!(cipher.decrypt(&nonce, &sealed).unwrap(), message);
    }
}

#[test]
fn encrypt_hides_the_message() {
    let cipher = test_cipher();
    let nonce = Nonce::from([4; 12]);
    let message = b"Test Message";
    let sealed = cipher.encrypt(&nonce, message).unwrap();
    assert_ne!(&sealed[..message.len()], &message[..]);
}

#[test]
fn encrypt_is_a_function_of_key_nonce_and_message() {
    let nonce = Nonce::from([4; 12]);
    let first = test_cipher().encrypt(&nonce, b"Test Message").unwrap();
    let second = test_cipher().clone().encrypt(&nonce, b"Test Message").unwrap();
    assert_eq!(first, second);
    let other_nonce = test_cipher().encrypt(&nonce.consume(), b"Test Message").unwrap();
    assert_ne!(first, other_nonce);
    let other_key = Cipher::new(&[1; 32]).encrypt(&nonce, b"Test Message").unwrap();
    assert_ne!(first, other_key);
}

#[test]
fn encrypt_matches_the_known_answer() {
    // ChaCha20-Poly1305 with a zero key and a zero nonce, on nothing: the
    // tag alone.
    let sealed = Cipher::new(&[0; 32]).encrypt(&Nonce::from([0; 12]), b"").unwrap();
    assert_eq!(
        sealed,
        vec![
            0x4e, 0xb9, 0x72, 0xc9, 0xa8, 0xfb, 0x3a, 0x1b, 0x38, 0x2b, 0xb4, 0xd3, 0x6f, 0x5f,
            0xfa, 0xd1
        ]
    );
}

#[test]
fn encrypt_matches_the_known_answer_for_a_message() {
    let sealed = test_cipher().encrypt(&Nonce::from([4; 12]), b"Test Message").unwrap();
    assert_eq!(
        sealed,
        vec![
            0x1b, 0x41, 0xac, 0x56, 0x19, 0xa7, 0xf5, 0xa3, 0xf6, 0x74, 0x44, 0x89, 0x6b, 0x53,
            0x29, 0x5c, 0x57, 0x88, 0x56, 0x3f, 0x0c, 0x5f, 0x40, 0x46, 0xb4, 0xda, 0xb6, 0xc5
        ]
    );
}

#[test]
fn decrypt_opens_the_known_answer() {
    let sealed = [
        0x1b, 0x41, 0xac, 0x56, 0x19, 0xa7, 0xf5, 0xa3, 0xf6, 0x74, 0x44, 0x89, 0x6b, 0x53, 0x29,
        0x5c, 0x57, 0x88, 0x56, 0x3f, 0x0c, 0x5f, 0x40, 0x46, 0xb4, 0xda, 0xb6, 0xc5,
    ];
    let opened = test_cipher().decrypt(&Nonce::from([4; 12]), &sealed).unwrap();
    assert_eq!(opened, b"Test Message");
}

#[test]
fn decrypt_refuses_a_changed_byte() {
    let cipher = test_cipher();
    let nonce = Nonce::from([4; 12]);
    let sealed = cipher.encrypt(&nonce, b"Test Message").unwrap();
    for at in 0..sealed.len() {
        let mut changed = sealed.clone();
        changed[at] ^= 1;
        assert_eq!(cipher.decrypt(&nonce, &changed), Err(CipherError::Refused));
    }
}

#[test]
fn decrypt_refuses_another_nonce() {
    let cipher = test_cipher();
    let nonce = Nonce::from([4; 12]);
    let sealed = cipher.encrypt(&nonce, b"Test Message").unwrap();
    assert!(cipher.decrypt(&nonce.consume(), &sealed).is_err());
}

#[test]
fn decrypt_refuses_another_key() {
    let nonce = Nonce::from([4; 12]);
    let sealed = test_cipher().encrypt(&nonce, b"Test Message").unwrap();
    assert!(Cipher::new(&[0; 32]).decrypt(&nonce, &sealed).is_err());
}

#[test]
fn decrypt_refuses_less_than_a_tag() {
    let cipher = test_cipher();
    let nonce = Nonce::from([4; 12]);
    assert_eq!(cipher.decrypt(&nonce, &[]), Err(CipherError::Refused));
    assert_eq!(cipher.decrypt(&nonce, &[0; 15]), Err(CipherError::Refused));
}

#[test]
fn clone_keeps_the_key() {
    let cipher = test_cipher();
    let nonce = Nonce::from([8; 12]);
    let sealed = cipher.encrypt(&nonce, b"shared").unwrap();
    assert_eq!(cipher.clone().decrypt(&nonce, &sealed).unwrap(), b"shared");
}

#[test]
fn a_whole_number_of_blocks_and_one_byte_more_are_sealed() {
    let cipher = test_cipher();
    let nonce = Nonce::from([4; 12]);
    for len in [63usize, 64, 65, 128, 4096, 4097] {
        let message = vec![0x5a; len];
        let sealed = cipher.encrypt(&nonce, &message).unwrap();
        assert_eq!(sealed.len(), len + 16);
        assert_eq!(cipher.decrypt(&nonce, &sealed), Ok(message));
    }
}
