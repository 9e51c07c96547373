use aes::cipher::{BlockDecryptMut, BlockEncryptMut, KeyIvInit};
use blockchain::packets::PlayerEncryptionContext;

fn secret() -> Vec<u8> {
    (0u8..16).map(|i| i.wrapping_mul(17).wrapping_add(3)).collect()
}

fn sample(len: usize) -> Vec<u8> {
    (0..len).map(|i| (i * 31 % 251) as u8).collect()
}

fn reference_encrypt(key: &[u8], data: &[u8]) -> Vec<u8> {
    let mut state = cfb8::Encryptor::<aes::Aes128>::new_from_slices(key, key).unwrap();
    let mut out = data.to_vec();
    for chunk in out.chunks_mut(1) {
        state.encrypt_block_mut(chunk.into());
    }
    out
}

fn reference_decrypt(key: &[u8], data: &[u8]) -> Vec<u8> {
    let mut state = cfb8::Decryptor::<aes::Aes128>::new_from_slices(key, key).unwrap();
    let mut out = data.to_vec();
    for chunk in out.chunks_mut(1) {
        state.decrypt_block_mut(chunk.into());
    }
    out
}

#[test]
fn new_starts_both_registers_with_the_secret() {
    let c = PlayerEncryptionContext::new(secret());
    assert_eq!(c.shared_token.to_vec(), secret());
    assert_eq!(c.encrypter.to_vec(), secret());
    assert_eq!(c.decrypter.to_vec(), secret());
}

#[test]
fn encrypt_matches_one_running_cipher() {
    let plain = sample(100);
    let mut c = PlayerEncryptionContext::new(secret());
    let mut data = plain.clone();
    c.encrypt_in_place(&mut data);
    assert_eq!(data, reference_encrypt(&secret(), &plain));
    assert_ne!(data, plain);
    assert_eq!(c.encrypter.to_vec(), data[84..].to_vec());
    assert_eq!(c.decrypter.to_vec(), secret());
}

#[test]
fn decrypt_matches_one_running_cipher() {
    let wire = sample(77);
    let mut c = PlayerEncryptionContext::new(secret());
    let mut data = wire.clone();
    c.decrypt_in_place(&mut data);
    assert_eq!(data, reference_decrypt(&secret(), &wire));
    assert_eq!(c.decrypter.to_vec(), wire[61..].to_vec());
    assert_eq!(c.encrypter.to_vec(), secret());
}

#[test]
fn encrypting_in_chunks_equals_encrypting_at_once() {
    let plain = sample(64);
    let whole = reference_encrypt(&secret(), &plain);
    for size in [1usize, 2, 3, 7, 16, 17, 63] {
        let mut c = PlayerEncryptionContext::new(secret());
        let mut out = Vec::new();
        for chunk in plain.chunks(size) {
            let mut part = chunk.to_vec();
            c.encrypt_in_place(&mut part);
            out.extend_from_slice(&part);
        }
        assert_eq!(out, whole);
    }
}

#[test]
fn decrypting_in_chunks_equals_decrypting_at_once() {
    let wire = sample(50);
    let whole = reference_decrypt(&secret(), &wire);
    for size in [1usize, 5, 16, 49] {
        let mut c = PlayerEncryptionContext::new(secret());
        let mut out = Vec::new();
        for chunk in wire.chunks(size) {
            let mut part = chunk.to_vec();
            c.decrypt_in_place(&mut part);
            out.extend_from_slice(&part);
        }
        assert_eq!(out, whole);
    }
}

#[test]
fn a_peer_reads_what_the_other_wrote() {
    let mut sender = PlayerEncryptionContext::new(secret());
    let mut receiver = PlayerEncryptionContext::new(secret());
    for len in [0usize, 1, 15, 16, 17, 40] {
        let plain = sample(len);
        let mut data = plain.clone();
        sender.encrypt_in_place(&mut data);
        receiver.decrypt_in_place(&mut data);
        assert_eq!(data, plain);
        assert_eq!(sender.encrypter, receiver.decrypter);
    }
}

#[test]
fn short_input_keeps_the_tail_of_the_register() {
    let mut c = PlayerEncryptionContext::new(secret());
    let mut data = vec![1u8, 2, 3];
    c.encrypt_in_place(&mut data);
    let mut expected = secret()[3..].to_vec();
    expected.extend_from_slice(&data);
    assert_eq!(c.encrypter.to_vec(), expected);
    let mut empty = Vec::new();
    c.encrypt_in_place(&mut empty);
    assert_eq!(c.encrypter.to_vec(), expected);
}
