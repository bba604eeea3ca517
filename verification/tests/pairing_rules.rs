use lanbridge::digest::{hash_hex, ContentHasher};
use lanbridge::hex::{decode, encode};
use lanbridge::pairing::{bytes_less_eq, derive_pairing_code, generate_nonce, DeviceIdentity};
use sha2::{Digest, Sha256};

#[test]
fn test_pairing_code_deterministic() {
    let key_a = vec![1, 2, 3, 4, 5, 6, 7, 8, 9, 10, 11, 12, 13, 14, 15, 16];
    let key_b = vec![16, 15, 14, 13, 12, 11, 10, 9, 8, 7, 6, 5, 4, 3, 2, 1];
    let nonce = vec![0; 32];
    let code1 = derive_pairing_code(&key_a, &key_b, &nonce);
    let code2 = derive_pairing_code(&key_b, &key_a, &nonce);
    assert_eq!(code1, code2, "order of keys should not matter");
    assert_eq!(code1.len(), 6, "code should be 6 digits");
}

#[test]
fn test_pairing_code_different_nonce() {
    let key_a = vec![1; 32];
    let key_b = vec![2; 32];
    let code1 = derive_pairing_code(&key_a, &key_b, &vec![0; 32]);
    let code2 = derive_pairing_code(&key_a, &key_b, &vec![1; 32]);
    assert_ne!(code1, code2, "different nonce should give different code");
}

#[test]
fn pairing_code_is_sha256_prefix_modulo_a_million() {
    let key_a = vec![9u8; 32];
    let key_b = vec![3u8; 32];
    let nonce = vec![7u8; 32];
    let mut hasher = Sha256::new();
    hasher.update(b"lanbridge-pairing-v1");
    hasher.update(&nonce);
    hasher.update(&key_b);
    hasher.update(&key_a);
    let hash = hasher.finalize();
    let value = u32::from_be_bytes([hash[0], hash[1], hash[2], hash[3]]) % 1_000_000;
    assert_eq!(derive_pairing_code(&key_a, &key_b, &nonce), format!("{:06}", value));
}

#[test]
fn byte_order_is_lexicographic() {
    assert!(bytes_less_eq(&[1, 2], &[1, 2]));
    assert!(bytes_less_eq(&[1, 2], &[1, 3]));
    assert!(bytes_less_eq(&[1], &[1, 0]));
    assert!(!bytes_less_eq(&[2], &[1, 9]));
}

#[test]
fn test_generate_nonce_unique() {
    let nonce1 = generate_nonce().unwrap();
    let nonce2 = generate_nonce().unwrap();
    assert_eq!(nonce1.len(), 32);
    assert_ne!(nonce1, nonce2, "nonces should be unique");
}

#[test]
fn generate_produces_valid_identity() {
    let id = DeviceIdentity::generate().unwrap();
    let public = id.public();
    assert_eq!(public.device_id.len(), 64, "device_id should be 32-byte hex");
    assert_eq!(public.public_key.len(), 32, "public_key should be 32 bytes");
    assert_eq!(public.device_id, encode(&public.public_key));
}

#[test]
fn generate_produces_different_identities() {
    let a = DeviceIdentity::generate().unwrap();
    let b = DeviceIdentity::generate().unwrap();
    assert_ne!(a.public().device_id, b.public().device_id);
    assert_ne!(a.public().public_key, b.public().public_key);
}

#[test]
fn sign_and_verify_round_trip() {
    let id = DeviceIdentity::generate().unwrap();
    let message = b"lanbridge test message";
    let signature = id.sign(message);
    DeviceIdentity::verify(&id.public().public_key, message, &signature)
        .expect("verification should succeed for matching key");
}

#[test]
fn verify_fails_with_wrong_key() {
    let id1 = DeviceIdentity::generate().unwrap();
    let id2 = DeviceIdentity::generate().unwrap();
    let message = b"lanbridge test message";
    let signature = id1.sign(message);
    let result = DeviceIdentity::verify(&id2.public().public_key, message, &signature);
    assert!(result.is_err(), "verification should fail with wrong key");
}

#[test]
fn verify_fails_with_tampered_message() {
    let id = DeviceIdentity::generate().unwrap();
    let signature = id.sign(b"original message");
    let result = DeviceIdentity::verify(&id.public().public_key, b"tampered message", &signature);
    assert!(result.is_err(), "verification should fail with tampered message");
}

#[test]
fn verify_rejects_keys_of_the_wrong_length() {
    let id = DeviceIdentity::generate().unwrap();
    let signature = id.sign(b"m");
    assert!(DeviceIdentity::verify(&[0u8; 31], b"m", &signature).is_err());
}

#[test]
fn stored_key_bytes_restore_the_same_identity() {
    let id = DeviceIdentity::generate().unwrap();
    let bytes = id.key_bytes();
    let restored = DeviceIdentity::from_key_bytes(&bytes).unwrap();
    assert_eq!(restored.public().device_id, id.public().device_id);
    assert!(DeviceIdentity::from_key_bytes(&bytes[..31]).is_none());
    let expected = ed25519_dalek::SigningKey::from_bytes(&bytes).verifying_key().to_bytes();
    assert_eq!(id.public().public_key, expected.to_vec());
}

#[test]
fn hex_round_trip_and_rejections() {
    assert_eq!(encode(&[0x00, 0xab, 0x10, 0xff]), "00ab10ff");
    assert_eq!(decode("00ab10ff").unwrap(), vec![0x00, 0xab, 0x10, 0xff]);
    assert_eq!(decode("00AB").unwrap(), vec![0x00, 0xab]);
    assert_eq!(decode("").unwrap(), Vec::<u8>::new());
    assert!(decode("abc").is_err());
    assert!(decode("zz").is_err());
    let bytes: Vec<u8> = (0u8..=255).collect();
    assert_eq!(decode(&encode(&bytes)).unwrap(), bytes);
}

#[test]
fn content_hash_matches_blake3() {
    assert_eq!(hash_hex(b"contents"), blake3::hash(b"contents").to_hex().to_string());
    let mut h = ContentHasher::new();
    h.update(b"con");
    h.update(b"tents");
    assert_eq!(h.finish_hex(), hash_hex(b"contents"));
    assert_ne!(hash_hex(b""), "");
}

#[test]
fn decode_reports_length_and_digit_errors() {
    assert_eq!(decode("abc"), Err("invalid hex length".to_string()));
    assert_eq!(decode("zz"), Err("invalid digit found in string".to_string()));
    assert_eq!(decode("é"), Err("invalid digit found in string".to_string()));
    assert_eq!(decode("éa"), Err("invalid hex length".to_string()));
    assert_eq!(decode("+f"), Ok(vec![0x0f]));
}

#[test]
fn hashes_are_sixty_four_hex_digits_and_identities_verify_their_own_signatures() {
    assert_eq!(hash_hex(b"").len(), 64);
    let id = DeviceIdentity::generate().unwrap();
    let public = id.public();
    assert_eq!(public.public_key.len(), 32);
    assert_eq!(public.device_id.len(), 64);
    let sig = id.sign(b"lanbridge test message");
    assert!(DeviceIdentity::verify(&public.public_key, b"lanbridge test message", &sig).is_ok());
    assert_eq!(
        DeviceIdentity::verify(&public.public_key[..31], b"lanbridge test message", &sig),
        Err("invalid public key length".to_string())
    );
}

#[test]
fn hex_text_in_either_case_decodes_and_reencodes_in_lower_case() {
    let v = decode("0aFf9B").unwrap();
    assert_eq!(v, vec![0x0a, 0xff, 0x9b]);
    assert_eq!(encode(&v), "0aff9b");
}
