use index3ds::aes::{add128, aes_ctr_decrypt, get_ncch_key, lrot128, scramble, xor128};
use index3ds::session::hash_or_decrypt;
use index3ds::rsa2048::{sha256, verify_signature};
use rsa::traits::PublicKeyParts;

#[test]
fn lrot128_zero_is_identity() {
    let a: Vec<u8> = (0..16).map(|i| (i * 7 + 3) as u8).collect();
    assert_eq!(lrot128(&a, 0), a);
}

#[test]
fn lrot128_byte_rotation() {
    let a: Vec<u8> = (0..16).collect();
    let r = lrot128(&a, 8);
    let expected: Vec<u8> = (0..16).map(|i| ((i + 1) % 16) as u8).collect();
    assert_eq!(r, expected);
}

#[test]
fn lrot128_bit_rotation() {
    let mut a = vec![0u8; 16];
    a[0] = 0x80;
    let r = lrot128(&a, 1);
    let mut expected = vec![0u8; 16];
    expected[15] = 0x01;
    assert_eq!(r, expected);
}

#[test]
fn lrot128_composition() {
    let a: Vec<u8> = (0..16).map(|i| (i * 31 + 5) as u8).collect();
    let r1 = lrot128(&lrot128(&a, 87), 87);
    let r2 = lrot128(&a, (87 + 87) % 128);
    assert_eq!(r1, r2);
}

#[test]
fn add128_carries() {
    let mut a = vec![0xFFu8; 16];
    a[0] = 0x00;
    let mut b = vec![0u8; 16];
    b[15] = 1;
    let r = add128(&a, &b);
    let mut expected = vec![0u8; 16];
    expected[0] = 0x01;
    assert_eq!(r, expected);
}

#[test]
fn add128_discards_final_carry() {
    let a = vec![0xFFu8; 16];
    let mut b = vec![0u8; 16];
    b[15] = 1;
    let r = add128(&a, &b);
    assert_eq!(r, vec![0u8; 16]);
}

#[test]
fn xor128_componentwise() {
    let a: Vec<u8> = (0..16).collect();
    let b = vec![0xFFu8; 16];
    let r = xor128(&a, &b);
    let expected: Vec<u8> = (0..16).map(|i| i as u8 ^ 0xFF).collect();
    assert_eq!(r, expected);
}

#[test]
fn scramble_known_value() {
    let x: Vec<u8> = (0..16).collect();
    let y: Vec<u8> = (16..32).collect();
    let c = vec![0xAAu8; 16];
    let k = scramble(&x, &y, &c);
    let expected = vec![
        112u8, 235, 105, 232, 102, 221, 95, 226, 100, 215, 85, 220, 90, 241, 115, 238,
    ];
    assert_eq!(k, expected);
    assert_eq!(get_ncch_key(&y, &x, &c), expected);
}

#[test]
fn aes_ctr_round_trip() {
    let key = [7u8; 16];
    let ctr = [9u8; 16];
    let plain: Vec<u8> = (0..100).map(|i| (i * 13) as u8).collect();
    let mut buf = plain.clone();
    aes_ctr_decrypt(&mut buf, &key, &ctr, 0);
    assert_ne!(buf, plain);
    aes_ctr_decrypt(&mut buf, &key, &ctr, 0);
    assert_eq!(buf, plain);
}

#[test]
fn aes_ctr_offset_addresses_absolute_positions() {
    let key = [3u8; 16];
    let ctr = [1u8; 16];
    let plain: Vec<u8> = (0..64).map(|i| (255 - i) as u8).collect();
    let mut whole = plain.clone();
    aes_ctr_decrypt(&mut whole, &key, &ctr, 0);
    // a non-block-aligned suffix decrypted at its own offset matches
    let mut tail = plain[21..].to_vec();
    aes_ctr_decrypt(&mut tail, &key, &ctr, 21);
    assert_eq!(&whole[21..], &tail[..]);
}

#[test]
fn sha256_known_digest() {
    let d = sha256(b"");
    let expected = [
        0xe3u8, 0xb0, 0xc4, 0x42, 0x98, 0xfc, 0x1c, 0x14, 0x9a, 0xfb, 0xf4, 0xc8, 0x99, 0x6f,
        0xb9, 0x24, 0x27, 0xae, 0x41, 0xe4, 0x64, 0x9b, 0x93, 0x4c, 0xa4, 0x95, 0x99, 0x1b, 0x78,
        0x52, 0xb8, 0x55,
    ];
    assert_eq!(d, expected.to_vec());
}

fn test_private_key() -> rsa::RsaPrivateKey {
    let n: Vec<u8> = vec![174, 203, 69, 241, 48, 61, 132, 199, 38, 249, 186, 51, 117, 215, 223, 47, 190, 22, 56, 235, 111, 26, 37, 112, 191, 253, 94, 196, 47, 19, 156, 212, 192, 10, 91, 169, 187, 4, 98, 111, 244, 96, 94, 48, 60, 209, 104, 160, 100, 50, 96, 225, 89, 172, 216, 236, 91, 42, 163, 189, 22, 150, 150, 185, 54, 243, 77, 143, 135, 84, 4, 191, 20, 61, 43, 225, 165, 214, 77, 227, 92, 34, 177, 124, 135, 97, 26, 123, 142, 83, 35, 159, 133, 104, 59, 6, 117, 99, 71, 1, 217, 95, 113, 97, 236, 144, 108, 193, 65, 76, 186, 16, 5, 145, 205, 72, 200, 50, 71, 185, 0, 181, 246, 146, 65, 244, 11, 58, 102, 216, 99, 52, 136, 218, 244, 85, 195, 69, 242, 5, 218, 247, 160, 25, 21, 113, 154, 165, 227, 128, 231, 194, 16, 35, 61, 39, 125, 36, 150, 105, 205, 211, 178, 15, 154, 222, 136, 94, 232, 214, 236, 211, 86, 104, 108, 98, 235, 252, 97, 154, 57, 138, 135, 38, 1, 40, 38, 239, 75, 171, 163, 126, 91, 219, 147, 197, 250, 79, 28, 16, 124, 213, 193, 176, 20, 25, 104, 242, 123, 182, 36, 225, 249, 9, 57, 77, 146, 242, 154, 56, 54, 226, 159, 207, 17, 63, 159, 156, 22, 37, 252, 206, 163, 239, 102, 204, 56, 153, 252, 74, 199, 175, 116, 175, 153, 208, 239, 8, 145, 229, 126, 47, 200, 36, 62, 21];
    let d: Vec<u8> = vec![132, 0, 197, 56, 73, 59, 28, 76, 30, 54, 24, 21, 134, 216, 89, 23, 192, 17, 30, 57, 70, 181, 83, 51, 27, 250, 167, 151, 183, 9, 179, 181, 195, 181, 206, 213, 150, 131, 208, 39, 70, 65, 132, 192, 31, 29, 242, 74, 182, 128, 137, 67, 134, 42, 143, 195, 167, 113, 195, 40, 40, 167, 222, 249, 206, 242, 221, 79, 24, 95, 46, 26, 115, 153, 98, 203, 77, 39, 83, 184, 241, 58, 206, 25, 2, 80, 37, 228, 203, 110, 36, 7, 243, 130, 236, 152, 139, 12, 71, 114, 177, 11, 112, 32, 8, 188, 101, 53, 105, 48, 29, 143, 189, 245, 7, 56, 0, 224, 95, 227, 234, 18, 129, 60, 161, 12, 65, 113, 60, 66, 66, 110, 34, 44, 100, 117, 42, 27, 198, 23, 72, 100, 70, 251, 155, 216, 136, 96, 194, 22, 205, 61, 254, 73, 114, 146, 128, 245, 155, 3, 86, 124, 198, 41, 129, 125, 178, 123, 236, 220, 223, 143, 160, 154, 47, 2, 42, 254, 182, 28, 27, 102, 38, 58, 244, 230, 228, 184, 244, 116, 231, 136, 195, 154, 13, 5, 224, 112, 166, 156, 247, 8, 182, 29, 108, 4, 40, 233, 67, 196, 190, 184, 99, 79, 122, 162, 192, 87, 130, 3, 85, 117, 122, 162, 201, 203, 120, 43, 244, 43, 181, 211, 8, 135, 25, 4, 25, 85, 26, 89, 173, 251, 74, 24, 219, 184, 169, 95, 207, 66, 124, 230, 16, 195, 179, 93];
    let p: Vec<u8> = vec![251, 41, 5, 128, 144, 6, 145, 136, 47, 176, 196, 113, 70, 154, 34, 233, 142, 149, 189, 136, 109, 234, 49, 161, 237, 185, 38, 218, 104, 211, 87, 90, 250, 188, 146, 35, 49, 205, 49, 164, 169, 29, 67, 102, 180, 122, 35, 68, 69, 237, 141, 29, 106, 93, 92, 197, 48, 182, 114, 179, 24, 176, 47, 49, 170, 207, 252, 123, 10, 56, 18, 24, 212, 58, 38, 50, 117, 54, 41, 246, 153, 122, 252, 148, 250, 191, 33, 17, 69, 4, 196, 114, 87, 119, 141, 199, 72, 26, 90, 102, 99, 69, 163, 99, 102, 12, 220, 101, 59, 137, 156, 16, 239, 6, 118, 197, 26, 69, 182, 35, 161, 216, 192, 108, 245, 202, 251, 111];
    let q: Vec<u8> = vec![178, 41, 137, 35, 163, 9, 99, 211, 5, 40, 224, 84, 95, 23, 91, 232, 29, 234, 15, 154, 18, 80, 241, 152, 31, 69, 191, 8, 35, 98, 87, 102, 85, 171, 16, 79, 195, 189, 93, 60, 134, 141, 120, 173, 53, 176, 29, 99, 216, 125, 107, 238, 190, 207, 57, 182, 196, 240, 255, 252, 135, 210, 76, 19, 61, 144, 238, 248, 165, 159, 236, 30, 132, 16, 240, 61, 151, 25, 162, 123, 239, 60, 12, 187, 29, 85, 204, 217, 226, 23, 173, 166, 172, 221, 27, 94, 215, 74, 120, 132, 172, 210, 55, 219, 49, 64, 204, 239, 58, 161, 109, 178, 54, 113, 35, 172, 147, 25, 34, 15, 135, 143, 65, 191, 171, 16, 172, 187];
    rsa::RsaPrivateKey::from_components(
        rsa::BigUint::from_bytes_be(&n),
        rsa::BigUint::from(0x10001u32),
        rsa::BigUint::from_bytes_be(&d),
        vec![rsa::BigUint::from_bytes_be(&p), rsa::BigUint::from_bytes_be(&q)],
    )
    .expect("key components")
}

#[test]
fn rsa_signature_accept_and_reject() {
    let private = test_private_key();
    let public = private.to_public_key();
    let modulus = public.n().to_bytes_be();
    let data = b"region under test".to_vec();
    let digest = sha256(&data);
    let sig = private
        .sign(rsa::Pkcs1v15Sign::new::<sha2::Sha256>(), &digest)
        .expect("signing");
    assert!(verify_signature(&data, &sig, &modulus));
    let mut bad = sig.clone();
    bad[0] ^= 1;
    assert!(!verify_signature(&data, &bad, &modulus));
    assert!(!verify_signature(b"other data", &sig, &modulus));
    // a malformed public key is a refusal, not a panic
    assert!(!verify_signature(&data, &sig, &[1, 2, 3]));
}

#[test]
fn hash_first_skips_decryption_on_plaintext_match() {
    let data: Vec<u8> = (0..0x40).collect();
    let expected = sha256(&data[0..0x20]);
    let key = [1u8; 16];
    let ctr = [2u8; 16];
    let (out, decrypted, ok) = hash_or_decrypt(&data, 0x20, &expected, &key, &ctr);
    assert!(ok);
    assert!(!decrypted);
    assert_eq!(out, data);
}

#[test]
fn hash_first_decrypts_on_mismatch() {
    let plain: Vec<u8> = (0..0x40).rev().collect();
    let key = [5u8; 16];
    let ctr = [6u8; 16];
    let expected = sha256(&plain[0..0x20]);
    let mut enc = plain.clone();
    aes_ctr_decrypt(&mut enc, &key, &ctr, 0);
    let (out, decrypted, ok) = hash_or_decrypt(&enc, 0x20, &expected, &key, &ctr);
    assert!(ok);
    assert!(decrypted);
    assert_eq!(out, plain);
    // a region that matches under neither reading is refused
    let (_, _, bad) = hash_or_decrypt(&enc, 0x20, &sha256(b"something else"), &key, &ctr);
    assert!(!bad);
}
