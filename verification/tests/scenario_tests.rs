use index3ds::aes::aes_ctr_decrypt;
use index3ds::api::PostNcchResponse;
use index3ds::data_format::{Exheader, ExefsHeader, NcchHeader, Smdh};
use index3ds::registry::SessionRegistry;
use index3ds::rsa2048::sha256;
use index3ds::session::{
    build_ctrs, commit_response, session_key, CatalogOutcome, NcchKeys, PostNcchSession,
    SessionStep,
};
use rsa::traits::PublicKeyParts;

fn exh_private_key() -> rsa::RsaPrivateKey {
    let n: Vec<u8> = vec![174, 203, 69, 241, 48, 61, 132, 199, 38, 249, 186, 51, 117, 215, 223, 47, 190, 22, 56, 235, 111, 26, 37, 112, 191, 253, 94, 196, 47, 19, 156, 212, 192, 10, 91, 169, 187, 4, 98, 111, 244, 96, 94, 48, 60, 209, 104, 160, 100, 50, 96, 225, 89, 172, 216, 236, 91, 42, 163, 189, 22, 150, 150, 185, 54, 243, 77, 143, 135, 84, 4, 191, 20, 61, 43, 225, 165, 214, 77, 227, 92, 34, 177, 124, 135, 97, 26, 123, 142, 83, 35, 159, 133, 104, 59, 6, 117, 99, 71, 1, 217, 95, 113, 97, 236, 144, 108, 193, 65, 76, 186, 16, 5, 145, 205, 72, 200, 50, 71, 185, 0, 181, 246, 146, 65, 244, 11, 58, 102, 216, 99, 52, 136, 218, 244, 85, 195, 69, 242, 5, 218, 247, 160, 25, 21, 113, 154, 165, 227, 128, 231, 194, 16, 35, 61, 39, 125, 36, 150, 105, 205, 211, 178, 15, 154, 222, 136, 94, 232, 214, 236, 211, 86, 104, 108, 98, 235, 252, 97, 154, 57, 138, 135, 38, 1, 40, 38, 239, 75, 171, 163, 126, 91, 219, 147, 197, 250, 79, 28, 16, 124, 213, 193, 176, 20, 25, 104, 242, 123, 182, 36, 225, 249, 9, 57, 77, 146, 242, 154, 56, 54, 226, 159, 207, 17, 63, 159, 156, 22, 37, 252, 206, 163, 239, 102, 204, 56, 153, 252, 74, 199, 175, 116, 175, 153, 208, 239, 8, 145, 229, 126, 47, 200, 36, 62, 21];
    let d: Vec<u8> = vec![132, 0, 197, 56, 73, 59, 28, 76, 30, 54, 24, 21, 134, 216, 89, 23, 192, 17, 30, 57, 70, 181, 83, 51, 27, 250, 167, 151, 183, 9, 179, 181, 195, 181, 206, 213, 150, 131, 208, 39, 70, 65, 132, 192, 31, 29, 242, 74, 182, 128, 137, 67, 134, 42, 143, 195, 167, 113, 195, 40, 40, 167, 222, 249, 206, 242, 221, 79, 24, 95, 46, 26, 115, 153, 98, 203, 77, 39, 83, 184, 241, 58, 206, 25, 2, 80, 37, 228, 203, 110, 36, 7, 243, 130, 236, 152, 139, 12, 71, 114, 177, 11, 112, 32, 8, 188, 101, 53, 105, 48, 29, 143, 189, 245, 7, 56, 0, 224, 95, 227, 234, 18, 129, 60, 161, 12, 65, 113, 60, 66, 66, 110, 34, 44, 100, 117, 42, 27, 198, 23, 72, 100, 70, 251, 155, 216, 136, 96, 194, 22, 205, 61, 254, 73, 114, 146, 128, 245, 155, 3, 86, 124, 198, 41, 129, 125, 178, 123, 236, 220, 223, 143, 160, 154, 47, 2, 42, 254, 182, 28, 27, 102, 38, 58, 244, 230, 228, 184, 244, 116, 231, 136, 195, 154, 13, 5, 224, 112, 166, 156, 247, 8, 182, 29, 108, 4, 40, 233, 67, 196, 190, 184, 99, 79, 122, 162, 192, 87, 130, 3, 85, 117, 122, 162, 201, 203, 120, 43, 244, 43, 181, 211, 8, 135, 25, 4, 25, 85, 26, 89, 173, 251, 74, 24, 219, 184, 169, 95, 207, 66, 124, 230, 16, 195, 179, 93];
    let p: Vec<u8> = vec![251, 41, 5, 128, 144, 6, 145, 136, 47, 176, 196, 113, 70, 154, 34, 233, 142, 149, 189, 136, 109, 234, 49, 161, 237, 185, 38, 218, 104, 211, 87, 90, 250, 188, 146, 35, 49, 205, 49, 164, 169, 29, 67, 102, 180, 122, 35, 68, 69, 237, 141, 29, 106, 93, 92, 197, 48, 182, 114, 179, 24, 176, 47, 49, 170, 207, 252, 123, 10, 56, 18, 24, 212, 58, 38, 50, 117, 54, 41, 246, 153, 122, 252, 148, 250, 191, 33, 17, 69, 4, 196, 114, 87, 119, 141, 199, 72, 26, 90, 102, 99, 69, 163, 99, 102, 12, 220, 101, 59, 137, 156, 16, 239, 6, 118, 197, 26, 69, 182, 35, 161, 216, 192, 108, 245, 202, 251, 111];
    let q: Vec<u8> = vec![178, 41, 137, 35, 163, 9, 99, 211, 5, 40, 224, 84, 95, 23, 91, 232, 29, 234, 15, 154, 18, 80, 241, 152, 31, 69, 191, 8, 35, 98, 87, 102, 85, 171, 16, 79, 195, 189, 93, 60, 134, 141, 120, 173, 53, 176, 29, 99, 216, 125, 107, 238, 190, 207, 57, 182, 196, 240, 255, 252, 135, 210, 76, 19, 61, 144, 238, 248, 165, 159, 236, 30, 132, 16, 240, 61, 151, 25, 162, 123, 239, 60, 12, 187, 29, 85, 204, 217, 226, 23, 173, 166, 172, 221, 27, 94, 215, 74, 120, 132, 172, 210, 55, 219, 49, 64, 204, 239, 58, 161, 109, 178, 54, 113, 35, 172, 147, 25, 34, 15, 135, 143, 65, 191, 171, 16, 172, 187];
    rsa::RsaPrivateKey::from_components(
        rsa::BigUint::from_bytes_be(&n),
        rsa::BigUint::from(0x10001u32),
        rsa::BigUint::from_bytes_be(&d),
        vec![rsa::BigUint::from_bytes_be(&p), rsa::BigUint::from_bytes_be(&q)],
    )
    .expect("key components")
}

fn cfa_private_key() -> rsa::RsaPrivateKey {
    let n: Vec<u8> = vec![154, 66, 175, 226, 241, 227, 57, 113, 253, 82, 186, 134, 135, 4, 235, 187, 190, 211, 29, 56, 207, 65, 13, 97, 67, 111, 120, 114, 248, 125, 163, 214, 124, 30, 249, 136, 1, 140, 16, 102, 140, 140, 135, 43, 203, 166, 252, 206, 31, 200, 109, 60, 75, 41, 98, 185, 237, 199, 80, 229, 20, 52, 200, 163, 153, 182, 81, 71, 196, 21, 178, 131, 125, 224, 88, 176, 150, 138, 167, 19, 42, 99, 180, 231, 217, 72, 213, 159, 63, 104, 50, 196, 187, 19, 135, 214, 246, 27, 36, 56, 110, 110, 205, 196, 255, 187, 250, 19, 49, 46, 151, 98, 150, 50, 252, 59, 20, 232, 57, 229, 211, 224, 38, 36, 243, 157, 120, 66, 210, 114, 84, 114, 27, 231, 38, 32, 209, 0, 219, 109, 143, 176, 159, 181, 140, 128, 139, 192, 61, 252, 24, 31, 187, 19, 184, 49, 149, 205, 60, 73, 200, 138, 79, 92, 104, 103, 164, 167, 217, 38, 220, 124, 86, 127, 136, 173, 109, 222, 47, 155, 27, 95, 206, 134, 9, 99, 119, 119, 123, 66, 166, 68, 143, 207, 134, 109, 180, 211, 204, 166, 30, 236, 212, 98, 246, 204, 153, 143, 146, 223, 51, 65, 226, 122, 95, 130, 135, 25, 235, 242, 130, 24, 112, 73, 198, 209, 98, 42, 99, 118, 9, 43, 7, 248, 229, 166, 38, 197, 199, 50, 247, 135, 22, 173, 206, 13, 69, 15, 35, 154, 246, 41, 117, 152, 190, 223];
    let d: Vec<u8> = vec![144, 198, 83, 146, 119, 151, 220, 187, 9, 151, 209, 237, 29, 220, 213, 108, 223, 155, 253, 9, 235, 33, 79, 112, 96, 60, 198, 219, 136, 49, 74, 73, 171, 53, 218, 212, 245, 54, 193, 209, 172, 200, 218, 183, 148, 171, 69, 10, 34, 180, 21, 41, 8, 21, 112, 77, 181, 70, 97, 186, 141, 43, 56, 190, 170, 45, 124, 189, 16, 223, 152, 41, 102, 66, 222, 153, 228, 191, 126, 44, 51, 149, 94, 28, 86, 69, 208, 15, 100, 15, 227, 205, 213, 17, 112, 100, 163, 151, 55, 120, 42, 212, 157, 19, 237, 59, 59, 105, 53, 184, 87, 101, 180, 55, 103, 151, 255, 120, 47, 150, 110, 50, 41, 58, 118, 212, 236, 30, 180, 226, 6, 220, 174, 168, 49, 17, 133, 232, 129, 144, 3, 211, 120, 143, 183, 103, 77, 239, 106, 251, 96, 231, 218, 65, 16, 77, 59, 54, 14, 226, 106, 167, 239, 210, 93, 37, 244, 83, 23, 149, 197, 148, 38, 143, 204, 133, 228, 86, 199, 205, 227, 235, 189, 217, 226, 125, 140, 150, 108, 52, 229, 241, 131, 33, 125, 112, 65, 210, 101, 161, 99, 48, 194, 62, 186, 231, 250, 232, 39, 172, 8, 204, 112, 145, 243, 196, 34, 60, 94, 110, 194, 108, 51, 62, 167, 252, 146, 251, 221, 20, 250, 43, 70, 108, 169, 105, 146, 198, 231, 88, 207, 119, 195, 184, 76, 203, 121, 234, 125, 63, 43, 229, 63, 104, 122, 105];
    let p: Vec<u8> = vec![246, 187, 246, 88, 0, 200, 20, 143, 121, 231, 189, 20, 67, 8, 141, 247, 88, 56, 144, 170, 3, 185, 81, 199, 198, 74, 94, 116, 217, 173, 135, 151, 19, 187, 146, 77, 199, 246, 47, 32, 233, 64, 50, 250, 72, 144, 47, 108, 70, 69, 117, 179, 190, 61, 239, 234, 67, 93, 191, 147, 198, 203, 188, 200, 45, 74, 13, 63, 7, 39, 84, 216, 209, 118, 134, 182, 151, 51, 144, 213, 18, 184, 18, 132, 50, 115, 178, 139, 232, 224, 205, 85, 245, 166, 27, 198, 175, 66, 67, 19, 40, 88, 55, 26, 6, 89, 75, 19, 79, 127, 131, 214, 184, 223, 36, 228, 245, 212, 151, 105, 143, 66, 252, 243, 79, 176, 140, 251];
    let q: Vec<u8> = vec![160, 13, 180, 236, 216, 69, 16, 218, 96, 153, 162, 128, 166, 150, 250, 94, 33, 69, 204, 102, 193, 188, 26, 253, 242, 2, 191, 133, 86, 198, 91, 103, 237, 95, 163, 7, 180, 138, 113, 63, 140, 117, 196, 149, 62, 211, 226, 246, 198, 27, 193, 248, 169, 169, 178, 136, 121, 250, 124, 2, 81, 120, 154, 252, 135, 51, 195, 166, 245, 106, 241, 20, 53, 151, 122, 88, 250, 251, 212, 208, 80, 233, 114, 134, 89, 191, 105, 8, 108, 115, 71, 67, 50, 88, 83, 151, 196, 189, 118, 115, 181, 127, 6, 169, 133, 88, 195, 219, 84, 247, 255, 122, 42, 196, 89, 167, 131, 28, 105, 11, 247, 150, 58, 225, 60, 56, 168, 109];
    rsa::RsaPrivateKey::from_components(
        rsa::BigUint::from_bytes_be(&n),
        rsa::BigUint::from(0x10001u32),
        rsa::BigUint::from_bytes_be(&d),
        vec![rsa::BigUint::from_bytes_be(&p), rsa::BigUint::from_bytes_be(&q)],
    )
    .expect("key components")
}

fn emb_private_key() -> rsa::RsaPrivateKey {
    let n: Vec<u8> = vec![138, 208, 35, 134, 92, 209, 210, 241, 184, 12, 74, 145, 247, 134, 116, 93, 146, 8, 126, 57, 48, 103, 171, 207, 9, 237, 83, 179, 206, 134, 44, 135, 147, 208, 118, 102, 156, 114, 158, 159, 20, 153, 230, 127, 40, 115, 198, 139, 163, 185, 216, 253, 115, 203, 226, 121, 143, 108, 128, 96, 98, 4, 187, 191, 7, 35, 152, 118, 40, 197, 107, 253, 169, 210, 121, 104, 234, 141, 31, 66, 22, 17, 18, 197, 142, 203, 85, 165, 164, 18, 175, 216, 80, 183, 177, 4, 180, 74, 247, 54, 22, 240, 130, 159, 212, 103, 163, 3, 212, 115, 120, 199, 163, 56, 220, 40, 143, 140, 2, 184, 200, 190, 96, 50, 166, 97, 225, 192, 176, 198, 207, 159, 29, 106, 242, 227, 204, 83, 10, 24, 251, 127, 127, 246, 11, 159, 42, 191, 173, 16, 44, 168, 218, 175, 213, 236, 109, 114, 199, 111, 168, 87, 65, 43, 124, 127, 109, 180, 179, 127, 121, 111, 55, 16, 8, 136, 17, 226, 16, 38, 114, 55, 226, 164, 10, 30, 1, 80, 176, 158, 91, 21, 88, 126, 56, 197, 75, 40, 209, 87, 138, 12, 173, 173, 89, 229, 118, 45, 146, 229, 249, 200, 181, 208, 203, 198, 219, 128, 216, 159, 202, 72, 220, 12, 223, 154, 183, 59, 144, 107, 237, 20, 147, 25, 114, 172, 65, 184, 85, 172, 118, 217, 246, 96, 79, 149, 162, 215, 157, 65, 13, 206, 16, 75, 86, 41];
    let d: Vec<u8> = vec![53, 133, 157, 60, 240, 75, 2, 207, 170, 140, 42, 176, 111, 69, 11, 87, 12, 184, 115, 154, 175, 92, 57, 181, 129, 121, 93, 93, 165, 210, 188, 22, 166, 90, 169, 92, 85, 20, 40, 174, 227, 173, 151, 95, 14, 4, 221, 215, 247, 143, 239, 231, 129, 159, 106, 58, 62, 159, 178, 59, 247, 111, 37, 200, 185, 2, 243, 133, 19, 161, 83, 75, 34, 16, 130, 57, 126, 190, 93, 0, 9, 44, 26, 21, 204, 66, 0, 74, 246, 161, 49, 229, 240, 241, 114, 178, 130, 165, 168, 253, 213, 8, 117, 5, 21, 75, 196, 97, 244, 167, 117, 57, 92, 104, 207, 18, 96, 142, 182, 121, 243, 4, 220, 104, 139, 24, 144, 135, 61, 232, 242, 231, 195, 83, 254, 99, 130, 202, 18, 152, 147, 58, 71, 13, 0, 237, 124, 241, 120, 163, 235, 223, 64, 181, 185, 146, 146, 238, 188, 239, 138, 217, 240, 227, 171, 35, 116, 128, 88, 144, 7, 187, 62, 89, 95, 127, 12, 224, 65, 179, 218, 93, 208, 128, 24, 30, 208, 109, 172, 146, 208, 0, 191, 206, 6, 178, 2, 166, 129, 203, 202, 207, 237, 207, 161, 51, 13, 34, 250, 80, 123, 203, 160, 247, 221, 195, 94, 126, 158, 65, 193, 16, 73, 145, 94, 4, 192, 193, 22, 32, 83, 42, 56, 58, 169, 248, 148, 188, 147, 94, 0, 62, 5, 159, 202, 153, 12, 222, 188, 100, 144, 192, 222, 220, 143, 129];
    let p: Vec<u8> = vec![166, 173, 42, 191, 236, 54, 159, 173, 20, 124, 58, 123, 186, 149, 166, 79, 94, 77, 95, 182, 197, 106, 230, 132, 90, 33, 101, 79, 230, 50, 138, 40, 26, 145, 157, 148, 176, 122, 103, 180, 207, 142, 120, 247, 128, 252, 111, 60, 82, 34, 191, 164, 31, 0, 100, 69, 25, 12, 30, 238, 237, 13, 42, 116, 106, 198, 89, 160, 226, 85, 76, 216, 166, 64, 41, 210, 81, 194, 140, 65, 11, 7, 54, 30, 106, 189, 101, 97, 158, 17, 167, 230, 183, 240, 132, 139, 9, 193, 19, 31, 138, 140, 88, 33, 223, 116, 26, 117, 170, 65, 96, 77, 225, 168, 51, 135, 31, 232, 67, 155, 221, 211, 248, 213, 67, 235, 221, 153];
    let q: Vec<u8> = vec![213, 52, 79, 136, 3, 62, 24, 29, 83, 251, 110, 61, 31, 84, 171, 37, 160, 241, 208, 59, 126, 61, 33, 225, 203, 56, 215, 29, 32, 65, 145, 95, 191, 174, 185, 176, 78, 119, 10, 143, 127, 29, 46, 26, 222, 185, 217, 149, 55, 22, 88, 14, 57, 36, 153, 198, 175, 214, 91, 242, 230, 134, 54, 86, 57, 128, 21, 217, 101, 104, 39, 169, 144, 199, 59, 2, 19, 150, 111, 29, 164, 38, 182, 167, 231, 157, 101, 156, 237, 107, 126, 186, 80, 132, 191, 235, 176, 41, 98, 102, 199, 222, 22, 241, 131, 46, 46, 141, 88, 166, 164, 220, 222, 154, 114, 45, 92, 197, 153, 192, 141, 96, 62, 149, 231, 75, 247, 17];
    rsa::RsaPrivateKey::from_components(
        rsa::BigUint::from_bytes_be(&n),
        rsa::BigUint::from(0x10001u32),
        rsa::BigUint::from_bytes_be(&d),
        vec![rsa::BigUint::from_bytes_be(&p), rsa::BigUint::from_bytes_be(&q)],
    )
    .expect("key components")
}

const KEY_X: [u8; 16] = [3, 1, 4, 1, 5, 9, 2, 6, 5, 3, 5, 8, 9, 7, 9, 3];
const SCRAMBLER: [u8; 16] = [2, 7, 1, 8, 2, 8, 1, 8, 2, 8, 4, 5, 9, 0, 4, 5];

fn process_keys() -> NcchKeys {
    NcchKeys {
        exheader_public_key: exh_private_key().to_public_key().n().to_bytes_be(),
        cfa_public_key: cfa_private_key().to_public_key().n().to_bytes_be(),
        scrambler: SCRAMBLER.to_vec(),
        key_x: KEY_X.to_vec(),
    }
}

fn sign_with(key: &rsa::RsaPrivateKey, data: &[u8]) -> Vec<u8> {
    let digest = sha256(data);
    key.sign(rsa::Pkcs1v15Sign::new::<sha2::Sha256>(), &digest)
        .expect("signing")
}

fn base_header() -> NcchHeader {
    let mut h = NcchHeader::read_bytes(&vec![0u8; 0x200]);
    h.magic = b"NCCH".to_vec();
    h.version = 0;
    h.content_unit_size = 0;
    h.partition_id = 0x0004000000aabb00;
    h.program_id = 0x0004000000aabb00;
    h.product_code = b"CTR-P-TEST\0\0\0\0\0\0".to_vec();
    h
}

/// Serializes the header and installs a signature over bytes 0x100..0x200.
fn finish_header(h: &mut NcchHeader, key: &rsa::RsaPrivateKey) {
    let raw = h.write_bytes();
    h.signature = sign_with(key, &raw[0x100..]);
    assert_eq!(h.signature.len(), 256);
}

fn expected_id(h: &NcchHeader) -> String {
    let sig_hex: String = h.signature[0..16]
        .iter()
        .map(|b| format!("{:02x}", b))
        .collect();
    format!("{:016x}-{}", h.partition_id, sig_hex)
}

fn plaintext_cfa_header() -> NcchHeader {
    let mut h = base_header();
    h.exheader_size = 0;
    h.exefs_offset = 0;
    finish_header(&mut h, &cfa_private_key());
    h
}

struct Catalog {
    ids: Vec<String>,
}

impl Catalog {
    fn new() -> Catalog {
        Catalog { ids: Vec::new() }
    }

    fn insert(&mut self, id: &str) -> CatalogOutcome {
        if self.ids.iter().any(|x| x == id) {
            CatalogOutcome::Duplicate
        } else {
            self.ids.push(id.to_string());
            CatalogOutcome::Inserted
        }
    }
}

fn drive(session: &mut PostNcchSession, catalog: &mut Catalog, data: &[u8], now: u64) -> PostNcchResponse {
    match session.next(data, now) {
        SessionStep::Reply(r) => r,
        SessionStep::Commit(rec) => {
            let outcome = catalog.insert(&rec.id);
            commit_response(outcome, rec.id)
        }
    }
}

#[test]
fn scenario_plaintext_cfa() {
    let h = plaintext_cfa_header();
    let bytes = h.write_bytes();
    assert_eq!(bytes.len(), 0x200);
    let mut catalog = Catalog::new();
    let mut s = PostNcchSession::new(7, process_keys(), 0);
    let r = drive(&mut s, &mut catalog, &bytes, 1);
    match r {
        PostNcchResponse::Finished(e) => assert_eq!(e.ncch_id, expected_id(&h)),
        other => panic!("expected Finished, got {:?}", other),
    }
    assert!(s.finished());
    assert_eq!(catalog.ids.len(), 1);
    assert_eq!(s.last_touch(), 1);
}

/// Builds the three encrypted regions of an executable container with an
/// icon, returning (header bytes, exheader, exefs, icon) as uploaded.
fn encrypted_cxi_fixture() -> (NcchHeader, Vec<u8>, Vec<u8>, Vec<u8>, Vec<u8>) {
    let keys = process_keys();

    let mut e = Exheader::read_bytes(&vec![0u8; 0x800]);
    e.name = b"TESTAPP\0".to_vec();
    e.access_control.program_id = 0x0004000000aabb00;
    e.public_key = emb_private_key().to_public_key().n().to_bytes_be();
    let raw = e.write_bytes();
    e.signature = sign_with(&exh_private_key(), &raw[0x500..]);
    let exh_plain = e.write_bytes();

    let mut sm = Smdh::read_bytes(&vec![0u8; 0x36C0]);
    sm.magic = b"SMDH".to_vec();
    let mut short = vec![0u16; 64];
    for (i, u) in "Test Game".encode_utf16().enumerate() {
        short[i] = u;
    }
    sm.title[0].short = short;
    let icon_plain = sm.write_bytes();

    let mut x = ExefsHeader::read_bytes(&vec![0u8; 0x200]);
    x.files[0].name = b"icon\0\0\0\0".to_vec();
    x.files[0].offset = 0;
    x.files[0].size = 0x36C0;
    x.hashes[9] = sha256(&icon_plain);
    let exefs_plain = x.write_bytes();

    let mut h = base_header();
    h.exheader_size = 0x400;
    h.exheader_hash = sha256(&exh_plain[0..0x400]);
    h.exefs_offset = 2;
    h.exefs_size = 2;
    h.exefs_hash_region_size = 1;
    h.exefs_hash = sha256(&exefs_plain[0..0x200]);
    finish_header(&mut h, &emb_private_key());

    let key = session_key(&h, &keys);
    let (ctr_exheader, ctr_exefs) = build_ctrs(&h);

    let mut exh_enc = exh_plain.clone();
    aes_ctr_decrypt(&mut exh_enc, &key, &ctr_exheader, 0);
    let mut exefs_enc = exefs_plain.clone();
    aes_ctr_decrypt(&mut exefs_enc, &key, &ctr_exefs, 0);
    let mut icon_enc = icon_plain.clone();
    aes_ctr_decrypt(&mut icon_enc, &key, &ctr_exefs, 0x200);

    let header_bytes = h.write_bytes();
    (h, header_bytes, exh_enc, exefs_enc, icon_enc)
}

#[test]
fn scenario_encrypted_cxi_with_icon() {
    let (h, header_bytes, exh_enc, exefs_enc, icon_enc) = encrypted_cxi_fixture();
    let mut catalog = Catalog::new();
    let mut s = PostNcchSession::new(9, process_keys(), 0);

    match drive(&mut s, &mut catalog, &header_bytes, 1) {
        PostNcchResponse::AppendNeeded(a) => {
            assert_eq!(a.session_id, 9);
            assert_eq!(a.offset, 0x200);
            assert_eq!(a.len, 0x800);
        }
        other => panic!("expected exheader request, got {:?}", other),
    }
    match drive(&mut s, &mut catalog, &exh_enc, 2) {
        PostNcchResponse::AppendNeeded(a) => {
            assert_eq!(a.offset, 0x400);
            assert_eq!(a.len, 0x200);
        }
        other => panic!("expected exefs request, got {:?}", other),
    }
    match drive(&mut s, &mut catalog, &exefs_enc, 3) {
        PostNcchResponse::AppendNeeded(a) => {
            assert_eq!(a.offset, 0x400 + 0x200);
            assert_eq!(a.len, 0x36C0);
        }
        other => panic!("expected icon request, got {:?}", other),
    }
    match drive(&mut s, &mut catalog, &icon_enc, 4) {
        PostNcchResponse::Finished(e) => assert_eq!(e.ncch_id, expected_id(&h)),
        other => panic!("expected Finished, got {:?}", other),
    }
    assert_eq!(catalog.ids.len(), 1);
}

#[test]
fn scenario_verification_failure() {
    let (_h, header_bytes, mut exh_enc, _exefs_enc, _icon_enc) = encrypted_cxi_fixture();
    let mut catalog = Catalog::new();
    let mut s = PostNcchSession::new(9, process_keys(), 0);
    match drive(&mut s, &mut catalog, &header_bytes, 1) {
        PostNcchResponse::AppendNeeded(_) => {}
        other => panic!("expected exheader request, got {:?}", other),
    }
    exh_enc[0x123] ^= 1;
    match drive(&mut s, &mut catalog, &exh_enc, 2) {
        PostNcchResponse::VerificationFailed => {}
        other => panic!("expected VerificationFailed, got {:?}", other),
    }
    assert!(s.finished());
    assert_eq!(catalog.ids.len(), 0);
}

#[test]
fn scenario_flag_repaired_header() {
    let mut h = base_header();
    h.exheader_size = 0;
    h.exefs_offset = 0;
    h.secondary_key_slot = 0;
    h.key_config.no_crypto = 0;
    h.key_config.fixed_key = 0;
    h.key_config.seed_crypto = 0;
    finish_header(&mut h, &cfa_private_key());
    let mut bytes = h.write_bytes();
    // a decryption tool rewrote the crypto flag after signing
    bytes[0x18F] |= 0b100;

    let mut catalog = Catalog::new();
    let mut s = PostNcchSession::new(4, process_keys(), 0);
    match s.next(&bytes, 1) {
        SessionStep::Commit(rec) => {
            assert_eq!(rec.id, expected_id(&h));
            // the persisted record reflects the repaired flags
            assert!(!rec.no_crypto);
            assert!(!rec.fixed_key);
            assert_eq!(rec.secondary_key_slot, 0);
            let outcome = catalog.insert(&rec.id);
            assert!(matches!(outcome, CatalogOutcome::Inserted));
        }
        SessionStep::Reply(other) => panic!("expected commit, got {:?}", other),
    }
}

#[test]
fn scenario_duplicate_upload() {
    let h = plaintext_cfa_header();
    let bytes = h.write_bytes();
    let mut catalog = Catalog::new();

    let mut s1 = PostNcchSession::new(1, process_keys(), 0);
    match drive(&mut s1, &mut catalog, &bytes, 1) {
        PostNcchResponse::Finished(e) => assert_eq!(e.ncch_id, expected_id(&h)),
        other => panic!("expected Finished, got {:?}", other),
    }
    let mut s2 = PostNcchSession::new(2, process_keys(), 0);
    match drive(&mut s2, &mut catalog, &bytes, 2) {
        PostNcchResponse::Conflict(e) => assert_eq!(e.ncch_id, expected_id(&h)),
        other => panic!("expected Conflict, got {:?}", other),
    }
    assert_eq!(catalog.ids.len(), 1);
}

#[test]
fn scenario_saturation() {
    let mut reg = SessionRegistry::new(process_keys(), 1, 100);
    let first = reg.create_session(0);
    assert!(first.is_some());
    assert_eq!(reg.sessions.len(), 1);
    // the lone session is idle but fresh: refused, and nothing is inserted
    assert!(reg.create_session(50).is_none());
    assert_eq!(reg.sessions.len(), 1);
    // after the cleanup period elapses the idle session is reclaimed
    assert!(reg.create_session(200).is_some());
    assert_eq!(reg.sessions.len(), 1);
}

#[test]
fn scenario_saturation_after_finish() {
    let mut reg = SessionRegistry::new(process_keys(), 1, 100);
    let id = reg.create_session(0).expect("admitted");
    assert!(reg.create_session(10).is_none());
    // terminate the first session (wrong length ends it)
    match reg.append_ncch(id, &[1, 2, 3], 20) {
        SessionStep::Reply(PostNcchResponse::UnexpectedLength) => {}
        _ => panic!("expected UnexpectedLength"),
    }
    assert!(reg.create_session(30).is_some());
}

#[test]
fn session_ids_do_not_collide() {
    let mut reg = SessionRegistry::new(process_keys(), 100, 1000);
    let mut ids = Vec::new();
    for _ in 0..8 {
        ids.push(reg.create_session(0).expect("admitted"));
    }
    for i in 0..ids.len() {
        for j in 0..i {
            assert_ne!(ids[i], ids[j]);
        }
    }
}

#[test]
fn eviction_keeps_fresh_sessions() {
    let mut reg = SessionRegistry::new(process_keys(), 100, 100);
    let stale = reg.create_session(0).expect("admitted");
    let fresh = reg.create_session(150).expect("admitted");
    reg.sweep(200);
    match reg.append_ncch(stale, &[0], 201) {
        SessionStep::Reply(PostNcchResponse::NotFound) => {}
        _ => panic!("stale session should be evicted"),
    }
    match reg.append_ncch(fresh, &[0], 202) {
        SessionStep::Reply(PostNcchResponse::UnexpectedLength) => {}
        _ => panic!("fresh session should remain"),
    }
}

#[test]
fn unknown_session_is_not_found() {
    let mut reg = SessionRegistry::new(process_keys(), 4, 100);
    match reg.append_ncch(12345, &[0u8; 0x200], 0) {
        SessionStep::Reply(PostNcchResponse::NotFound) => {}
        _ => panic!("expected NotFound"),
    }
}

#[test]
fn finished_session_refuses_input() {
    let h = plaintext_cfa_header();
    let bytes = h.write_bytes();
    let mut catalog = Catalog::new();
    let mut s = PostNcchSession::new(1, process_keys(), 0);
    drive(&mut s, &mut catalog, &bytes, 1);
    match drive(&mut s, &mut catalog, &bytes, 2) {
        PostNcchResponse::AlreadyFinished => {}
        other => panic!("expected AlreadyFinished, got {:?}", other),
    }
}

#[test]
fn wrong_length_header_is_rejected() {
    let mut catalog = Catalog::new();
    let mut s = PostNcchSession::new(1, process_keys(), 0);
    match drive(&mut s, &mut catalog, &[0u8; 0x100], 1) {
        PostNcchResponse::UnexpectedLength => {}
        other => panic!("expected UnexpectedLength, got {:?}", other),
    }
    assert!(s.finished());
}

#[test]
fn bad_magic_is_rejected() {
    let mut h = base_header();
    h.magic = b"XXXX".to_vec();
    h.exheader_size = 0;
    finish_header(&mut h, &cfa_private_key());
    let mut catalog = Catalog::new();
    let mut s = PostNcchSession::new(1, process_keys(), 0);
    match drive(&mut s, &mut catalog, &h.write_bytes(), 1) {
        PostNcchResponse::UnexpectedFormat => {}
        other => panic!("expected UnexpectedFormat, got {:?}", other),
    }
}

#[test]
fn odd_exheader_size_is_rejected() {
    let mut h = base_header();
    h.exheader_size = 0x123;
    finish_header(&mut h, &cfa_private_key());
    let mut catalog = Catalog::new();
    let mut s = PostNcchSession::new(1, process_keys(), 0);
    match drive(&mut s, &mut catalog, &h.write_bytes(), 1) {
        PostNcchResponse::UnexpectedFormat => {}
        other => panic!("expected UnexpectedFormat, got {:?}", other),
    }
}

#[test]
fn unsigned_cfa_fails_verification() {
    let mut h = base_header();
    h.exheader_size = 0;
    h.signature = vec![0x55u8; 256];
    let mut catalog = Catalog::new();
    let mut s = PostNcchSession::new(1, process_keys(), 0);
    match drive(&mut s, &mut catalog, &h.write_bytes(), 1) {
        PostNcchResponse::VerificationFailed => {}
        other => panic!("expected VerificationFailed, got {:?}", other),
    }
}

/// A plaintext exefs region is accepted as it stands (the hash matches
/// before any decryption), and an icon entry of size zero is skipped.
#[test]
fn plaintext_exefs_and_zero_icon_skip() {
    let mut x = ExefsHeader::read_bytes(&vec![0u8; 0x200]);
    x.files[0].name = b"icon\0\0\0\0".to_vec();
    x.files[0].offset = 0;
    x.files[0].size = 0;
    let exefs_plain = x.write_bytes();

    let mut h = base_header();
    h.exheader_size = 0;
    h.exefs_offset = 1;
    h.exefs_hash_region_size = 1;
    h.exefs_hash = sha256(&exefs_plain[0..0x200]);
    finish_header(&mut h, &cfa_private_key());

    let mut catalog = Catalog::new();
    let mut s = PostNcchSession::new(3, process_keys(), 0);
    match drive(&mut s, &mut catalog, &h.write_bytes(), 1) {
        PostNcchResponse::AppendNeeded(a) => {
            assert_eq!(a.offset, 0x200);
            assert_eq!(a.len, 0x200);
        }
        other => panic!("expected exefs request, got {:?}", other),
    }
    match drive(&mut s, &mut catalog, &exefs_plain, 2) {
        PostNcchResponse::Finished(e) => assert_eq!(e.ncch_id, expected_id(&h)),
        other => panic!("expected Finished, got {:?}", other),
    }
}

/// An icon entry of an unexpected size is skipped without failing the
/// upload.
#[test]
fn strange_icon_size_is_skipped() {
    let mut x = ExefsHeader::read_bytes(&vec![0u8; 0x200]);
    x.files[0].name = b"icon\0\0\0\0".to_vec();
    x.files[0].offset = 0;
    x.files[0].size = 0x1000;
    let exefs_plain = x.write_bytes();

    let mut h = base_header();
    h.exheader_size = 0;
    h.exefs_offset = 1;
    h.exefs_hash_region_size = 1;
    h.exefs_hash = sha256(&exefs_plain[0..0x200]);
    finish_header(&mut h, &cfa_private_key());

    let mut catalog = Catalog::new();
    let mut s = PostNcchSession::new(3, process_keys(), 0);
    drive(&mut s, &mut catalog, &h.write_bytes(), 1);
    match drive(&mut s, &mut catalog, &exefs_plain, 2) {
        PostNcchResponse::Finished(_) => {}
        other => panic!("expected Finished, got {:?}", other),
    }
}

/// An icon that hashes correctly but does not carry the SMDH magic is
/// dropped while the upload still succeeds.
#[test]
fn smdh_magic_mismatch_finalizes_without_icon() {
    let icon_plain = vec![0u8; 0x36C0];
    let mut x = ExefsHeader::read_bytes(&vec![0u8; 0x200]);
    x.files[0].name = b"icon\0\0\0\0".to_vec();
    x.files[0].offset = 0;
    x.files[0].size = 0x36C0;
    x.hashes[9] = sha256(&icon_plain);
    let exefs_plain = x.write_bytes();

    let mut h = base_header();
    h.exheader_size = 0;
    h.exefs_offset = 1;
    h.exefs_hash_region_size = 1;
    h.exefs_hash = sha256(&exefs_plain[0..0x200]);
    finish_header(&mut h, &cfa_private_key());

    let mut catalog = Catalog::new();
    let mut s = PostNcchSession::new(3, process_keys(), 0);
    drive(&mut s, &mut catalog, &h.write_bytes(), 1);
    match drive(&mut s, &mut catalog, &exefs_plain, 2) {
        PostNcchResponse::AppendNeeded(a) => {
            assert_eq!(a.offset, 0x200 + 0x200);
            assert_eq!(a.len, 0x36C0);
        }
        other => panic!("expected icon request, got {:?}", other),
    }
    match s.next(&icon_plain, 3) {
        SessionStep::Commit(rec) => {
            assert!(rec.short_title.is_none());
            assert!(rec.smdh_flags.is_none());
        }
        SessionStep::Reply(other) => panic!("expected commit, got {:?}", other),
    }
}

#[test]
fn commit_outcomes_map_to_replies() {
    match commit_response(CatalogOutcome::Inserted, "x-1".to_string()) {
        PostNcchResponse::Finished(e) => assert_eq!(e.ncch_id, "x-1"),
        _ => panic!("expected Finished"),
    }
    match commit_response(CatalogOutcome::Duplicate, "x-2".to_string()) {
        PostNcchResponse::Conflict(e) => assert_eq!(e.ncch_id, "x-2"),
        _ => panic!("expected Conflict"),
    }
    match commit_response(CatalogOutcome::Failed, "x-3".to_string()) {
        PostNcchResponse::InternalServerError => {}
        _ => panic!("expected InternalServerError"),
    }
}
