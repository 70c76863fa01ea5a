use openssl::cipher::Cipher;
use openssl::cipher_ctx::CipherCtx;
use pkg_extractor::crypto::{decrypt_block, modify_nonce, needs_decompress, needs_decrypt};
use pkg_extractor::structs::{Block, Package};

fn test_package() -> Package {
    let listing = vec!["d/test_0.pkg".to_string()];
    Package::new("d", "test", &listing).unwrap()
}

/// AES-128-GCM encryption of `plain`, returning ciphertext and tag.
fn gcm_encrypt(key: &[u8; 16], nonce: &[u8; 12], plain: &[u8]) -> (Vec<u8>, [u8; 16]) {
    let mut ctx = CipherCtx::new().unwrap();
    ctx.encrypt_init(Some(Cipher::aes_128_gcm()), Some(key), Some(nonce))
        .unwrap();
    let mut ct = Vec::new();
    ctx.cipher_update_vec(plain, &mut ct).unwrap();
    ctx.cipher_final_vec(&mut ct).unwrap();
    let mut tag = [0u8; 16];
    ctx.tag(&mut tag).unwrap();
    (ct, tag)
}

#[test]
fn nonce_derivation() {
    let mut pkg = test_package();
    pkg.header.pkgid = 0xABCD;
    let before = pkg.nonce;
    modify_nonce(&mut pkg);
    assert_eq!(pkg.nonce[0], before[0] ^ 0xAB);
    assert_eq!(pkg.nonce[11], before[11] ^ 0xCD);
    for i in 1..11 {
        assert_eq!(pkg.nonce[i], before[i]);
    }
}

#[test]
fn flag_bits() {
    let mut b = Block::new();
    b.bitflag = 0;
    assert!(!needs_decrypt(&b) && !needs_decompress(&b));
    b.bitflag = 1;
    assert!(!needs_decrypt(&b) && needs_decompress(&b));
    b.bitflag = 2;
    assert!(needs_decrypt(&b) && !needs_decompress(&b));
    b.bitflag = 7;
    assert!(needs_decrypt(&b) && needs_decompress(&b));
}

#[test]
fn decrypt_roundtrip_primary_key() {
    let mut pkg = test_package();
    pkg.header.pkgid = 0x1234;
    modify_nonce(&mut pkg);
    let plain: Vec<u8> = (0..200u32).map(|i| (i * 7 % 256) as u8).collect();
    let (ct, tag) = gcm_encrypt(&pkg.aes_key, &pkg.nonce, &plain);
    let mut block = Block::new();
    block.bitflag = 2; // encrypted, primary key
    block.gcmtag = tag;
    let out = decrypt_block(&pkg, &block, ct).unwrap();
    assert_eq!(out, plain);
}

#[test]
fn decrypt_roundtrip_alternate_key() {
    let mut pkg = test_package();
    pkg.header.pkgid = 0x0042;
    modify_nonce(&mut pkg);
    let plain = vec![0x5Au8; 64];
    let (ct, tag) = gcm_encrypt(&pkg.aes_alt_key, &pkg.nonce, &plain);
    let mut block = Block::new();
    block.bitflag = 2 | 4; // encrypted, alternate key
    block.gcmtag = tag;
    let out = decrypt_block(&pkg, &block, ct).unwrap();
    assert_eq!(out, plain);
}

#[test]
fn decrypt_ignores_tag_mismatch() {
    // the format's tags do not verify; decryption must still hand back
    // the counter-mode plaintext
    let pkg = test_package();
    let plain = vec![0xC3u8; 32];
    let (ct, _tag) = gcm_encrypt(&pkg.aes_key, &pkg.nonce, &plain);
    let mut block = Block::new();
    block.bitflag = 2;
    block.gcmtag = [0u8; 16]; // wrong tag
    let out = decrypt_block(&pkg, &block, ct).unwrap();
    assert_eq!(out, plain);
}
