//! One synthetic package image taken through the whole decoding pipeline
//! in memory: locating, header and table parsing, nonce derivation,
//! block decryption and the final splice and classification.

use openssl::cipher::Cipher;
use openssl::cipher_ctx::CipherCtx;
use pkg_extractor::classify::classify_entry;
use pkg_extractor::crypto::{decrypt_block, modify_nonce, needs_decrypt};
use pkg_extractor::locate::patch_stream_paths;
use pkg_extractor::parse::{read_block_table, read_entry_table, read_header};
use pkg_extractor::reconstruct::{entry_blocks, reconstruct_entry};
use pkg_extractor::structs::Package;

fn put_le16(data: &mut [u8], pos: usize, v: u16) {
    data[pos] = v as u8;
    data[pos + 1] = (v >> 8) as u8;
}

fn put_le32(data: &mut [u8], pos: usize, v: u32) {
    data[pos] = v as u8;
    data[pos + 1] = (v >> 8) as u8;
    data[pos + 2] = (v >> 16) as u8;
    data[pos + 3] = (v >> 24) as u8;
}

fn put_be32(data: &mut [u8], pos: usize, v: u32) {
    data[pos] = (v >> 24) as u8;
    data[pos + 1] = (v >> 16) as u8;
    data[pos + 2] = (v >> 8) as u8;
    data[pos + 3] = v as u8;
}

#[test]
fn whole_pipeline_on_synthetic_package() {
    let pkgid: u16 = 0x0417;
    let entry_table_off: usize = 0x100;
    let block_table_off: usize = 0x140;

    // an entry of 96 bytes starting 16 bytes into block 0 of the span
    let filesize: u32 = 96;
    let offset_units: u32 = 1; // startingblockoffset = 16

    let mut data = vec![0u8; block_table_off + 48 + 60];
    put_le16(&mut data, 0x10, pkgid);
    put_le16(&mut data, 0x30, 0); // patch count 0: primary file only
    put_le32(&mut data, 0x44, entry_table_off as u32);
    put_le32(&mut data, 0x60, 2); // sentinel + one real entry
    put_le32(&mut data, 0x68, 2); // sentinel + one real block
    put_le32(&mut data, 0x6C, block_table_off as u32);

    // entry record 1 (record 0 is the discarded sentinel)
    let rec = entry_table_off + 16;
    put_be32(&mut data, rec, 0x00C0FFEE);
    put_le32(&mut data, rec + 4, (26 << 9) | (7 << 6)); // wem stream
    put_le32(&mut data, rec + 8, offset_units << 14); // block 0, offset 16
    put_le32(&mut data, rec + 12, filesize >> 4);

    // the package, located from a listing
    let listing = vec![
        "packs/w_0.pkg".to_string(),
        "packs/w_2.pkg".to_string(),
        "packs/w_1.pkg".to_string(),
    ];
    let mut package = Package::new("packs", "w", &listing).unwrap();
    assert_eq!(package.package_path, "packs/w_2.pkg");

    read_header(&mut package, &data).unwrap();
    assert_eq!(package.header.pkgid, pkgid);
    modify_nonce(&mut package);

    // the block's payload: 128 plaintext bytes, encrypted with the
    // derived nonce and the primary key
    let plain: Vec<u8> = (0..128u32).map(|i| (i * 3 % 256) as u8).collect();
    let mut ctx = CipherCtx::new().unwrap();
    ctx.encrypt_init(
        Some(Cipher::aes_128_gcm()),
        Some(&package.aes_key),
        Some(&package.nonce),
    )
    .unwrap();
    let mut ct = Vec::new();
    ctx.cipher_update_vec(&plain, &mut ct).unwrap();
    ctx.cipher_final_vec(&mut ct).unwrap();
    let mut tag = [0u8; 16];
    ctx.tag(&mut tag).unwrap();

    // block record 1 (record 0 is the discarded sentinel): encrypted,
    // not compressed, 128 bytes at offset 0x400 of patch file 0
    let brec = block_table_off + 48;
    put_le32(&mut data, brec, 0x400);
    put_le32(&mut data, brec + 4, ct.len() as u32);
    put_le16(&mut data, brec + 8, 0);
    put_le16(&mut data, brec + 10, 0x2);
    data[brec + 44..brec + 60].copy_from_slice(&tag);

    read_entry_table(&mut package, &data).unwrap();
    read_block_table(&mut package, &data).unwrap();
    assert_eq!(package.entries.len(), 1);
    assert_eq!(package.blocks.len(), 1);

    let paths = patch_stream_paths(&package.package_path, package.header.patchid);
    assert_eq!(paths, vec!["packs/w_0.pkg".to_string()]);

    let entry = package.entries[0].clone();
    assert_eq!(entry.reference, "00c0ffee");
    assert_eq!(entry.startingblockoffset, 16);
    assert_eq!(entry.filesize, 96);

    let span = entry_blocks(&package, &entry).unwrap();
    assert_eq!(span.len(), 1);
    let block = span[0];
    assert_eq!(block.offset, 0x400);
    assert!(needs_decrypt(&block));

    let decoded = decrypt_block(&package, &block, ct).unwrap();
    assert_eq!(decoded, plain);

    let out = reconstruct_entry(&entry, &vec![decoded]);
    assert_eq!(out.len(), 96);
    assert_eq!(&out[..], &plain[16..112]);

    let target = classify_entry(&entry, &package.package_id, 0, true).unwrap();
    assert_eq!(target.subdirectory, "wem");
    assert_eq!(target.file_name, "00C0FFEE");
    assert_eq!(target.extension, "wem");
}
