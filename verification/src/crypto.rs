//! The cryptographic side of the format: per-package nonce derivation and
//! per-block AES-128-GCM decryption with a key chosen by the block's
//! alternate-key flag. The cipher itself is openssl's; everything around
//! the one call into it is verified.

use vstd::prelude::*;

verus! {

use crate::PkgError;
use crate::structs::{Block, Package};

/// Derives the per-package nonce from the fixed base nonce: byte 0 is
/// XOR'd with the high byte of the package id and byte 11 with its low
/// byte; the other ten bytes are untouched. Runs once, after the header
/// is parsed and before any decryption.
pub fn modify_nonce(package: &mut Package)
    ensures
        (final(package)).nonce@[0] == old(package).nonce@[0] ^ ((old(
            package,
        ).header.pkgid as int / 0x100) as u8),
        (final(package)).nonce@[11] == old(package).nonce@[11] ^ ((old(
            package,
        ).header.pkgid as int % 0x100) as u8),
        forall|i: int| 1 <= i < 11 ==> (final(package)).nonce@[i] == old(package).nonce@[i],
        (final(package)).header == old(package).header,
        (final(package)).packages_path == old(package).packages_path,
        (final(package)).entries == old(package).entries,
        (final(package)).package_path == old(package).package_path,
        (final(package)).package_filename == old(package).package_filename,
        (final(package)).package_id == old(package).package_id,
        (final(package)).blocks == old(package).blocks,
        (final(package)).aes_key == old(package).aes_key,
        (final(package)).aes_alt_key == old(package).aes_alt_key,
{
    let hi: u8 = (package.header.pkgid / 0x100) as u8;
    let lo: u8 = (package.header.pkgid % 0x100) as u8;
    let n = package.nonce;
    package.nonce = [
        n[0] ^ hi,
        n[1],
        n[2],
        n[3],
        n[4],
        n[5],
        n[6],
        n[7],
        n[8],
        n[9],
        n[10],
        n[11] ^ lo,
    ];
}

/// Whether bit 1 of the block's flag word is set: the block's bytes are
/// encrypted and must run through the cipher.
pub fn needs_decrypt(block: &Block) -> (r: bool)
    ensures
        r == (block.bitflag & 2 != 0),
{
    block.bitflag & 2 != 0
}

/// Whether bit 0 of the block's flag word is set: the block's plaintext
/// is compressed and must run through the external decompressor.
pub fn needs_decompress(block: &Block) -> (r: bool)
    ensures
        r == (block.bitflag & 1 != 0),
{
    block.bitflag & 1 != 0
}

/// The key the block's flag word selects: bit 2 picks the package's
/// alternate AES-128 key, otherwise the primary one.
pub open spec fn spec_block_key(p: Package, b: Block) -> Seq<u8> {
    if b.bitflag & 4 != 0 {
        p.aes_alt_key@
    } else {
        p.aes_key@
    }
}

/// What AES-128-GCM decryption yields for a key, a nonce and a
/// ciphertext. GCM runs the block cipher in counter mode, so the
/// plaintext is a function of these three alone; the authentication tag
/// only decides whether finalization reports success.
pub uninterp spec fn aes128_gcm_plain(key: Seq<u8>, nonce: Seq<u8>, ct: Seq<u8>) -> Seq<u8>;

/// Relies on openssl's `CipherCtx` (`EVP_CIPHER_CTX` over
/// `Cipher::aes_128_gcm`): `decrypt_init` with a 16-byte key and a
/// 12-byte nonce, `set_tag`, then `cipher_update_vec`, whose output for a
/// no-padding stream mode is as long as its input and determined by key,
/// nonce and ciphertext alone. The input must fit in a C `int` or
/// `cipher_update` would panic. The finalization outcome — the tag check —
/// is deliberately ignored, as this archive format carries tags that do
/// not verify; `cipher_final_vec` runs on a scratch buffer and for GCM
/// writes no plaintext bytes. Any error from the cipher yields `None`.
#[verifier::external_body]
fn aes128_gcm_decrypt_call(key: &[u8; 16], nonce: &[u8; 12], tag: &[u8; 16], ct: &Vec<u8>) -> (r:
    Option<Vec<u8>>)
    requires
        ct@.len() < 0x80000000,
    ensures
        r matches Some(p) ==> p@.len() == ct@.len() && p@ == aes128_gcm_plain(key@, nonce@, ct@),
{
    let cipher = Some(openssl::cipher::Cipher::aes_128_gcm());
    let mut ctx = openssl::cipher_ctx::CipherCtx::new().ok()?;
    ctx.decrypt_init(cipher, Some(key.as_slice()), Some(nonce.as_slice())).ok()?;
    ctx.set_tag(tag.as_slice()).ok()?;
    let mut plain = Vec::new();
    ctx.cipher_update_vec(ct.as_slice(), &mut plain).ok()?;
    let _ = ctx.cipher_final_vec(&mut Vec::new());
    Some(plain)
}

/// Decrypts one block's ciphertext with AES-128-GCM under the package's
/// nonce and the key selected by the block's alternate-key flag. The
/// plaintext has the ciphertext's length. A cipher that cannot be set up
/// or run is a crypto error.
pub fn decrypt_block(package: &Package, block: &Block, block_buffer: Vec<u8>) -> (r: Result<
    Vec<u8>,
    PkgError,
>)
    requires
        block_buffer@.len() < 0x80000000,
    ensures
        r matches Ok(p) ==> p@.len() == block_buffer@.len() && p@ == aes128_gcm_plain(
            spec_block_key(*package, *block),
            package.nonce@,
            block_buffer@,
        ),
        r is Err ==> r == Err::<Vec<u8>, PkgError>(PkgError::Crypto),
{
    let key: &[u8; 16] = if block.bitflag & 4 != 0 {
        &package.aes_alt_key
    } else {
        &package.aes_key
    };
    match aes128_gcm_decrypt_call(key, &package.nonce, &block.gcmtag, &block_buffer) {
        Some(p) => Ok(p),
        None => Err(PkgError::Crypto),
    }
}

} // verus!
