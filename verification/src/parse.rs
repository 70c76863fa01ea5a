//! Binary parsing of the primary package file: fixed-width little/big
//! endian reads, hex rendering of reference identifiers, and the header,
//! entry-table and block-table readers. The readers take the primary
//! file's bytes and decode them; they do no I/O themselves.

use vstd::prelude::*;

verus! {

use crate::PkgError;
use crate::structs::{Block, Entry, Header, Package, entry_wf};

/// The 16-bit little-endian value stored at byte offset `i`.
pub open spec fn spec_le_u16(d: Seq<u8>, i: int) -> int {
    d[i] + 0x100 * d[i + 1]
}

/// The 32-bit little-endian value stored at byte offset `i`.
pub open spec fn spec_le_u32(d: Seq<u8>, i: int) -> int {
    d[i] + 0x100 * d[i + 1] + 0x10000 * d[i + 2] + 0x1000000 * d[i + 3]
}

/// The 32-bit big-endian value stored at byte offset `i`.
pub open spec fn spec_be_u32(d: Seq<u8>, i: int) -> int {
    d[i + 3] + 0x100 * d[i + 2] + 0x10000 * d[i + 1] + 0x1000000 * d[i]
}

pub fn le_u16(data: &Vec<u8>, i: usize) -> (r: u16)
    requires
        i + 2 <= data@.len(),
    ensures
        r == spec_le_u16(data@, i as int),
{
    // binding the length teaches the verifier that the view fits in usize
    let _dlen: usize = data.len();
    data[i] as u16 + 0x100 * (data[i + 1] as u16)
}

pub fn le_u32(data: &Vec<u8>, i: usize) -> (r: u32)
    requires
        i + 4 <= data@.len(),
    ensures
        r == spec_le_u32(data@, i as int),
{
    // binding the length teaches the verifier that the view fits in usize
    let _dlen: usize = data.len();
    data[i] as u32 + 0x100 * (data[i + 1] as u32) + 0x10000 * (data[i + 2] as u32) + 0x1000000
        * (data[i + 3] as u32)
}

pub fn be_u32(data: &Vec<u8>, i: usize) -> (r: u32)
    requires
        i + 4 <= data@.len(),
    ensures
        r == spec_be_u32(data@, i as int),
{
    // binding the length teaches the verifier that the view fits in usize
    let _dlen: usize = data.len();
    data[i + 3] as u32 + 0x100 * (data[i + 2] as u32) + 0x10000 * (data[i + 1] as u32) + 0x1000000
        * (data[i] as u32)
}

/// The sixteen lowercase hex digit characters.
pub open spec fn is_lower_hex_char(c: char) -> bool {
    ||| c == '0'
    ||| c == '1'
    ||| c == '2'
    ||| c == '3'
    ||| c == '4'
    ||| c == '5'
    ||| c == '6'
    ||| c == '7'
    ||| c == '8'
    ||| c == '9'
    ||| c == 'a'
    ||| c == 'b'
    ||| c == 'c'
    ||| c == 'd'
    ||| c == 'e'
    ||| c == 'f'
}

/// The lowercase hex digit for a value below 16.
pub open spec fn hex_char_lower(d: int) -> char {
    if d == 0 { '0' }
    else if d == 1 { '1' }
    else if d == 2 { '2' }
    else if d == 3 { '3' }
    else if d == 4 { '4' }
    else if d == 5 { '5' }
    else if d == 6 { '6' }
    else if d == 7 { '7' }
    else if d == 8 { '8' }
    else if d == 9 { '9' }
    else if d == 10 { 'a' }
    else if d == 11 { 'b' }
    else if d == 12 { 'c' }
    else if d == 13 { 'd' }
    else if d == 14 { 'e' }
    else { 'f' }
}

/// One lowercase hex digit as a string slice.
pub fn nibble_str_lower(d: u32) -> (r: &'static str)
    requires
        d < 16,
    ensures
        r@ =~= seq![hex_char_lower(d as int)],
{
    proof {
        reveal_strlit("0");
        reveal_strlit("1");
        reveal_strlit("2");
        reveal_strlit("3");
        reveal_strlit("4");
        reveal_strlit("5");
        reveal_strlit("6");
        reveal_strlit("7");
        reveal_strlit("8");
        reveal_strlit("9");
        reveal_strlit("a");
        reveal_strlit("b");
        reveal_strlit("c");
        reveal_strlit("d");
        reveal_strlit("e");
        reveal_strlit("f");
    }
    match d {
        0 => "0",
        1 => "1",
        2 => "2",
        3 => "3",
        4 => "4",
        5 => "5",
        6 => "6",
        7 => "7",
        8 => "8",
        9 => "9",
        10 => "a",
        11 => "b",
        12 => "c",
        13 => "d",
        14 => "e",
        _ => "f",
    }
}

/// The 8 lowercase hex digits of a 32-bit value, most significant first.
pub open spec fn spec_hex8_lower(v: u32) -> Seq<char> {
    seq![
        hex_char_lower((v as int / 0x10000000) % 16),
        hex_char_lower((v as int / 0x1000000) % 16),
        hex_char_lower((v as int / 0x100000) % 16),
        hex_char_lower((v as int / 0x10000) % 16),
        hex_char_lower((v as int / 0x1000) % 16),
        hex_char_lower((v as int / 0x100) % 16),
        hex_char_lower((v as int / 0x10) % 16),
        hex_char_lower(v as int % 16),
    ]
}

/// Renders a 32-bit value as 8 lowercase hex digits.
pub fn hex8_lower(v: u32) -> (r: String)
    ensures
        r@ == spec_hex8_lower(v),
{
    let mut s = String::new();
    s.append(nibble_str_lower((v / 0x10000000) % 16));
    s.append(nibble_str_lower((v / 0x1000000) % 16));
    s.append(nibble_str_lower((v / 0x100000) % 16));
    s.append(nibble_str_lower((v / 0x10000) % 16));
    s.append(nibble_str_lower((v / 0x1000) % 16));
    s.append(nibble_str_lower((v / 0x100) % 16));
    s.append(nibble_str_lower((v / 0x10) % 16));
    s.append(nibble_str_lower(v % 16));
    proof {
        assert(s@ =~= spec_hex8_lower(v));
    }
    s
}

/// The 4 lowercase hex digits of a 16-bit value, most significant first.
pub open spec fn spec_hex4_lower(v: u16) -> Seq<char> {
    seq![
        hex_char_lower((v as int / 0x1000) % 16),
        hex_char_lower((v as int / 0x100) % 16),
        hex_char_lower((v as int / 0x10) % 16),
        hex_char_lower(v as int % 16),
    ]
}

/// Renders a 16-bit value as 4 lowercase hex digits.
pub fn hex4_lower(v: u16) -> (r: String)
    ensures
        r@ == spec_hex4_lower(v),
{
    let mut s = String::new();
    s.append(nibble_str_lower(((v / 0x1000) % 16) as u32));
    s.append(nibble_str_lower(((v / 0x100) % 16) as u32));
    s.append(nibble_str_lower(((v / 0x10) % 16) as u32));
    s.append(nibble_str_lower((v % 16) as u32));
    proof {
        assert(s@ =~= spec_hex4_lower(v));
    }
    s
}

/// Every character of a rendered reference is a lowercase hex digit.
pub proof fn lemma_hex8_lower_chars(v: u32)
    ensures
        forall|k: int|
            0 <= k < spec_hex8_lower(v).len() ==> is_lower_hex_char(
                #[trigger] spec_hex8_lower(v)[k],
            ),
{
    assert forall|d: int| 0 <= d < 16 implies is_lower_hex_char(hex_char_lower(d)) by {}
    assert forall|k: int| 0 <= k < spec_hex8_lower(v).len() implies is_lower_hex_char(
        #[trigger] spec_hex8_lower(v)[k],
    ) by {
        vstd::arithmetic::div_mod::lemma_mod_bound(v as int / 0x10000000, 16);
        vstd::arithmetic::div_mod::lemma_mod_bound(v as int / 0x1000000, 16);
        vstd::arithmetic::div_mod::lemma_mod_bound(v as int / 0x100000, 16);
        vstd::arithmetic::div_mod::lemma_mod_bound(v as int / 0x10000, 16);
        vstd::arithmetic::div_mod::lemma_mod_bound(v as int / 0x1000, 16);
        vstd::arithmetic::div_mod::lemma_mod_bound(v as int / 0x100, 16);
        vstd::arithmetic::div_mod::lemma_mod_bound(v as int / 0x10, 16);
        vstd::arithmetic::div_mod::lemma_mod_bound(v as int, 16);
    }
}

/// Whether the header bytes can be decoded: the file reaches past the last
/// header field, and adding the constant 64 to the secondary hash-table
/// offset stays within 32 bits.
pub open spec fn header_parse_ok(d: Seq<u8>) -> bool {
    &&& d.len() >= 0xC0
    &&& spec_le_u32(d, 0xBC) + 64 < 0x100000000
}

/// The header decoded from the fixed absolute offsets of the primary file:
/// package id at 0x10, patch count at 0x30, entry-table offset at 0x44 and
/// record count at 0x60, block-table record count at 0x68 followed by its
/// offset, secondary hash-table record count at 0xB8 followed by its
/// offset, to which 64 is added.
pub open spec fn spec_header_of(d: Seq<u8>) -> Header {
    Header {
        pkgid: spec_le_u16(d, 0x10) as u16,
        patchid: spec_le_u16(d, 0x30) as u16,
        entry_table_offset: spec_le_u32(d, 0x44) as u32,
        entry_table_size: spec_le_u32(d, 0x60) as u32,
        block_table_size: spec_le_u32(d, 0x68) as u32,
        block_table_offset: spec_le_u32(d, 0x6C) as u32,
        hash64_table_size: spec_le_u32(d, 0xB8) as u32,
        hash64_table_offset: (spec_le_u32(d, 0xBC) + 64) as u32,
    }
}

/// Decodes the fixed-offset header from the primary file's bytes into the
/// package. A file too short for the header, or a hash-table offset that
/// would leave 32 bits once 64 is added, is a format error and leaves the
/// package untouched.
pub fn read_header(package: &mut Package, data: &Vec<u8>) -> (r: Result<(), PkgError>)
    ensures
        r is Ok <==> header_parse_ok(data@),
        r is Ok ==> (final(package)).header == spec_header_of(data@),
        r is Err ==> r == Err::<(), PkgError>(PkgError::Format) && *final(package) == *old(
            package,
        ),
        (final(package)).packages_path == old(package).packages_path,
        (final(package)).entries == old(package).entries,
        (final(package)).package_path == old(package).package_path,
        (final(package)).package_filename == old(package).package_filename,
        (final(package)).package_id == old(package).package_id,
        (final(package)).nonce == old(package).nonce,
        (final(package)).blocks == old(package).blocks,
        (final(package)).aes_key == old(package).aes_key,
        (final(package)).aes_alt_key == old(package).aes_alt_key,
{
    if data.len() < 0xC0 {
        return Err(PkgError::Format);
    }
    let hash_off = le_u32(data, 0xBC);
    if hash_off > 0xFFFFFFFF - 64 {
        return Err(PkgError::Format);
    }
    let h = Header {
        pkgid: le_u16(data, 0x10),
        patchid: le_u16(data, 0x30),
        entry_table_offset: le_u32(data, 0x44),
        entry_table_size: le_u32(data, 0x60),
        block_table_size: le_u32(data, 0x68),
        block_table_offset: le_u32(data, 0x6C),
        hash64_table_size: le_u32(data, 0xB8),
        hash64_table_offset: hash_off + 64,
    };
    package.header = h;
    Ok(())
}

/// What one 16-byte entry record decodes to: bytes 0-3 big-endian give the
/// reference (rendered as 8 lowercase hex digits); of the little-endian
/// word at bytes 4-7, bits 9-15 are the type and bits 6-8 the subtype; of
/// the word at bytes 8-11, bits 0-13 are the starting block and bits 14-27
/// the intra-block offset in 16-byte units; the file size is the low 26
/// bits of the word at bytes 12-15, in 16-byte units, with bits 28-31 of
/// the previous word as its low 4 bits.
pub open spec fn entry_matches_record(e: Entry, d: Seq<u8>, p: int) -> bool {
    let b = spec_le_u32(d, p + 4);
    let c = spec_le_u32(d, p + 8);
    let f = spec_le_u32(d, p + 12);
    &&& e.reference@ == spec_hex8_lower(spec_be_u32(d, p) as u32)
    &&& e.numtype == (b / 0x200) % 0x80
    &&& e.numsubtype == (b / 0x40) % 8
    &&& e.startingblock == c % 0x4000
    &&& e.startingblockoffset == ((c / 0x4000) % 0x4000) * 16
    &&& e.filesize == (f % 0x4000000) * 16 + (c / 0x10000000) % 16
}

/// Decodes the 16-byte entry record at byte offset `pos`.
pub fn parse_entry_record(data: &Vec<u8>, pos: usize) -> (e: Entry)
    requires
        pos + 16 <= data@.len(),
    ensures
        entry_matches_record(e, data@, pos as int),
        entry_wf(e),
        forall|k: int|
            0 <= k < e.reference@.len() ==> is_lower_hex_char(#[trigger] e.reference@[k]),
{
    // binding the length teaches the verifier that the view fits in usize
    let _dlen: usize = data.len();
    let a = be_u32(data, pos);
    proof {
        lemma_hex8_lower_chars(spec_be_u32(data@, pos as int) as u32);
    }
    let b = le_u32(data, pos + 4);
    let c = le_u32(data, pos + 8);
    let f = le_u32(data, pos + 12);
    Entry {
        reference: hex8_lower(a),
        numtype: ((b / 0x200) % 0x80) as u8,
        numsubtype: ((b / 0x40) % 8) as u8,
        startingblock: c % 0x4000,
        startingblockoffset: ((c / 0x4000) % 0x4000) * 16,
        filesize: (f % 0x4000000) * 16 + (c / 0x10000000) % 16,
    }
}

/// Whether the entry table described by the header can be decoded from the
/// file's bytes: at least the sentinel record, all records inside the file.
pub open spec fn entry_table_ok(h: Header, d: Seq<u8>) -> bool {
    &&& h.entry_table_size >= 1
    &&& h.entry_table_offset + h.entry_table_size * 16 <= d.len()
}

/// Decodes the entry table: `entry_table_size` records of 16 bytes each,
/// starting at `entry_table_offset`. The first record is a reserved
/// sentinel and is discarded; the remaining records, in table order, become
/// the package's entries. A table that does not fit in the file, or one
/// with no room for the sentinel, is a format error and leaves the package
/// untouched.
pub fn read_entry_table(package: &mut Package, data: &Vec<u8>) -> (r: Result<(), PkgError>)
    ensures
        r is Ok <==> entry_table_ok(old(package).header, data@),
        r is Ok ==> {
            let off = old(package).header.entry_table_offset as int;
            let n = old(package).header.entry_table_size as int;
            &&& (final(package)).entries@.len() == n - 1
            &&& forall|k: int|
                0 <= k < n - 1 ==> entry_matches_record(
                    #[trigger] (final(package)).entries@[k],
                    data@,
                    off + (k + 1) * 16,
                )
            &&& forall|k: int| 0 <= k < n - 1 ==> entry_wf(#[trigger] (final(package)).entries@[k])
            &&& forall|k: int, c: int|
                0 <= k < n - 1 && 0 <= c < (final(package)).entries@[k].reference@.len()
                    ==> is_lower_hex_char(#[trigger] (final(package)).entries@[k].reference@[c])
        },
        r is Err ==> r == Err::<(), PkgError>(PkgError::Format) && *final(package) == *old(
            package,
        ),
        (final(package)).header == old(package).header,
        (final(package)).packages_path == old(package).packages_path,
        (final(package)).package_path == old(package).package_path,
        (final(package)).package_filename == old(package).package_filename,
        (final(package)).package_id == old(package).package_id,
        (final(package)).nonce == old(package).nonce,
        (final(package)).blocks == old(package).blocks,
        (final(package)).aes_key == old(package).aes_key,
        (final(package)).aes_alt_key == old(package).aes_alt_key,
{
    let off = package.header.entry_table_offset;
    let n = package.header.entry_table_size;
    if n < 1 {
        return Err(PkgError::Format);
    }
    let dlen: usize = data.len();
    if (dlen as u64) < off as u64 + n as u64 * 16 {
        return Err(PkgError::Format);
    }
    let mut entries: Vec<Entry> = Vec::new();
    let mut k: u32 = 1;
    while k < n
        invariant
            1 <= k <= n,
            dlen == data@.len(),
            off + n * 16 <= dlen,
            entries@.len() == k - 1,
            forall|j: int|
                0 <= j < k - 1 ==> entry_matches_record(
                    #[trigger] entries@[j],
                    data@,
                    off + (j + 1) * 16,
                ),
            forall|j: int| 0 <= j < k - 1 ==> entry_wf(#[trigger] entries@[j]),
            forall|j: int, c: int|
                0 <= j < k - 1 && 0 <= c < entries@[j].reference@.len() ==> is_lower_hex_char(
                    #[trigger] entries@[j].reference@[c],
                ),
        decreases n - k,
    {
        let pos = off as usize + k as usize * 16;
        let e = parse_entry_record(data, pos);
        entries.push(e);
        k = k + 1;
    }
    package.entries = entries;
    Ok(())
}

/// What one block record decodes to: byte offset and size as little-endian
/// 32-bit values, patch index and flag word as little-endian 16-bit
/// values, and, 32 bytes further on, the 16-byte GCM tag. The tag bytes
/// deliberately lie past the 48-byte record stride (a quirk of the format:
/// they overlap the next record's leading bytes).
pub open spec fn block_matches_record(b: Block, d: Seq<u8>, p: int) -> bool {
    &&& b.id == 0
    &&& b.offset == spec_le_u32(d, p)
    &&& b.size == spec_le_u32(d, p + 4)
    &&& b.patchid == spec_le_u16(d, p + 8)
    &&& b.bitflag == spec_le_u16(d, p + 10)
    &&& b.gcmtag@ == d.subrange(p + 44, p + 60)
}

/// Decodes the 60 bytes of the block record starting at byte offset `pos`.
pub fn parse_block_record(data: &Vec<u8>, pos: usize) -> (b: Block)
    requires
        pos + 60 <= data@.len(),
    ensures
        block_matches_record(b, data@, pos as int),
{
    // binding the length teaches the verifier that the view fits in usize
    let _dlen: usize = data.len();
    let mut tag = [0u8; 16];
    let mut i: usize = 0;
    while i < 16
        invariant
            i <= 16,
            pos + 60 <= data@.len(),
            data@.len() <= usize::MAX,
            tag@.len() == 16,
            forall|j: int| 0 <= j < i ==> tag@[j] == data@[pos + 44 + j],
        decreases 16 - i,
    {
        tag[i] = data[pos + 44 + i];
        i = i + 1;
    }
    let b = Block {
        id: 0,
        offset: le_u32(data, pos),
        size: le_u32(data, pos + 4),
        patchid: le_u16(data, pos + 8),
        bitflag: le_u16(data, pos + 10),
        gcmtag: tag,
    };
    proof {
        assert(b.gcmtag@ =~= data@.subrange(pos + 44, pos + 60));
    }
    b
}

/// Whether the block table described by the header can be decoded: at
/// least the sentinel record, and every record's 60 consumed bytes inside
/// the file.
pub open spec fn block_table_ok(h: Header, d: Seq<u8>) -> bool {
    &&& h.block_table_size >= 1
    &&& h.block_table_offset + (h.block_table_size - 1) * 48 + 60 <= d.len()
}

/// Decodes the block table: `block_table_size` records on a 48-byte
/// stride starting at `block_table_offset`, each record read afresh from
/// its absolute start. The first record is a reserved sentinel and is
/// discarded. A table that does not fit, or one with no room for the
/// sentinel, is a format error and leaves the package untouched.
pub fn read_block_table(package: &mut Package, data: &Vec<u8>) -> (r: Result<(), PkgError>)
    ensures
        r is Ok <==> block_table_ok(old(package).header, data@),
        r is Ok ==> {
            let off = old(package).header.block_table_offset as int;
            let n = old(package).header.block_table_size as int;
            &&& (final(package)).blocks@.len() == n - 1
            &&& forall|k: int|
                0 <= k < n - 1 ==> block_matches_record(
                    #[trigger] (final(package)).blocks@[k],
                    data@,
                    off + (k + 1) * 48,
                )
        },
        r is Err ==> r == Err::<(), PkgError>(PkgError::Format) && *final(package) == *old(
            package,
        ),
        (final(package)).header == old(package).header,
        (final(package)).packages_path == old(package).packages_path,
        (final(package)).entries == old(package).entries,
        (final(package)).package_path == old(package).package_path,
        (final(package)).package_filename == old(package).package_filename,
        (final(package)).package_id == old(package).package_id,
        (final(package)).nonce == old(package).nonce,
        (final(package)).aes_key == old(package).aes_key,
        (final(package)).aes_alt_key == old(package).aes_alt_key,
{
    let off = package.header.block_table_offset;
    let n = package.header.block_table_size;
    if n < 1 {
        return Err(PkgError::Format);
    }
    let dlen: usize = data.len();
    if (dlen as u64) < off as u64 + (n as u64 - 1) * 48 + 60 {
        return Err(PkgError::Format);
    }
    let mut blocks: Vec<Block> = Vec::new();
    let mut k: u32 = 1;
    while k < n
        invariant
            1 <= k <= n,
            dlen == data@.len(),
            off + (n - 1) * 48 + 60 <= dlen,
            blocks@.len() == k - 1,
            forall|j: int|
                0 <= j < k - 1 ==> block_matches_record(
                    #[trigger] blocks@[j],
                    data@,
                    off + (j + 1) * 48,
                ),
        decreases n - k,
    {
        let pos = off as usize + k as usize * 48;
        proof {
            assert(off + k * 48 + 60 <= off + (n - 1) * 48 + 60) by (nonlinear_arith)
                requires
                    k < n,
                    0 <= k,
                    0 <= off,
            ;
        }
        let b = parse_block_record(data, pos);
        blocks.push(b);
        k = k + 1;
    }
    package.blocks = blocks;
    Ok(())
}

} // verus!
