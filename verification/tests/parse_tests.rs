use pkg_extractor::parse::{
    be_u32, hex4_lower, hex8_lower, le_u16, le_u32, parse_block_record, parse_entry_record,
    read_block_table, read_entry_table, read_header,
};
use pkg_extractor::structs::Package;
use pkg_extractor::PkgError;

fn test_package() -> Package {
    let listing = vec!["d/test_0.pkg".to_string()];
    Package::new("d", "test", &listing).unwrap()
}

#[test]
fn endian_helpers() {
    let data = vec![0x11u8, 0x22, 0x33, 0x44, 0x55];
    assert_eq!(le_u16(&data, 0), 0x2211);
    assert_eq!(le_u16(&data, 3), 0x5544);
    assert_eq!(le_u32(&data, 0), 0x44332211);
    assert_eq!(be_u32(&data, 1), 0x22334455);
}

#[test]
fn hex_rendering() {
    assert_eq!(hex8_lower(0xDEADBEEF), "deadbeef");
    assert_eq!(hex8_lower(0x00000001), "00000001");
    assert_eq!(hex4_lower(0x0A3F), "0a3f");
    assert_eq!(hex4_lower(0), "0000");
}

#[test]
fn header_fixed_offsets() {
    let mut data = vec![0u8; 0xC0];
    data[0x10] = 0xCD;
    data[0x11] = 0xAB; // pkgid = 0xABCD
    data[0x30] = 0x03; // patchid = 3
    data[0x44] = 0x40;
    data[0x45] = 0x01; // entry table offset = 0x140
    data[0x60] = 0x05; // entry table size = 5
    data[0x68] = 0x07; // block table size = 7
    data[0x6C] = 0x80;
    data[0x6D] = 0x02; // block table offset = 0x280
    data[0xB8] = 0x09; // hash64 table size = 9
    data[0xBC] = 0x00;
    data[0xBD] = 0x10; // hash64 table offset = 0x1000 (+ 64)
    let mut pkg = test_package();
    read_header(&mut pkg, &data).unwrap();
    assert_eq!(pkg.header.pkgid, 0xABCD);
    assert_eq!(pkg.header.patchid, 3);
    assert_eq!(pkg.header.entry_table_offset, 0x140);
    assert_eq!(pkg.header.entry_table_size, 5);
    assert_eq!(pkg.header.block_table_size, 7);
    assert_eq!(pkg.header.block_table_offset, 0x280);
    assert_eq!(pkg.header.hash64_table_size, 9);
    assert_eq!(pkg.header.hash64_table_offset, 0x1000 + 64);
}

#[test]
fn header_short_file_is_format_error() {
    let data = vec![0u8; 0xBF];
    let mut pkg = test_package();
    assert_eq!(read_header(&mut pkg, &data), Err(PkgError::Format));
}

fn put_le32(data: &mut [u8], pos: usize, v: u32) {
    data[pos] = v as u8;
    data[pos + 1] = (v >> 8) as u8;
    data[pos + 2] = (v >> 16) as u8;
    data[pos + 3] = (v >> 24) as u8;
}

fn entry_record(reference: u32, b: u32, c: u32, d: u32) -> [u8; 16] {
    let mut rec = [0u8; 16];
    rec[0] = (reference >> 24) as u8;
    rec[1] = (reference >> 16) as u8;
    rec[2] = (reference >> 8) as u8;
    rec[3] = reference as u8;
    put_le32(&mut rec, 4, b);
    put_le32(&mut rec, 8, c);
    put_le32(&mut rec, 12, d);
    rec
}

#[test]
fn entry_bit_unpacking() {
    // type 26, subtype 7, with garbage in the bits outside both fields
    let b = 5 | (7 << 6) | (26 << 9) | (0xABC << 16);
    // starting block 1000, offset 513 units, file-size low bits 0x7
    let c = 1000 | (513 << 14) | (0x7 << 28);
    // 26-bit size field 0x123456, garbage above it
    let d = 0x123456 | (0x3 << 26);
    let data = entry_record(0x1234ABCD, b, c, d).to_vec();
    let e = parse_entry_record(&data, 0);
    assert_eq!(e.reference, "1234abcd");
    assert_eq!(e.numtype, 26);
    assert_eq!(e.numsubtype, 7);
    assert_eq!(e.startingblock, 1000);
    assert_eq!(e.startingblockoffset, 513 << 4);
    assert_eq!(e.filesize, (0x123456 << 4) | 0x7);
}

#[test]
fn entry_bit_unpacking_boundaries() {
    // 14-bit max offset units and 26+4-bit max file size
    let c = 0x3FFF | (0x3FFF << 14) | (0xF << 28);
    let d = 0x3FFFFFF;
    let data = entry_record(0, 0, c, d).to_vec();
    let e = parse_entry_record(&data, 0);
    assert_eq!(e.reference, "00000000");
    assert_eq!(e.startingblock, 0x3FFF);
    assert_eq!(e.startingblockoffset, 0x3FFF << 4); // 262128, below BLOCK_SIZE
    assert_eq!(e.filesize, 0x3FFFFFFF); // 30-bit max
}

#[test]
fn entry_table_discards_sentinel() {
    let off = 0x20usize;
    let mut data = vec![0u8; off + 3 * 16];
    let sentinel = entry_record(0xFFFFFFFF, 0, 0, 0);
    let r1 = entry_record(0xAABBCCDD, 26 << 9, 5, 1);
    let r2 = entry_record(0x00000011, 7 << 6, 9, 2);
    data[off..off + 16].copy_from_slice(&sentinel);
    data[off + 16..off + 32].copy_from_slice(&r1);
    data[off + 32..off + 48].copy_from_slice(&r2);
    let mut pkg = test_package();
    pkg.header.entry_table_offset = off as u32;
    pkg.header.entry_table_size = 3;
    read_entry_table(&mut pkg, &data).unwrap();
    assert_eq!(pkg.entries.len(), 2);
    assert_eq!(pkg.entries[0].reference, "aabbccdd");
    assert_eq!(pkg.entries[0].numtype, 26);
    assert_eq!(pkg.entries[0].startingblock, 5);
    assert_eq!(pkg.entries[0].filesize, 1 << 4);
    assert_eq!(pkg.entries[1].reference, "00000011");
    assert_eq!(pkg.entries[1].numsubtype, 7);
    assert_eq!(pkg.entries[1].startingblock, 9);
}

#[test]
fn entry_table_too_short_is_format_error() {
    let mut pkg = test_package();
    pkg.header.entry_table_offset = 0;
    pkg.header.entry_table_size = 2;
    let data = vec![0u8; 31];
    assert_eq!(read_entry_table(&mut pkg, &data), Err(PkgError::Format));
    let mut pkg = test_package();
    pkg.header.entry_table_size = 0;
    assert_eq!(read_entry_table(&mut pkg, &vec![0u8; 64]), Err(PkgError::Format));
}

#[test]
fn block_record_reads_past_stride() {
    // one record at 0: tag bytes 44..60 overlap what would be the next
    // record's start on the 48-byte stride
    let mut data = vec![0u8; 60];
    put_le32(&mut data, 0, 0x1000); // offset
    put_le32(&mut data, 4, 0x200); // size
    data[8] = 2; // patchid = 2
    data[10] = 0x7; // bitflag
    for i in 0..16 {
        data[44 + i] = 0xA0 + i as u8;
    }
    let b = parse_block_record(&data, 0);
    assert_eq!(b.offset, 0x1000);
    assert_eq!(b.size, 0x200);
    assert_eq!(b.patchid, 2);
    assert_eq!(b.bitflag, 0x7);
    assert_eq!(b.gcmtag.to_vec(), data[44..60].to_vec());
}

#[test]
fn block_table_discards_sentinel_and_overlaps() {
    let off = 8usize;
    let n = 3u32;
    let mut data = vec![0u8; off + 2 * 48 + 60];
    // record 1 (first kept one) at off + 48
    put_le32(&mut data, off + 48, 0xAA55);
    put_le32(&mut data, off + 52, 0x123);
    data[off + 48 + 8] = 1;
    data[off + 48 + 10] = 0x2;
    // record 2 at off + 96; its leading bytes double as record 1's tag bytes
    put_le32(&mut data, off + 96, 0xDEAD);
    for i in 0..16 {
        data[off + 96 + 44 + i] = i as u8;
    }
    let mut pkg = test_package();
    pkg.header.block_table_offset = off as u32;
    pkg.header.block_table_size = n;
    read_block_table(&mut pkg, &data).unwrap();
    assert_eq!(pkg.blocks.len(), 2);
    assert_eq!(pkg.blocks[0].offset, 0xAA55);
    assert_eq!(pkg.blocks[0].size, 0x123);
    assert_eq!(pkg.blocks[0].patchid, 1);
    assert_eq!(pkg.blocks[0].bitflag, 0x2);
    // the overlap quirk: record 1's tag starts at off+48+44 == off+92,
    // running into record 2's header bytes at off+96
    assert_eq!(pkg.blocks[0].gcmtag.to_vec(), data[off + 92..off + 108].to_vec());
    assert_eq!(pkg.blocks[1].offset, 0xDEAD);
}

#[test]
fn block_table_too_short_is_format_error() {
    let mut pkg = test_package();
    pkg.header.block_table_offset = 0;
    pkg.header.block_table_size = 2;
    let data = vec![0u8; 48 + 59];
    assert_eq!(read_block_table(&mut pkg, &data), Err(PkgError::Format));
}
