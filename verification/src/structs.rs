//! The data model of a package: header, entries, blocks, the package
//! aggregate, and the extraction options.

use vstd::prelude::*;

verus! {

use crate::BLOCK_SIZE;

/// One logical asset of the package. The reference identifier is rendered
/// as 8 lowercase hex digits; sizes and offsets are quantized to 16-byte
/// granularity by the on-disk encoding.
#[derive(Clone)]
pub struct Entry {
    pub reference: String,
    pub numtype: u8,
    pub numsubtype: u8,
    pub startingblock: u32,
    pub startingblockoffset: u32,
    pub filesize: u32,
}

/// The fixed-offset header of the primary package file.
#[derive(Clone, Copy, PartialEq, Eq, Structural, Debug)]
pub struct Header {
    pub pkgid: u16,
    pub patchid: u16,
    pub entry_table_offset: u32,
    pub entry_table_size: u32,
    pub block_table_offset: u32,
    pub block_table_size: u32,
    pub hash64_table_offset: u32,
    pub hash64_table_size: u32,
}

/// One physical storage block: its location inside its owning patch file,
/// its flags (bit0 compressed, bit1 encrypted, bit2 alternate key) and its
/// 16-byte GCM authentication tag.
#[derive(Clone, Copy)]
pub struct Block {
    pub id: u32,
    pub offset: u32,
    pub size: u32,
    pub patchid: u16,
    pub bitflag: u16,
    pub gcmtag: [u8; 16],
}

/// The package aggregate: header, entry and block sequences, resolved
/// paths, the per-package nonce and the two format-level AES-128 keys.
pub struct Package {
    pub header: Header,
    pub packages_path: String,
    pub entries: Vec<Entry>,
    pub package_path: String,
    pub package_filename: String,
    pub package_id: String,
    pub nonce: [u8; 12],
    pub blocks: Vec<Block>,
    pub aes_key: [u8; 16],
    pub aes_alt_key: [u8; 16],
}

/// Options of one extraction run.
#[derive(Clone)]
pub struct ExtrOpts {
    pub hexid: bool,
    pub skip_non_audio: bool,
    pub wavconv: bool,
    pub output_path: String,
}

/// The field ranges that the on-disk bit packing guarantees of a decoded
/// entry: the starting block index is 14 bits, the intra-block offset is a
/// 14-bit count of 16-byte units (so it is below `BLOCK_SIZE`), and the
/// file size is 30 bits.
pub open spec fn entry_wf(e: Entry) -> bool {
    &&& e.startingblock < 0x4000
    &&& e.startingblockoffset < BLOCK_SIZE
    &&& e.filesize < 0x40000000
}

impl Header {
    /// A header with every field zero, as it stands before the parse pass.
    pub fn new() -> (h: Header)
        ensures
            h == (Header {
                pkgid: 0,
                patchid: 0,
                entry_table_offset: 0,
                entry_table_size: 0,
                block_table_offset: 0,
                block_table_size: 0,
                hash64_table_offset: 0,
                hash64_table_size: 0,
            }),
    {
        Header {
            pkgid: 0,
            patchid: 0,
            entry_table_offset: 0,
            entry_table_size: 0,
            block_table_offset: 0,
            block_table_size: 0,
            hash64_table_offset: 0,
            hash64_table_size: 0,
        }
    }
}

impl Default for Header {
    fn default() -> (h: Header)
        ensures
            h == (Header {
                pkgid: 0,
                patchid: 0,
                entry_table_offset: 0,
                entry_table_size: 0,
                block_table_offset: 0,
                block_table_size: 0,
                hash64_table_offset: 0,
                hash64_table_size: 0,
            }),
    {
        Header::new()
    }
}

impl Entry {
    /// An entry with an empty reference and every numeric field zero.
    pub fn new() -> (e: Entry)
        ensures
            e.reference@ == Seq::<char>::empty(),
            e.numtype == 0,
            e.numsubtype == 0,
            e.startingblock == 0,
            e.startingblockoffset == 0,
            e.filesize == 0,
    {
        Entry {
            reference: String::new(),
            numtype: 0,
            numsubtype: 0,
            startingblock: 0,
            startingblockoffset: 0,
            filesize: 0,
        }
    }
}

impl Default for Entry {
    fn default() -> (e: Entry)
        ensures
            e.reference@ == Seq::<char>::empty(),
            e.numtype == 0,
            e.numsubtype == 0,
            e.startingblock == 0,
            e.startingblockoffset == 0,
            e.filesize == 0,
    {
        Entry::new()
    }
}

impl Block {
    /// A block with every field zero.
    pub fn new() -> (b: Block)
        ensures
            b.id == 0,
            b.offset == 0,
            b.size == 0,
            b.patchid == 0,
            b.bitflag == 0,
            b.gcmtag@ == Seq::<u8>::new(16, |i: int| 0u8),
    {
        let b = Block { id: 0, offset: 0, size: 0, patchid: 0, bitflag: 0, gcmtag: [0u8; 16] };
        proof {
            assert(b.gcmtag@ =~= Seq::<u8>::new(16, |i: int| 0u8));
        }
        b
    }
}

impl Default for Block {
    fn default() -> (b: Block)
        ensures
            b.id == 0,
            b.offset == 0,
            b.size == 0,
            b.patchid == 0,
            b.bitflag == 0,
            b.gcmtag@ == Seq::<u8>::new(16, |i: int| 0u8),
    {
        Block::new()
    }
}

impl ExtrOpts {
    /// The default options: skip non-audio entries, no hex ids, no wav
    /// conversion, no output path.
    pub fn new() -> (o: ExtrOpts)
        ensures
            o.hexid == false,
            o.skip_non_audio == true,
            o.wavconv == false,
            o.output_path@ == Seq::<char>::empty(),
    {
        ExtrOpts { hexid: false, skip_non_audio: true, wavconv: false, output_path: String::new() }
    }
}

impl Default for ExtrOpts {
    fn default() -> (o: ExtrOpts)
        ensures
            o.hexid == false,
            o.skip_non_audio == true,
            o.wavconv == false,
            o.output_path@ == Seq::<char>::empty(),
    {
        ExtrOpts::new()
    }
}

} // verus!
