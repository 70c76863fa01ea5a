//! Reconstruction of one entry's byte stream from its decoded blocks: the
//! block-span computation and the splice that copies partial first/last
//! blocks and whole interior blocks into the output buffer. The caller
//! decodes each block of the span (read, decrypt, decompress as flagged)
//! and hands the decoded buffers over in increasing block order.

use vstd::prelude::*;

verus! {

use vstd::arithmetic::div_mod::{
    lemma_fundamental_div_mod,
    lemma_fundamental_div_mod_converse,
    lemma_mod_bound,
};
use crate::BLOCK_SIZE;
use crate::PkgError;
use crate::structs::{Block, Entry, Package, entry_wf};

/// How many whole `BLOCK_SIZE` boundaries the entry's byte range crosses:
/// `floor((startingblockoffset + filesize - 1) / BLOCK_SIZE)`, forced to 0
/// for an empty entry. The entry spans blocks `startingblock` through
/// `startingblock + spec_block_count(e)` inclusive.
pub open spec fn spec_block_count(e: Entry) -> int {
    if e.filesize == 0 {
        0
    } else {
        (e.startingblockoffset + e.filesize - 1) / (BLOCK_SIZE as int)
    }
}

/// How many blocks the entry draws bytes from: none at all when the file
/// size is zero, otherwise one more than the crossed boundaries.
pub open spec fn spec_num_blocks(e: Entry) -> int {
    if e.filesize == 0 {
        0
    } else {
        spec_block_count(e) + 1
    }
}

/// How many leading bytes of decoded buffer `m` of the span the splice
/// reads: all of a whole block, fewer for the final partial block.
pub open spec fn spec_needed_len(e: Entry, m: int) -> int {
    let rest = e.startingblockoffset + e.filesize - m * (BLOCK_SIZE as int);
    if rest < BLOCK_SIZE as int {
        rest
    } else {
        BLOCK_SIZE as int
    }
}

/// The decoded buffers cover the entry's span: one buffer per block of the
/// span, each long enough for the bytes the splice reads from it.
pub open spec fn buffers_adequate(e: Entry, bufs: Seq<Vec<u8>>) -> bool {
    &&& bufs.len() == spec_num_blocks(e)
    &&& forall|m: int| 0 <= m < bufs.len() ==> (#[trigger] bufs[m])@.len() >= spec_needed_len(e, m)
}

/// Where output byte `j` of the entry comes from: byte
/// `(startingblockoffset + j) % BLOCK_SIZE` of decoded buffer
/// `(startingblockoffset + j) / BLOCK_SIZE` of the span.
pub open spec fn spec_source_byte(e: Entry, bufs: Seq<Vec<u8>>, j: int) -> u8 {
    bufs[(e.startingblockoffset + j) / (BLOCK_SIZE as int)]@[(e.startingblockoffset + j) % (
    BLOCK_SIZE as int)]
}

/// The number of whole block boundaries the entry's byte range crosses; 0
/// for an empty entry, which draws on no block at all.
pub fn compute_block_count(entry: &Entry) -> (r: u32)
    requires
        entry_wf(*entry),
    ensures
        r == spec_block_count(*entry),
        entry.filesize == 0 ==> r == 0,
{
    if entry.filesize == 0 {
        0
    } else {
        (entry.startingblockoffset + entry.filesize - 1) / BLOCK_SIZE
    }
}

/// Collects the blocks of the entry's span, `startingblock` through
/// `startingblock + spec_block_count` inclusive, in increasing index
/// order; an empty entry has an empty span. A span reaching past the end
/// of the block table is a format error.
pub fn entry_blocks(package: &Package, entry: &Entry) -> (r: Result<Vec<Block>, PkgError>)
    requires
        entry_wf(*entry),
    ensures
        r is Ok <==> (entry.filesize == 0 || entry.startingblock + spec_block_count(*entry)
            < package.blocks@.len()),
        r is Err ==> r == Err::<Vec<Block>, PkgError>(PkgError::Format),
        r matches Ok(v) ==> {
            &&& v@.len() == spec_num_blocks(*entry)
            &&& forall|k: int|
                0 <= k < v@.len() ==> #[trigger] v@[k] == package.blocks@[entry.startingblock + k]
        },
{
    if entry.filesize == 0 {
        return Ok(Vec::new());
    }
    let bc = compute_block_count(entry);
    let last: usize = entry.startingblock as usize + bc as usize;
    if last >= package.blocks.len() {
        return Err(PkgError::Format);
    }
    let mut v: Vec<Block> = Vec::new();
    let mut k: usize = 0;
    while k <= last - entry.startingblock as usize
        invariant
            entry_wf(*entry),
            entry.filesize > 0,
            bc == spec_block_count(*entry),
            last == entry.startingblock + bc,
            last < package.blocks@.len(),
            0 <= k <= bc + 1,
            v@.len() == k,
            forall|i: int|
                0 <= i < v@.len() ==> #[trigger] v@[i] == package.blocks@[entry.startingblock + i],
        decreases bc + 1 - k,
    {
        v.push(package.blocks[entry.startingblock as usize + k]);
        k = k + 1;
    }
    Ok(v)
}

/// Splices the decoded blocks of an entry's span back into the entry's
/// original byte stream: an output of exactly `filesize` bytes whose byte
/// `j` is byte `(startingblockoffset + j) % BLOCK_SIZE` of decoded buffer
/// `(startingblockoffset + j) / BLOCK_SIZE`. The first buffer is read
/// from `startingblockoffset` on, interior buffers whole, and the last
/// buffer up to the bytes that remain — so the copied ranges tile the
/// output without gap or overlap.
pub fn reconstruct_entry(entry: &Entry, decoded: &Vec<Vec<u8>>) -> (out: Vec<u8>)
    requires
        entry_wf(*entry),
        buffers_adequate(*entry, decoded@),
    ensures
        out@.len() == entry.filesize,
        forall|j: int|
            0 <= j < out@.len() ==> out@[j] == spec_source_byte(*entry, decoded@, j),
{
    let fs: usize = entry.filesize as usize;
    let mut out: Vec<u8> = Vec::new();
    if fs == 0 {
        return out;
    }
    let off: usize = entry.startingblockoffset as usize;
    let bs: usize = BLOCK_SIZE as usize;
    let nb: usize = decoded.len();
    proof {
        lemma_fundamental_div_mod((off + fs - 1) as int, bs as int);
        lemma_mod_bound((off + fs - 1) as int, bs as int);
    }
    let mut m: usize = 0;
    while m < nb
        invariant
            entry_wf(*entry),
            buffers_adequate(*entry, decoded@),
            fs == entry.filesize,
            off == entry.startingblockoffset,
            bs == BLOCK_SIZE,
            fs > 0,
            nb == decoded@.len(),
            nb == spec_block_count(*entry) + 1,
            (nb - 1) * (bs as int) <= off + fs - 1,
            off + fs <= nb * (bs as int),
            0 <= m <= nb,
            out@.len() == (if m == 0 {
                0int
            } else if m * (bs as int) - off < fs {
                m * (bs as int) - off
            } else {
                fs as int
            }),
            forall|j: int|
                0 <= j < out@.len() ==> out@[j] == spec_source_byte(*entry, decoded@, j),
        decreases nb - m,
    {
        let start: usize = if m == 0 {
            off
        } else {
            0
        };
        let fin: usize = if off + fs < (m + 1) * bs {
            off + fs - m * bs
        } else {
            bs
        };
        let mut t: usize = start;
        proof {
            assert(m * (bs as int) <= (nb - 1) * (bs as int));
        }
        while t < fin
            invariant
                entry_wf(*entry),
                buffers_adequate(*entry, decoded@),
                fs == entry.filesize,
                off == entry.startingblockoffset,
                bs == BLOCK_SIZE,
                fs > 0,
                nb == decoded@.len(),
                nb == spec_block_count(*entry) + 1,
                (nb - 1) * (bs as int) <= off + fs - 1,
                off + fs <= nb * (bs as int),
                0 <= m < nb,
                start == (if m == 0 { off as int } else { 0int }),
                fin == (if off + fs < (m + 1) * (bs as int) {
                    off + fs - m * (bs as int)
                } else {
                    bs as int
                }),
                start <= t <= fin,
                fin <= spec_needed_len(*entry, m as int),
                out@.len() == m * (bs as int) + t - off,
                forall|j: int|
                    0 <= j < out@.len() ==> out@[j] == spec_source_byte(*entry, decoded@, j),
            decreases fin - t,
        {
            let byte: u8 = decoded[m][t];
            out.push(byte);
            proof {
                lemma_fundamental_div_mod_converse(
                    (m * (bs as int) + t) as int,
                    bs as int,
                    m as int,
                    t as int,
                );
            }
            t = t + 1;
        }
        m = m + 1;
    }
    out
}

/// An entry with `filesize == 0` has a block-less span: it draws on no
/// block at all, and its reconstruction (from no buffers) is the empty
/// output.
pub proof fn lemma_empty_entry_reads_no_blocks(e: Entry)
    requires
        e.filesize == 0,
    ensures
        spec_block_count(e) == 0,
        spec_num_blocks(e) == 0,
        buffers_adequate(e, Seq::<Vec<u8>>::empty()),
{
}

/// For an entry confined to one block (`startingblockoffset + filesize <=
/// BLOCK_SIZE`), the span is a single block and every output byte `j` is
/// sourced from that one decoded buffer at position
/// `startingblockoffset + j` — i.e. from the range
/// `[startingblockoffset, startingblockoffset + filesize)`.
pub proof fn lemma_single_block_source(e: Entry, j: int)
    requires
        entry_wf(e),
        0 < e.filesize,
        e.startingblockoffset + e.filesize <= BLOCK_SIZE,
        0 <= j < e.filesize,
    ensures
        spec_num_blocks(e) == 1,
        (e.startingblockoffset + j) / (BLOCK_SIZE as int) == 0,
        (e.startingblockoffset + j) % (BLOCK_SIZE as int) == e.startingblockoffset + j,
{
    lemma_fundamental_div_mod_converse(
        e.startingblockoffset + e.filesize - 1,
        BLOCK_SIZE as int,
        0,
        e.startingblockoffset + e.filesize - 1,
    );
    lemma_fundamental_div_mod_converse(
        e.startingblockoffset + j,
        BLOCK_SIZE as int,
        0,
        e.startingblockoffset + j,
    );
}

} // verus!
