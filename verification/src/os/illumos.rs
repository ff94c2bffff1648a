//! Decoding of the `map` pseudo-file of procfs.
//!
//! The kernel describes the mappings of a process as an array of
//! fixed-size binary records, one per mapping, whose layout `<sys/procfs.h>`
//! declares as a stable interface. The functions here turn the bytes of
//! that file into [`Region`] values; reading the file itself is I/O and
//! stays with the embedder.

use vstd::prelude::*;
use crate::error::Error;
use crate::os::bytes::{lemma_le_value_bound, lemma_pow256_values, read_le_u32, read_le_u64,
    spec_le_value};
use crate::protection::Protection;
use crate::Region;

verus! {

/// Executable mapping, from the flag bits of `<sys/procfs.h>`.
pub const MA_EXEC: i32 = 0x1;

/// Writable mapping, from the flag bits of `<sys/procfs.h>`.
pub const MA_WRITE: i32 = 0x2;

/// Readable mapping, from the flag bits of `<sys/procfs.h>`.
pub const MA_READ: i32 = 0x4;

/// Shared mapping, from the flag bits of `<sys/procfs.h>`.
pub const MA_SHARED: i32 = 0x8;

/// The size in bytes of one mapping record of the `map` pseudo-file: a
/// 64-bit virtual address and size, a 64-byte name, a 64-bit offset, and
/// four 32-bit fields (flags, page size, shared-memory id, and padding).
pub const PRMAP_SIZE: usize = 104;

/// The byte offset of the mapping-flag field within a record.
pub const PRMAP_MFLAGS_OFFSET: usize = 88;

/// Decodes native mapping flags into the common protection model.
pub fn from_native(protection: i32) -> (r: Protection)
    ensures
        r.is_read() == (protection & MA_READ == MA_READ),
        r.is_write() == (protection & MA_WRITE == MA_WRITE),
        r.is_execute() == (protection & MA_EXEC == MA_EXEC),
{
    Protection::from_rwx(
        protection & MA_READ == MA_READ,
        protection & MA_WRITE == MA_WRITE,
        protection & MA_EXEC == MA_EXEC,
    )
}

/// Whether the native mapping flags mark the mapping as shared between
/// processes.
pub fn is_shared(mflags: i32) -> (r: bool)
    ensures
        r == (mflags & MA_SHARED != 0),
{
    mflags & MA_SHARED != 0
}

/// The region denoted by record `index` of a map listing, if its bounds
/// fit the address space: the record's virtual address and size become the
/// region's, and its mapping flags name the protection and the share
/// state. A record whose range would wrap the address space is malformed.
pub open spec fn spec_parse_map_record(bytes: Seq<u8>, index: int) -> Option<Region> {
    let off = index * (PRMAP_SIZE as int);
    let vaddr = spec_le_value(bytes, off, 8);
    let size = spec_le_value(bytes, off + 8, 8);
    let mflags = spec_le_value(bytes, off + (PRMAP_MFLAGS_OFFSET as int), 4) as u32;
    if vaddr + size <= usize::MAX {
        Some(
            Region {
                base: vaddr as usize,
                reserved: false,
                guarded: false,
                protection: Protection::spec_from_rwx(
                    mflags & (MA_READ as u32) != 0,
                    mflags & (MA_WRITE as u32) != 0,
                    mflags & (MA_EXEC as u32) != 0,
                ),
                shared: mflags & (MA_SHARED as u32) != 0,
                size: size as usize,
            },
        )
    } else {
        None
    }
}

/// Decodes one fixed-size mapping record.
pub fn parse_map_record(bytes: &Vec<u8>, index: usize) -> (r: Option<Region>)
    requires
        index * PRMAP_SIZE + PRMAP_SIZE <= bytes@.len(),
    ensures
        r == spec_parse_map_record(bytes@, index as int),
        r matches Some(region) ==> region.wf(),
{
    let n = bytes.len();
    proof {
        assert(index * PRMAP_SIZE + PRMAP_SIZE <= n);
    }
    let off = index * PRMAP_SIZE;
    let vaddr = read_le_u64(bytes, off);
    let size = read_le_u64(bytes, off + 8);
    let mflags = read_le_u32(bytes, off + PRMAP_MFLAGS_OFFSET);
    proof {
        lemma_le_value_bound(bytes@, off as int + (PRMAP_MFLAGS_OFFSET as int), 4);
        lemma_pow256_values();
    }
    if vaddr > usize::MAX as u64 {
        return None;
    }
    if size > usize::MAX as u64 - vaddr {
        return None;
    }
    Some(
        Region {
            base: vaddr as usize,
            reserved: false,
            guarded: false,
            protection: Protection::from_rwx(
                mflags & (MA_READ as u32) != 0,
                mflags & (MA_WRITE as u32) != 0,
                mflags & (MA_EXEC as u32) != 0,
            ),
            shared: mflags & (MA_SHARED as u32) != 0,
            size: size as usize,
        },
    )
}

/// The regions denoted by the records from `index` on, or nothing when
/// one of them is malformed.
pub open spec fn spec_map_records_from(bytes: Seq<u8>, index: int) -> Option<Seq<Region>>
    decreases bytes.len() as int / (PRMAP_SIZE as int) - index,
    when 0 <= index
{
    if index >= bytes.len() as int / (PRMAP_SIZE as int) {
        Some(Seq::empty())
    } else {
        match spec_parse_map_record(bytes, index) {
            None => None,
            Some(region) => match spec_map_records_from(bytes, index + 1) {
                None => None,
                Some(rest) => Some(seq![region] + rest),
            },
        }
    }
}

/// Decodes a whole map listing into region descriptors.
///
/// The listing must be an exact array of fixed-size records; a file whose
/// size is not a multiple of the record size, or a record whose range
/// would wrap the address space, yields [`Error::ProcfsInput`].
pub fn parse_map_records(bytes: &Vec<u8>) -> (r: Result<Vec<Region>, Error>)
    ensures
        bytes@.len() as int % (PRMAP_SIZE as int) != 0 ==> (r matches Err(e) && e matches
            Error::ProcfsInput(_)),
        bytes@.len() as int % (PRMAP_SIZE as int) == 0 ==> match spec_map_records_from(bytes@, 0) {
            None => r matches Err(e) && e matches Error::ProcfsInput(_),
            Some(records) => r matches Ok(v) && v@ == records,
        },
{
    if bytes.len() % PRMAP_SIZE != 0 {
        return Err(
            Error::ProcfsInput(
                String::from_str("file size is not a multiple of the map record size"),
            ),
        );
    }
    let count = bytes.len() / PRMAP_SIZE;
    let mut regions: Vec<Region> = Vec::new();
    let mut i: usize = 0;
    proof {
        assert(regions@ + spec_map_records_from(bytes@, 0).unwrap() =~= spec_map_records_from(
            bytes@,
            0,
        ).unwrap());
    }
    while i < count
        invariant
            i <= count,
            count == bytes@.len() as int / (PRMAP_SIZE as int),
            bytes@.len() as int % (PRMAP_SIZE as int) == 0,
            regions@.len() == i,
            match spec_map_records_from(bytes@, i as int) {
                None => spec_map_records_from(bytes@, 0) is None,
                Some(rest) => spec_map_records_from(bytes@, 0) == Some(regions@ + rest),
            },
        decreases count - i,
    {
        proof {
            vstd::arithmetic::div_mod::lemma_fundamental_div_mod(
                bytes@.len() as int,
                PRMAP_SIZE as int,
            );
            assert((i + 1) * (PRMAP_SIZE as int) <= count * (PRMAP_SIZE as int))
                by (nonlinear_arith)
                requires
                    i + 1 <= count,
                    0 < (PRMAP_SIZE as int),
            ;
        }
        let region = match parse_map_record(bytes, i) {
            None => {
                return Err(
                    Error::ProcfsInput(String::from_str("map record wraps the address space")),
                );
            },
            Some(region) => region,
        };
        proof {
            let rest = spec_map_records_from(bytes@, i as int);
            let tail = spec_map_records_from(bytes@, i as int + 1);
            if tail is Some {
                assert(rest == Some(seq![region] + tail.unwrap()));
                assert(regions@.push(region) + tail.unwrap() =~= regions@ + (seq![region]
                    + tail.unwrap()));
            }
        }
        regions.push(region);
        i = i + 1;
    }
    proof {
        assert(spec_map_records_from(bytes@, i as int) == Some(Seq::<Region>::empty()));
        assert(regions@ + Seq::<Region>::empty() =~= regions@);
    }
    Ok(regions)
}

} // verus!
