//! Decoding of the entries returned by the kernel's bulk virtual-memory map
//! call, as laid out in `<sys/user.h>`.

use vstd::prelude::*;
use crate::error::Error;
use crate::os::bytes::{lemma_le_value_bound, lemma_pow256_values, read_le_u32, read_le_u64,
    spec_le_value};
use crate::protection::Protection;
use crate::Region;

verus! {

/// Readable entry, from the protection bits of `<sys/user.h>`.
pub const KVME_PROT_READ: i32 = 1;

/// Writable entry, from the protection bits of `<sys/user.h>`.
pub const KVME_PROT_WRITE: i32 = 2;

/// Executable entry, from the protection bits of `<sys/user.h>`.
pub const KVME_PROT_EXEC: i32 = 4;

/// The default entry type of `<sys/user.h>`, which marks a mapping whose
/// pages can be shared with other processes.
pub const KVME_TYPE_DEFAULT: i32 = 1;

/// Decodes native entry protection bits into the common protection model.
pub fn from_native(protection: i32) -> (r: Protection)
    ensures
        r.is_read() == (protection & KVME_PROT_READ == KVME_PROT_READ),
        r.is_write() == (protection & KVME_PROT_WRITE == KVME_PROT_WRITE),
        r.is_execute() == (protection & KVME_PROT_EXEC == KVME_PROT_EXEC),
{
    Protection::from_rwx(
        protection & KVME_PROT_READ == KVME_PROT_READ,
        protection & KVME_PROT_WRITE == KVME_PROT_WRITE,
        protection & KVME_PROT_EXEC == KVME_PROT_EXEC,
    )
}

/// Whether the entry type marks the mapping as shared between processes.
pub fn is_shared(kve_type: i32) -> (r: bool)
    ensures
        r == (kve_type == KVME_TYPE_DEFAULT),
{
    kve_type == KVME_TYPE_DEFAULT
}

/// Builds a region descriptor from the fields of one native map entry:
/// its start and end addresses, its protection bits, and its entry type.
pub fn decode_entry(kve_start: usize, kve_end: usize, kve_protection: i32, kve_type: i32) -> (r:
    Region)
    requires
        kve_start <= kve_end,
    ensures
        r.base == kve_start,
        r.size == kve_end - kve_start,
        r.wf(),
        !r.reserved,
        !r.guarded,
        r.shared == (kve_type == KVME_TYPE_DEFAULT),
        r.protection.is_read() == (kve_protection & KVME_PROT_READ == KVME_PROT_READ),
        r.protection.is_write() == (kve_protection & KVME_PROT_WRITE == KVME_PROT_WRITE),
        r.protection.is_execute() == (kve_protection & KVME_PROT_EXEC == KVME_PROT_EXEC),
{
    Region {
        base: kve_start,
        size: kve_end - kve_start,
        reserved: false,
        guarded: false,
        shared: is_shared(kve_type),
        protection: from_native(kve_protection),
    }
}

/// The byte offset of the self-described record size within a native map
/// entry, as `<sys/user.h>` lays the record out.
pub const KVE_STRUCTSIZE_OFFSET: usize = 0;

/// The byte offset of the entry type within a native map entry.
pub const KVE_TYPE_OFFSET: usize = 4;

/// The byte offset of the entry's start address within a native map entry.
pub const KVE_START_OFFSET: usize = 8;

/// The byte offset of the entry's end address within a native map entry.
pub const KVE_END_OFFSET: usize = 16;

/// The byte offset of the entry's protection bits within a native map
/// entry.
pub const KVE_PROTECTION_OFFSET: usize = 56;

/// The smallest believable record size: one that holds at least every
/// field decoded here.
pub const KVE_MIN_STRUCTSIZE: usize = 60;

/// The region denoted by the map entry starting at byte `off`, if its
/// bounds are ordered and fit the address space.
pub open spec fn spec_entry_at(bytes: Seq<u8>, off: int) -> Option<Region> {
    let start = spec_le_value(bytes, off + (KVE_START_OFFSET as int), 8);
    let end = spec_le_value(bytes, off + (KVE_END_OFFSET as int), 8);
    let prot = spec_le_value(bytes, off + (KVE_PROTECTION_OFFSET as int), 4) as u32;
    let etype = spec_le_value(bytes, off + (KVE_TYPE_OFFSET as int), 4) as u32;
    if start <= end <= usize::MAX {
        Some(
            Region {
                base: start as usize,
                reserved: false,
                guarded: false,
                protection: Protection::spec_from_rwx(
                    prot & (KVME_PROT_READ as u32) != 0,
                    prot & (KVME_PROT_WRITE as u32) != 0,
                    prot & (KVME_PROT_EXEC as u32) != 0,
                ),
                shared: etype == KVME_TYPE_DEFAULT as u32,
                size: (end - start) as usize,
            },
        )
    } else {
        None
    }
}

/// The regions denoted by the map entries from byte `off` on. Each entry
/// carries its own size, so the walk strides by whatever each record
/// declares; records may grow in later kernels without breaking the walk.
/// A truncated entry, a record size below the decoded fields, or an entry
/// with disordered bounds makes the buffer malformed.
pub open spec fn spec_vm_entries_from(bytes: Seq<u8>, off: int) -> Option<Seq<Region>>
    decreases bytes.len() - off,
    when 0 <= off
{
    if off >= bytes.len() {
        Some(Seq::empty())
    } else if off + (KVE_MIN_STRUCTSIZE as int) <= bytes.len() {
        let structsize = spec_le_value(bytes, off + (KVE_STRUCTSIZE_OFFSET as int), 4);
        if (KVE_MIN_STRUCTSIZE as int) <= structsize && off + structsize <= bytes.len() {
            match spec_entry_at(bytes, off) {
                None => None,
                Some(region) => match spec_vm_entries_from(bytes, off + structsize) {
                    None => None,
                    Some(rest) => Some(seq![region] + rest),
                },
            }
        } else {
            None
        }
    } else {
        None
    }
}

/// Decodes a whole buffer of variable-size map entries into region
/// descriptors.
///
/// Each record declares its own size in its first field, so the walk
/// strides by that declaration instead of a compiled-in layout. A buffer
/// that ends mid-record, a record whose declared size cannot hold the
/// decoded fields or overruns the buffer, and an entry whose bounds are
/// disordered or leave the address space all yield
/// [`Error::ProcfsInput`].
pub fn parse_vmmap(bytes: &Vec<u8>) -> (r: Result<Vec<Region>, Error>)
    ensures
        match spec_vm_entries_from(bytes@, 0) {
            None => r matches Err(e) && e matches Error::ProcfsInput(_),
            Some(records) => r matches Ok(v) && v@ == records,
        },
{
    let n = bytes.len();
    let mut regions: Vec<Region> = Vec::new();
    let mut off: usize = 0;
    proof {
        assert(regions@ + spec_vm_entries_from(bytes@, 0).unwrap() =~= spec_vm_entries_from(
            bytes@,
            0,
        ).unwrap());
    }
    while off < n
        invariant
            off <= n,
            n == bytes@.len(),
            match spec_vm_entries_from(bytes@, off as int) {
                None => spec_vm_entries_from(bytes@, 0) is None,
                Some(rest) => spec_vm_entries_from(bytes@, 0) == Some(regions@ + rest),
            },
        decreases n - off,
    {
        if n - off < KVE_MIN_STRUCTSIZE {
            return Err(Error::ProcfsInput(String::from_str("truncated map entry")));
        }
        let structsize_field = read_le_u32(bytes, off + KVE_STRUCTSIZE_OFFSET);
        if structsize_field < KVE_MIN_STRUCTSIZE as u32 {
            return Err(
                Error::ProcfsInput(String::from_str("map entry declares an impossible size")),
            );
        }
        let structsize = structsize_field as usize;
        if structsize > n - off {
            return Err(Error::ProcfsInput(String::from_str("map entry overruns the buffer")));
        }
        let start = read_le_u64(bytes, off + KVE_START_OFFSET);
        let end = read_le_u64(bytes, off + KVE_END_OFFSET);
        let prot = read_le_u32(bytes, off + KVE_PROTECTION_OFFSET);
        let etype = read_le_u32(bytes, off + KVE_TYPE_OFFSET);
        proof {
            lemma_le_value_bound(bytes@, off as int + (KVE_PROTECTION_OFFSET as int), 4);
            lemma_le_value_bound(bytes@, off as int + (KVE_TYPE_OFFSET as int), 4);
            lemma_le_value_bound(bytes@, off as int + (KVE_STRUCTSIZE_OFFSET as int), 4);
            lemma_pow256_values();
        }
        if start > end {
            return Err(Error::ProcfsInput(String::from_str("map entry bounds are disordered")));
        }
        if end > usize::MAX as u64 {
            return Err(
                Error::ProcfsInput(String::from_str("map entry leaves the address space")),
            );
        }
        let region = Region {
            base: start as usize,
            reserved: false,
            guarded: false,
            protection: Protection::from_rwx(
                prot & (KVME_PROT_READ as u32) != 0,
                prot & (KVME_PROT_WRITE as u32) != 0,
                prot & (KVME_PROT_EXEC as u32) != 0,
            ),
            shared: etype == KVME_TYPE_DEFAULT as u32,
            size: (end - start) as usize,
        };
        proof {
            let here = spec_vm_entries_from(bytes@, off as int);
            let tail = spec_vm_entries_from(bytes@, off as int + structsize as int);
            assert(spec_entry_at(bytes@, off as int) == Some(region));
            if tail is Some {
                assert(here == Some(seq![region] + tail.unwrap()));
                assert(regions@.push(region) + tail.unwrap() =~= regions@ + (seq![region]
                    + tail.unwrap()));
            }
        }
        regions.push(region);
        off = off + structsize;
    }
    proof {
        assert(spec_vm_entries_from(bytes@, off as int) == Some(Seq::<Region>::empty()));
        assert(regions@ + Seq::<Region>::empty() =~= regions@);
    }
    Ok(regions)
}

} // verus!
