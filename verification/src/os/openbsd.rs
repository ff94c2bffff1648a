//! Decoding of the per-entry mapping records returned by the kernel's
//! virtual-memory map query, as laid out in `<sys/sysctl.h>`.

use vstd::prelude::*;
use crate::protection::Protection;
use crate::Region;

verus! {

/// Readable entry, from the protection bits of `<sys/sysctl.h>`.
pub const KVE_PROT_READ: i32 = 1;

/// Writable entry, from the protection bits of `<sys/sysctl.h>`.
pub const KVE_PROT_WRITE: i32 = 2;

/// Executable entry, from the protection bits of `<sys/sysctl.h>`.
pub const KVE_PROT_EXEC: i32 = 4;

/// Copy-on-write entry type, from the entry-type bits of `<sys/sysctl.h>`;
/// an entry without this bit is shared.
pub const KVE_ET_COPYONWRITE: i32 = 4;

/// Decodes native entry protection bits into the common protection model.
pub fn from_native(protection: i32) -> (r: Protection)
    ensures
        r.is_read() == (protection & KVE_PROT_READ == KVE_PROT_READ),
        r.is_write() == (protection & KVE_PROT_WRITE == KVE_PROT_WRITE),
        r.is_execute() == (protection & KVE_PROT_EXEC == KVE_PROT_EXEC),
{
    Protection::from_rwx(
        protection & KVE_PROT_READ == KVE_PROT_READ,
        protection & KVE_PROT_WRITE == KVE_PROT_WRITE,
        protection & KVE_PROT_EXEC == KVE_PROT_EXEC,
    )
}

/// Whether the entry-type bits mark the mapping as shared: every mapping
/// that is not copy-on-write is reported as shared.
pub fn is_shared(etype: i32) -> (r: bool)
    ensures
        r == (etype & KVE_ET_COPYONWRITE == 0),
{
    etype & KVE_ET_COPYONWRITE == 0
}

/// Builds a region descriptor from the fields of one native map entry:
/// its start and end addresses, its protection bits, and its entry-type
/// bits. The kernel walks entries one at a time, so the embedder feeds
/// this function one entry per query step.
pub fn decode_entry(kve_start: usize, kve_end: usize, kve_protection: i32, kve_etype: i32) -> (r:
    Region)
    requires
        kve_start <= kve_end,
    ensures
        r.base == kve_start,
        r.size == kve_end - kve_start,
        r.wf(),
        !r.reserved,
        !r.guarded,
        r.shared == (kve_etype & KVE_ET_COPYONWRITE == 0),
        r.protection.is_read() == (kve_protection & KVE_PROT_READ == KVE_PROT_READ),
        r.protection.is_write() == (kve_protection & KVE_PROT_WRITE == KVE_PROT_WRITE),
        r.protection.is_execute() == (kve_protection & KVE_PROT_EXEC == KVE_PROT_EXEC),
{
    Region {
        base: kve_start,
        size: kve_end - kve_start,
        reserved: false,
        guarded: false,
        shared: is_shared(kve_etype),
        protection: from_native(kve_protection),
    }
}

} // verus!
