//! Decoding of the page-protection constants of the Windows memory API.
//!
//! Unlike the POSIX systems, Windows names whole combinations rather than
//! single bits, so both directions are lookup tables and not every
//! combination of attributes has its own name.

use vstd::prelude::*;
use crate::protection::Protection;
use crate::Region;

verus! {

/// No access, from `<winnt.h>`.
pub const PAGE_NOACCESS: u32 = 0x01;

/// Read-only, from `<winnt.h>`.
pub const PAGE_READONLY: u32 = 0x02;

/// Read-write, from `<winnt.h>`.
pub const PAGE_READWRITE: u32 = 0x04;

/// Copy-on-write, from `<winnt.h>`.
pub const PAGE_WRITECOPY: u32 = 0x08;

/// Execute-only, from `<winnt.h>`.
pub const PAGE_EXECUTE: u32 = 0x10;

/// Execute and read, from `<winnt.h>`.
pub const PAGE_EXECUTE_READ: u32 = 0x20;

/// Execute, read and write, from `<winnt.h>`.
pub const PAGE_EXECUTE_READWRITE: u32 = 0x40;

/// Execute and copy-on-write, from `<winnt.h>`.
pub const PAGE_EXECUTE_WRITECOPY: u32 = 0x80;

/// Guard-page modifier, from `<winnt.h>`; reported separately from the
/// protection and never folded into it.
pub const PAGE_GUARD: u32 = 0x100;

/// Non-cached modifier, from `<winnt.h>`.
pub const PAGE_NOCACHE: u32 = 0x200;

/// Write-combined modifier, from `<winnt.h>`.
pub const PAGE_WRITECOMBINE: u32 = 0x400;

/// The native protection with its modifier bits masked out.
pub open spec fn spec_masked(protection: u32) -> u32 {
    protection & !(PAGE_GUARD | PAGE_NOCACHE | PAGE_WRITECOMBINE)
}

/// The common protection named by a masked native value, if any.
pub open spec fn spec_from_native(masked: u32) -> Option<Protection> {
    if masked == PAGE_EXECUTE {
        Some(Protection::EXECUTE)
    } else if masked == PAGE_EXECUTE_READ {
        Some(Protection::READ_EXECUTE)
    } else if masked == PAGE_EXECUTE_READWRITE {
        Some(Protection::READ_WRITE_EXECUTE)
    } else if masked == PAGE_EXECUTE_WRITECOPY {
        Some(Protection::READ_WRITE_EXECUTE)
    } else if masked == PAGE_NOACCESS {
        Some(Protection::NONE)
    } else if masked == PAGE_READONLY {
        Some(Protection::READ)
    } else if masked == PAGE_READWRITE {
        Some(Protection::READ_WRITE)
    } else if masked == PAGE_WRITECOPY {
        Some(Protection::READ_WRITE)
    } else {
        None
    }
}

impl Protection {
    /// Decodes a native protection value into the common model, ignoring
    /// the modifier bits (guard, cache and write-combine state), which the
    /// caller reports separately. A value that names no known protection is
    /// a programming mistake at the call site and is ruled out up front.
    pub fn from_native(protection: u32) -> (r: Protection)
        requires
            spec_from_native(spec_masked(protection)) is Some,
        ensures
            Some(r) == spec_from_native(spec_masked(protection)),
    {
        let masked = protection & !(PAGE_GUARD | PAGE_NOCACHE | PAGE_WRITECOMBINE);
        if masked == PAGE_EXECUTE {
            Protection::EXECUTE
        } else if masked == PAGE_EXECUTE_READ {
            Protection::READ_EXECUTE
        } else if masked == PAGE_EXECUTE_READWRITE {
            Protection::READ_WRITE_EXECUTE
        } else if masked == PAGE_EXECUTE_WRITECOPY {
            Protection::READ_WRITE_EXECUTE
        } else if masked == PAGE_NOACCESS {
            Protection::NONE
        } else if masked == PAGE_READONLY {
            Protection::READ
        } else if masked == PAGE_READWRITE {
            Protection::READ_WRITE
        } else {
            Protection::READ_WRITE
        }
    }
}

/// Committed pages, from the memory state values of `<winnt.h>`.
pub const MEM_COMMIT: u32 = 0x1000;

/// Reserved address space, from the memory state values of `<winnt.h>`.
pub const MEM_RESERVE: u32 = 0x2000;

/// Free address space, from the memory state values of `<winnt.h>`.
pub const MEM_FREE: u32 = 0x10000;

/// Private mapping type, from the memory type values of `<winnt.h>`.
pub const MEM_PRIVATE: u32 = 0x20000;

/// The region described by one step of the native region query, if the
/// step describes address space that is in use at all: free address space
/// yields nothing. Reserved-but-uncommitted space has no protection of its
/// own yet and is reported with no access and no guard; only committed
/// space carries a decoded protection.
pub open spec fn spec_decode_region(
    base: usize,
    size: usize,
    state: u32,
    protect: u32,
    mem_type: u32,
) -> Option<Region> {
    if state == MEM_COMMIT || state == MEM_RESERVE {
        Some(
            Region {
                base,
                size,
                reserved: state != MEM_COMMIT,
                guarded: protect & PAGE_GUARD != 0,
                shared: mem_type & MEM_PRIVATE == 0,
                protection: if state == MEM_COMMIT {
                    match spec_from_native(spec_masked(protect)) {
                        Some(p) => p,
                        None => Protection::NONE,
                    }
                } else {
                    Protection::NONE
                },
            },
        )
    } else {
        None
    }
}

/// Decodes one step of the native region query into a region descriptor.
///
/// Only mapped address space — committed or reserved — is of interest; a
/// step over free space yields nothing. A committed step must carry a
/// known protection name; that is the kernel's promise.
pub fn decode_region(base: usize, size: usize, state: u32, protect: u32, mem_type: u32) -> (r:
    Option<Region>)
    requires
        state == MEM_COMMIT ==> spec_from_native(spec_masked(protect)) is Some,
    ensures
        r == spec_decode_region(base, size, state, protect, mem_type),
{
    if state == MEM_COMMIT || state == MEM_RESERVE {
        let protection = if state == MEM_COMMIT {
            Protection::from_native(protect)
        } else {
            Protection::NONE
        };
        Some(
            Region {
                base,
                size,
                reserved: state != MEM_COMMIT,
                guarded: protect & PAGE_GUARD != 0,
                shared: mem_type & MEM_PRIVATE == 0,
                protection,
            },
        )
    } else {
        None
    }
}

/// Clamps the window that a query over `[origin, origin + size)` walks to
/// the bounds of the application address space: the start is raised to the
/// lowest application address, and the end — saturated rather than wrapped
/// — is lowered to the highest one.
pub fn clamp_window(origin: usize, size: usize, min_address: usize, max_address: usize) -> (r: (
    usize,
    usize,
))
    ensures
        r.0 == if origin >= min_address {
            origin as int
        } else {
            min_address as int
        },
        r.1 == ({
            let end = if origin + size <= usize::MAX {
                origin + size
            } else {
                usize::MAX as int
            };
            if end <= max_address {
                end
            } else {
                max_address as int
            }
        }),
{
    let start = if origin >= min_address {
        origin
    } else {
        min_address
    };
    let end = if size <= usize::MAX - origin {
        origin + size
    } else {
        usize::MAX
    };
    let end = if end <= max_address {
        end
    } else {
        max_address
    };
    (start, end)
}

/// The native name closest to a protection value: combinations without a
/// name of their own fall back to the nearest superset, so a later query
/// may report more rights than were asked for. Write-only access has no
/// native name and no superset short of read-write; it is ruled out.
pub open spec fn spec_to_native(protection: Protection) -> u32 {
    match protection {
        Protection::NONE => PAGE_NOACCESS,
        Protection::READ => PAGE_READONLY,
        Protection::EXECUTE => PAGE_EXECUTE,
        Protection::READ_EXECUTE => PAGE_EXECUTE_READ,
        Protection::READ_WRITE => PAGE_READWRITE,
        Protection::READ_WRITE_EXECUTE => PAGE_EXECUTE_READWRITE,
        Protection::WRITE_EXECUTE => PAGE_EXECUTE_READWRITE,
        Protection::WRITE => PAGE_READWRITE,
    }
}

/// Encodes a protection value as its closest native name.
///
/// Write-only access cannot be expressed natively and is a programming
/// mistake at the call site; it is ruled out up front.
pub fn to_native(protection: Protection) -> (r: u32)
    requires
        protection != Protection::WRITE,
    ensures
        r == spec_to_native(protection),
{
    match protection {
        Protection::NONE => PAGE_NOACCESS,
        Protection::READ => PAGE_READONLY,
        Protection::EXECUTE => PAGE_EXECUTE,
        Protection::READ_EXECUTE => PAGE_EXECUTE_READ,
        Protection::READ_WRITE => PAGE_READWRITE,
        Protection::READ_WRITE_EXECUTE => PAGE_EXECUTE_READWRITE,
        Protection::WRITE_EXECUTE => PAGE_EXECUTE_READWRITE,
        Protection::WRITE => PAGE_READWRITE,
    }
}

} // verus!
