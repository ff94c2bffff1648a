//! Decoding of the region information returned by the Mach kernel's
//! recursive region query.

use vstd::prelude::*;
use crate::protection::Protection;
use crate::Region;

verus! {

/// Readable region, from the protection bits of `<mach/vm_prot.h>`.
pub const VM_PROT_READ: i32 = 1;

/// Writable region, from the protection bits of `<mach/vm_prot.h>`.
pub const VM_PROT_WRITE: i32 = 2;

/// Executable region, from the protection bits of `<mach/vm_prot.h>`.
pub const VM_PROT_EXECUTE: i32 = 4;

/// Shared mapping, from the share modes of `<mach/vm_region.h>`.
pub const SM_SHARED: u8 = 4;

/// Physically shared mapping, from the share modes of `<mach/vm_region.h>`.
pub const SM_TRUESHARED: u8 = 5;

/// Aliased shared mapping, from the share modes of `<mach/vm_region.h>`.
pub const SM_SHARED_ALIASED: u8 = 7;

/// The allocation tag of guard pages, from `<mach/vm_statistics.h>`.
pub const VM_MEMORY_GUARD: u32 = 30;

/// Decodes native region protection bits into the common protection model.
pub fn from_native(protection: i32) -> (r: Protection)
    ensures
        r.is_read() == (protection & VM_PROT_READ == VM_PROT_READ),
        r.is_write() == (protection & VM_PROT_WRITE == VM_PROT_WRITE),
        r.is_execute() == (protection & VM_PROT_EXECUTE == VM_PROT_EXECUTE),
{
    Protection::from_rwx(
        protection & VM_PROT_READ == VM_PROT_READ,
        protection & VM_PROT_WRITE == VM_PROT_WRITE,
        protection & VM_PROT_EXECUTE == VM_PROT_EXECUTE,
    )
}

/// Whether a native share mode means that the region's physical pages are
/// shared with other processes.
pub fn is_shared(share_mode: u8) -> (r: bool)
    ensures
        r == (share_mode == SM_SHARED || share_mode == SM_TRUESHARED || share_mode
            == SM_SHARED_ALIASED),
{
    share_mode == SM_SHARED || share_mode == SM_TRUESHARED || share_mode == SM_SHARED_ALIASED
}

/// Whether a native allocation tag marks the region as a guard page.
pub fn is_guarded(user_tag: u32) -> (r: bool)
    ensures
        r == (user_tag == VM_MEMORY_GUARD),
{
    user_tag == VM_MEMORY_GUARD
}

/// Builds a region descriptor from the fields that one native region
/// query returns: the region's bounds, its protection bits, its share
/// mode, and its allocation tag.
pub fn decode_region(base: usize, size: usize, protection: i32, share_mode: u8, user_tag: u32) -> (
    r: Region)
    ensures
        r.base == base,
        r.size == size,
        !r.reserved,
        r.guarded == (user_tag == VM_MEMORY_GUARD),
        r.shared == (share_mode == SM_SHARED || share_mode == SM_TRUESHARED || share_mode
            == SM_SHARED_ALIASED),
        r.protection.is_read() == (protection & VM_PROT_READ == VM_PROT_READ),
        r.protection.is_write() == (protection & VM_PROT_WRITE == VM_PROT_WRITE),
        r.protection.is_execute() == (protection & VM_PROT_EXECUTE == VM_PROT_EXECUTE),
{
    Region {
        base,
        size,
        reserved: false,
        guarded: is_guarded(user_tag),
        shared: is_shared(share_mode),
        protection: from_native(protection),
    }
}

} // verus!
