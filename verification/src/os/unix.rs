//! The protection encoding shared by the POSIX systems.

use vstd::prelude::*;
use crate::protection::Protection;

verus! {

/// No access, as named by `<sys/mman.h>`.
pub const PROT_NONE: i32 = 0;

/// Readable, as named by `<sys/mman.h>`.
pub const PROT_READ: i32 = 1;

/// Writable, as named by `<sys/mman.h>`.
pub const PROT_WRITE: i32 = 2;

/// Executable, as named by `<sys/mman.h>`.
pub const PROT_EXEC: i32 = 4;

/// The native protection bits requested for a protection value.
pub open spec fn spec_to_native(protection: Protection) -> i32 {
    (if protection.is_read() {
        PROT_READ
    } else {
        0i32
    }) | (if protection.is_write() {
        PROT_WRITE
    } else {
        0i32
    }) | (if protection.is_execute() {
        PROT_EXEC
    } else {
        0i32
    })
}

/// Encodes a protection value as the bits that the POSIX protection calls
/// expect: each attribute maps to its own bit, so every combination is
/// representable.
pub fn to_native(protection: Protection) -> (r: i32)
    ensures
        r == spec_to_native(protection),
{
    let r = if protection.is_read_exec() {
        PROT_READ
    } else {
        0
    };
    let w = if protection.is_write_exec() {
        PROT_WRITE
    } else {
        0
    };
    let x = if protection.is_execute_exec() {
        PROT_EXEC
    } else {
        0
    };
    r | w | x
}

} // verus!
