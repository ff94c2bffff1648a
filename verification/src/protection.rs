//! Memory page protection attributes.

use vstd::prelude::*;

verus! {

/// A combination of zero or more protection attributes.
///
/// Determines the access rights for a specific page and/or region. Some
/// combinations of attributes may not be applicable, depending on the OS
/// (e.g. certain systems enforce executable pages to be readable, or
/// require write-xor-execute).
///
/// The eight values cover every subset of {read, write, execute}; the
/// compound names are shorthands for the corresponding combinations.
#[allow(non_camel_case_types)]
#[derive(Debug, Clone, Copy, PartialEq, Eq, Hash, Structural)]
pub enum Protection {
    /// No access allowed at all.
    NONE,
    /// Read access; writing and/or executing data will fault.
    READ,
    /// Write access; this attribute alone may not be supported on all OSs.
    WRITE,
    /// Execute access; this may not be allowed depending on DEP.
    EXECUTE,
    /// Read and write shorthand.
    READ_WRITE,
    /// Read and execute shorthand.
    READ_EXECUTE,
    /// Write and execute shorthand.
    WRITE_EXECUTE,
    /// Read, write and execute shorthand.
    READ_WRITE_EXECUTE,
}

impl Protection {
    /// Whether the read attribute is set.
    pub open spec fn is_read(self) -> bool {
        match self {
            Protection::READ => true,
            Protection::READ_WRITE => true,
            Protection::READ_EXECUTE => true,
            Protection::READ_WRITE_EXECUTE => true,
            _ => false,
        }
    }

    /// Whether the write attribute is set.
    pub open spec fn is_write(self) -> bool {
        match self {
            Protection::WRITE => true,
            Protection::READ_WRITE => true,
            Protection::WRITE_EXECUTE => true,
            Protection::READ_WRITE_EXECUTE => true,
            _ => false,
        }
    }

    /// Whether the execute attribute is set.
    pub open spec fn is_execute(self) -> bool {
        match self {
            Protection::EXECUTE => true,
            Protection::READ_EXECUTE => true,
            Protection::WRITE_EXECUTE => true,
            Protection::READ_WRITE_EXECUTE => true,
            _ => false,
        }
    }

    /// The value determined by a set of attributes.
    pub open spec fn spec_from_rwx(read: bool, write: bool, execute: bool) -> Protection {
        if read {
            if write {
                if execute {
                    Protection::READ_WRITE_EXECUTE
                } else {
                    Protection::READ_WRITE
                }
            } else {
                if execute {
                    Protection::READ_EXECUTE
                } else {
                    Protection::READ
                }
            }
        } else {
            if write {
                if execute {
                    Protection::WRITE_EXECUTE
                } else {
                    Protection::WRITE
                }
            } else {
                if execute {
                    Protection::EXECUTE
                } else {
                    Protection::NONE
                }
            }
        }
    }

    /// Builds the protection value with exactly the given attributes.
    pub fn from_rwx(read: bool, write: bool, execute: bool) -> (r: Protection)
        ensures
            r == Protection::spec_from_rwx(read, write, execute),
            r.is_read() == read,
            r.is_write() == write,
            r.is_execute() == execute,
    {
        if read {
            if write {
                if execute {
                    Protection::READ_WRITE_EXECUTE
                } else {
                    Protection::READ_WRITE
                }
            } else {
                if execute {
                    Protection::READ_EXECUTE
                } else {
                    Protection::READ
                }
            }
        } else {
            if write {
                if execute {
                    Protection::WRITE_EXECUTE
                } else {
                    Protection::WRITE
                }
            } else {
                if execute {
                    Protection::EXECUTE
                } else {
                    Protection::NONE
                }
            }
        }
    }

    /// The union of the attributes of two protection values.
    pub open spec fn spec_union(self, other: Protection) -> Protection {
        Protection::spec_from_rwx(
            self.is_read() || other.is_read(),
            self.is_write() || other.is_write(),
            self.is_execute() || other.is_execute(),
        )
    }

    /// Returns the union of the attributes of `self` and `other`.
    pub fn union(self, other: Protection) -> (r: Protection)
        ensures
            r == self.spec_union(other),
            r.is_read() == (self.is_read() || other.is_read()),
            r.is_write() == (self.is_write() || other.is_write()),
            r.is_execute() == (self.is_execute() || other.is_execute()),
    {
        Protection::from_rwx(
            self.is_read_exec() || other.is_read_exec(),
            self.is_write_exec() || other.is_write_exec(),
            self.is_execute_exec() || other.is_execute_exec(),
        )
    }

    /// Returns whether every attribute of `other` is also set in `self`.
    pub fn contains(self, other: Protection) -> (r: bool)
        ensures
            r == ((other.is_read() ==> self.is_read()) && (other.is_write() ==> self.is_write())
                && (other.is_execute() ==> self.is_execute())),
    {
        (!other.is_read_exec() || self.is_read_exec()) && (!other.is_write_exec()
            || self.is_write_exec()) && (!other.is_execute_exec() || self.is_execute_exec())
    }

    /// The bit pattern of a protection value: bit 1 for read, bit 2 for
    /// write, bit 3 for execute.
    pub open spec fn spec_bits(self) -> usize {
        match self {
            Protection::NONE => 0usize,
            Protection::READ => 2usize,
            Protection::WRITE => 4usize,
            Protection::EXECUTE => 8usize,
            Protection::READ_WRITE => 6usize,
            Protection::READ_EXECUTE => 10usize,
            Protection::WRITE_EXECUTE => 12usize,
            Protection::READ_WRITE_EXECUTE => 14usize,
        }
    }

    /// Returns the bit pattern of the protection value.
    pub fn bits(self) -> (r: usize)
        ensures
            r == self.spec_bits(),
    {
        match self {
            Protection::NONE => 0,
            Protection::READ => 2,
            Protection::WRITE => 4,
            Protection::EXECUTE => 8,
            Protection::READ_WRITE => 6,
            Protection::READ_EXECUTE => 10,
            Protection::WRITE_EXECUTE => 12,
            Protection::READ_WRITE_EXECUTE => 14,
        }
    }

    /// Builds a protection value from a bit pattern, ignoring unknown bits.
    pub fn from_bits_truncate(bits: usize) -> (r: Protection)
        ensures
            r.is_read() == (bits & 2 != 0),
            r.is_write() == (bits & 4 != 0),
            r.is_execute() == (bits & 8 != 0),
    {
        Protection::from_rwx(bits & 2 != 0, bits & 4 != 0, bits & 8 != 0)
    }

    /// Whether the read attribute is set (runtime check).
    pub fn is_read_exec(self) -> (r: bool)
        ensures
            r == self.is_read(),
    {
        match self {
            Protection::READ => true,
            Protection::READ_WRITE => true,
            Protection::READ_EXECUTE => true,
            Protection::READ_WRITE_EXECUTE => true,
            _ => false,
        }
    }

    /// Whether the write attribute is set (runtime check).
    pub fn is_write_exec(self) -> (r: bool)
        ensures
            r == self.is_write(),
    {
        match self {
            Protection::WRITE => true,
            Protection::READ_WRITE => true,
            Protection::WRITE_EXECUTE => true,
            Protection::READ_WRITE_EXECUTE => true,
            _ => false,
        }
    }

    /// Whether the execute attribute is set (runtime check).
    pub fn is_execute_exec(self) -> (r: bool)
        ensures
            r == self.is_execute(),
    {
        match self {
            Protection::EXECUTE => true,
            Protection::READ_EXECUTE => true,
            Protection::WRITE_EXECUTE => true,
            Protection::READ_WRITE_EXECUTE => true,
            _ => false,
        }
    }

    /// The three-character text form of a protection value, in the style of
    /// the permission columns of a memory map listing.
    pub open spec fn spec_text(self) -> Seq<char> {
        seq![
            if self.is_read() {
                'r'
            } else {
                '-'
            },
            if self.is_write() {
                'w'
            } else {
                '-'
            },
            if self.is_execute() {
                'x'
            } else {
                '-'
            },
        ]
    }

    /// Renders the protection value as three characters, one per attribute,
    /// with `-` standing for an attribute that is not set.
    pub fn to_text(self) -> (r: String)
        ensures
            r@ == self.spec_text(),
    {
        let r = match self {
            Protection::NONE => "---",
            Protection::READ => "r--",
            Protection::WRITE => "-w-",
            Protection::EXECUTE => "--x",
            Protection::READ_WRITE => "rw-",
            Protection::READ_EXECUTE => "r-x",
            Protection::WRITE_EXECUTE => "-wx",
            Protection::READ_WRITE_EXECUTE => "rwx",
        };
        proof {
            reveal_strlit("---");
            reveal_strlit("r--");
            reveal_strlit("-w-");
            reveal_strlit("--x");
            reveal_strlit("rw-");
            reveal_strlit("r-x");
            reveal_strlit("-wx");
            reveal_strlit("rwx");
            assert(r@ =~= self.spec_text());
        }
        String::from_str(r)
    }
}

impl Default for Protection {
    /// The default protection allows no access at all.
    fn default() -> (r: Self)
        ensures
            r == Protection::NONE,
    {
        Protection::NONE
    }
}

} // verus!
