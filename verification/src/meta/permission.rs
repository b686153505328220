//! Permission bits and owners.

use vstd::prelude::*;

verus! {

/// The bits of a mode that tell the type of the file.
pub const TYPE_MASK: u32 = 0o170000;

/// The type bits of a directory.
pub const DIRECTORY_BIT: u32 = 0o40000;

/// Mode, owner and group of a file or a directory.
#[derive(Debug, Clone, Copy, PartialEq, Eq, Structural)]
pub struct Permission {
    pub mode: u32,
    pub uid: u32,
    pub gid: u32,
}

impl Permission {
    /// The permission made of its parts.
    pub fn new(mode: u32, uid: u32, gid: u32) -> (r: Self)
        ensures
            r == (Permission { mode, uid, gid }),
    {
        Permission { mode, uid, gid }
    }

    /// Whether the type bits are those of a directory.
    pub open spec fn spec_is_directory(self) -> bool {
        self.mode & TYPE_MASK == DIRECTORY_BIT
    }

    /// Whether the type bits are those of a directory.
    pub fn is_directory(&self) -> (r: bool)
        ensures
            r == self.spec_is_directory(),
    {
        self.mode & TYPE_MASK == DIRECTORY_BIT
    }
}

/// A mode with the type bits of a directory is that of a directory, whatever its permission bits
/// are, and a mode of permission bits alone is not, nor is one with the type bits of a file.
pub proof fn law_type_bits_tell_directories(mode: u32, uid: u32, gid: u32)
    ensures
        (Permission { mode: (mode & 0o7777) | 0o040000, uid, gid }).spec_is_directory(),
        !(Permission { mode: mode & 0o7777, uid, gid }).spec_is_directory(),
        !(Permission { mode: (mode & 0o7777) | 0o100000, uid, gid }).spec_is_directory(),
{
    assert(((mode & 0o7777) | 0o040000) & 0o170000 == 0o040000u32) by (bit_vector);
    assert((mode & 0o7777) & 0o170000 != 0o040000u32) by (bit_vector);
    assert(((mode & 0o7777) | 0o100000) & 0o170000 != 0o040000u32) by (bit_vector);
}

} // verus!
