//! Unix permission-bit arithmetic.  Applying a mode to a path is the
//! shell's part; every computation on the bits themselves lives here.

use vstd::prelude::*;

verus! {

/// Owner read.
pub const OWNER_READ: u32 = 0o400;

/// Owner write.
pub const OWNER_WRITE: u32 = 0o200;

/// Owner execute.
pub const OWNER_EXEC: u32 = 0o100;

/// Group read.
pub const GROUP_READ: u32 = 0o040;

/// Group write.
pub const GROUP_WRITE: u32 = 0o020;

/// Group execute.
pub const GROUP_EXEC: u32 = 0o010;

/// Others read.
pub const OTHERS_READ: u32 = 0o004;

/// Others write.
pub const OTHERS_WRITE: u32 = 0o002;

/// Others execute.
pub const OTHERS_EXEC: u32 = 0o001;

/// The default file mode: owner read-write, group and others read.
pub const DEFAULT_MODE: u32 = 0o644;

/// The read-only file mode: everyone reads, nobody writes.
pub const READONLY_MODE: u32 = 0o444;

/// The mode a file is reset to by default.
pub fn reset_to_default() -> (r: u32)
    ensures
        r == DEFAULT_MODE,
{
    DEFAULT_MODE
}

/// A mode with the given bits added, every other bit kept.
pub fn add_permissions(mode: u32, bits: u32) -> (r: u32)
    ensures
        r == (mode | bits),
{
    mode | bits
}

/// A mode with the given bits removed, every other bit kept.
pub fn remove_permissions(mode: u32, bits: u32) -> (r: u32)
    ensures
        r == (mode & !bits),
{
    mode & !bits
}

/// A mode with owner execute added.
pub fn make_executable(mode: u32) -> (r: u32)
    ensures
        r == (mode | OWNER_EXEC),
{
    mode | OWNER_EXEC
}

/// A mode with owner write added.
pub fn make_writable(mode: u32) -> (r: u32)
    ensures
        r == (mode | OWNER_WRITE),
{
    mode | OWNER_WRITE
}

/// Bits added and then removed leave a mode without them; every bit
/// outside the added set is exactly as it was.
pub proof fn lemma_add_then_remove(mode: u32, bits: u32)
    ensures
        ((mode | bits) & !bits) == (mode & !bits),
        ((mode & !bits) | bits) == (mode | bits),
{
    assert(((mode | bits) & !bits) == (mode & !bits)) by (bit_vector);
    assert(((mode & !bits) | bits) == (mode | bits)) by (bit_vector);
}

} // verus!
