use vstd::prelude::*;

verus! {

/// The error kinds that the callbacks report to the kernel.
#[derive(Debug, Copy, Clone, PartialEq, Eq, Structural)]
pub enum Errno {
    /// The entry or handle is not found.
    ENOENT,
    /// A create names an entry that exists.
    EEXIST,
    /// A create asks for another open mode than write-only.
    EINVAL,
    /// An unlink names a file that is open.
    EBUSY,
    /// An rmdir names a folder that has children.
    ENOTEMPTY,
    /// The written content is of no supported type, or a folder name is refused.
    ENOSYS,
    /// The store failed in a way that was not expected.
    EIO,
    /// The payload of a listed entry is missing.
    ENODATA,
    /// A promotion was asked of an entry that is not a typed file.
    EPERM,
}

} // verus!
