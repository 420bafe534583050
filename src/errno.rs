use vstd::prelude::*;

verus! {

/// The POSIX-style errors that namespace operations report.
#[allow(non_camel_case_types)]
#[derive(Clone, Copy, Debug, PartialEq, Eq, Structural)]
pub enum Errno {
    /// A name that must not be reserved (empty, `.` or `..`), or one that
    /// holds a path separator.
    EINVAL,
    /// A path component that does not exist.
    ENOENT,
    /// A lookup started from a node that is not a directory.
    ENOTDIR,
    /// A directory where a non-directory was asked for.
    EISDIR,
    /// A directory that still has entries.
    ENOTEMPTY,
    /// The symlink hop budget of a resolution ran out.
    ELOOP,
    /// A mount point that is already occupied, or one that is being unlinked.
    EBUSY,
    /// A name that is already taken.
    EEXIST,
    /// A filesystem type that is not known.
    ENODEV,
}

impl Errno {
    /// The numeric POSIX error code.
    pub fn code(&self) -> (r: u32)
        ensures
            r == self.spec_code(),
    {
        match self {
            Errno::ENOENT => 2,
            Errno::EBUSY => 16,
            Errno::EEXIST => 17,
            Errno::ENODEV => 19,
            Errno::ENOTDIR => 20,
            Errno::EISDIR => 21,
            Errno::EINVAL => 22,
            Errno::ENOTEMPTY => 39,
            Errno::ELOOP => 40,
        }
    }

    pub open spec fn spec_code(&self) -> u32 {
        match self {
            Errno::ENOENT => 2,
            Errno::EBUSY => 16,
            Errno::EEXIST => 17,
            Errno::ENODEV => 19,
            Errno::ENOTDIR => 20,
            Errno::EISDIR => 21,
            Errno::EINVAL => 22,
            Errno::ENOTEMPTY => 39,
            Errno::ELOOP => 40,
        }
    }
}

} // verus!
