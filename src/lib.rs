//! Mount namespaces and path resolution.
//!
//! A [`Namespace`] overlays a tree of mounts on the directory-entry trees of
//! the filesystems it holds. [`NamespaceNode`] pairs a directory entry with
//! the mount it is seen through, and path resolution walks these nodes one
//! component at a time, crossing mount boundaries and following symbolic
//! links under a shared hop budget.

mod errno;
mod fs;
pub mod laws;
mod namespace;

pub use errno::Errno;
pub use fs::{DeviceType, FileMode, FileSystem, FileSystemKind, FsEntry, NodeData, UnlinkKind};
pub use namespace::{
    DirEntryHandle, FileObject, LookupContext, Mount, MountHandle, Namespace, NamespaceNode,
    OpenFlags, SymlinkMode, Task, WhatToMount, MAX_SYMLINK_FOLLOWS, create_filesystem,
};
