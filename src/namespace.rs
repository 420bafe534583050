use vstd::prelude::*;
use vstd::slice::{slice_subrange, slice_to_vec};

use crate::errno::Errno;
use crate::fs::{
    bytes_equal, dot, dot_dot, is_reserved_name, name_is_dot, name_is_dot_dot, reserved_name,
    DeviceType, FileMode, FileSystem, FileSystemKind, FsEntry, NodeData, UnlinkKind,
};

verus! {

/// The identity of a directory entry: the filesystem of a namespace that
/// holds it, and its index there.
#[derive(Clone, Copy, Debug, PartialEq, Eq, Structural, Hash)]
pub struct DirEntryHandle {
    pub fs: usize,
    pub index: usize,
}

/// The identity of a mount in its namespace.
pub type MountHandle = usize;

/// An instance of a filesystem mounted in a namespace.
///
/// At a mount, path traversal switches from one filesystem to another.
#[derive(Clone, Copy, Debug)]
pub struct Mount {
    /// The mount and the entry of it that this mount covers; `None` for the
    /// root mount.
    pub mountpoint: Option<(MountHandle, DirEntryHandle)>,
    /// The entry at which traversal enters this mount.
    pub root: DirEntryHandle,
    /// The filesystem that this mount shows.
    pub fs: usize,
}

/// A node in a mount namespace: a directory entry together with the mount
/// through which it is seen.
///
/// Two nodes are equal, and hash alike, exactly when they name the same
/// mount (or both none) and the same entry. This identity keys the mount
/// table.
#[derive(Clone, Copy, Debug, PartialEq, Eq, Structural, Hash)]
pub struct NamespaceNode {
    /// The mount through which the entry is seen; `None` for a node that
    /// belongs to no namespace.
    pub mount: Option<MountHandle>,
    /// The entry itself.
    pub entry: DirEntryHandle,
}

/// Whether to follow a symlink at the end of a path resolution.
#[derive(Clone, Copy, Debug, PartialEq, Eq, Structural)]
pub enum SymlinkMode {
    /// Follow a symlink at the end of a path resolution.
    Follow,
    /// Do not follow a symlink at the end of a path resolution.
    NoFollow,
}

/// The maximum number of symlink traversals that can be made during path
/// resolution.
pub const MAX_SYMLINK_FOLLOWS: u8 = 40;

/// The context passed during namespace lookups.
///
/// Namespace lookups mutate a shared context in order to count the symlink
/// traversals that remain across a whole resolution.
pub struct LookupContext {
    /// How a symlink at the end of the path is treated.
    pub symlink_mode: SymlinkMode,
    /// The number of symlinks that may still be followed; each followed
    /// symlink takes one.
    pub remaining_follows: u8,
}

impl LookupContext {
    pub fn new(symlink_mode: SymlinkMode) -> (r: LookupContext)
        ensures
            r.symlink_mode == symlink_mode,
            r.remaining_follows == MAX_SYMLINK_FOLLOWS,
    {
        LookupContext { remaining_follows: MAX_SYMLINK_FOLLOWS, symlink_mode }
    }

    /// A context with another symlink mode and the same remaining budget.
    pub fn with(&self, symlink_mode: SymlinkMode) -> (r: LookupContext)
        ensures
            r.symlink_mode == symlink_mode,
            r.remaining_follows == self.remaining_follows,
    {
        LookupContext { remaining_follows: self.remaining_follows, symlink_mode }
    }
}

impl Default for LookupContext {
    fn default() -> (r: LookupContext)
        ensures
            r.symlink_mode == SymlinkMode::Follow,
            r.remaining_follows == MAX_SYMLINK_FOLLOWS,
    {
        LookupContext::new(SymlinkMode::Follow)
    }
}

/// The part of a task that path resolution consults: the root that
/// absolute paths start from.
pub struct Task {
    pub root: NamespaceNode,
}

/// The end of the path component that starts at `i`: the index of the next
/// `/`, or the length of the path.
pub open spec fn component_end(path: Seq<u8>, i: int) -> int
    decreases path.len() - i,
{
    if i >= path.len() {
        path.len() as int
    } else if path[i] == 47u8 {
        i
    } else {
        component_end(path, i + 1)
    }
}

pub proof fn lemma_component_end(path: Seq<u8>, i: int)
    requires
        0 <= i <= path.len(),
    ensures
        i <= component_end(path, i) <= path.len(),
    decreases path.len() - i,
{
    if i < path.len() && path[i] != 47u8 {
        lemma_component_end(path, i + 1);
    }
}

/// What a mount attaches: a whole filesystem, or the subtree of an entry
/// that the namespace already holds.
pub enum WhatToMount {
    Fs(FileSystem),
    Dir(DirEntryHandle),
}

/// The flags a node is opened with.
pub type OpenFlags = u32;

/// An open file: the node it was opened from and its flags.
#[derive(Clone, Copy, Debug, PartialEq, Eq, Structural)]
pub struct FileObject {
    pub node: NamespaceNode,
    pub flags: OpenFlags,
}

/// The filesystem type that `name` denotes, if any: `devfs`, `devpts`,
/// `proc`, `selinuxfs`, `sysfs` or `tmpfs`, spelled in ASCII.
pub open spec fn fs_kind_named(name: Seq<u8>) -> Option<FileSystemKind> {
    if name == seq![100u8, 101u8, 118u8, 102u8, 115u8] {
        Some(FileSystemKind::DevTmpFs)
    } else if name == seq![100u8, 101u8, 118u8, 112u8, 116u8, 115u8] {
        Some(FileSystemKind::DevPts)
    } else if name == seq![112u8, 114u8, 111u8, 99u8] {
        Some(FileSystemKind::Proc)
    } else if name == seq![115u8, 101u8, 108u8, 105u8, 110u8, 117u8, 120u8, 102u8, 115u8] {
        Some(FileSystemKind::SelinuxFs)
    } else if name == seq![115u8, 121u8, 115u8, 102u8, 115u8] {
        Some(FileSystemKind::SysFs)
    } else if name == seq![116u8, 109u8, 112u8, 102u8, 115u8] {
        Some(FileSystemKind::TmpFs)
    } else {
        None
    }
}

fn kind_named(name: &[u8]) -> (r: Option<FileSystemKind>)
    ensures
        r == fs_kind_named(name@),
{
    let devfs: [u8; 5] = [100u8, 101u8, 118u8, 102u8, 115u8];
    let devpts: [u8; 6] = [100u8, 101u8, 118u8, 112u8, 116u8, 115u8];
    let proc_: [u8; 4] = [112u8, 114u8, 111u8, 99u8];
    let selinuxfs: [u8; 9] = [115u8, 101u8, 108u8, 105u8, 110u8, 117u8, 120u8, 102u8, 115u8];
    let sysfs: [u8; 5] = [115u8, 121u8, 115u8, 102u8, 115u8];
    let tmpfs: [u8; 5] = [116u8, 109u8, 112u8, 102u8, 115u8];
    assert(devfs@ =~= seq![100u8, 101u8, 118u8, 102u8, 115u8]);
    assert(devpts@ =~= seq![100u8, 101u8, 118u8, 112u8, 116u8, 115u8]);
    assert(proc_@ =~= seq![112u8, 114u8, 111u8, 99u8]);
    assert(selinuxfs@ =~= seq![115u8, 101u8, 108u8, 105u8, 110u8, 117u8, 120u8, 102u8, 115u8]);
    assert(sysfs@ =~= seq![115u8, 121u8, 115u8, 102u8, 115u8]);
    assert(tmpfs@ =~= seq![116u8, 109u8, 112u8, 102u8, 115u8]);
    if bytes_equal(name, devfs.as_slice()) {
        Some(FileSystemKind::DevTmpFs)
    } else if bytes_equal(name, devpts.as_slice()) {
        Some(FileSystemKind::DevPts)
    } else if bytes_equal(name, proc_.as_slice()) {
        Some(FileSystemKind::Proc)
    } else if bytes_equal(name, selinuxfs.as_slice()) {
        Some(FileSystemKind::SelinuxFs)
    } else if bytes_equal(name, sysfs.as_slice()) {
        Some(FileSystemKind::SysFs)
    } else if bytes_equal(name, tmpfs.as_slice()) {
        Some(FileSystemKind::TmpFs)
    } else {
        None
    }
}

/// Creates a filesystem of the type named `fs_type`, ready to be mounted.
///
/// Each call gives a new, empty instance.
pub fn create_filesystem(_source: &[u8], fs_type: &[u8], _data: &[u8]) -> (r: Result<
    WhatToMount,
    Errno,
>)
    ensures
        match fs_kind_named(fs_type@) {
            Some(kind) => r matches Ok(WhatToMount::Fs(fs)) && fs.wf() && fs.spec_kind() == kind
                && fs.entries().len() == 1,
            None => r is Err && r->Err_0 == Errno::ENODEV,
        },
{
    match kind_named(fs_type) {
        Some(kind) => Ok(WhatToMount::Fs(FileSystem::new(kind))),
        None => Err(Errno::ENODEV),
    }
}

/// Appends the bytes of `s` to `v`.
fn append_bytes(v: &mut Vec<u8>, s: &[u8])
    ensures
        final(v)@ == old(v)@ + s@,
{
    let mut i: usize = 0;
    while i < s.len()
        invariant
            0 <= i <= s@.len(),
            v@ == old(v)@ + s@.subrange(0, i as int),
        decreases s@.len() - i,
    {
        v.push(s[i]);
        i = i + 1;
        assert(s@.subrange(0, i as int) =~= s@.subrange(0, i - 1 as int).push(s@[i - 1]));
    }
    assert(s@.subrange(0, s@.len() as int) =~= s@);
}

/// A mount namespace.
///
/// The namespace holds the filesystems that it shows and the tree of mounts
/// that glues them together. Filesystem 0 holds the anonymous nodes;
/// mount 0 is the root mount, which shows filesystem 1. A mount is keyed
/// in the mount table by the node it covers.
pub struct Namespace {
    filesystems: Vec<FileSystem>,
    mounts: Vec<Mount>,
}

/// The mount table's key for the node that mount `m` covers.
pub open spec fn covered_node(m: Mount) -> Option<NamespaceNode> {
    match m.mountpoint {
        Some((pm, pe)) => Some(NamespaceNode { mount: Some(pm), entry: pe }),
        None => None,
    }
}

impl Mount {
    /// The node for this mount's root, where `handle` is this mount's
    /// handle in its namespace.
    pub fn root(&self, handle: MountHandle) -> (r: NamespaceNode)
        ensures
            r == (NamespaceNode { mount: Some(handle), entry: self.root }),
    {
        NamespaceNode { mount: Some(handle), entry: self.root }
    }

    /// The node that this mount covers; `None` for the root mount.
    pub fn mountpoint(&self) -> (r: Option<NamespaceNode>)
        ensures
            r == covered_node(*self),
    {
        match self.mountpoint {
            Some((pm, pe)) => Some(NamespaceNode { mount: Some(pm), entry: pe }),
            None => None,
        }
    }
}

impl NamespaceNode {
    /// The same mount, another entry.
    pub open spec fn with_entry(self, entry: DirEntryHandle) -> NamespaceNode {
        NamespaceNode { mount: self.mount, entry }
    }
}

impl Namespace {
    pub closed spec fn filesystems(&self) -> Seq<FileSystem> {
        self.filesystems@
    }

    pub closed spec fn mounts(&self) -> Seq<Mount> {
        self.mounts@
    }

    pub open spec fn valid_entry(&self, h: DirEntryHandle) -> bool {
        &&& h.fs < self.filesystems().len()
        &&& self.filesystems()[h.fs as int].valid(h.index as int)
    }

    pub open spec fn valid_node(&self, n: NamespaceNode) -> bool {
        &&& self.valid_entry(n.entry)
        &&& n.mount matches Some(m) ==> m < self.mounts().len()
    }

    pub open spec fn entry(&self, h: DirEntryHandle) -> FsEntry {
        self.filesystems()[h.fs as int].entries()[h.index as int]
    }

    pub open spec fn mount_wf(&self, m: int) -> bool {
        let mount = self.mounts()[m];
        &&& self.valid_entry(mount.root)
        &&& mount.root.fs == mount.fs
        &&& m == 0 ==> mount.mountpoint is None
        &&& m > 0 ==> (mount.mountpoint matches Some((pm, pe)) && pm < m && self.valid_entry(pe))
    }

    /// Every filesystem is well formed; mount 0 is the root mount of
    /// filesystem 1; every other mount covers an entry of an earlier mount,
    /// and no two of them cover the same node.
    pub open spec fn wf(&self) -> bool {
        &&& 2 <= self.filesystems().len() <= usize::MAX
        &&& forall|f: int| 0 <= f < self.filesystems().len() ==> #[trigger] self.filesystems()[f].wf()
        &&& self.mounts().len() <= usize::MAX
        &&& self.mounts().len() >= 1
        &&& self.mounts()[0].root == (DirEntryHandle { fs: 1, index: 0 })
        &&& forall|m: int| 0 <= m < self.mounts().len() ==> #[trigger] self.mount_wf(m)
        &&& forall|a: int, b: int|
            #![trigger self.mounts()[a], self.mounts()[b]]
            1 <= a < self.mounts().len() && 1 <= b < self.mounts().len() && a != b
                ==> self.mounts()[a].mountpoint != self.mounts()[b].mountpoint
    }

    /// Every handle that was valid in `old` is valid in `self`.
    pub open spec fn keeps_handles(&self, old: &Namespace) -> bool {
        &&& self.mounts().len() >= old.mounts().len()
        &&& self.filesystems().len() >= old.filesystems().len()
        &&& forall|f: int|
            0 <= f < old.filesystems().len() ==> #[trigger] self.filesystems()[f].entries().len()
                >= old.filesystems()[f].entries().len()
    }

    pub open spec fn is_dir_entry(&self, h: DirEntryHandle) -> bool {
        self.entry(h).is_directory()
    }

    pub open spec fn is_link_entry(&self, h: DirEntryHandle) -> bool {
        self.entry(h).is_link()
    }

    pub open spec fn link_target(&self, h: DirEntryHandle) -> Seq<u8> {
        self.entry(h).data->target@
    }

    pub open spec fn local_name_of(&self, h: DirEntryHandle) -> Seq<u8> {
        self.entry(h).name@
    }

    pub open spec fn parent_entry(&self, h: DirEntryHandle) -> Option<DirEntryHandle> {
        match self.entry(h).parent {
            Some(p) => Some(DirEntryHandle { fs: h.fs, index: p }),
            None => None,
        }
    }

    pub open spec fn child_entry(&self, h: DirEntryHandle, name: Seq<u8>) -> Option<DirEntryHandle> {
        match self.filesystems()[h.fs as int].child(h.index as int, name) {
            Some(c) => Some(DirEntryHandle { fs: h.fs, index: c as usize }),
            None => None,
        }
    }

    /// The node for the root entry of mount `m`.
    pub open spec fn mount_root(&self, m: int) -> NamespaceNode {
        NamespaceNode { mount: Some(m as usize), entry: self.mounts()[m].root }
    }

    /// The node that one reaches by leaving `n` upwards, where `n` is the
    /// root of a mount that covers another node.
    pub open spec fn mountpoint_of(&self, n: NamespaceNode) -> Option<NamespaceNode> {
        match n.mount {
            Some(m) => if n.entry == self.mounts()[m as int].root {
                covered_node(self.mounts()[m as int])
            } else {
                None
            },
            None => None,
        }
    }

    /// `n`, or the node it covers where `n` is the root of a mount.
    pub open spec fn escape(&self, n: NamespaceNode) -> NamespaceNode {
        match self.mountpoint_of(n) {
            Some(p) => p,
            None => n,
        }
    }

    /// The parent of `n` in the namespace: the raw parent of the entry,
    /// seen through the same mount, after leaving a mount at its root.
    pub open spec fn parent_of(&self, n: NamespaceNode) -> Option<NamespaceNode> {
        let c = self.escape(n);
        match self.parent_entry(c.entry) {
            Some(p) => Some(c.with_entry(p)),
            None => None,
        }
    }

    /// Whether mount `m` is the one that the mount table holds for `n`.
    pub open spec fn is_mount_of(&self, m: int, n: NamespaceNode) -> bool {
        &&& 1 <= m < self.mounts().len()
        &&& covered_node(self.mounts()[m]) == Some(n)
    }

    /// The mount that the mount table holds for `n`, if any.
    pub open spec fn mounted_at(&self, n: NamespaceNode) -> Option<int> {
        if exists|m: int| self.is_mount_of(m, n) {
            Some(choose|m: int| self.is_mount_of(m, n))
        } else {
            None
        }
    }

    /// What one sees when stepping onto `n`: the root of the mount on it,
    /// or `n` itself.
    pub open spec fn overlay(&self, n: NamespaceNode) -> NamespaceNode {
        match self.mounted_at(n) {
            Some(m) => self.mount_root(m),
            None => n,
        }
    }

    /// The outcome of looking up one component `name` from `node` with
    /// `budget` symlink follows left: the node found and the budget left.
    pub open spec fn lookup_spec(
        &self,
        mode: SymlinkMode,
        budget: nat,
        root: NamespaceNode,
        node: NamespaceNode,
        name: Seq<u8>,
    ) -> Result<(NamespaceNode, nat), Errno>
        decreases budget, 1nat, 0nat,
    {
        if !self.is_dir_entry(node.entry) {
            Err(Errno::ENOTDIR)
        } else if name.len() == 0 || name == dot() {
            Ok((node, budget))
        } else if name == dot_dot() {
            match self.parent_of(node) {
                Some(p) => Ok((p, budget)),
                None => Ok((node, budget)),
            }
        } else {
            match self.child_entry(node.entry, name) {
                None => Err(Errno::ENOENT),
                Some(c) => match self.follow_spec(mode, budget, root, node, node.with_entry(c)) {
                    Err(e) => Err(e),
                    Ok((n, b)) => if node.mount is Some {
                        Ok((self.overlay(n), b))
                    } else {
                        Ok((n, b))
                    },
                },
            }
        }
    }

    /// The outcome of following `cand`, found in directory `dir`, while it
    /// is a symlink: an absolute target resolves from `root`, a relative one
    /// from `dir`.
    pub open spec fn follow_spec(
        &self,
        mode: SymlinkMode,
        budget: nat,
        root: NamespaceNode,
        dir: NamespaceNode,
        cand: NamespaceNode,
    ) -> Result<(NamespaceNode, nat), Errno>
        decreases budget, 0nat, 0nat,
    {
        if !self.is_link_entry(cand.entry) || mode == SymlinkMode::NoFollow {
            Ok((cand, budget))
        } else if budget == 0 {
            Err(Errno::ELOOP)
        } else {
            let target = self.link_target(cand.entry);
            let start = if target.len() > 0 && target[0] == 47u8 {
                root
            } else {
                dir
            };
            match self.lookup_path_spec(mode, (budget - 1) as nat, root, start, target, 0) {
                Err(e) => Err(e),
                Ok((n, b)) => if b < budget {
                    self.follow_spec(mode, b, root, dir, n)
                } else {
                    Err(Errno::ELOOP)
                },
            }
        }
    }

    /// The outcome of resolving `path` from index `i` on, starting at
    /// `dir`: every component but the last follows symlinks; the last one
    /// goes by `mode`.
    pub open spec fn lookup_path_spec(
        &self,
        mode: SymlinkMode,
        budget: nat,
        root: NamespaceNode,
        dir: NamespaceNode,
        path: Seq<u8>,
        i: int,
    ) -> Result<(NamespaceNode, nat), Errno>
        decreases budget, 2nat, (path.len() - i) as nat,
        when 0 <= i <= path.len()
    {
        let j = component_end(path, i);
        let component = path.subrange(i, j);
        if j >= path.len() {
            self.lookup_spec(mode, budget, root, dir, component)
        } else {
            match self.lookup_spec(SymlinkMode::Follow, budget, root, dir, component) {
                Err(e) => Err(e),
                Ok((n, b)) => if b <= budget {
                    proof {
                        lemma_component_end(path, i);
                    }
                    self.lookup_path_spec(mode, b, root, n, path, j + 1)
                } else {
                    Err(Errno::ELOOP)
                },
            }
        }
    }

    /// Leaving `cur` for its parent, and then the parent's mount where the
    /// parent is a mount root, goes to an earlier mount, or to an earlier
    /// entry of the same mount.
    pub proof fn lemma_ascend(&self, cur: NamespaceNode)
        requires
            self.wf(),
            self.valid_node(cur),
            cur.mount is Some,
            self.parent_of(cur) is Some,
        ensures
            ({
                let next = self.escape(self.parent_of(cur)->Some_0);
                &&& self.valid_node(next)
                &&& next.mount is Some
                &&& next.mount->Some_0 < cur.mount->Some_0 || (next.mount == cur.mount
                    && next.entry.index < cur.entry.index)
            }),
    {
        let m = cur.mount->Some_0 as int;
        assert(self.mount_wf(m));
        let c = self.escape(cur);
        if self.mountpoint_of(cur) is Some {
            assert(m > 0);
        }
        assert(self.valid_node(c));
        assert(self.filesystems()[c.entry.fs as int].wf());
        let p = self.parent_of(cur)->Some_0;
        assert(self.filesystems()[c.entry.fs as int].entries()[c.entry.index as int].parent is Some);
        assert(self.valid_node(p));
        let pm = p.mount->Some_0 as int;
        assert(self.mount_wf(pm));
        if self.mountpoint_of(p) is Some {
            assert(pm > 0);
        }
    }

    /// The path bytes from the root of the namespace down to `cur`.
    pub open spec fn abs_path(&self, cur: NamespaceNode) -> Seq<u8>
        decreases cur.mount->Some_0, cur.entry.index,
        when self.wf() && self.valid_node(cur) && cur.mount is Some
    {
        match self.parent_of(cur) {
            None => Seq::empty(),
            Some(p) => {
                proof {
                    self.lemma_ascend(cur);
                }
                self.abs_path(self.escape(p)) + seq![47u8] + self.local_name_of(cur.entry)
            },
        }
    }

    /// The path of `n` from the root of the namespace: `/` at the root, the
    /// names of the ancestors joined by `/` elsewhere, and only the entry's
    /// own name for a node outside any namespace.
    pub open spec fn path_of(&self, n: NamespaceNode) -> Seq<u8> {
        if n.mount is None {
            self.local_name_of(n.entry)
        } else {
            let c = self.escape(n);
            if self.parent_of(c) is None {
                seq![47u8]
            } else {
                self.abs_path(c)
            }
        }
    }

    pub open spec fn unchanged_from(&self, old: &Namespace) -> bool {
        &&& self.filesystems() == old.filesystems()
        &&& self.mounts() == old.mounts()
    }

    pub open spec fn can_mount(&self, what: WhatToMount) -> bool {
        match what {
            WhatToMount::Fs(fs) => fs.wf(),
            WhatToMount::Dir(h) => self.valid_entry(h),
        }
    }

    /// Why mounting at `at` fails, if it does: `at` belongs to no
    /// namespace, or a mount already covers it.
    pub open spec fn mount_error(&self, at: NamespaceNode) -> Option<Errno> {
        if at.mount is None || self.mounted_at(at) is Some {
            Some(Errno::EBUSY)
        } else {
            None
        }
    }

    /// `self` is `old` with a new mount of `what` that covers `at`.
    pub open spec fn mounted_over(&self, old: &Namespace, at: NamespaceNode, what: WhatToMount) -> bool {
        let n = old.filesystems().len();
        let covers = Some((at.mount->Some_0, at.entry));
        match what {
            WhatToMount::Fs(fs) => {
                &&& self.filesystems() == old.filesystems().push(fs)
                &&& self.mounts() == old.mounts().push(
                    Mount {
                        mountpoint: covers,
                        root: DirEntryHandle { fs: n as usize, index: 0 },
                        fs: n as usize,
                    },
                )
            },
            WhatToMount::Dir(h) => {
                &&& self.filesystems() == old.filesystems()
                &&& self.mounts() == old.mounts().push(
                    Mount { mountpoint: covers, root: h, fs: h.fs },
                )
            },
        }
    }

    /// Why unlinking `name` from `node` fails, if it does.
    pub open spec fn unlink_error(
        &self,
        root: NamespaceNode,
        node: NamespaceNode,
        name: Seq<u8>,
        kind: UnlinkKind,
    ) -> Option<Errno> {
        if is_reserved_name(name) {
            Some(Errno::EINVAL)
        } else {
            match self.lookup_spec(
                SymlinkMode::NoFollow,
                MAX_SYMLINK_FOLLOWS as nat,
                root,
                node,
                name,
            ) {
                Err(e) => Some(e),
                Ok((child, _)) => if self.mountpoint_of(child) is Some {
                    Some(Errno::EBUSY)
                } else {
                    self.filesystems()[node.entry.fs as int].unlink_error(
                        node.entry.index as int,
                        name,
                        kind,
                    )
                },
            }
        }
    }

    /// `self` is `old` with filesystem `f` replaced by `fs`.
    pub open spec fn replaced_fs(&self, old: &Namespace, f: int, fs: FileSystem) -> bool {
        &&& self.mounts() == old.mounts()
        &&& self.filesystems() == old.filesystems().update(f, fs)
    }

    /// `self` is `old` with `name` unlinked from directory `dir`.
    pub open spec fn unlinked_in(&self, old: &Namespace, dir: DirEntryHandle, name: Seq<u8>) -> bool {
        let fs = old.filesystems()[dir.fs as int];
        &&& self.replaced_fs(old, dir.fs as int, self.filesystems()[dir.fs as int])
        &&& self.filesystems()[dir.fs as int].unlinked_from(
            &fs,
            fs.child(dir.index as int, name)->Some_0,
        )
    }

    /// `self` is `old` with a linked entry `name` appended to directory
    /// `dir`.
    pub open spec fn created_in(&self, old: &Namespace, dir: DirEntryHandle, name: Seq<u8>) -> bool {
        &&& self.replaced_fs(old, dir.fs as int, self.filesystems()[dir.fs as int])
        &&& self.filesystems()[dir.fs as int].appended(
            &old.filesystems()[dir.fs as int],
            dir.index as int,
            name,
        )
    }

    /// The handle that the next entry appended to filesystem `f` gets.
    pub open spec fn next_entry(&self, f: usize) -> DirEntryHandle {
        DirEntryHandle { fs: f, index: self.filesystems()[f as int].entries().len() as usize }
    }

    /// Growing one filesystem, and keeping it well formed, keeps the
    /// namespace well formed and every handle valid.
    pub proof fn lemma_replace_fs(&self, old: &Namespace, f: int, fs: FileSystem)
        requires
            old.wf(),
            0 <= f < old.filesystems().len(),
            fs.wf(),
            fs.entries().len() >= old.filesystems()[f].entries().len(),
            self.replaced_fs(old, f, fs),
        ensures
            self.wf(),
            self.keeps_handles(old),
            forall|h: DirEntryHandle| old.valid_entry(h) ==> #[trigger] self.valid_entry(h),
    {
        assert forall|h: DirEntryHandle| old.valid_entry(h) implies #[trigger] self.valid_entry(h) by {
        }
        assert forall|g: int| 0 <= g < self.filesystems().len() implies #[trigger] self.filesystems()[g].wf() by {
            if g != f {
                assert(old.filesystems()[g].wf());
            }
        }
        assert forall|m: int| 0 <= m < self.mounts().len() implies #[trigger] self.mount_wf(m) by {
            assert(old.mount_wf(m));
        }
        assert forall|g: int|
            0 <= g < old.filesystems().len() implies #[trigger] self.filesystems()[g].entries().len()
            >= old.filesystems()[g].entries().len() by {
        }
    }

    pub proof fn lemma_mount_unique(&self, n: NamespaceNode, a: int, b: int)
        requires
            self.wf(),
            self.is_mount_of(a, n),
            self.is_mount_of(b, n),
        ensures
            a == b,
    {
        if a != b {
            assert(self.mounts()[a].mountpoint != self.mounts()[b].mountpoint);
        }
    }

    /// A namespace whose root mount shows `fs`.
    pub fn new(fs: FileSystem) -> (r: Namespace)
        requires
            fs.wf(),
        ensures
            r.wf(),
            r.filesystems().len() == 2,
            r.filesystems()[1] == fs,
            r.filesystems()[0].entries().len() == 1,
            r.filesystems()[0].spec_kind() == FileSystemKind::Anonymous,
            r.mounts().len() == 1,
    {
        let mut filesystems = Vec::new();
        filesystems.push(FileSystem::new(FileSystemKind::Anonymous));
        filesystems.push(fs);
        let mut mounts = Vec::new();
        mounts.push(Mount { mountpoint: None, root: DirEntryHandle { fs: 1, index: 0 }, fs: 1 });
        let r = Namespace { filesystems, mounts };
        assert forall|f: int| 0 <= f < r.filesystems().len() implies #[trigger] r.filesystems()[f].wf() by {
        }
        assert forall|m: int| 0 <= m < r.mounts().len() implies #[trigger] r.mount_wf(m) by {
        }
        r
    }

    /// Whether `h` names an entry of this namespace.
    pub fn is_valid_entry(&self, h: &DirEntryHandle) -> (r: bool)
        ensures
            r == self.valid_entry(*h),
    {
        h.fs < self.filesystems.len() && h.index < self.filesystems[h.fs].len()
    }

    /// Whether `n` is a node of this namespace.
    pub fn is_valid_node(&self, n: &NamespaceNode) -> (r: bool)
        ensures
            r == self.valid_node(*n),
    {
        self.is_valid_entry(&n.entry) && match n.mount {
            Some(m) => m < self.mounts.len(),
            None => true,
        }
    }

    /// The node of the root mount's root.
    pub fn root(&self) -> (r: NamespaceNode)
        requires
            self.wf(),
        ensures
            r == self.mount_root(0),
            self.valid_node(r),
    {
        self.mount_node(0)
    }

    fn mount_node(&self, m: usize) -> (r: NamespaceNode)
        requires
            self.wf(),
            m < self.mounts().len(),
        ensures
            r == self.mount_root(m as int),
            self.valid_node(r),
    {
        assert(self.mount_wf(m as int));
        self.mounts[m].root(m)
    }

    fn fs_of(&self, h: DirEntryHandle) -> (r: &FileSystem)
        requires
            self.wf(),
            self.valid_entry(h),
        ensures
            *r == self.filesystems()[h.fs as int],
            r.wf(),
    {
        &self.filesystems[h.fs]
    }

    fn is_dir(&self, h: DirEntryHandle) -> (r: bool)
        requires
            self.wf(),
            self.valid_entry(h),
        ensures
            r == self.is_dir_entry(h),
    {
        self.fs_of(h).is_dir(h.index)
    }

    fn is_symlink(&self, h: DirEntryHandle) -> (r: bool)
        requires
            self.wf(),
            self.valid_entry(h),
        ensures
            r == self.is_link_entry(h),
    {
        self.fs_of(h).is_symlink(h.index)
    }

    fn local_name(&self, h: DirEntryHandle) -> (r: &[u8])
        requires
            self.wf(),
            self.valid_entry(h),
        ensures
            r@ == self.local_name_of(h),
    {
        self.fs_of(h).local_name(h.index)
    }

    fn parent_handle(&self, h: DirEntryHandle) -> (r: Option<DirEntryHandle>)
        requires
            self.wf(),
            self.valid_entry(h),
        ensures
            r == self.parent_entry(h),
            r matches Some(p) ==> self.valid_entry(p) && p.index < h.index,
    {
        let fs = self.fs_of(h);
        let p = fs.parent(h.index);
        match p {
            Some(p) => {
                assert(fs.entries()[h.index as int].parent is Some);
                Some(DirEntryHandle { fs: h.fs, index: p })
            },
            None => None,
        }
    }

    fn component_lookup(&self, h: DirEntryHandle, name: &[u8]) -> (r: Result<DirEntryHandle, Errno>)
        requires
            self.wf(),
            self.valid_entry(h),
        ensures
            match self.child_entry(h, name@) {
                Some(c) => r == Ok::<DirEntryHandle, Errno>(c) && self.valid_entry(c),
                None => r == Err::<DirEntryHandle, Errno>(Errno::ENOENT),
            },
    {
        match self.fs_of(h).component_lookup(h.index, name) {
            Ok(c) => Ok(DirEntryHandle { fs: h.fs, index: c }),
            Err(e) => Err(e),
        }
    }

    fn readlink(&self, h: DirEntryHandle) -> (r: &[u8])
        requires
            self.wf(),
            self.valid_entry(h),
            self.is_link_entry(h),
        ensures
            r@ == self.link_target(h),
    {
        match self.fs_of(h).readlink(h.index) {
            Ok(t) => t,
            Err(_) => {
                assert(false);
                &[]
            },
        }
    }

    fn absolute_path(&self, cur: NamespaceNode) -> (r: Vec<u8>)
        requires
            self.wf(),
            self.valid_node(cur),
            cur.mount is Some,
        ensures
            r@ == self.abs_path(cur),
        decreases cur.mount->Some_0, cur.entry.index,
    {
        match cur.parent(self) {
            None => Vec::new(),
            Some(p) => {
                proof {
                    self.lemma_ascend(cur);
                }
                let next = p.escaped(self);
                let mut r = self.absolute_path(next);
                r.push(47u8);
                append_bytes(&mut r, self.local_name(cur.entry));
                r
            },
        }
    }

    /// The mount that the mount table holds for `n`.
    fn find_mount(&self, n: &NamespaceNode) -> (r: Option<MountHandle>)
        requires
            self.wf(),
        ensures
            match r {
                Some(m) => self.mounted_at(*n) == Some(m as int) && m < self.mounts().len(),
                None => self.mounted_at(*n) is None,
            },
    {
        let pm = match n.mount {
            Some(pm) => pm,
            None => {
                return None;
            },
        };
        let mut m: usize = 1;
        while m < self.mounts.len()
            invariant
                self.wf(),
                n.mount == Some(pm),
                1 <= m <= self.mounts().len(),
                forall|k: int| 1 <= k < m ==> !self.is_mount_of(k, *n),
            decreases self.mounts().len() - m,
        {
            match self.mounts[m].mountpoint {
                Some((q, e)) => {
                    if q == pm && e == n.entry {
                        assert(self.is_mount_of(m as int, *n));
                        proof {
                            let c = choose|c: int| self.is_mount_of(c, *n);
                            self.lemma_mount_unique(*n, c, m as int);
                        }
                        return Some(m);
                    }
                },
                None => {},
            }
            m = m + 1;
        }
        None
    }
}

impl NamespaceNode {
    fn with_new_entry(&self, entry: DirEntryHandle) -> (r: NamespaceNode)
        ensures
            r == self.with_entry(entry),
    {
        NamespaceNode { mount: self.mount, entry }
    }

    /// The node at which this node is mounted, where it is the root of a
    /// mount that covers another node.
    pub fn mountpoint(&self, ns: &Namespace) -> (r: Option<NamespaceNode>)
        requires
            ns.wf(),
            ns.valid_node(*self),
        ensures
            r == ns.mountpoint_of(*self),
            r matches Some(p) ==> ns.valid_node(p) && p.mount->Some_0 < self.mount->Some_0,
    {
        match self.mount {
            Some(m) => {
                assert(ns.mount_wf(m as int));
                let mount = ns.mounts[m];
                if self.entry == mount.root {
                    mount.mountpoint()
                } else {
                    None
                }
            },
            None => None,
        }
    }

    /// This node, or the one it covers where it is the root of a mount.
    fn escaped(&self, ns: &Namespace) -> (r: NamespaceNode)
        requires
            ns.wf(),
            ns.valid_node(*self),
        ensures
            r == ns.escape(*self),
            ns.valid_node(r),
            self.mount is Some ==> r.mount is Some,
    {
        match self.mountpoint(ns) {
            Some(p) => p,
            None => *self,
        }
    }

    /// Traverse up a child-to-parent link in the namespace.
    ///
    /// This follows the parent link of the entry, except at the root of a
    /// mount, where it first leaves the mount for the node it covers.
    pub fn parent(&self, ns: &Namespace) -> (r: Option<NamespaceNode>)
        requires
            ns.wf(),
            ns.valid_node(*self),
        ensures
            r == ns.parent_of(*self),
            r matches Some(p) ==> ns.valid_node(p),
    {
        let current = self.escaped(ns);
        match ns.parent_handle(current.entry) {
            Some(p) => Some(current.with_new_entry(p)),
            None => None,
        }
    }

    /// Traverse down a parent-to-child link in the namespace.
    ///
    /// `.` and the empty name give this node, `..` its parent (this node at
    /// the root). Another name is looked up in the entry's directory; while
    /// the result is a symlink and `ctx` follows them, its target is
    /// resolved, each hop taking one from the budget. A node that a mount
    /// covers gives the root of that mount.
    pub fn lookup(&self, ns: &Namespace, ctx: &mut LookupContext, task: &Task, name: &[u8]) -> (r:
        Result<NamespaceNode, Errno>)
        requires
            ns.wf(),
            ns.valid_node(*self),
            ns.valid_node(task.root),
        ensures
            final(ctx).symlink_mode == old(ctx).symlink_mode,
            final(ctx).remaining_follows <= old(ctx).remaining_follows,
            match ns.lookup_spec(
                old(ctx).symlink_mode,
                old(ctx).remaining_follows as nat,
                task.root,
                *self,
                name@,
            ) {
                Ok((n, b)) => r == Ok::<NamespaceNode, Errno>(n) && final(ctx).remaining_follows == b,
                Err(e) => r == Err::<NamespaceNode, Errno>(e),
            },
            r matches Ok(n) ==> ns.valid_node(n),
        decreases old(ctx).remaining_follows, 0nat,
    {
        if !ns.is_dir(self.entry) {
            return Err(Errno::ENOTDIR);
        }
        if name.len() == 0 || name_is_dot(name) {
            return Ok(*self);
        }
        if name_is_dot_dot(name) {
            return match self.parent(ns) {
                Some(p) => Ok(p),
                None => Ok(*self),
            };
        }
        let c = match ns.component_lookup(self.entry, name) {
            Ok(c) => c,
            Err(e) => {
                return Err(e);
            },
        };
        let first = self.with_new_entry(c);
        let mut child = first;
        while ns.is_symlink(child.entry) && ctx.symlink_mode == SymlinkMode::Follow
            invariant
                ns.wf(),
                ns.valid_node(*self),
                ns.valid_node(task.root),
                ns.valid_node(child),
                ns.is_dir_entry(self.entry),
                name@.len() != 0 && name@ != dot() && name@ != dot_dot(),
                ns.child_entry(self.entry, name@) == Some(c),
                first == self.with_entry(c),
                ctx.symlink_mode == old(ctx).symlink_mode,
                ctx.remaining_follows <= old(ctx).remaining_follows,
                ns.follow_spec(
                    old(ctx).symlink_mode,
                    old(ctx).remaining_follows as nat,
                    task.root,
                    *self,
                    first,
                ) == ns.follow_spec(
                    ctx.symlink_mode,
                    ctx.remaining_follows as nat,
                    task.root,
                    *self,
                    child,
                ),
            decreases ctx.remaining_follows,
        {
            let ghost before = ctx.remaining_follows as nat;
            let ghost outcome = ns.follow_spec(
                ctx.symlink_mode,
                before,
                task.root,
                *self,
                child,
            );
            if ctx.remaining_follows == 0 {
                assert(outcome == Err::<(NamespaceNode, nat), Errno>(Errno::ELOOP));
                return Err(Errno::ELOOP);
            }
            ctx.remaining_follows = ctx.remaining_follows - 1;
            let target = ns.readlink(child.entry);
            let start = if target.len() > 0 && target[0] == 47u8 {
                task.root
            } else {
                *self
            };
            child = match task.lookup_node(ns, ctx, start, target) {
                Ok(n) => n,
                Err(e) => {
                    assert(outcome == Err::<(NamespaceNode, nat), Errno>(e));
                    return Err(e);
                },
            };
        }
        if self.mount.is_some() {
            match ns.find_mount(&child) {
                Some(m) => {
                    return Ok(ns.mount_node(m));
                },
                None => {},
            }
        }
        Ok(child)
    }

    /// The path from the root of the namespace to this node.
    pub fn path(&self, ns: &Namespace) -> (r: Vec<u8>)
        requires
            ns.wf(),
            ns.valid_node(*self),
        ensures
            r@ == ns.path_of(*self),
    {
        if self.mount.is_none() {
            return slice_to_vec(ns.local_name(self.entry));
        }
        let current = self.escaped(ns);
        if current.parent(ns).is_none() {
            let mut r = Vec::new();
            r.push(47u8);
            assert(r@ =~= seq![47u8]);
            return r;
        }
        ns.absolute_path(current)
    }

    /// Mounts `what` on this node.
    ///
    /// A node outside any namespace, and one that a mount already covers,
    /// cannot take a mount: mount shadowing is not supported.
    pub fn mount(&self, ns: &mut Namespace, what: WhatToMount) -> (r: Result<(), Errno>)
        requires
            old(ns).wf(),
            old(ns).valid_node(*self),
            old(ns).can_mount(what),
        ensures
            final(ns).wf(),
            match old(ns).mount_error(*self) {
                Some(e) => r == Err::<(), Errno>(e) && final(ns).unchanged_from(old(ns)),
                None => r is Ok && final(ns).mounted_over(old(ns), *self, what)
                    && final(ns).keeps_handles(old(ns)),
            },
    {
        let pm = match self.mount {
            Some(pm) => pm,
            None => {
                return Err(Errno::EBUSY);
            },
        };
        if ns.find_mount(self).is_some() {
            return Err(Errno::EBUSY);
        }
        let ghost before = *ns;
        let (fs, root) = match what {
            WhatToMount::Fs(fs) => {
                let index = ns.filesystems.len();
                ns.filesystems.push(fs);
                (index, DirEntryHandle { fs: index, index: 0 })
            },
            WhatToMount::Dir(h) => (h.fs, h),
        };
        ns.mounts.push(Mount { mountpoint: Some((pm, self.entry)), root, fs });
        // Both lengths are `usize` values, which bounds them.
        let _ = ns.mounts.len();
        let _ = ns.filesystems.len();
        proof {
            let k = before.mounts().len() as int;
            assert forall|h: DirEntryHandle| before.valid_entry(h) implies #[trigger] ns.valid_entry(h) by {
                assert(ns.filesystems()[h.fs as int] == before.filesystems()[h.fs as int]);
            }
            assert forall|g: int| 0 <= g < ns.filesystems().len() implies #[trigger] ns.filesystems()[g].wf() by {
                if g < before.filesystems().len() {
                    assert(before.filesystems()[g].wf());
                }
            }
            assert forall|m: int| 0 <= m < ns.mounts().len() implies #[trigger] ns.mount_wf(m) by {
                if m < k {
                    assert(before.mount_wf(m));
                    assert(ns.mounts()[m] == before.mounts()[m]);
                }
            }
            assert forall|a: int, b: int|
                1 <= a < ns.mounts().len() && 1 <= b < ns.mounts().len() && a != b implies
                ns.mounts()[a].mountpoint != ns.mounts()[b].mountpoint by {
                if a == k {
                    assert(!before.is_mount_of(b, *self));
                } else if b == k {
                    assert(!before.is_mount_of(a, *self));
                } else {
                    assert(ns.mounts()[a] == before.mounts()[a]);
                    assert(ns.mounts()[b] == before.mounts()[b]);
                }
            }
            assert forall|g: int|
                0 <= g < before.filesystems().len() implies #[trigger] ns.filesystems()[g].entries().len()
                >= before.filesystems()[g].entries().len() by {
                assert(ns.filesystems()[g] == before.filesystems()[g]);
            }
        }
        Ok(())
    }

    /// Unlinks `name` from this directory.
    ///
    /// The name is looked up without following a symlink at its end; a node
    /// that is the root of a mount cannot be unlinked. The check and the
    /// removal happen under one exclusive borrow of the namespace, so no
    /// mount can come in between.
    pub fn unlink(&self, ns: &mut Namespace, task: &Task, name: &[u8], kind: UnlinkKind) -> (r:
        Result<(), Errno>)
        requires
            old(ns).wf(),
            old(ns).valid_node(*self),
            old(ns).valid_node(task.root),
        ensures
            final(ns).wf(),
            match old(ns).unlink_error(task.root, *self, name@, kind) {
                Some(e) => r == Err::<(), Errno>(e) && final(ns).unchanged_from(old(ns)),
                None => r is Ok && final(ns).unlinked_in(old(ns), self.entry, name@),
            },
    {
        if reserved_name(name) {
            return Err(Errno::EINVAL);
        }
        let mut context = LookupContext::new(SymlinkMode::NoFollow);
        let child = match self.lookup(ns, &mut context, task, name) {
            Ok(child) => child,
            Err(e) => {
                return Err(e);
            },
        };
        if child.mountpoint(ns).is_some() {
            return Err(Errno::EBUSY);
        }
        let ghost before = *ns;
        let f = self.entry.fs;
        assert(ns.filesystems()[f as int].wf());
        let result = ns.filesystems[f].unlink(self.entry.index, name, kind);
        proof {
            assert(ns.filesystems() =~= before.filesystems().update(
                f as int,
                ns.filesystems()[f as int],
            ));
            ns.lemma_replace_fs(&before, f as int, ns.filesystems()[f as int]);
            if result is Err {
                assert(ns.filesystems() =~= before.filesystems());
            }
        }
        result
    }

    /// Creates a node of type `mode` named `name` in this directory.
    pub fn create_node(&self, ns: &mut Namespace, name: &[u8], mode: FileMode, dev: DeviceType) -> (r:
        Result<NamespaceNode, Errno>)
        requires
            old(ns).wf(),
            old(ns).valid_node(*self),
        ensures
            final(ns).wf(),
            match old(ns).filesystems()[self.entry.fs as int].create_error(
                self.entry.index as int,
                name@,
            ) {
                Some(e) => r == Err::<NamespaceNode, Errno>(e) && final(ns).unchanged_from(old(ns)),
                None => r == Ok::<NamespaceNode, Errno>(
                    self.with_entry(old(ns).next_entry(self.entry.fs)),
                ) && final(ns).created_in(old(ns), self.entry, name@) && final(ns).entry(
                    old(ns).next_entry(self.entry.fs),
                ).data == (NodeData::Plain { mode, dev }) && final(ns).keeps_handles(old(ns)),
            },
    {
        if reserved_name(name) {
            return Err(Errno::EEXIST);
        }
        let ghost before = *ns;
        let f = self.entry.fs;
        assert(ns.filesystems()[f as int].wf());
        let result = ns.filesystems[f].create_node(self.entry.index, name, mode, dev);
        proof {
            assert(ns.filesystems() =~= before.filesystems().update(
                f as int,
                ns.filesystems()[f as int],
            ));
            ns.lemma_replace_fs(&before, f as int, ns.filesystems()[f as int]);
            if result is Err {
                assert(ns.filesystems() =~= before.filesystems());
            }
        }
        match result {
            Ok(index) => {
                let node = self.with_new_entry(DirEntryHandle { fs: f, index });
                assert(node == self.with_entry(before.next_entry(self.entry.fs)));
                assert(ns.created_in(&before, self.entry, name@));
                assert(ns.keeps_handles(&before));
                assert(index == before.filesystems()[f as int].entries().len());
                assert(ns.entry(before.next_entry(f)) == ns.filesystems()[f as int].entries().last());
                Ok(node)
            },
            Err(e) => Err(e),
        }
    }

    /// Creates a symlink `name` in this directory that points to `target`.
    pub fn symlink(&self, ns: &mut Namespace, name: &[u8], target: &[u8]) -> (r: Result<
        NamespaceNode,
        Errno,
    >)
        requires
            old(ns).wf(),
            old(ns).valid_node(*self),
        ensures
            final(ns).wf(),
            match old(ns).filesystems()[self.entry.fs as int].create_error(
                self.entry.index as int,
                name@,
            ) {
                Some(e) => r == Err::<NamespaceNode, Errno>(e) && final(ns).unchanged_from(old(ns)),
                None => r == Ok::<NamespaceNode, Errno>(
                    self.with_entry(old(ns).next_entry(self.entry.fs)),
                ) && final(ns).created_in(old(ns), self.entry, name@) && final(ns).is_link_entry(
                    old(ns).next_entry(self.entry.fs),
                ) && final(ns).link_target(old(ns).next_entry(self.entry.fs)) == target@
                    && final(ns).keeps_handles(old(ns)),
            },
    {
        if reserved_name(name) {
            return Err(Errno::EEXIST);
        }
        let ghost before = *ns;
        let f = self.entry.fs;
        assert(ns.filesystems()[f as int].wf());
        let result = ns.filesystems[f].create_symlink(self.entry.index, name, target);
        proof {
            assert(ns.filesystems() =~= before.filesystems().update(
                f as int,
                ns.filesystems()[f as int],
            ));
            ns.lemma_replace_fs(&before, f as int, ns.filesystems()[f as int]);
            if result is Err {
                assert(ns.filesystems() =~= before.filesystems());
            }
        }
        match result {
            Ok(index) => {
                let node = self.with_new_entry(DirEntryHandle { fs: f, index });
                assert(node == self.with_entry(before.next_entry(self.entry.fs)));
                assert(ns.created_in(&before, self.entry, name@));
                assert(ns.keeps_handles(&before));
                assert(index == before.filesystems()[f as int].entries().len());
                assert(ns.entry(before.next_entry(f)) == ns.filesystems()[f as int].entries().last());
                Ok(node)
            },
            Err(e) => Err(e),
        }
    }

    /// Creates a node of type `mode` that belongs to no namespace and has no
    /// name.
    pub fn new_anonymous(ns: &mut Namespace, mode: FileMode) -> (r: NamespaceNode)
        requires
            old(ns).wf(),
        ensures
            final(ns).wf(),
            final(ns).keeps_handles(old(ns)),
            final(ns).mounts() == old(ns).mounts(),
            r == (NamespaceNode { mount: None, entry: old(ns).next_entry(0) }),
            final(ns).valid_node(r),
            final(ns).local_name_of(r.entry).len() == 0,
            final(ns).entry(r.entry).parent is None,
            final(ns).entry(r.entry).data == (NodeData::Plain { mode, dev: 0 }),
    {
        let ghost before = *ns;
        assert(ns.filesystems()[0].wf());
        let index = ns.filesystems[0].create_anonymous(mode);
        proof {
            assert(ns.filesystems() =~= before.filesystems().update(0, ns.filesystems()[0]));
            ns.lemma_replace_fs(&before, 0, ns.filesystems()[0]);
        }
        NamespaceNode { mount: None, entry: DirEntryHandle { fs: 0, index } }
    }

    /// Opens this node.
    pub fn open(&self, flags: OpenFlags) -> (r: Result<FileObject, Errno>)
        ensures
            r == Ok::<FileObject, Errno>(FileObject { node: *self, flags }),
    {
        Ok(FileObject { node: *self, flags })
    }

    /// Whether `a` and `b` are seen through the same mount.
    pub fn mount_eq(a: &NamespaceNode, b: &NamespaceNode) -> (r: bool)
        ensures
            r == (a.mount == b.mount),
    {
        match (a.mount, b.mount) {
            (Some(x), Some(y)) => x == y,
            (None, None) => true,
            _ => false,
        }
    }
}

impl Task {
    pub fn new(root: NamespaceNode) -> (r: Task)
        ensures
            r.root == root,
    {
        Task { root }
    }

    /// Resolves `path` from `dir`, component by component, sharing the
    /// symlink budget of `ctx` across all of them.
    pub fn lookup_node(
        &self,
        ns: &Namespace,
        ctx: &mut LookupContext,
        dir: NamespaceNode,
        path: &[u8],
    ) -> (r: Result<NamespaceNode, Errno>)
        requires
            ns.wf(),
            ns.valid_node(dir),
            ns.valid_node(self.root),
        ensures
            final(ctx).symlink_mode == old(ctx).symlink_mode,
            final(ctx).remaining_follows <= old(ctx).remaining_follows,
            match ns.lookup_path_spec(
                old(ctx).symlink_mode,
                old(ctx).remaining_follows as nat,
                self.root,
                dir,
                path@,
                0,
            ) {
                Ok((n, b)) => r == Ok::<NamespaceNode, Errno>(n) && final(ctx).remaining_follows == b,
                Err(e) => r == Err::<NamespaceNode, Errno>(e),
            },
            r matches Ok(n) ==> ns.valid_node(n),
        decreases old(ctx).remaining_follows, 1nat,
    {
        let mut current = dir;
        let mut i: usize = 0;
        loop
            invariant
                ns.wf(),
                ns.valid_node(current),
                ns.valid_node(self.root),
                0 <= i <= path@.len(),
                ctx.symlink_mode == old(ctx).symlink_mode,
                ctx.remaining_follows <= old(ctx).remaining_follows,
                ns.lookup_path_spec(
                    old(ctx).symlink_mode,
                    old(ctx).remaining_follows as nat,
                    self.root,
                    dir,
                    path@,
                    0,
                ) == ns.lookup_path_spec(
                    ctx.symlink_mode,
                    ctx.remaining_follows as nat,
                    self.root,
                    current,
                    path@,
                    i as int,
                ),
            decreases path@.len() - i,
        {
            let mut j: usize = i;
            while j < path.len() && path[j] != 47u8
                invariant
                    0 <= i <= j <= path@.len(),
                    component_end(path@, i as int) == component_end(path@, j as int),
                decreases path@.len() - j,
            {
                j = j + 1;
            }
            let component = slice_subrange(path, i, j);
            if j == path.len() {
                return current.lookup(ns, ctx, self, component);
            }
            let mode = ctx.symlink_mode;
            ctx.symlink_mode = SymlinkMode::Follow;
            let step = current.lookup(ns, ctx, self, component);
            ctx.symlink_mode = mode;
            current = match step {
                Ok(n) => n,
                Err(e) => {
                    return Err(e);
                },
            };
            i = j + 1;
        }
    }
}

} // verus!
