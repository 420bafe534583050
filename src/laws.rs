//! Properties that relate several operations of a namespace.

use vstd::prelude::*;

use crate::errno::Errno;
use crate::fs::{dot, dot_dot, is_reserved_name, UnlinkKind};
use crate::namespace::{DirEntryHandle, Namespace, NamespaceNode, SymlinkMode, WhatToMount};

verus! {

/// Looking up `.` from the root of a namespace gives the root, and uses no
/// symlink follows.
pub proof fn lemma_root_dot(
    ns: &Namespace,
    mode: SymlinkMode,
    budget: nat,
    root: NamespaceNode,
)
    requires
        ns.wf(),
    ensures
        ns.lookup_spec(mode, budget, root, ns.mount_root(0), dot()) == Ok::<
            (NamespaceNode, nat),
            Errno,
        >((ns.mount_root(0), budget)),
{
    assert(ns.filesystems()[1].wf());
}

/// The child that `name` denotes in `dir` is the one linked entry there of
/// that name.
proof fn lemma_child_is(ns: &Namespace, dir: DirEntryHandle, name: Seq<u8>, c: DirEntryHandle)
    requires
        ns.wf(),
        ns.valid_entry(c),
        c.fs == dir.fs,
        ns.entry(c).linked,
        ns.entry(c).parent == Some(dir.index),
        ns.entry(c).name@ == name,
    ensures
        ns.child_entry(dir, name) == Some(c),
{
    let fs = ns.filesystems()[dir.fs as int];
    assert(fs.wf());
    assert(fs.is_child(dir.index as int, name, c.index as int));
    let k = choose|k: int| fs.is_child(dir.index as int, name, k);
    fs.lemma_child_unique(dir.index as int, name, k, c.index as int);
}

/// Stepping up with `..` and then down by the name of what was left gives
/// the node one started from.
///
/// This holds for a directory `x` that has a parent, whose entry (or, at
/// the root of a mount, the entry that the mount covers) is still linked
/// and is not a symlink, and that is not itself hidden under a mount. The
/// name is the local name of that entry, the one that the path of `x`
/// shows.
pub proof fn lemma_parent_child_round_trip(
    ns: &Namespace,
    mode: SymlinkMode,
    budget: nat,
    root: NamespaceNode,
    x: NamespaceNode,
)
    requires
        ns.wf(),
        ns.valid_node(x),
        ns.is_dir_entry(x.entry),
        ns.parent_of(x) is Some,
        ns.entry(ns.escape(x).entry).linked,
        !ns.is_link_entry(ns.escape(x).entry),
        ns.escape(x) != x || ns.mounted_at(x) is None,
    ensures
        ns.lookup_spec(mode, budget, root, x, dot_dot()) == Ok::<(NamespaceNode, nat), Errno>(
            (ns.parent_of(x)->Some_0, budget),
        ),
        ns.lookup_spec(
            mode,
            budget,
            root,
            ns.parent_of(x)->Some_0,
            ns.local_name_of(ns.escape(x).entry),
        ) == Ok::<(NamespaceNode, nat), Errno>((x, budget)),
{
    assert(dot_dot().len() == 2);
    assert(dot_dot() != dot()) by {
        assert(dot().len() == 1);
    }
    let c = ns.escape(x);
    let p = ns.parent_of(x)->Some_0;
    let name = ns.local_name_of(c.entry);
    let fs = ns.filesystems()[c.entry.fs as int];
    if x.mount is Some {
        assert(ns.mount_wf(x.mount->Some_0 as int));
    }
    assert(ns.valid_node(c));
    assert(fs.wf());
    assert(fs.entries()[c.entry.index as int].parent is Some);
    assert(fs.entries()[c.entry.index as int].name == fs.entries()[c.entry.index as int].name);
    assert(!is_reserved_name(name));
    assert(name.len() != 0 && name != dot() && name != dot_dot());
    assert(ns.is_dir_entry(p.entry));
    lemma_child_is(ns, p.entry, name, c.entry);
    assert(p.with_entry(c.entry) == c);
    if p.mount is Some {
        if ns.escape(x) != x {
            let m = x.mount->Some_0 as int;
            assert(ns.is_mount_of(m, c));
            let k = choose|k: int| ns.is_mount_of(k, c);
            ns.lemma_mount_unique(c, k, m);
            assert(ns.overlay(c) == x);
        } else {
            assert(ns.overlay(c) == x);
        }
    }
}

/// Without following, a lookup that finds a symlink gives the symlink
/// itself, and uses no symlink follows.
pub proof fn lemma_no_follow_keeps_link(
    ns: &Namespace,
    budget: nat,
    root: NamespaceNode,
    dir: NamespaceNode,
    name: Seq<u8>,
)
    requires
        ns.wf(),
        ns.valid_node(dir),
        ns.is_dir_entry(dir.entry),
        !is_reserved_name(name),
        ns.child_entry(dir.entry, name) matches Some(c) && ns.is_link_entry(c),
        dir.mount is Some ==> ns.mounted_at(dir.with_entry(ns.child_entry(dir.entry, name)->Some_0))
            is None,
    ensures
        ns.lookup_spec(SymlinkMode::NoFollow, budget, root, dir, name) == Ok::<
            (NamespaceNode, nat),
            Errno,
        >((dir.with_entry(ns.child_entry(dir.entry, name)->Some_0), budget)),
{
}

/// Following a symlink with no follows left fails with `ELOOP`.
pub proof fn lemma_exhausted_budget(
    ns: &Namespace,
    root: NamespaceNode,
    dir: NamespaceNode,
    name: Seq<u8>,
)
    requires
        ns.wf(),
        ns.valid_node(dir),
        ns.is_dir_entry(dir.entry),
        !is_reserved_name(name),
        ns.child_entry(dir.entry, name) matches Some(c) && ns.is_link_entry(c),
    ensures
        ns.lookup_spec(SymlinkMode::Follow, 0, root, dir, name) == Err::<(NamespaceNode, nat), Errno>(
            Errno::ELOOP,
        ),
{
}

/// After a mount on the node `x` that `name` denotes in `dir`, the same
/// lookup gives the root of the new mount; leaving that root upwards lands
/// on `x`, and its parent is the parent of `x`'s entry, seen through `x`'s
/// mount.
pub proof fn lemma_mount_overlay(
    old: &Namespace,
    new: &Namespace,
    mode: SymlinkMode,
    budget: nat,
    root: NamespaceNode,
    dir: NamespaceNode,
    name: Seq<u8>,
    what: WhatToMount,
)
    requires
        old.wf(),
        new.wf(),
        old.valid_node(dir),
        dir.mount is Some,
        old.is_dir_entry(dir.entry),
        !is_reserved_name(name),
        old.child_entry(dir.entry, name) matches Some(c) && !old.is_link_entry(c),
        old.mount_error(dir.with_entry(old.child_entry(dir.entry, name)->Some_0)) is None,
        new.mounted_over(old, dir.with_entry(old.child_entry(dir.entry, name)->Some_0), what),
    ensures
        ({
            let x = dir.with_entry(old.child_entry(dir.entry, name)->Some_0);
            let k = old.mounts().len() as int;
            &&& old.lookup_spec(mode, budget, root, dir, name) == Ok::<(NamespaceNode, nat), Errno>(
                (x, budget),
            )
            &&& new.lookup_spec(mode, budget, root, dir, name) == Ok::<(NamespaceNode, nat), Errno>(
                (new.mount_root(k), budget),
            )
            &&& new.mountpoint_of(new.mount_root(k)) == Some(x)
            &&& new.parent_of(new.mount_root(k)) == Some(x.with_entry(new.parent_entry(x.entry)->Some_0))
        }),
{
    let c = old.child_entry(dir.entry, name)->Some_0;
    let x = dir.with_entry(c);
    let k = old.mounts().len() as int;
    assert(old.filesystems()[dir.entry.fs as int].wf());
    assert(new.filesystems()[dir.entry.fs as int] == old.filesystems()[dir.entry.fs as int]);
    assert(new.child_entry(dir.entry, name) == Some(c));
    assert(new.is_dir_entry(dir.entry));
    assert(new.entry(c) == old.entry(c));
    assert(new.is_mount_of(k, x));
    let j = choose|j: int| new.is_mount_of(j, x);
    new.lemma_mount_unique(x, j, k);
    assert(new.mount_wf(k));
    let fs = old.filesystems()[c.fs as int];
    let ci = fs.child(dir.entry.index as int, name)->Some_0;
    assert(fs.is_child(dir.entry.index as int, name, ci));
    assert(fs.entries()[c.index as int].parent is Some);
}

/// A handle taken before a mount stays what it was: it differs from the
/// root of the new mount, and its entry still has the children it had.
pub proof fn lemma_mount_keeps_handles(
    old: &Namespace,
    new: &Namespace,
    x: NamespaceNode,
    what: WhatToMount,
    name: Seq<u8>,
)
    requires
        old.wf(),
        old.valid_node(x),
        old.mount_error(x) is None,
        new.mounted_over(old, x, what),
    ensures
        x != new.mount_root(old.mounts().len() as int),
        new.child_entry(x.entry, name) == old.child_entry(x.entry, name),
        new.is_dir_entry(x.entry) == old.is_dir_entry(x.entry),
{
    assert(new.filesystems()[x.entry.fs as int] == old.filesystems()[x.entry.fs as int]);
}

/// Unlinking a name on which a mount stands fails with `EBUSY`.
pub proof fn lemma_unlink_mount_point_busy(
    ns: &Namespace,
    root: NamespaceNode,
    dir: NamespaceNode,
    name: Seq<u8>,
    kind: UnlinkKind,
)
    requires
        ns.wf(),
        ns.valid_node(dir),
        dir.mount is Some,
        ns.is_dir_entry(dir.entry),
        !is_reserved_name(name),
        ns.child_entry(dir.entry, name) matches Some(c) && !ns.is_link_entry(c),
        ns.mounted_at(dir.with_entry(ns.child_entry(dir.entry, name)->Some_0)) is Some,
    ensures
        ns.unlink_error(root, dir, name, kind) == Some(Errno::EBUSY),
{
    let x = dir.with_entry(ns.child_entry(dir.entry, name)->Some_0);
    let m = ns.mounted_at(x)->Some_0;
    assert(ns.is_mount_of(m, x));
    assert(ns.mount_wf(m));
    assert(ns.overlay(x) == ns.mount_root(m));
    assert(ns.mountpoint_of(ns.mount_root(m)) is Some);
}

/// After a successful unlink, looking the name up again fails with
/// `ENOENT`.
pub proof fn lemma_unlink_removes(
    old: &Namespace,
    new: &Namespace,
    mode: SymlinkMode,
    budget: nat,
    root: NamespaceNode,
    dir: NamespaceNode,
    name: Seq<u8>,
    kind: UnlinkKind,
)
    requires
        old.wf(),
        new.wf(),
        old.valid_node(dir),
        old.valid_node(root),
        old.unlink_error(root, dir, name, kind) is None,
        new.unlinked_in(old, dir.entry, name),
    ensures
        new.lookup_spec(mode, budget, root, dir, name) == Err::<(NamespaceNode, nat), Errno>(
            Errno::ENOENT,
        ),
{
    let f = dir.entry.fs as int;
    let ofs = old.filesystems()[f];
    let nfs = new.filesystems()[f];
    assert(ofs.wf());
    assert(old.is_dir_entry(dir.entry));
    let c = ofs.child(dir.entry.index as int, name)->Some_0;
    assert(ofs.is_child(dir.entry.index as int, name, c));
    assert(nfs.entries()[dir.entry.index as int].data == ofs.entries()[dir.entry.index as int].data);
    assert(new.is_dir_entry(dir.entry));
    assert forall|k: int| !nfs.is_child(dir.entry.index as int, name, k) by {
        if nfs.is_child(dir.entry.index as int, name, k) {
            assert(k != c);
            assert(ofs.is_child(dir.entry.index as int, name, k));
            ofs.lemma_child_unique(dir.entry.index as int, name, k, c);
        }
    }
    assert(new.child_entry(dir.entry, name) is None);
}

/// Two nodes are the same mount-table key exactly when they name the same
/// mount and the same entry, however they were reached.
pub proof fn lemma_node_identity(a: NamespaceNode, b: NamespaceNode)
    ensures
        (a == b) == (a.mount == b.mount && a.entry == b.entry),
{
}

} // verus!
