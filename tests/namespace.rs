use std::collections::hash_map::DefaultHasher;
use std::hash::{Hash, Hasher};

use starnix_namespace::{
    create_filesystem, Errno, FileMode, FileSystem, FileSystemKind, LookupContext, Namespace,
    NamespaceNode, SymlinkMode, Task, UnlinkKind, WhatToMount, MAX_SYMLINK_FOLLOWS,
};

/// A root filesystem with `/dev`, and a device filesystem with `/pts`.
fn root_and_dev() -> (FileSystem, FileSystem) {
    let mut root_fs = FileSystem::new(FileSystemKind::TmpFs);
    let root_node = root_fs.root();
    let _dev_node = root_fs.create_dir(root_node, b"dev").expect("failed to mkdir dev");
    let mut dev_fs = FileSystem::new(FileSystemKind::TmpFs);
    let dev_root_node = dev_fs.root();
    let _dev_pts_node = dev_fs.create_dir(dev_root_node, b"pts").expect("failed to mkdir pts");
    (root_fs, dev_fs)
}

fn hash_of(n: &NamespaceNode) -> u64 {
    let mut h = DefaultHasher::new();
    n.hash(&mut h);
    h.finish()
}

#[test]
fn test_namespace() {
    let (root_fs, dev_fs) = root_and_dev();
    let mut ns = Namespace::new(root_fs);
    let task = Task::new(ns.root());
    let mut context = LookupContext::default();
    let dev = ns.root().lookup(&ns, &mut context, &task, b"dev").expect("failed to lookup dev");
    dev.mount(&mut ns, WhatToMount::Fs(dev_fs)).expect("failed to mount dev root node");

    let mut context = LookupContext::default();
    let dev = ns.root().lookup(&ns, &mut context, &task, b"dev").expect("failed to lookup dev");
    let mut context = LookupContext::default();
    let pts = dev.lookup(&ns, &mut context, &task, b"pts").expect("failed to lookup pts");
    let pts_parent = pts.parent(&ns).ok_or(Errno::ENOENT).expect("failed to get parent of pts");
    assert!(pts_parent.entry == dev.entry);

    let dev_parent = dev.parent(&ns).ok_or(Errno::ENOENT).expect("failed to get parent of dev");
    assert!(dev_parent.entry == ns.root().entry);
}

#[test]
fn test_mount_does_not_upgrade() {
    let (root_fs, dev_fs) = root_and_dev();
    let mut ns = Namespace::new(root_fs);
    let task = Task::new(ns.root());
    let mut context = LookupContext::default();
    let dev = ns.root().lookup(&ns, &mut context, &task, b"dev").expect("failed to lookup dev");
    dev.mount(&mut ns, WhatToMount::Fs(dev_fs)).expect("failed to mount dev root node");
    let mut context = LookupContext::default();
    let new_dev =
        ns.root().lookup(&ns, &mut context, &task, b"dev").expect("failed to lookup dev again");
    assert!(dev.entry != new_dev.entry);
    assert_ne!(&dev, &new_dev);

    let mut context = LookupContext::default();
    let _new_pts = new_dev.lookup(&ns, &mut context, &task, b"pts").expect("failed to lookup pts");
    let mut context = LookupContext::default();
    assert!(dev.lookup(&ns, &mut context, &task, b"pts").is_err());
}

#[test]
fn test_path() {
    let (root_fs, dev_fs) = root_and_dev();
    let mut ns = Namespace::new(root_fs);
    let task = Task::new(ns.root());
    let mut context = LookupContext::default();
    let dev = ns.root().lookup(&ns, &mut context, &task, b"dev").expect("failed to lookup dev");
    dev.mount(&mut ns, WhatToMount::Fs(dev_fs)).expect("failed to mount dev root node");

    let mut context = LookupContext::default();
    let dev = ns.root().lookup(&ns, &mut context, &task, b"dev").expect("failed to lookup dev");
    let mut context = LookupContext::default();
    let pts = dev.lookup(&ns, &mut context, &task, b"pts").expect("failed to lookup pts");

    assert_eq!(b"/".to_vec(), ns.root().path(&ns));
    assert_eq!(b"/dev".to_vec(), dev.path(&ns));
    assert_eq!(b"/dev/pts".to_vec(), pts.path(&ns));
}

#[test]
fn dot_from_root_is_root() {
    let (root_fs, _) = root_and_dev();
    let ns = Namespace::new(root_fs);
    let task = Task::new(ns.root());
    for mode in [SymlinkMode::Follow, SymlinkMode::NoFollow] {
        let mut context = LookupContext::new(mode);
        assert_eq!(ns.root().lookup(&ns, &mut context, &task, b".").unwrap(), ns.root());
        assert_eq!(context.remaining_follows, MAX_SYMLINK_FOLLOWS);
        assert_eq!(ns.root().lookup(&ns, &mut context, &task, b"").unwrap(), ns.root());
    }
}

#[test]
fn dot_dot_at_root_stays_at_root() {
    let (root_fs, _) = root_and_dev();
    let ns = Namespace::new(root_fs);
    let task = Task::new(ns.root());
    let mut context = LookupContext::default();
    assert_eq!(ns.root().parent(&ns), None);
    assert_eq!(ns.root().lookup(&ns, &mut context, &task, b"..").unwrap(), ns.root());
}

#[test]
fn up_and_down_again_is_the_same_node() {
    let (root_fs, dev_fs) = root_and_dev();
    let mut ns = Namespace::new(root_fs);
    let task = Task::new(ns.root());
    let mut context = LookupContext::default();
    let dev = ns.root().lookup(&ns, &mut context, &task, b"dev").unwrap();
    let usr = ns.root().create_node(&mut ns, b"usr", FileMode::Directory, 0).unwrap();
    let lib = usr.create_node(&mut ns, b"lib", FileMode::Directory, 0).unwrap();
    dev.mount(&mut ns, WhatToMount::Fs(dev_fs)).unwrap();
    let dev = ns.root().lookup(&ns, &mut context, &task, b"dev").unwrap();

    // Inside one filesystem.
    let up = lib.lookup(&ns, &mut context, &task, b"..").unwrap();
    assert_eq!(up, usr);
    assert_eq!(up.lookup(&ns, &mut context, &task, b"lib").unwrap(), lib);

    // At the root of a mount, the name is the one of the covered node.
    let up = dev.lookup(&ns, &mut context, &task, b"..").unwrap();
    assert_eq!(up, ns.root());
    assert_eq!(up.lookup(&ns, &mut context, &task, b"dev").unwrap(), dev);
    assert_eq!(context.remaining_follows, MAX_SYMLINK_FOLLOWS);
}

/// Makes `link1` .. `link<n>` in the root, each pointing to the next, the
/// last one to the directory `target`.
fn symlink_chain(n: usize) -> (Namespace, Task, NamespaceNode) {
    let mut ns = Namespace::new(FileSystem::new(FileSystemKind::TmpFs));
    let root = ns.root();
    let target = root.create_node(&mut ns, b"target", FileMode::Directory, 0).unwrap();
    for i in 1..=n {
        let name = format!("link{}", i);
        let to = if i == n { "target".to_string() } else { format!("link{}", i + 1) };
        root.symlink(&mut ns, name.as_bytes(), to.as_bytes()).unwrap();
    }
    let task = Task::new(root);
    (ns, task, target)
}

#[test]
fn symlink_chain_of_forty_resolves() {
    let (ns, task, target) = symlink_chain(40);
    let mut context = LookupContext::default();
    let found = ns.root().lookup(&ns, &mut context, &task, b"link1").unwrap();
    assert_eq!(found, target);
    assert_eq!(context.remaining_follows, 0);
}

#[test]
fn symlink_chain_of_forty_one_fails() {
    let (ns, task, _) = symlink_chain(41);
    let mut context = LookupContext::default();
    assert_eq!(ns.root().lookup(&ns, &mut context, &task, b"link1"), Err(Errno::ELOOP));
}

#[test]
fn no_follow_returns_the_link_itself() {
    let (ns, task, target) = symlink_chain(41);
    let mut context = LookupContext::new(SymlinkMode::NoFollow);
    let link = ns.root().lookup(&ns, &mut context, &task, b"link1").unwrap();
    assert_ne!(link, target);
    assert_eq!(link.path(&ns), b"/link1".to_vec());
    assert_eq!(context.remaining_follows, MAX_SYMLINK_FOLLOWS);
}

#[test]
fn budget_is_shared_across_a_path() {
    let (ns, task, target) = symlink_chain(3);
    let mut context = LookupContext::default();
    let found = task.lookup_node(&ns, &mut context, ns.root(), b"link1/../link2").unwrap();
    assert_eq!(found, target);
    assert_eq!(context.remaining_follows, MAX_SYMLINK_FOLLOWS - 5);
}

#[test]
fn absolute_symlink_starts_at_task_root() {
    let (root_fs, _) = root_and_dev();
    let mut ns = Namespace::new(root_fs);
    let task = Task::new(ns.root());
    let mut context = LookupContext::default();
    let dev = ns.root().lookup(&ns, &mut context, &task, b"dev").unwrap();
    let sub = dev.create_node(&mut ns, b"sub", FileMode::Directory, 0).unwrap();
    sub.symlink(&mut ns, b"back", b"/dev").unwrap();
    let mut context = LookupContext::default();
    assert_eq!(sub.lookup(&ns, &mut context, &task, b"back").unwrap(), dev);
    assert_eq!(context.remaining_follows, MAX_SYMLINK_FOLLOWS - 1);
}

#[test]
fn mount_overlays_lookup_and_escapes_on_the_way_up() {
    let (root_fs, dev_fs) = root_and_dev();
    let mut ns = Namespace::new(root_fs);
    let task = Task::new(ns.root());
    let mut context = LookupContext::default();
    let under = ns.root().lookup(&ns, &mut context, &task, b"dev").unwrap();
    under.mount(&mut ns, WhatToMount::Fs(dev_fs)).unwrap();
    let over = ns.root().lookup(&ns, &mut context, &task, b"dev").unwrap();
    assert_ne!(over, under);
    assert_eq!(over.mountpoint(&ns), Some(under));
    assert_eq!(over.parent(&ns), Some(ns.root()));
    assert!(!NamespaceNode::mount_eq(&over, &under));
}

#[test]
fn mount_shadowing_is_busy() {
    let (root_fs, dev_fs) = root_and_dev();
    let mut ns = Namespace::new(root_fs);
    let task = Task::new(ns.root());
    let mut context = LookupContext::default();
    let dev = ns.root().lookup(&ns, &mut context, &task, b"dev").unwrap();
    dev.mount(&mut ns, WhatToMount::Fs(dev_fs)).unwrap();
    let again = FileSystem::new(FileSystemKind::TmpFs);
    assert_eq!(dev.mount(&mut ns, WhatToMount::Fs(again)), Err(Errno::EBUSY));
}

#[test]
fn bind_mount_of_a_directory() {
    let (root_fs, _) = root_and_dev();
    let mut ns = Namespace::new(root_fs);
    let task = Task::new(ns.root());
    let mut context = LookupContext::default();
    let dev = ns.root().lookup(&ns, &mut context, &task, b"dev").unwrap();
    let data = ns.root().create_node(&mut ns, b"data", FileMode::Directory, 0).unwrap();
    let file = data.create_node(&mut ns, b"file", FileMode::Regular, 0).unwrap();
    dev.mount(&mut ns, WhatToMount::Dir(data.entry)).unwrap();
    let found = task.lookup_node(&ns, &mut context, ns.root(), b"/dev/file").unwrap();
    assert_eq!(found.entry, file.entry);
    assert_ne!(found, file);
    assert_eq!(found.path(&ns), b"/dev/file".to_vec());
}

#[test]
fn anonymous_node_cannot_take_a_mount() {
    let mut ns = Namespace::new(FileSystem::new(FileSystemKind::TmpFs));
    let anon = NamespaceNode::new_anonymous(&mut ns, FileMode::Directory);
    let fs = FileSystem::new(FileSystemKind::TmpFs);
    assert_eq!(anon.mount(&mut ns, WhatToMount::Fs(fs)), Err(Errno::EBUSY));
    assert_eq!(anon.path(&ns), Vec::<u8>::new());
    assert_eq!(anon.parent(&ns), None);
}

#[test]
fn unlink_of_a_mount_point_is_busy() {
    let (root_fs, dev_fs) = root_and_dev();
    let mut ns = Namespace::new(root_fs);
    let task = Task::new(ns.root());
    let mut context = LookupContext::default();
    let dev = ns.root().lookup(&ns, &mut context, &task, b"dev").unwrap();
    dev.mount(&mut ns, WhatToMount::Fs(dev_fs)).unwrap();
    assert_eq!(ns.root().unlink(&mut ns, &task, b"dev", UnlinkKind::Directory), Err(Errno::EBUSY));
    assert!(ns.root().lookup(&ns, &mut context, &task, b"dev").is_ok());
}

#[test]
fn unlink_removes_the_name() {
    let (root_fs, _) = root_and_dev();
    let mut ns = Namespace::new(root_fs);
    let task = Task::new(ns.root());
    let root = ns.root();
    root.create_node(&mut ns, b"file", FileMode::Regular, 0).unwrap();
    assert_eq!(root.unlink(&mut ns, &task, b"dev", UnlinkKind::Directory), Ok(()));
    assert_eq!(root.unlink(&mut ns, &task, b"file", UnlinkKind::NonDirectory), Ok(()));
    let mut context = LookupContext::default();
    assert_eq!(root.lookup(&ns, &mut context, &task, b"dev"), Err(Errno::ENOENT));
    assert_eq!(root.lookup(&ns, &mut context, &task, b"file"), Err(Errno::ENOENT));
    assert_eq!(root.unlink(&mut ns, &task, b"dev", UnlinkKind::Directory), Err(Errno::ENOENT));
}

#[test]
fn unlink_keeps_the_link_not_its_target() {
    let (ns, task, target) = symlink_chain(1);
    let mut ns = ns;
    let root = ns.root();
    assert_eq!(root.unlink(&mut ns, &task, b"link1", UnlinkKind::NonDirectory), Ok(()));
    let mut context = LookupContext::default();
    assert_eq!(root.lookup(&ns, &mut context, &task, b"target").unwrap(), target);
}

#[test]
fn unlink_errors() {
    let (root_fs, _) = root_and_dev();
    let mut ns = Namespace::new(root_fs);
    let task = Task::new(ns.root());
    let root = ns.root();
    let mut context = LookupContext::default();
    let dev = root.lookup(&ns, &mut context, &task, b"dev").unwrap();
    dev.create_node(&mut ns, b"null", FileMode::CharDevice, 0x103).unwrap();
    for name in [&b""[..], b".", b".."] {
        assert_eq!(root.unlink(&mut ns, &task, name, UnlinkKind::Directory), Err(Errno::EINVAL));
    }
    assert_eq!(root.unlink(&mut ns, &task, b"dev", UnlinkKind::NonDirectory), Err(Errno::EISDIR));
    assert_eq!(root.unlink(&mut ns, &task, b"dev", UnlinkKind::Directory), Err(Errno::ENOTEMPTY));
    assert_eq!(dev.unlink(&mut ns, &task, b"null", UnlinkKind::Directory), Err(Errno::ENOTDIR));
    assert_eq!(root.unlink(&mut ns, &task, b"nothing", UnlinkKind::Directory), Err(Errno::ENOENT));
}

#[test]
fn lookup_errors() {
    let (root_fs, _) = root_and_dev();
    let mut ns = Namespace::new(root_fs);
    let task = Task::new(ns.root());
    let root = ns.root();
    let file = root.create_node(&mut ns, b"file", FileMode::Regular, 0).unwrap();
    let mut context = LookupContext::default();
    assert_eq!(file.lookup(&ns, &mut context, &task, b"."), Err(Errno::ENOTDIR));
    assert_eq!(root.lookup(&ns, &mut context, &task, b"missing"), Err(Errno::ENOENT));
    assert_eq!(task.lookup_node(&ns, &mut context, root, b"/file/x"), Err(Errno::ENOTDIR));
}

#[test]
fn self_loop_runs_out_of_budget() {
    let mut ns = Namespace::new(FileSystem::new(FileSystemKind::TmpFs));
    let root = ns.root();
    root.symlink(&mut ns, b"loop", b"loop").unwrap();
    let task = Task::new(root);
    let mut context = LookupContext::default();
    assert_eq!(root.lookup(&ns, &mut context, &task, b"loop"), Err(Errno::ELOOP));
    let mut context = LookupContext::default();
    context.remaining_follows = 0;
    assert_eq!(root.lookup(&ns, &mut context, &task, b"loop"), Err(Errno::ELOOP));
}

#[test]
fn create_errors() {
    let mut ns = Namespace::new(FileSystem::new(FileSystemKind::TmpFs));
    let root = ns.root();
    let file = root.create_node(&mut ns, b"file", FileMode::Regular, 0).unwrap();
    for name in [&b""[..], b".", b".."] {
        assert_eq!(root.create_node(&mut ns, name, FileMode::Regular, 0), Err(Errno::EEXIST));
    }
    assert_eq!(root.create_node(&mut ns, b"file", FileMode::Regular, 0), Err(Errno::EEXIST));
    assert_eq!(root.symlink(&mut ns, b"file", b"x"), Err(Errno::EEXIST));
    assert_eq!(root.create_node(&mut ns, b"a/b", FileMode::Regular, 0), Err(Errno::EINVAL));
    assert_eq!(file.create_node(&mut ns, b"x", FileMode::Regular, 0), Err(Errno::ENOTDIR));
}

#[test]
fn create_in_unlinked_directory_is_not_found() {
    let mut fs = FileSystem::new(FileSystemKind::TmpFs);
    let root = fs.root();
    let dir = fs.create_dir(root, b"gone").unwrap();
    assert_eq!(fs.unlink(root, b"gone", UnlinkKind::Directory), Ok(()));
    assert!(!fs.is_linked(dir));
    assert_eq!(fs.create_dir(dir, b"x"), Err(Errno::ENOENT));
    assert_eq!(fs.component_lookup(root, b"gone"), Err(Errno::ENOENT));
    assert_eq!(fs.len(), 2);
}

#[test]
fn filesystem_entries() {
    let mut fs = FileSystem::new(FileSystemKind::DevPts);
    assert_eq!(fs.kind(), FileSystemKind::DevPts);
    let root = fs.root();
    let link = fs.create_symlink(root, b"ptmx", b"pts/ptmx").unwrap();
    assert_eq!(link, 1);
    assert!(fs.is_symlink(link));
    assert!(!fs.is_dir(link));
    assert!(fs.is_dir(root));
    assert_eq!(fs.readlink(link), Ok(&b"pts/ptmx"[..]));
    assert_eq!(fs.readlink(root), Err(Errno::EINVAL));
    assert_eq!(fs.local_name(link), b"ptmx");
    assert_eq!(fs.parent(link), Some(root));
    assert_eq!(fs.parent(root), None);
    assert_eq!(fs.component_lookup(root, b"ptmx"), Ok(link));
}

#[test]
fn equal_nodes_hash_alike() {
    let (root_fs, _) = root_and_dev();
    let ns = Namespace::new(root_fs);
    let task = Task::new(ns.root());
    let mut context = LookupContext::default();
    let a = ns.root().lookup(&ns, &mut context, &task, b"dev").unwrap();
    let b = task.lookup_node(&ns, &mut context, ns.root(), b"/./dev/../dev/.").unwrap();
    assert_eq!(a, b);
    assert_eq!(hash_of(&a), hash_of(&b));
    assert!(NamespaceNode::mount_eq(&a, &b));
    assert_ne!(a, ns.root());
}

#[test]
fn create_filesystem_by_name() {
    for (name, kind) in [
        (&b"devfs"[..], FileSystemKind::DevTmpFs),
        (b"devpts", FileSystemKind::DevPts),
        (b"proc", FileSystemKind::Proc),
        (b"selinuxfs", FileSystemKind::SelinuxFs),
        (b"sysfs", FileSystemKind::SysFs),
        (b"tmpfs", FileSystemKind::TmpFs),
    ] {
        match create_filesystem(b"none", name, b"") {
            Ok(WhatToMount::Fs(fs)) => {
                assert_eq!(fs.kind(), kind);
                assert_eq!(fs.len(), 1);
            }
            _ => panic!("expected a filesystem"),
        }
    }
    assert!(matches!(create_filesystem(b"none", b"ext4", b""), Err(Errno::ENODEV)));
    assert!(matches!(create_filesystem(b"none", b"tmpf", b""), Err(Errno::ENODEV)));
}

#[test]
fn mount_a_created_filesystem() {
    let (root_fs, _) = root_and_dev();
    let mut ns = Namespace::new(root_fs);
    let task = Task::new(ns.root());
    let mut context = LookupContext::default();
    let dev = ns.root().lookup(&ns, &mut context, &task, b"dev").unwrap();
    let fs = create_filesystem(b"none", b"devpts", b"").unwrap();
    dev.mount(&mut ns, fs).unwrap();
    let dev = ns.root().lookup(&ns, &mut context, &task, b"dev").unwrap();
    assert_eq!(dev.path(&ns), b"/dev".to_vec());
    let ptmx = dev.create_node(&mut ns, b"ptmx", FileMode::CharDevice, 0x502).unwrap();
    assert_eq!(ptmx.path(&ns), b"/dev/ptmx".to_vec());
}

#[test]
fn lookup_context_constructors() {
    let c = LookupContext::new(SymlinkMode::NoFollow);
    assert_eq!(c.symlink_mode, SymlinkMode::NoFollow);
    assert_eq!(c.remaining_follows, 40);
    let mut d = LookupContext::default();
    assert_eq!(d.symlink_mode, SymlinkMode::Follow);
    assert_eq!(d.remaining_follows, 40);
    d.remaining_follows = 7;
    let e = d.with(SymlinkMode::NoFollow);
    assert_eq!(e.symlink_mode, SymlinkMode::NoFollow);
    assert_eq!(e.remaining_follows, 7);
}

#[test]
fn open_records_node_and_flags() {
    let ns = Namespace::new(FileSystem::new(FileSystemKind::TmpFs));
    let file = ns.root().open(2).unwrap();
    assert_eq!(file.node, ns.root());
    assert_eq!(file.flags, 2);
}

#[test]
fn errno_codes() {
    assert_eq!(Errno::ENOENT.code(), 2);
    assert_eq!(Errno::EBUSY.code(), 16);
    assert_eq!(Errno::EEXIST.code(), 17);
    assert_eq!(Errno::ENODEV.code(), 19);
    assert_eq!(Errno::ENOTDIR.code(), 20);
    assert_eq!(Errno::EISDIR.code(), 21);
    assert_eq!(Errno::EINVAL.code(), 22);
    assert_eq!(Errno::ENOTEMPTY.code(), 39);
    assert_eq!(Errno::ELOOP.code(), 40);
}
