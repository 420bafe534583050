use vstd::prelude::*;
use vstd::slice::slice_to_vec;

use crate::errno::Errno;

verus! {

/// The type of a node that is not a symbolic link.
#[derive(Clone, Copy, Debug, PartialEq, Eq, Structural)]
pub enum FileMode {
    Directory,
    Regular,
    CharDevice,
    BlockDevice,
    Fifo,
    Socket,
}

/// The device number of a device node.
pub type DeviceType = u64;

/// What a node of a filesystem is.
#[derive(Debug)]
pub enum NodeData {
    /// A directory, a regular file, a device, a fifo or a socket.
    Plain { mode: FileMode, dev: DeviceType },
    /// A symbolic link and the path it points to.
    Symlink { target: Vec<u8> },
}

/// Which kind of entry an unlink expects to remove.
#[derive(Clone, Copy, Debug, PartialEq, Eq, Structural)]
pub enum UnlinkKind {
    Directory,
    NonDirectory,
}

/// The filesystem types that can be created by name.
#[derive(Clone, Copy, Debug, PartialEq, Eq, Structural)]
pub enum FileSystemKind {
    /// The holder of nodes that belong to no directory.
    Anonymous,
    DevTmpFs,
    DevPts,
    Proc,
    SelinuxFs,
    SysFs,
    TmpFs,
}

/// One directory entry of a filesystem.
///
/// An entry that has been unlinked stays in its filesystem, so that handles
/// that still name it stay meaningful, but it is no longer found by name.
#[derive(Debug)]
pub struct FsEntry {
    /// The index of the directory that holds this entry; `None` for the root
    /// and for anonymous nodes.
    pub parent: Option<usize>,
    /// The name of the entry in its parent.
    pub name: Vec<u8>,
    /// The node that the entry names.
    pub data: NodeData,
    /// Whether the entry can still be found by name in its parent.
    pub linked: bool,
}

/// A filesystem instance: a tree of entries rooted at index 0.
///
/// Entries are only ever appended, and a parent always comes before its
/// children, which keeps the parent links free of cycles.
pub struct FileSystem {
    kind: FileSystemKind,
    entries: Vec<FsEntry>,
}

pub open spec fn dot() -> Seq<u8> {
    seq![46u8]
}

pub open spec fn dot_dot() -> Seq<u8> {
    seq![46u8, 46u8]
}

/// The names that never denote a child: empty, `.` and `..`.
pub open spec fn is_reserved_name(name: Seq<u8>) -> bool {
    name.len() == 0 || name == dot() || name == dot_dot()
}

pub open spec fn has_separator(name: Seq<u8>) -> bool {
    exists|i: int| 0 <= i < name.len() && #[trigger] name[i] == 47u8
}

/// Whether `name` is `.`.
pub fn name_is_dot(name: &[u8]) -> (r: bool)
    ensures
        r == (name@ == dot()),
{
    let r = name.len() == 1 && name[0] == 46u8;
    proof {
        if name@ == dot() {
            assert(name@[0] == dot()[0]);
        }
        if r {
            assert(name@ =~= dot());
        }
    }
    r
}

/// Whether `name` is `..`.
pub fn name_is_dot_dot(name: &[u8]) -> (r: bool)
    ensures
        r == (name@ == dot_dot()),
{
    let r = name.len() == 2 && name[0] == 46u8 && name[1] == 46u8;
    proof {
        if name@ == dot_dot() {
            assert(name@[0] == dot_dot()[0] && name@[1] == dot_dot()[1]);
        }
        if r {
            assert(name@ =~= dot_dot());
        }
    }
    r
}

/// Whether `name` is empty, `.` or `..`.
pub fn reserved_name(name: &[u8]) -> (r: bool)
    ensures
        r == is_reserved_name(name@),
{
    name.len() == 0 || name_is_dot(name) || name_is_dot_dot(name)
}

fn contains_separator(name: &[u8]) -> (r: bool)
    ensures
        r == has_separator(name@),
{
    let mut i: usize = 0;
    while i < name.len()
        invariant
            0 <= i <= name@.len(),
            forall|k: int| 0 <= k < i ==> name@[k] != 47u8,
        decreases name@.len() - i,
    {
        if name[i] == 47u8 {
            return true;
        }
        i = i + 1;
    }
    false
}

/// Byte-wise equality of two names.
pub fn bytes_equal(a: &[u8], b: &[u8]) -> (r: bool)
    ensures
        r == (a@ == b@),
{
    if a.len() != b.len() {
        return false;
    }
    let mut i: usize = 0;
    while i < a.len()
        invariant
            a@.len() == b@.len(),
            0 <= i <= a@.len(),
            forall|k: int| 0 <= k < i ==> a@[k] == b@[k],
        decreases a@.len() - i,
    {
        if a[i] != b[i] {
            return false;
        }
        i = i + 1;
    }
    assert(a@ =~= b@);
    true
}

impl FsEntry {
    pub open spec fn is_directory(&self) -> bool {
        self.data matches NodeData::Plain { mode, .. } && mode == FileMode::Directory
    }

    pub open spec fn is_link(&self) -> bool {
        self.data is Symlink
    }

    /// The same entry, no longer found by name.
    pub open spec fn unlinked(self) -> FsEntry {
        FsEntry { linked: false, ..self }
    }
}

impl FileSystem {
    /// The entries, by index.
    pub closed spec fn entries(&self) -> Seq<FsEntry> {
        self.entries@
    }

    pub closed spec fn spec_kind(&self) -> FileSystemKind {
        self.kind
    }

    pub open spec fn valid(&self, i: int) -> bool {
        0 <= i < self.entries().len()
    }

    pub open spec fn is_directory(&self, i: int) -> bool {
        self.entries()[i].is_directory()
    }

    pub open spec fn is_link(&self, i: int) -> bool {
        self.entries()[i].is_link()
    }

    /// Whether `c` is a linked entry named `name` in directory `dir`.
    pub open spec fn is_child(&self, dir: int, name: Seq<u8>, c: int) -> bool {
        &&& self.valid(c)
        &&& self.entries()[c].linked
        &&& self.entries()[c].parent == Some(dir as usize)
        &&& self.entries()[c].name@ == name
    }

    /// The entry that `name` denotes in directory `dir`, if any.
    pub open spec fn child(&self, dir: int, name: Seq<u8>) -> Option<int> {
        if exists|c: int| self.is_child(dir, name, c) {
            Some(choose|c: int| self.is_child(dir, name, c))
        } else {
            None
        }
    }

    pub open spec fn has_children(&self, dir: int) -> bool {
        exists|c: int|
            self.valid(c) && #[trigger] self.entries()[c].linked && self.entries()[c].parent == Some(
                dir as usize,
            )
    }

    /// The structure that every operation keeps: a directory root at index
    /// 0, parents that are directories and come before their children,
    /// plain names, and no two linked entries of one name in a directory.
    pub open spec fn wf(&self) -> bool {
        &&& 0 < self.entries().len() <= usize::MAX
        &&& self.entries()[0].parent is None
        &&& self.is_directory(0)
        &&& self.entries()[0].linked
        &&& forall|i: int|
            #![trigger self.entries()[i].parent]
            self.valid(i) && self.entries()[i].parent is Some ==> {
                let p = self.entries()[i].parent->Some_0 as int;
                0 <= p < i && self.is_directory(p)
            }
        &&& forall|i: int|
            #![trigger self.entries()[i].name]
            self.valid(i) && self.entries()[i].parent is Some ==> !is_reserved_name(
                self.entries()[i].name@,
            ) && !has_separator(self.entries()[i].name@)
        &&& forall|i: int, j: int|
            #![trigger self.entries()[i], self.entries()[j]]
            self.valid(i) && self.valid(j) && i != j && self.entries()[i].linked
                && self.entries()[j].linked && self.entries()[i].parent is Some
                && self.entries()[i].parent == self.entries()[j].parent
                ==> self.entries()[i].name@ != self.entries()[j].name@
    }

    /// Why creating `name` in `dir` fails, if it does.
    pub open spec fn create_error(&self, dir: int, name: Seq<u8>) -> Option<Errno> {
        if is_reserved_name(name) {
            Some(Errno::EEXIST)
        } else if !self.is_directory(dir) {
            Some(Errno::ENOTDIR)
        } else if !self.entries()[dir].linked {
            Some(Errno::ENOENT)
        } else if has_separator(name) {
            Some(Errno::EINVAL)
        } else if self.child(dir, name) is Some {
            Some(Errno::EEXIST)
        } else {
            None
        }
    }

    /// `self` is `old` with one linked entry `name` appended to `dir`.
    pub open spec fn appended(&self, old: &FileSystem, dir: int, name: Seq<u8>) -> bool {
        &&& self.spec_kind() == old.spec_kind()
        &&& self.entries().len() == old.entries().len() + 1
        &&& self.entries().drop_last() == old.entries()
        &&& self.entries().last().parent == Some(dir as usize)
        &&& self.entries().last().name@ == name
        &&& self.entries().last().linked
    }

    /// Why unlinking `name` from `dir` fails, if it does.
    pub open spec fn unlink_error(&self, dir: int, name: Seq<u8>, kind: UnlinkKind) -> Option<Errno> {
        if !self.is_directory(dir) {
            Some(Errno::ENOTDIR)
        } else {
            match self.child(dir, name) {
                None => Some(Errno::ENOENT),
                Some(c) => if kind == UnlinkKind::Directory && !self.is_directory(c) {
                    Some(Errno::ENOTDIR)
                } else if kind == UnlinkKind::NonDirectory && self.is_directory(c) {
                    Some(Errno::EISDIR)
                } else if kind == UnlinkKind::Directory && self.has_children(c) {
                    Some(Errno::ENOTEMPTY)
                } else {
                    None
                },
            }
        }
    }

    /// `self` is `old` with entry `c` unlinked.
    pub open spec fn unlinked_from(&self, old: &FileSystem, c: int) -> bool {
        &&& self.spec_kind() == old.spec_kind()
        &&& self.entries() == old.entries().update(c, old.entries()[c].unlinked())
    }

    /// Two linked entries of one name in one directory are the same entry.
    pub proof fn lemma_child_unique(&self, dir: int, name: Seq<u8>, a: int, b: int)
        requires
            self.wf(),
            self.is_child(dir, name, a),
            self.is_child(dir, name, b),
        ensures
            a == b,
    {
        if a != b {
            assert(self.entries()[a].name@ != self.entries()[b].name@);
        }
    }

    /// A filesystem that holds an empty root directory.
    pub fn new(kind: FileSystemKind) -> (r: FileSystem)
        ensures
            r.wf(),
            r.spec_kind() == kind,
            r.entries().len() == 1,
    {
        let root = FsEntry {
            parent: None,
            name: Vec::new(),
            data: NodeData::Plain { mode: FileMode::Directory, dev: 0 },
            linked: true,
        };
        let mut entries = Vec::new();
        entries.push(root);
        FileSystem { kind, entries }
    }

    pub fn kind(&self) -> (r: FileSystemKind)
        ensures
            r == self.spec_kind(),
    {
        self.kind
    }

    /// The index of the root directory.
    pub fn root(&self) -> (r: usize)
        ensures
            r == 0,
    {
        0
    }

    /// The number of entries, unlinked ones included.
    pub fn len(&self) -> (r: usize)
        ensures
            r == self.entries().len(),
    {
        self.entries.len()
    }

    pub fn is_dir(&self, i: usize) -> (r: bool)
        requires
            self.valid(i as int),
        ensures
            r == self.is_directory(i as int),
    {
        match &self.entries[i].data {
            NodeData::Plain { mode, .. } => *mode == FileMode::Directory,
            NodeData::Symlink { .. } => false,
        }
    }

    pub fn is_symlink(&self, i: usize) -> (r: bool)
        requires
            self.valid(i as int),
        ensures
            r == self.is_link(i as int),
    {
        match &self.entries[i].data {
            NodeData::Plain { .. } => false,
            NodeData::Symlink { .. } => true,
        }
    }

    /// The name of entry `i` in its parent.
    pub fn local_name(&self, i: usize) -> (r: &[u8])
        requires
            self.valid(i as int),
        ensures
            r@ == self.entries()[i as int].name@,
    {
        self.entries[i].name.as_slice()
    }

    /// The directory that holds entry `i`.
    pub fn parent(&self, i: usize) -> (r: Option<usize>)
        requires
            self.valid(i as int),
        ensures
            r == self.entries()[i as int].parent,
    {
        self.entries[i].parent
    }

    /// Whether entry `i` can still be found by name.
    pub fn is_linked(&self, i: usize) -> (r: bool)
        requires
            self.valid(i as int),
        ensures
            r == self.entries()[i as int].linked,
    {
        self.entries[i].linked
    }

    /// The path that symlink `i` points to.
    pub fn readlink(&self, i: usize) -> (r: Result<&[u8], Errno>)
        requires
            self.valid(i as int),
        ensures
            self.is_link(i as int) ==> (r matches Ok(t) && t@ == self.entries()[i as int].data->target@),
            !self.is_link(i as int) ==> r == Err::<&[u8], Errno>(Errno::EINVAL),
    {
        match &self.entries[i].data {
            NodeData::Plain { .. } => Err(Errno::EINVAL),
            NodeData::Symlink { target } => Ok(target.as_slice()),
        }
    }

    /// The entry that `name` denotes in directory `dir`.
    pub fn component_lookup(&self, dir: usize, name: &[u8]) -> (r: Result<usize, Errno>)
        requires
            self.wf(),
            self.valid(dir as int),
        ensures
            match r {
                Ok(c) => self.child(dir as int, name@) == Some(c as int),
                Err(e) => e == Errno::ENOENT && self.child(dir as int, name@) is None,
            },
    {
        let mut i: usize = 0;
        while i < self.entries.len()
            invariant
                self.wf(),
                0 <= i <= self.entries().len(),
                forall|k: int| 0 <= k < i ==> !self.is_child(dir as int, name@, k),
            decreases self.entries().len() - i,
        {
            let e = &self.entries[i];
            if e.linked && e.parent == Some(dir) && bytes_equal(e.name.as_slice(), name) {
                assert(self.is_child(dir as int, name@, i as int));
                assert(exists|c: int| self.is_child(dir as int, name@, c));
                proof {
                    let c = choose|c: int| self.is_child(dir as int, name@, c);
                    self.lemma_child_unique(dir as int, name@, c, i as int);
                }
                return Ok(i);
            }
            i = i + 1;
        }
        assert forall|c: int| !self.is_child(dir as int, name@, c) by {
            if self.is_child(dir as int, name@, c) {
                assert(!self.is_child(dir as int, name@, c));
            }
        }
        Err(Errno::ENOENT)
    }

    fn has_linked_children(&self, dir: usize) -> (r: bool)
        ensures
            r == self.has_children(dir as int),
    {
        let mut i: usize = 0;
        while i < self.entries.len()
            invariant
                0 <= i <= self.entries().len(),
                forall|k: int|
                    0 <= k < i ==> !(#[trigger] self.entries()[k].linked && self.entries()[k].parent
                        == Some(dir)),
            decreases self.entries().len() - i,
        {
            if self.entries[i].linked && self.entries[i].parent == Some(dir) {
                return true;
            }
            i = i + 1;
        }
        false
    }

    /// Appends `data` as a linked entry `name` of directory `dir`.
    fn create_entry(&mut self, dir: usize, name: &[u8], data: NodeData) -> (r: Result<
        usize,
        Errno,
    >)
        requires
            old(self).wf(),
            old(self).valid(dir as int),
        ensures
            final(self).wf(),
            match old(self).create_error(dir as int, name@) {
                Some(e) => r == Err::<usize, Errno>(e) && *final(self) == *old(self),
                None => (r matches Ok(i) && i == old(self).entries().len())
                    && final(self).appended(old(self), dir as int, name@)
                    && final(self).entries().last().data == data,
            },
    {
        if reserved_name(name) {
            return Err(Errno::EEXIST);
        }
        if !self.is_dir(dir) {
            return Err(Errno::ENOTDIR);
        }
        if !self.entries[dir].linked {
            return Err(Errno::ENOENT);
        }
        if contains_separator(name) {
            return Err(Errno::EINVAL);
        }
        match self.component_lookup(dir, name) {
            Ok(_) => {
                return Err(Errno::EEXIST);
            },
            Err(_) => {},
        }
        let ghost before = *self;
        let index = self.entries.len();
        let entry = FsEntry { parent: Some(dir), name: slice_to_vec(name), data, linked: true };
        self.entries.push(entry);
        // The length is a `usize` value, which bounds it.
        let _ = self.entries.len();
        assert(self.entries().drop_last() =~= before.entries());
        assert forall|i: int, j: int|
            self.valid(i) && self.valid(j) && i != j && self.entries()[i].linked
                && self.entries()[j].linked && self.entries()[i].parent is Some
                && self.entries()[i].parent == self.entries()[j].parent implies
                self.entries()[i].name@ != self.entries()[j].name@ by {
            if i == index as int {
                assert(!before.is_child(dir as int, name@, j));
            } else if j == index as int {
                assert(!before.is_child(dir as int, name@, i));
            } else {
                assert(before.entries()[i] == self.entries()[i]);
                assert(before.entries()[j] == self.entries()[j]);
            }
        }
        Ok(index)
    }

    /// Creates a directory `name` in `dir`.
    pub fn create_dir(&mut self, dir: usize, name: &[u8]) -> (r: Result<usize, Errno>)
        requires
            old(self).wf(),
            old(self).valid(dir as int),
        ensures
            final(self).wf(),
            match old(self).create_error(dir as int, name@) {
                Some(e) => r == Err::<usize, Errno>(e) && *final(self) == *old(self),
                None => (r matches Ok(i) && i == old(self).entries().len())
                    && final(self).appended(old(self), dir as int, name@)
                    && final(self).is_directory(old(self).entries().len() as int),
            },
    {
        self.create_entry(dir, name, NodeData::Plain { mode: FileMode::Directory, dev: 0 })
    }

    /// Creates a node of type `mode` named `name` in `dir`.
    pub fn create_node(&mut self, dir: usize, name: &[u8], mode: FileMode, dev: DeviceType) -> (r:
        Result<usize, Errno>)
        requires
            old(self).wf(),
            old(self).valid(dir as int),
        ensures
            final(self).wf(),
            match old(self).create_error(dir as int, name@) {
                Some(e) => r == Err::<usize, Errno>(e) && *final(self) == *old(self),
                None => (r matches Ok(i) && i == old(self).entries().len())
                    && final(self).appended(old(self), dir as int, name@)
                    && final(self).entries().last().data == (NodeData::Plain { mode, dev }),
            },
    {
        self.create_entry(dir, name, NodeData::Plain { mode, dev })
    }

    /// Creates a symbolic link `name` in `dir` that points to `target`.
    pub fn create_symlink(&mut self, dir: usize, name: &[u8], target: &[u8]) -> (r: Result<
        usize,
        Errno,
    >)
        requires
            old(self).wf(),
            old(self).valid(dir as int),
        ensures
            final(self).wf(),
            match old(self).create_error(dir as int, name@) {
                Some(e) => r == Err::<usize, Errno>(e) && *final(self) == *old(self),
                None => (r matches Ok(i) && i == old(self).entries().len())
                    && final(self).appended(old(self), dir as int, name@)
                    && final(self).entries().last().is_link()
                    && final(self).entries().last().data->target@ == target@,
            },
    {
        self.create_entry(dir, name, NodeData::Symlink { target: slice_to_vec(target) })
    }

    /// Appends a node that belongs to no directory and has no name.
    pub fn create_anonymous(&mut self, mode: FileMode) -> (r: usize)
        requires
            old(self).wf(),
        ensures
            final(self).wf(),
            r == old(self).entries().len(),
            final(self).spec_kind() == old(self).spec_kind(),
            final(self).entries().drop_last() == old(self).entries(),
            final(self).entries().len() == old(self).entries().len() + 1,
            final(self).entries().last().parent is None,
            final(self).entries().last().name@.len() == 0,
            !final(self).entries().last().linked,
            final(self).entries().last().data == (NodeData::Plain { mode, dev: 0 }),
    {
        let ghost before = *self;
        let index = self.entries.len();
        self.entries.push(
            FsEntry {
                parent: None,
                name: Vec::new(),
                data: NodeData::Plain { mode, dev: 0 },
                linked: false,
            },
        );
        let _ = self.entries.len();
        assert(self.entries().drop_last() =~= before.entries());
        assert forall|i: int, j: int|
            self.valid(i) && self.valid(j) && i != j && self.entries()[i].linked
                && self.entries()[j].linked && self.entries()[i].parent is Some
                && self.entries()[i].parent == self.entries()[j].parent implies
                self.entries()[i].name@ != self.entries()[j].name@ by {
            assert(before.entries()[i] == self.entries()[i]);
            assert(before.entries()[j] == self.entries()[j]);
        }
        index
    }

    /// Removes `name` from directory `dir`.
    pub fn unlink(&mut self, dir: usize, name: &[u8], kind: UnlinkKind) -> (r: Result<(), Errno>)
        requires
            old(self).wf(),
            old(self).valid(dir as int),
        ensures
            final(self).wf(),
            match old(self).unlink_error(dir as int, name@, kind) {
                Some(e) => r == Err::<(), Errno>(e) && *final(self) == *old(self),
                None => r is Ok && final(self).unlinked_from(
                    old(self),
                    old(self).child(dir as int, name@)->Some_0,
                ),
            },
    {
        if !self.is_dir(dir) {
            return Err(Errno::ENOTDIR);
        }
        let c = match self.component_lookup(dir, name) {
            Ok(c) => c,
            Err(e) => {
                return Err(e);
            },
        };
        assert(self.child(dir as int, name@) == Some(c as int));
        let is_dir = self.is_dir(c);
        match kind {
            UnlinkKind::Directory => {
                if !is_dir {
                    return Err(Errno::ENOTDIR);
                }
                if self.has_linked_children(c) {
                    return Err(Errno::ENOTEMPTY);
                }
            },
            UnlinkKind::NonDirectory => {
                if is_dir {
                    return Err(Errno::EISDIR);
                }
            },
        }
        let ghost before = *self;
        self.entries[c].linked = false;
        assert(self.entries() =~= before.entries().update(c as int, before.entries()[c as int].unlinked()));
        assert forall|i: int, j: int|
            self.valid(i) && self.valid(j) && i != j && self.entries()[i].linked
                && self.entries()[j].linked && self.entries()[i].parent is Some
                && self.entries()[i].parent == self.entries()[j].parent implies
                self.entries()[i].name@ != self.entries()[j].name@ by {
            assert(before.entries()[i].name == self.entries()[i].name);
            assert(before.entries()[j].name == self.entries()[j].name);
        }
        Ok(())
    }
}

} // verus!
