//! The filesystem engine: an inode table, a block store and a journal, with one
//! identifier counter that numbers both inodes and blocks.
use std::collections::HashMap;
use vstd::prelude::*;

use crate::inode::{
    new_inode, pointers_contiguous, FileType, Inode, InodeView, BLOCK_SIZE, NUM_DIRECT_POINTERS,
};
use crate::journal::Journal;
use crate::text::{
    add_file_description, add_file_text, create_directory_description, create_directory_text,
    create_file_description, create_file_text,
};

verus! {

broadcast use vstd::std_specs::hash::group_hash_axioms;

/// The mathematical state of a [`FileSystem`].
pub struct FsView {
    pub inodes: Map<u64, InodeView>,
    pub blocks: Map<u64, Seq<u8>>,
    pub journal: Seq<(Seq<char>, bool)>,
    pub next_id: u64,
}

/// What every reachable state satisfies: identifiers handed out so far lie below the
/// counter, each inode is stored under its own id, has the full set of pointer slots
/// filled front to back, and has a child list exactly when it is a directory.
pub open spec fn fs_wf(fs: FsView) -> bool {
    &&& 1 <= fs.next_id
    &&& forall|k: u64| #[trigger]
        fs.inodes.contains_key(k) ==> {
            let n = fs.inodes[k];
            &&& 1 <= k < fs.next_id
            &&& n.id == k
            &&& n.direct_pointers.len() == NUM_DIRECT_POINTERS
            &&& pointers_contiguous(n.direct_pointers)
            &&& (n.file_type == FileType::Directory <==> n.entries is Some)
        }
    &&& forall|b: u64| #[trigger] fs.blocks.contains_key(b) ==> 1 <= b < fs.next_id
}

/// Journal wording for the creation of an inode of `kind`.
pub open spec fn create_text(name: Seq<char>, kind: FileType) -> Seq<char> {
    if kind == FileType::Directory {
        create_directory_text(name)
    } else {
        create_file_text(name)
    }
}

/// The state after creating an inode of `kind` named `name`.
pub open spec fn create_spec(fs: FsView, name: Seq<char>, kind: FileType) -> FsView {
    FsView {
        inodes: fs.inodes.insert(fs.next_id, new_inode(fs.next_id, name, kind)),
        blocks: fs.blocks,
        journal: fs.journal.push((create_text(name, kind), true)),
        next_id: (fs.next_id + 1) as u64,
    }
}

/// Whether `id` names a directory.
pub open spec fn is_directory(fs: FsView, id: u64) -> bool {
    fs.inodes.contains_key(id) && fs.inodes[id].file_type == FileType::Directory
}

/// The state after linking `file_id` into `dir_id`; unchanged when `dir_id` is no directory.
pub open spec fn add_spec(fs: FsView, file_id: u64, dir_id: u64) -> FsView {
    if is_directory(fs, dir_id) {
        let d = fs.inodes[dir_id];
        FsView {
            inodes: fs.inodes.insert(
                dir_id,
                InodeView {
                    id: d.id,
                    name: d.name,
                    size: d.size,
                    file_type: d.file_type,
                    direct_pointers: d.direct_pointers,
                    entries: Some(d.entries->0.push(file_id)),
                },
            ),
            blocks: fs.blocks,
            journal: fs.journal.push((add_file_text(file_id, dir_id), true)),
            next_id: fs.next_id,
        }
    } else {
        fs
    }
}

/// Number of blocks that `len` bytes fill, before the cap on pointer slots.
pub open spec fn blocks_needed(len: nat) -> nat {
    if len % (BLOCK_SIZE as nat) == 0 {
        len / (BLOCK_SIZE as nat)
    } else {
        len / (BLOCK_SIZE as nat) + 1
    }
}

/// Number of blocks a write of `len` bytes stores: the rest is dropped.
pub open spec fn blocks_written(len: nat) -> nat {
    if blocks_needed(len) > NUM_DIRECT_POINTERS {
        NUM_DIRECT_POINTERS as nat
    } else {
        blocks_needed(len)
    }
}

/// The bytes of `data` that go into its `i`-th block.
pub open spec fn chunk(data: Seq<u8>, i: int) -> Seq<u8> {
    let start = i * BLOCK_SIZE;
    let end = if start + BLOCK_SIZE < data.len() {
        start + BLOCK_SIZE
    } else {
        data.len() as int
    };
    data.subrange(start, end)
}

/// Pointer slots after the first `k` were pointed at blocks `base`, `base + 1`, ...
pub open spec fn written_pointers(p: Seq<Option<u64>>, base: u64, k: nat) -> Seq<Option<u64>> {
    Seq::new(
        p.len(),
        |i: int|
            if i < k {
                Some((base + i) as u64)
            } else {
                p[i]
            },
    )
}

/// The block store after the first `k` chunks of `data` were stored under `base`, `base + 1`, ...
pub open spec fn written_blocks(blocks: Map<u64, Seq<u8>>, base: u64, data: Seq<u8>, k: nat) -> Map<
    u64,
    Seq<u8>,
> {
    Map::new(
        |b: u64| blocks.contains_key(b) || (base <= b < base + k),
        |b: u64|
            if base <= b < base + k {
                chunk(data, b - base)
            } else {
                blocks[b]
            },
    )
}

/// The state after writing `data` to inode `id`; unchanged when there is no such inode.
/// The recorded size is the full length, even where only the first blocks were stored.
pub open spec fn write_spec(fs: FsView, id: u64, data: Seq<u8>) -> FsView {
    if fs.inodes.contains_key(id) {
        let k = blocks_written(data.len());
        let n = fs.inodes[id];
        FsView {
            inodes: fs.inodes.insert(
                id,
                InodeView {
                    id: n.id,
                    name: n.name,
                    size: data.len() as u64,
                    file_type: n.file_type,
                    direct_pointers: written_pointers(n.direct_pointers, fs.next_id, k),
                    entries: n.entries,
                },
            ),
            blocks: written_blocks(fs.blocks, fs.next_id, data, k),
            journal: fs.journal,
            next_id: (fs.next_id + k) as u64,
        }
    } else {
        fs
    }
}

/// The bytes a pointer slot contributes to a read: nothing for an empty slot or a missing block.
pub open spec fn slot_bytes(p: Option<u64>, blocks: Map<u64, Seq<u8>>) -> Seq<u8> {
    match p {
        Some(b) => if blocks.contains_key(b) {
            blocks[b]
        } else {
            Seq::empty()
        },
        None => Seq::empty(),
    }
}

/// The concatenation of the blocks the slots point at, in slot order.
pub open spec fn gather(p: Seq<Option<u64>>, blocks: Map<u64, Seq<u8>>) -> Seq<u8>
    decreases p.len(),
{
    if p.len() == 0 {
        Seq::empty()
    } else {
        gather(p.drop_last(), blocks) + slot_bytes(p.last(), blocks)
    }
}

/// What reading inode `id` yields: empty when there is no such inode.
pub open spec fn read_spec(fs: FsView, id: u64) -> Seq<u8> {
    if fs.inodes.contains_key(id) {
        gather(fs.inodes[id].direct_pointers, fs.blocks)
    } else {
        Seq::empty()
    }
}

/// Identifiers of pointer slots whose block is absent from the store, in slot order.
pub open spec fn missing(p: Seq<Option<u64>>, blocks: Map<u64, Seq<u8>>) -> Seq<u64>
    decreases p.len(),
{
    if p.len() == 0 {
        Seq::empty()
    } else {
        let rest = missing(p.drop_last(), blocks);
        match p.last() {
            Some(b) => if blocks.contains_key(b) {
                rest
            } else {
                rest.push(b)
            },
            None => rest,
        }
    }
}

/// Name, identifier and size of each child that resolves, in child order; dangling
/// identifiers are skipped.
pub open spec fn child_rows(fs: FsView, entries: Seq<u64>) -> Seq<(Seq<char>, u64, u64)>
    decreases entries.len(),
{
    if entries.len() == 0 {
        Seq::empty()
    } else {
        let rest = child_rows(fs, entries.drop_last());
        let e = entries.last();
        if fs.inodes.contains_key(e) {
            rest.push((fs.inodes[e].name, fs.inodes[e].id, fs.inodes[e].size))
        } else {
            rest
        }
    }
}

/// The directories among identifiers below `n`, in increasing order.
pub open spec fn directory_ids(fs: FsView, n: nat) -> Seq<u64>
    decreases n,
{
    if n == 0 {
        Seq::empty()
    } else {
        let rest = directory_ids(fs, (n - 1) as nat);
        if is_directory(fs, (n - 1) as u64) {
            rest.push((n - 1) as u64)
        } else {
            rest
        }
    }
}

/// The listing row of directory `id`: its name, its identifier and its children.
pub open spec fn directory_row(fs: FsView, id: u64) -> (Seq<char>, u64, Seq<(Seq<char>, u64, u64)>) {
    (fs.inodes[id].name, id, child_rows(fs, fs.inodes[id].entries->0))
}

/// Every directory with its resolvable children, directories in increasing identifier order.
pub open spec fn listing(fs: FsView) -> Seq<(Seq<char>, u64, Seq<(Seq<char>, u64, u64)>)> {
    directory_ids(fs, fs.next_id as nat).map_values(|id: u64| directory_row(fs, id))
}

/// One child line of a directory listing.
pub struct FileListing {
    pub name: String,
    pub id: u64,
    pub size: u64,
}

impl View for FileListing {
    type V = (Seq<char>, u64, u64);

    open spec fn view(&self) -> (Seq<char>, u64, u64) {
        (self.name@, self.id, self.size)
    }
}

/// One directory of a listing with its resolvable children.
pub struct DirectoryListing {
    pub name: String,
    pub id: u64,
    pub files: Vec<FileListing>,
}

impl View for DirectoryListing {
    type V = (Seq<char>, u64, Seq<(Seq<char>, u64, u64)>);

    open spec fn view(&self) -> (Seq<char>, u64, Seq<(Seq<char>, u64, u64)>) {
        (self.name@, self.id, self.files@.map_values(|f: FileListing| f@))
    }
}

fn append_bytes(out: &mut Vec<u8>, src: &[u8])
    ensures
        final(out)@ == old(out)@ + src@,
{
    let mut i: usize = 0;
    while i < src.len()
        invariant
            i <= src@.len(),
            out@ == old(out)@ + src@.subrange(0, i as int),
        decreases src@.len() - i,
    {
        out.push(src[i]);
        proof {
            assert(out@ =~= old(out)@ + src@.subrange(0, i + 1));
        }
        i = i + 1;
    }
    proof {
        assert(src@.subrange(0, i as int) =~= src@);
    }
}

/// The engine. It owns the inode table, the block store and the journal; one counter,
/// starting at 1, numbers inodes and blocks alike.
pub struct FileSystem {
    inodes: HashMap<u64, Inode>,
    blocks: HashMap<u64, Vec<u8>>,
    pub journal: Journal,
    next_inode_id: u64,
}

impl View for FileSystem {
    type V = FsView;

    closed spec fn view(&self) -> FsView {
        FsView {
            inodes: self.inodes@.map_values(|n: Inode| n@),
            blocks: self.blocks@.map_values(|b: Vec<u8>| b@),
            journal: self.journal@,
            next_id: self.next_inode_id,
        }
    }
}

impl FileSystem {
    /// The engine's invariant, established by `new` and kept by every operation.
    pub open spec fn wf(&self) -> bool {
        fs_wf(self@)
    }

    pub fn new() -> (r: Self)
        ensures
            r.wf(),
            r@.inodes == Map::<u64, InodeView>::empty(),
            r@.blocks == Map::<u64, Seq<u8>>::empty(),
            r@.journal == Seq::<(Seq<char>, bool)>::empty(),
            r@.next_id == 1,
    {
        let r = FileSystem {
            inodes: HashMap::new(),
            blocks: HashMap::new(),
            journal: Journal::new(),
            next_inode_id: 1,
        };
        proof {
            assert(r@.inodes =~= Map::<u64, InodeView>::empty());
            assert(r@.blocks =~= Map::<u64, Seq<u8>>::empty());
        }
        r
    }

    fn create_inode(&mut self, name: &str, kind: FileType) -> (r: u64)
        requires
            old(self).wf(),
            old(self)@.next_id < u64::MAX,
        ensures
            final(self).wf(),
            r == old(self)@.next_id,
            final(self)@.inodes == create_spec(old(self)@, name@, kind).inodes,
            final(self)@.blocks == old(self)@.blocks,
            final(self)@.journal == old(self)@.journal,
            final(self)@.next_id == old(self)@.next_id + 1,
    {
        let id = self.next_inode_id;
        self.next_inode_id = self.next_inode_id + 1;
        let inode = Inode::new(id, name, kind);
        self.inodes.insert(id, inode);
        proof {
            assert(self@.inodes =~= old(self)@.inodes.insert(id, new_inode(id, name@, kind)));
            assert(self@.blocks =~= old(self)@.blocks);
        }
        id
    }

    /// Creates an empty directory and returns its identifier.
    pub fn create_directory(&mut self, name: &str) -> (r: u64)
        requires
            old(self).wf(),
            old(self)@.next_id < u64::MAX,
        ensures
            final(self).wf(),
            r == old(self)@.next_id,
            final(self)@ == create_spec(old(self)@, name@, FileType::Directory),
    {
        let id = self.create_inode(name, FileType::Directory);
        self.journal.add_entry(create_directory_description(name));
        proof {
            assert(self@ =~= create_spec(old(self)@, name@, FileType::Directory));
        }
        id
    }

    /// Creates an empty regular file and returns its identifier.
    pub fn create_file(&mut self, name: &str) -> (r: u64)
        requires
            old(self).wf(),
            old(self)@.next_id < u64::MAX,
        ensures
            final(self).wf(),
            r == old(self)@.next_id,
            final(self)@ == create_spec(old(self)@, name@, FileType::RegularFile),
    {
        let id = self.create_inode(name, FileType::RegularFile);
        self.journal.add_entry(create_file_description(name));
        proof {
            assert(self@ =~= create_spec(old(self)@, name@, FileType::RegularFile));
        }
        id
    }
    /// Appends `file_id` to the children of directory `dir_id` and records it in the
    /// journal. Does nothing when `dir_id` names no directory; `file_id` is not checked.
    pub fn add_file_to_directory(&mut self, file_id: u64, dir_id: u64)
        requires
            old(self).wf(),
        ensures
            final(self).wf(),
            final(self)@ == add_spec(old(self)@, file_id, dir_id),
            !is_directory(old(self)@, dir_id) ==> final(self)@ == old(self)@,
    {
        let removed = self.inodes.remove(&dir_id);
        match removed {
            Some(mut dir) => {
                match dir.entries {
                    Some(mut list) => {
                        list.push(file_id);
                        dir.entries = Some(list);
                        self.inodes.insert(dir_id, dir);
                        self.journal.add_entry(add_file_description(file_id, dir_id));
                        proof {
                            assert(self@.inodes =~= add_spec(old(self)@, file_id, dir_id).inodes);
                            assert(self@ =~= add_spec(old(self)@, file_id, dir_id));
                        }
                    },
                    None => {
                        self.inodes.insert(dir_id, dir);
                        proof {
                            assert(self@.inodes =~= old(self)@.inodes);
                            assert(self@ =~= old(self)@);
                        }
                    },
                }
            },
            None => {
                proof {
                    assert(self@.inodes =~= old(self)@.inodes);
                    assert(self@ =~= old(self)@);
                }
            },
        }
    }
    /// Splits `data` into blocks, stores up to the pointer capacity of them under fresh
    /// identifiers, points the inode's first slots at them and records the full length as
    /// the size. Bytes beyond the capacity are dropped. Does nothing when there is no
    /// inode `file_id`. Not journaled.
    pub fn write_to_file(&mut self, file_id: u64, data: &[u8])
        requires
            old(self).wf(),
            old(self)@.next_id + blocks_written(data@.len()) <= u64::MAX,
        ensures
            final(self).wf(),
            final(self)@ == write_spec(old(self)@, file_id, data@),
    {
        let removed = self.inodes.remove(&file_id);
        match removed {
            None => {
                proof {
                    assert(self@.inodes =~= old(self)@.inodes);
                    assert(self@ =~= old(self)@);
                }
            },
            Some(mut inode) => {
                let ghost base = old(self)@.next_id;
                let ghost old_blocks = old(self)@.blocks;
                let ghost old_inode = inode@;
                let ghost total = blocks_needed(data@.len());
                let len = data.len();
                let mut blocks_left: usize = if len % BLOCK_SIZE == 0 {
                    len / BLOCK_SIZE
                } else {
                    len / BLOCK_SIZE + 1
                };
                let mut offset: usize = 0;
                let mut i: usize = 0;
                while i < NUM_DIRECT_POINTERS
                    invariant
                        i <= NUM_DIRECT_POINTERS,
                        i <= total,
                        blocks_left == total - i,
                        offset == i * BLOCK_SIZE,
                        len == data@.len(),
                        total == blocks_needed(len as nat),
                        base == old(self)@.next_id,
                        old_blocks == old(self)@.blocks,
                        old(self)@.inodes.contains_key(file_id),
                        old_inode == old(self)@.inodes[file_id],
                        base + blocks_written(len as nat) <= u64::MAX,
                        self.next_inode_id == base + i,
                        old_inode.direct_pointers.len() == NUM_DIRECT_POINTERS,
                        inode@.direct_pointers == written_pointers(
                            old_inode.direct_pointers,
                            base,
                            i as nat,
                        ),
                        inode@.id == old_inode.id,
                        inode@.name == old_inode.name,
                        inode@.size == old_inode.size,
                        inode@.file_type == old_inode.file_type,
                        inode@.entries == old_inode.entries,
                        self@.blocks == written_blocks(old_blocks, base, data@, i as nat),
                        self@.inodes == old(self)@.inodes.remove(file_id),
                        self@.journal == old(self)@.journal,
                    ensures
                        i == blocks_written(len as nat),
                        self.next_inode_id == base + i,
                        inode@.direct_pointers == written_pointers(
                            old_inode.direct_pointers,
                            base,
                            i as nat,
                        ),
                        inode@.id == old_inode.id,
                        inode@.name == old_inode.name,
                        inode@.file_type == old_inode.file_type,
                        inode@.entries == old_inode.entries,
                        self@.blocks == written_blocks(old_blocks, base, data@, i as nat),
                        self@.inodes == old(self)@.inodes.remove(file_id),
                        self@.journal == old(self)@.journal,
                    decreases NUM_DIRECT_POINTERS - i,
                {
                    if blocks_left == 0 {
                        break;
                    }
                    proof {
                        assert(i * BLOCK_SIZE < len) by (nonlinear_arith)
                            requires
                                i < total,
                                total == blocks_needed(len as nat),
                        ;
                    }
                    let block_id = self.next_inode_id;
                    self.next_inode_id = self.next_inode_id + 1;
                    let end: usize = if len - offset > BLOCK_SIZE {
                        offset + BLOCK_SIZE
                    } else {
                        len
                    };
                    let block_data = vstd::slice::slice_to_vec(
                        vstd::slice::slice_subrange(data, offset, end),
                    );
                    assert(block_data@ == chunk(data@, i as int));
                    let ghost prev = self@.blocks;
                    self.blocks.insert(block_id, block_data);
                    proof {
                        assert(self@.blocks =~= prev.insert(block_id, chunk(data@, i as int)));
                    }
                    inode.direct_pointers[i] = Some(block_id);
                    proof {
                        assert(inode@.direct_pointers =~= written_pointers(
                            old_inode.direct_pointers,
                            base,
                            (i + 1) as nat,
                        ));
                        assert(self@.blocks =~= written_blocks(
                            old_blocks,
                            base,
                            data@,
                            (i + 1) as nat,
                        ));
                    }
                    blocks_left = blocks_left - 1;
                    offset = offset + BLOCK_SIZE;
                    i = i + 1;
                }
                inode.size = len as u64;
                let ghost new_view = write_spec(old(self)@, file_id, data@).inodes[file_id];
                assert(inode@ == new_view);
                let ghost prev = self@.inodes;
                self.inodes.insert(file_id, inode);
                proof {
                    assert(self@.inodes =~= prev.insert(file_id, new_view));
                    assert(self@.inodes =~= write_spec(old(self)@, file_id, data@).inodes);
                    assert(self@ =~= write_spec(old(self)@, file_id, data@));
                }
            },
        }
    }
    /// The identifier the next inode or block will get.
    pub fn next_id(&self) -> (r: u64)
        ensures
            r == self@.next_id,
    {
        self.next_inode_id
    }

    /// The inode stored under `id`, if any.
    pub fn inode(&self, id: u64) -> (r: Option<&Inode>)
        ensures
            match r {
                Some(n) => self@.inodes.contains_key(id) && n@ == self@.inodes[id],
                None => !self@.inodes.contains_key(id),
            },
    {
        self.inodes.get(&id)
    }

    /// The bytes of the blocks that inode `file_id` points at, in slot order; missing
    /// blocks are skipped. Empty when there is no such inode.
    pub fn read_file(&self, file_id: u64) -> (r: Vec<u8>)
        ensures
            r@ == read_spec(self@, file_id),
    {
        match self.inodes.get(&file_id) {
            None => Vec::new(),
            Some(inode) => {
                let ghost p = inode@.direct_pointers;
                let mut data: Vec<u8> = Vec::new();
                let mut i: usize = 0;
                while i < NUM_DIRECT_POINTERS
                    invariant
                        i <= NUM_DIRECT_POINTERS,
                        p == inode@.direct_pointers,
                        p.len() == NUM_DIRECT_POINTERS,
                        self@.inodes.contains_key(file_id),
                        p == self@.inodes[file_id].direct_pointers,
                        data@ == gather(p.subrange(0, i as int), self@.blocks),
                    decreases NUM_DIRECT_POINTERS - i,
                {
                    match inode.direct_pointers[i] {
                        Some(block_id) => match self.blocks.get(&block_id) {
                            Some(block) => append_bytes(&mut data, block.as_slice()),
                            None => {},
                        },
                        None => {},
                    }
                    proof {
                        assert(p.subrange(0, i + 1).drop_last() =~= p.subrange(0, i as int));
                    }
                    i = i + 1;
                }
                proof {
                    assert(p.subrange(0, i as int) =~= p);
                }
                data
            },
        }
    }

    /// Identifiers of blocks that inode `file_id` points at but the store lacks.
    pub fn missing_blocks(&self, file_id: u64) -> (r: Vec<u64>)
        ensures
            self@.inodes.contains_key(file_id) ==> r@ == missing(
                self@.inodes[file_id].direct_pointers,
                self@.blocks,
            ),
            !self@.inodes.contains_key(file_id) ==> r@.len() == 0,
    {
        let mut out: Vec<u64> = Vec::new();
        match self.inodes.get(&file_id) {
            None => {},
            Some(inode) => {
                let ghost p = inode@.direct_pointers;
                let mut i: usize = 0;
                while i < NUM_DIRECT_POINTERS
                    invariant
                        i <= NUM_DIRECT_POINTERS,
                        p == inode@.direct_pointers,
                        p.len() == NUM_DIRECT_POINTERS,
                        out@ == missing(p.subrange(0, i as int), self@.blocks),
                    decreases NUM_DIRECT_POINTERS - i,
                {
                    match inode.direct_pointers[i] {
                        Some(block_id) => {
                            if !self.blocks.contains_key(&block_id) {
                                out.push(block_id);
                            }
                        },
                        None => {},
                    }
                    proof {
                        assert(p.subrange(0, i + 1).drop_last() =~= p.subrange(0, i as int));
                    }
                    i = i + 1;
                }
                proof {
                    assert(p.subrange(0, i as int) =~= p);
                }
            },
        }
        out
    }
    fn child_listing(&self, entries: &Vec<u64>) -> (r: Vec<FileListing>)
        ensures
            r@.map_values(|f: FileListing| f@) == child_rows(self@, entries@),
    {
        let mut out: Vec<FileListing> = Vec::new();
        let mut j: usize = 0;
        while j < entries.len()
            invariant
                j <= entries@.len(),
                out@.map_values(|f: FileListing| f@) == child_rows(
                    self@,
                    entries@.subrange(0, j as int),
                ),
            decreases entries@.len() - j,
        {
            let child_id = entries[j];
            let ghost before = out@;
            match self.inodes.get(&child_id) {
                Some(child) => {
                    out.push(FileListing { name: child.name.clone(), id: child.id, size: child.size });
                    proof {
                        assert(out@ == before.push(out@.last()));
                    }
                },
                None => {},
            }
            proof {
                assert(entries@.subrange(0, j + 1).drop_last() =~= entries@.subrange(0, j as int));
                assert(out@.map_values(|f: FileListing| f@) =~= child_rows(
                    self@,
                    entries@.subrange(0, j + 1),
                ));
            }
            j = j + 1;
        }
        proof {
            assert(entries@.subrange(0, j as int) =~= entries@);
        }
        out
    }

    /// Every directory with the name, identifier and size of each child that resolves.
    /// Directories come in increasing identifier order; dangling children are skipped.
    pub fn list_directories_and_files(&self) -> (r: Vec<DirectoryListing>)
        requires
            self.wf(),
        ensures
            r@.map_values(|d: DirectoryListing| d@) == listing(self@),
    {
        let mut out: Vec<DirectoryListing> = Vec::new();
        let mut id: u64 = 0;
        while id < self.next_inode_id
            invariant
                id <= self@.next_id,
                self.wf(),
                out@.map_values(|d: DirectoryListing| d@) == directory_ids(
                    self@,
                    id as nat,
                ).map_values(|k: u64| directory_row(self@, k)),
            decreases self@.next_id - id,
        {
            let ghost before = out@;
            match self.inodes.get(&id) {
                Some(inode) => {
                    proof {
                        assert(self@.inodes.contains_key(id));
                        assert(self@.inodes[id] == inode@);
                    }
                    match &inode.entries {
                        Some(entries) => {
                            if inode.file_type == FileType::Directory {
                                let files = self.child_listing(entries);
                                let name = inode.name.clone();
                                let ghost row = (name@, inode.id, files@.map_values(|f: FileListing| f@));
                                assert(row == directory_row(self@, id));
                                out.push(
                                    DirectoryListing { name, id: inode.id, files },
                                );
                                proof {
                                    assert(out@ == before.push(out@.last()));
                                    assert(entries@ == self@.inodes[id].entries->0);
                                    assert(out@.last()@ == directory_row(self@, id));
                                }
                            }
                        },
                        None => {},
                    }
                },
                None => {},
            }
            proof {
                let ghost ids = directory_ids(self@, id as nat);
                let ghost rows = ids.map_values(|k: u64| directory_row(self@, k));
                assert(before.map_values(|d: DirectoryListing| d@) == rows);
                if is_directory(self@, id) {
                    assert(out@.len() == before.len() + 1);
                    assert(out@.map_values(|d: DirectoryListing| d@) =~= rows.push(
                        directory_row(self@, id),
                    ));
                    assert(ids.push(id).map_values(|k: u64| directory_row(self@, k)) =~= rows.push(
                        directory_row(self@, id),
                    ));
                } else {
                    assert(out@ == before);
                }
                assert(directory_ids(self@, (id + 1) as nat) == if is_directory(self@, id) {
                    ids.push(id)
                } else {
                    ids
                });
                assert(out@.map_values(|d: DirectoryListing| d@) =~= directory_ids(
                    self@,
                    (id + 1) as nat,
                ).map_values(|k: u64| directory_row(self@, k)));
            }
            id = id + 1;
        }
        out
    }
}

} // verus!
