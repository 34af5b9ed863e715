//! Inode records: files and directories with their direct block pointers.
use vstd::prelude::*;

verus! {

/// Largest number of bytes one block holds.
pub const BLOCK_SIZE: usize = 4096;

/// Number of direct block pointers of an inode.
pub const NUM_DIRECT_POINTERS: usize = 10;

#[derive(Clone, Copy, Debug, PartialEq, Eq, Structural)]
pub enum FileType {
    RegularFile,
    Directory,
}

/// Metadata of a file or a directory.
pub struct Inode {
    pub id: u64,
    pub name: String,
    pub size: u64,
    pub file_type: FileType,
    pub direct_pointers: [Option<u64>; NUM_DIRECT_POINTERS],
    /// Child identifiers, present for directories only.
    pub entries: Option<Vec<u64>>,
}

/// The mathematical content of an [`Inode`].
pub struct InodeView {
    pub id: u64,
    pub name: Seq<char>,
    pub size: u64,
    pub file_type: FileType,
    pub direct_pointers: Seq<Option<u64>>,
    pub entries: Option<Seq<u64>>,
}

impl View for Inode {
    type V = InodeView;

    open spec fn view(&self) -> InodeView {
        InodeView {
            id: self.id,
            name: self.name@,
            size: self.size,
            file_type: self.file_type,
            direct_pointers: self.direct_pointers@,
            entries: match self.entries {
                Some(v) => Some(v@),
                None => None,
            },
        }
    }
}

/// All pointer slots empty.
pub open spec fn no_pointers() -> Seq<Option<u64>> {
    Seq::new(NUM_DIRECT_POINTERS as nat, |i: int| None::<u64>)
}

/// A freshly created inode: size zero, no blocks, and an empty child list for a directory.
pub open spec fn new_inode(id: u64, name: Seq<char>, kind: FileType) -> InodeView {
    InodeView {
        id,
        name,
        size: 0,
        file_type: kind,
        direct_pointers: no_pointers(),
        entries: if kind == FileType::Directory {
            Some(Seq::empty())
        } else {
            None
        },
    }
}

/// Slots in use form a prefix: no slot is filled after an empty one.
pub open spec fn pointers_contiguous(p: Seq<Option<u64>>) -> bool {
    forall|i: int, j: int| 0 <= i < j < p.len() && #[trigger] p[j] is Some ==> #[trigger] p[i] is Some
}

impl Inode {
    pub fn new(id: u64, name: &str, kind: FileType) -> (r: Inode)
        ensures
            r@ == new_inode(id, name@, kind),
    {
        let entries = match kind {
            FileType::Directory => Some(Vec::new()),
            FileType::RegularFile => None,
        };
        let r = Inode {
            id,
            name: name.to_owned(),
            size: 0,
            file_type: kind,
            direct_pointers: [None;NUM_DIRECT_POINTERS],
            entries,
        };
        proof {
            assert(r.direct_pointers@ =~= no_pointers());
            match kind {
                FileType::Directory => {
                    assert(r.entries->0@ =~= Seq::<u64>::empty());
                },
                FileType::RegularFile => {},
            }
        }
        r
    }
}

} // verus!
