//! Properties that relate several operations of the engine.
use vstd::prelude::*;

use crate::fs::{
    blocks_needed, blocks_written, chunk, create_spec, create_text, fs_wf, gather, read_spec,
    write_spec, written_blocks, written_pointers, FsView,
};
use crate::inode::{new_inode, FileType, BLOCK_SIZE, NUM_DIRECT_POINTERS};

verus! {

/// Every slot from index `k` on is empty.
pub open spec fn slots_free_from(p: Seq<Option<u64>>, k: nat) -> bool {
    forall|i: int| k <= i < p.len() ==> #[trigger] p[i] is None
}

/// The smaller of two integers.
pub open spec fn min(a: int, b: int) -> int {
    if a < b {
        a
    } else {
        b
    }
}

proof fn lemma_chunk_start(len: nat, i: nat)
    requires
        i < blocks_needed(len),
    ensures
        i * BLOCK_SIZE < len,
{
    assert(i * BLOCK_SIZE < len) by (nonlinear_arith)
        requires
            i < blocks_needed(len),
    ;
}

proof fn lemma_gather_written(
    p: Seq<Option<u64>>,
    blocks: Map<u64, Seq<u8>>,
    base: u64,
    data: Seq<u8>,
    k: nat,
    j: nat,
)
    requires
        p.len() == NUM_DIRECT_POINTERS,
        j <= NUM_DIRECT_POINTERS,
        k <= NUM_DIRECT_POINTERS,
        k <= blocks_needed(data.len()),
        slots_free_from(p, k),
        base + k <= u64::MAX,
    ensures
        gather(written_pointers(p, base, k).subrange(0, j as int), written_blocks(blocks, base, data, k))
            == data.subrange(0, min(min(j as int, k as int) * BLOCK_SIZE, data.len() as int)),
    decreases j,
{
    let w = written_pointers(p, base, k);
    let b = written_blocks(blocks, base, data, k);
    if j == 0 {
        assert(w.subrange(0, 0) =~= Seq::<Option<u64>>::empty());
        assert(data.subrange(0, 0) =~= Seq::<u8>::empty());
    } else {
        lemma_gather_written(p, blocks, base, data, k, (j - 1) as nat);
        let q = w.subrange(0, j as int);
        assert(q.drop_last() =~= w.subrange(0, j - 1));
        assert(q.last() == w[j - 1]);
        if j - 1 < k {
            lemma_chunk_start(data.len(), (j - 1) as nat);
            let id = (base + j - 1) as u64;
            assert(b.contains_key(id));
            assert(b[id] == chunk(data, j - 1));
            assert(data.subrange(0, (j - 1) * BLOCK_SIZE) + chunk(data, j - 1) =~= data.subrange(
                0,
                min(min(j as int, k as int) * BLOCK_SIZE, data.len() as int),
            ));
        } else {
            assert(w[j - 1] is None);
        }
    }
}

/// Reading a file back after writing at most the pointer capacity of bytes to it gives
/// exactly those bytes, provided no slot beyond the blocks the data needs was in use
/// before (a fresh file, for one).
pub proof fn lemma_write_then_read_round_trip(fs: FsView, id: u64, data: Seq<u8>)
    requires
        fs_wf(fs),
        fs.inodes.contains_key(id),
        data.len() <= NUM_DIRECT_POINTERS * BLOCK_SIZE,
        slots_free_from(fs.inodes[id].direct_pointers, blocks_written(data.len())),
        fs.next_id + blocks_written(data.len()) <= u64::MAX,
    ensures
        read_spec(write_spec(fs, id, data), id) == data,
{
    let k = blocks_written(data.len());
    let p = fs.inodes[id].direct_pointers;
    lemma_gather_written(p, fs.blocks, fs.next_id, data, k, NUM_DIRECT_POINTERS as nat);
    assert(written_pointers(p, fs.next_id, k).subrange(0, NUM_DIRECT_POINTERS as int)
        =~= written_pointers(p, fs.next_id, k));
    assert(k * BLOCK_SIZE >= data.len()) by (nonlinear_arith)
        requires
            k == blocks_needed(data.len()),
    ;
    assert(data.subrange(0, data.len() as int) =~= data);
}

/// Writing more bytes than the pointer capacity holds stores only its first blocks:
/// reading back gives the first capacity bytes, while the size records the full length.
pub proof fn lemma_write_then_read_truncates(fs: FsView, id: u64, data: Seq<u8>)
    requires
        fs_wf(fs),
        fs.inodes.contains_key(id),
        data.len() > NUM_DIRECT_POINTERS * BLOCK_SIZE,
        fs.next_id + NUM_DIRECT_POINTERS <= u64::MAX,
    ensures
        read_spec(write_spec(fs, id, data), id) == data.subrange(
            0,
            NUM_DIRECT_POINTERS * BLOCK_SIZE,
        ),
        write_spec(fs, id, data).inodes[id].size == data.len() as u64,
{
    let p = fs.inodes[id].direct_pointers;
    assert(blocks_needed(data.len()) >= NUM_DIRECT_POINTERS) by (nonlinear_arith)
        requires
            data.len() > NUM_DIRECT_POINTERS * BLOCK_SIZE,
    ;
    let k = blocks_written(data.len());
    assert(k == NUM_DIRECT_POINTERS);
    lemma_gather_written(p, fs.blocks, fs.next_id, data, k, NUM_DIRECT_POINTERS as nat);
    assert(written_pointers(p, fs.next_id, k).subrange(0, NUM_DIRECT_POINTERS as int)
        =~= written_pointers(p, fs.next_id, k));
}

/// The state after creating, in order, one inode for each name and kind of `items`.
pub open spec fn create_all(fs: FsView, items: Seq<(Seq<char>, FileType)>) -> FsView
    decreases items.len(),
{
    if items.len() == 0 {
        fs
    } else {
        let before = create_all(fs, items.drop_last());
        create_spec(before, items.last().0, items.last().1)
    }
}

/// Creating N inodes hands out N consecutive identifiers from the counter on: the call
/// for `items[i]` returns the counter plus `i` and makes that inode. Each call appends
/// exactly one journal record, its own, after the earlier ones.
pub proof fn lemma_creates_number_sequentially(fs: FsView, items: Seq<(Seq<char>, FileType)>)
    requires
        fs.next_id + items.len() <= u64::MAX,
    ensures
        create_all(fs, items).next_id == fs.next_id + items.len(),
        forall|i: int|
            0 <= i < items.len() ==> #[trigger] create_all(fs, items.subrange(0, i)).next_id
                == fs.next_id + i,
        create_all(fs, items).journal.len() == fs.journal.len() + items.len(),
        create_all(fs, items).journal.subrange(0, fs.journal.len() as int) == fs.journal,
        forall|i: int|
            0 <= i < items.len() ==> #[trigger] create_all(fs, items).journal[fs.journal.len() + i]
                == (create_text(items[i].0, items[i].1), true),
        forall|i: int|
            0 <= i < items.len() ==> {
                &&& create_all(fs, items).inodes.contains_key((fs.next_id + i) as u64)
                &&& #[trigger] create_all(fs, items).inodes[(fs.next_id + i) as u64] == new_inode(
                    (fs.next_id + i) as u64,
                    items[i].0,
                    items[i].1,
                )
            },
    decreases items.len(),
{
    if items.len() > 0 {
        let rest = items.drop_last();
        lemma_creates_number_sequentially(fs, rest);
        let before = create_all(fs, rest);
        let after = create_all(fs, items);
        assert forall|i: int| 0 <= i < items.len() implies #[trigger] create_all(
            fs,
            items.subrange(0, i),
        ).next_id == fs.next_id + i by {
            if i < rest.len() {
                assert(items.subrange(0, i) =~= rest.subrange(0, i));
            } else {
                assert(items.subrange(0, i) =~= rest);
            }
        }
        assert(after.journal.subrange(0, fs.journal.len() as int) =~= fs.journal) by {
            assert(after.journal.subrange(0, fs.journal.len() as int) =~= before.journal.subrange(
                0,
                fs.journal.len() as int,
            ));
        }
        assert forall|i: int| 0 <= i < items.len() implies #[trigger] after.journal[fs.journal.len()
            + i] == (create_text(items[i].0, items[i].1), true) by {
            if i < rest.len() {
                assert(rest[i] == items[i]);
                assert(before.journal[fs.journal.len() + i] == (
                    create_text(rest[i].0, rest[i].1),
                    true,
                ));
            }
        }
        assert forall|i: int| 0 <= i < items.len() implies {
            &&& after.inodes.contains_key((fs.next_id + i) as u64)
            &&& #[trigger] after.inodes[(fs.next_id + i) as u64] == new_inode(
                (fs.next_id + i) as u64,
                items[i].0,
                items[i].1,
            )
        } by {
            if i < rest.len() {
                assert(rest[i] == items[i]);
                let id = (fs.next_id + i) as u64;
                assert(before.inodes[id] == new_inode(id, rest[i].0, rest[i].1));
            }
        }
    }
}

} // verus!
