use inodefs::fs::FileSystem;
use inodefs::inode::{FileType, BLOCK_SIZE, NUM_DIRECT_POINTERS};
use inodefs::journal::Journal;
use inodefs::text::{add_file_description, decimal_string};

fn descriptions(fs: &FileSystem) -> Vec<String> {
    fs.journal.entries().iter().map(|e| e.operation.clone()).collect()
}

fn pattern(len: usize) -> Vec<u8> {
    (0..len).map(|i| (i % 251) as u8).collect()
}

#[test]
fn documents_scenario() {
    let mut fs = FileSystem::new();
    let dir = fs.create_directory("Documents");
    let file = fs.create_file("doc1.txt");
    assert_eq!(dir, 1);
    assert_eq!(file, 2);
    fs.add_file_to_directory(file, dir);
    fs.write_to_file(file, b"Hello, World!");
    assert_eq!(fs.read_file(2), b"Hello, World!".to_vec());

    let listing = fs.list_directories_and_files();
    assert_eq!(listing.len(), 1);
    assert_eq!(listing[0].name, "Documents");
    assert_eq!(listing[0].id, 1);
    assert_eq!(listing[0].files.len(), 1);
    assert_eq!(listing[0].files[0].name, "doc1.txt");
    assert_eq!(listing[0].files[0].id, 2);
    assert_eq!(listing[0].files[0].size, 13);

    assert_eq!(
        descriptions(&fs),
        vec![
            "CREATE DIRECTORY: Documents".to_string(),
            "CREATE FILE: doc1.txt".to_string(),
            "ADD FILE: 2 TO DIRECTORY: 1".to_string(),
        ]
    );
    assert!(fs.journal.entries().iter().all(|e| e.committed));

    let undone = fs.journal.undo();
    assert_eq!(undone, Some("ADD FILE: 2 TO DIRECTORY: 1".to_string()));
    assert_eq!(fs.journal.len(), 2);
    assert_eq!(
        descriptions(&fs),
        vec!["CREATE DIRECTORY: Documents".to_string(), "CREATE FILE: doc1.txt".to_string()]
    );
    // Undo reverts no membership.
    assert_eq!(fs.inode(1).unwrap().entries, Some(vec![2]));
    assert_eq!(fs.list_directories_and_files()[0].files.len(), 1);
}

#[test]
fn round_trip_small_and_boundary_sizes() {
    for len in [0usize, 1, 13, 4095, 4096, 4097, 8192, 40959, 40960] {
        let mut fs = FileSystem::new();
        let f = fs.create_file("f");
        let data = pattern(len);
        fs.write_to_file(f, &data);
        assert_eq!(fs.read_file(f), data, "length {}", len);
        assert_eq!(fs.inode(f).unwrap().size, len as u64);
    }
}

#[test]
fn write_splits_into_blocks_with_fresh_ids() {
    let mut fs = FileSystem::new();
    let f = fs.create_file("f");
    fs.write_to_file(f, &pattern(2 * BLOCK_SIZE + 5));
    let inode = fs.inode(f).unwrap();
    assert_eq!(inode.direct_pointers[0], Some(2));
    assert_eq!(inode.direct_pointers[1], Some(3));
    assert_eq!(inode.direct_pointers[2], Some(4));
    assert_eq!(inode.direct_pointers[3], None);
    // The shared counter moved past the three blocks.
    assert_eq!(fs.create_file("g"), 5);
    // Writing is not journaled.
    assert_eq!(fs.journal.len(), 2);
}

#[test]
fn oversized_write_is_truncated_but_size_is_full() {
    let cap = NUM_DIRECT_POINTERS * BLOCK_SIZE;
    for len in [cap + 1, cap + BLOCK_SIZE, 50000] {
        let mut fs = FileSystem::new();
        let f = fs.create_file("big");
        let data = pattern(len);
        fs.write_to_file(f, &data);
        assert_eq!(fs.read_file(f), data[..cap].to_vec());
        assert_eq!(fs.inode(f).unwrap().size, len as u64);
        assert!(fs.inode(f).unwrap().direct_pointers.iter().all(|p| p.is_some()));
    }
}

#[test]
fn shorter_rewrite_keeps_old_trailing_blocks() {
    let mut fs = FileSystem::new();
    let f = fs.create_file("f");
    let first = pattern(5000);
    fs.write_to_file(f, &first);
    fs.write_to_file(f, b"Hello, World!");
    let mut expected = b"Hello, World!".to_vec();
    expected.extend_from_slice(&first[BLOCK_SIZE..]);
    assert_eq!(fs.read_file(f), expected);
    assert_eq!(fs.inode(f).unwrap().size, 13);
}

#[test]
fn write_to_unknown_id_changes_nothing() {
    let mut fs = FileSystem::new();
    let f = fs.create_file("f");
    fs.write_to_file(99, b"abc");
    assert_eq!(fs.read_file(99), Vec::<u8>::new());
    assert_eq!(fs.read_file(f), Vec::<u8>::new());
    assert_eq!(fs.create_file("g"), 2);
}

#[test]
fn read_of_unknown_id_is_empty() {
    let fs = FileSystem::new();
    assert!(fs.read_file(7).is_empty());
    assert!(fs.missing_blocks(7).is_empty());
}

#[test]
fn written_file_has_no_missing_blocks() {
    let mut fs = FileSystem::new();
    let f = fs.create_file("f");
    fs.write_to_file(f, &pattern(9000));
    assert!(fs.missing_blocks(f).is_empty());
}

#[test]
fn add_to_missing_directory_is_silent_no_op() {
    let mut fs = FileSystem::new();
    let d = fs.create_directory("d");
    let f = fs.create_file("f");
    fs.add_file_to_directory(f, 42);
    assert_eq!(fs.journal.len(), 2);
    assert_eq!(fs.inode(d).unwrap().entries, Some(vec![]));
    assert!(fs.inode(42).is_none());
}

#[test]
fn add_to_regular_file_is_silent_no_op() {
    let mut fs = FileSystem::new();
    let f = fs.create_file("f");
    let g = fs.create_file("g");
    fs.add_file_to_directory(g, f);
    assert_eq!(fs.journal.len(), 2);
    assert_eq!(fs.inode(f).unwrap().entries, None);
}

#[test]
fn add_allows_duplicates_and_unknown_children() {
    let mut fs = FileSystem::new();
    let d = fs.create_directory("d");
    let f = fs.create_file("f");
    fs.add_file_to_directory(f, d);
    fs.add_file_to_directory(f, d);
    fs.add_file_to_directory(77, d);
    assert_eq!(fs.inode(d).unwrap().entries, Some(vec![2, 2, 77]));
    assert_eq!(fs.journal.len(), 5);
    assert_eq!(
        descriptions(&fs)[4],
        "ADD FILE: 77 TO DIRECTORY: 1".to_string()
    );
    // The dangling child is skipped in the listing.
    let listing = fs.list_directories_and_files();
    assert_eq!(listing[0].files.len(), 2);
    assert!(listing[0].files.iter().all(|c| c.id == 2));
}

#[test]
fn listing_covers_every_directory_in_id_order() {
    let mut fs = FileSystem::new();
    let d1 = fs.create_directory("Documents");
    let d2 = fs.create_directory("Pictures");
    let f1 = fs.create_file("doc1.txt");
    let f2 = fs.create_file("doc2.txt");
    let f3 = fs.create_file("pic1.jpg");
    fs.add_file_to_directory(f1, d1);
    fs.add_file_to_directory(f2, d1);
    fs.add_file_to_directory(f3, d2);
    let listing = fs.list_directories_and_files();
    assert_eq!(listing.len(), 2);
    assert_eq!(listing[0].name, "Documents");
    assert_eq!(listing[1].name, "Pictures");
    let names: Vec<&str> = listing[0].files.iter().map(|c| c.name.as_str()).collect();
    assert_eq!(names, vec!["doc1.txt", "doc2.txt"]);
    assert_eq!(listing[1].files[0].id, 5);
    assert_eq!(listing[1].files[0].size, 0);
}

#[test]
fn creates_hand_out_sequential_ids_each_journaled_once() {
    let mut fs = FileSystem::new();
    let mut ids = Vec::new();
    for i in 0..6u64 {
        let name = format!("n{}", i);
        let id = if i % 2 == 0 { fs.create_file(&name) } else { fs.create_directory(&name) };
        ids.push(id);
        assert_eq!(fs.journal.len(), (i + 1) as usize);
    }
    assert_eq!(ids, vec![1, 2, 3, 4, 5, 6]);
    let d = descriptions(&fs);
    assert_eq!(d[0], "CREATE FILE: n0");
    assert_eq!(d[1], "CREATE DIRECTORY: n1");
    assert_eq!(d[5], "CREATE DIRECTORY: n5");
    assert_eq!(fs.inode(2).unwrap().file_type, FileType::Directory);
    assert_eq!(fs.inode(3).unwrap().file_type, FileType::RegularFile);
    assert_eq!(fs.inode(3).unwrap().name, "n2");
}

#[test]
fn undo_on_empty_journal_is_none() {
    let mut j = Journal::new();
    assert_eq!(j.undo(), None);
    assert_eq!(j.len(), 0);
}

#[test]
fn undo_pops_most_recent_only() {
    let mut j = Journal::new();
    j.add_entry("a".to_string());
    j.add_entry("b".to_string());
    assert_eq!(j.undo(), Some("b".to_string()));
    assert_eq!(j.len(), 1);
    assert_eq!(j.entries()[0].operation, "a");
    assert!(j.entries()[0].committed);
    assert_eq!(j.undo(), Some("a".to_string()));
    assert_eq!(j.undo(), None);
}

#[test]
fn undo_keeps_file_contents() {
    let mut fs = FileSystem::new();
    let f = fs.create_file("f");
    fs.write_to_file(f, b"xyz");
    assert_eq!(fs.journal.undo(), Some("CREATE FILE: f".to_string()));
    assert_eq!(fs.read_file(f), b"xyz".to_vec());
    assert!(fs.inode(f).is_some());
}

#[test]
fn decimal_rendering() {
    assert_eq!(decimal_string(0), "0");
    assert_eq!(decimal_string(7), "7");
    assert_eq!(decimal_string(10), "10");
    assert_eq!(decimal_string(1203), "1203");
    assert_eq!(decimal_string(u64::MAX), "18446744073709551615");
    assert_eq!(add_file_description(12, 305), "ADD FILE: 12 TO DIRECTORY: 305");
}

#[test]
fn new_filesystem_is_empty() {
    let fs = FileSystem::new();
    assert!(fs.list_directories_and_files().is_empty());
    assert_eq!(fs.journal.len(), 0);
    assert!(fs.inode(1).is_none());
}
