use unios::arena::{Directory, DirectoryList, File, FileList};
use unios::error::ShellError;

fn live_directory(slot: usize) -> Directory {
    Directory { index: slot, parent_index: 0, ..Directory::empty() }
}

fn live_file(slot: usize) -> File {
    File { index: slot, folder_index: 0, ..File::empty() }
}

#[test]
fn empty_directory_record_is_all_sentinels() {
    let d = Directory::empty();
    assert_eq!(d.index, 100);
    assert_eq!(d.name, [0u8; 10]);
    assert_eq!(d.parent_index, 100);
    assert_eq!(d.child_count, 0);
    assert_eq!(d.child_indexes, [100; 20]);
    assert_eq!(d.files_indexes, [10; 5]);
}

#[test]
fn empty_file_record_is_all_sentinels() {
    let f = File::empty();
    assert_eq!(f.index, 10);
    assert_eq!(f.name, [0u8; 10]);
    assert_eq!(f.count_lines, 0);
    assert_eq!(f.folder_index, 100);
    assert_eq!(f.content, [0u8; 2000]);
}

#[test]
fn directory_pool_allocates_the_first_free_slot() {
    let mut pool = DirectoryList::new();
    assert_eq!(pool.live_count(), 0);
    assert_eq!(pool.allocate(), Ok(0));
    assert_eq!(pool.allocate(), Ok(0));
    pool.set(0, live_directory(0));
    pool.set(1, live_directory(1));
    pool.set(3, live_directory(3));
    assert_eq!(pool.live_count(), 3);
    assert_eq!(pool.allocate(), Ok(2));
    pool.set(2, live_directory(2));
    assert_eq!(pool.allocate(), Ok(4));
    assert_eq!(pool.get(3).index, 3);
    assert_eq!(pool.get(4).index, 100);
}

#[test]
fn directory_pool_frees_a_slot_for_the_next_allocation() {
    let mut pool = DirectoryList::new();
    for slot in 0..5 {
        pool.set(slot, live_directory(slot));
    }
    assert_eq!(pool.allocate(), Ok(5));
    pool.free(2);
    assert_eq!(pool.live_count(), 4);
    assert_eq!(pool.allocate(), Ok(2));
    let freed = pool.get(2);
    assert_eq!(freed.index, 100);
    assert_eq!(freed.parent_index, 100);
    pool.free(2);
    assert_eq!(pool.live_count(), 4);
}

#[test]
fn directory_pool_is_exhausted_at_a_hundred() {
    let mut pool = DirectoryList::new();
    for slot in 0..100 {
        assert_eq!(pool.allocate(), Ok(slot));
        pool.set(slot, live_directory(slot));
    }
    assert_eq!(pool.live_count(), 100);
    assert_eq!(pool.allocate(), Err(ShellError::ArenaExhausted));
    pool.free(99);
    assert_eq!(pool.allocate(), Ok(99));
}

#[test]
fn file_pool_allocates_frees_and_is_exhausted_at_ten() {
    let mut pool = FileList::new();
    for slot in 0..10 {
        assert_eq!(pool.allocate(), Ok(slot));
        pool.set(slot, live_file(slot));
    }
    assert_eq!(pool.allocate(), Err(ShellError::ArenaExhausted));
    pool.free(4);
    assert_eq!(pool.get(4).index, 10);
    assert_eq!(pool.get(4).folder_index, 100);
    assert_eq!(pool.allocate(), Ok(4));
}

#[test]
fn file_pool_changes_one_field_at_a_time() {
    let mut pool = FileList::new();
    pool.set(1, live_file(1));
    pool.set_count_lines(1, 7);
    let mut content = [b' '; 2000];
    content[5] = b'x';
    pool.set_content(1, content);
    let file = pool.get(1);
    assert_eq!(file.index, 1);
    assert_eq!(file.count_lines, 7);
    assert_eq!(file.content, content);
    assert_eq!(file.folder_index, 0);
    assert_eq!(pool.get(0).index, 10);
}
