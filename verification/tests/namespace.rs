use unios::error::ShellError;
use unios::fs::FileSystem;
use unios::vga_buf::{Alignment, Color, VGADriver};

fn screen() -> VGADriver {
    VGADriver::new(Color::White, Color::Black, Alignment::Left)
}

fn shown(driver: &VGADriver) -> Vec<String> {
    let glyphs = driver.get_buffer();
    let mut rows = Vec::new();
    for row in 0..25 {
        let text: String = glyphs[row * 80..row * 80 + 80].iter().map(|b| *b as char).collect();
        rows.push(text.trim_end().to_string());
    }
    while rows.last().map(|r| r.is_empty()).unwrap_or(false) {
        rows.pop();
    }
    rows
}

fn name(text: &[u8]) -> [u8; 10] {
    let mut arr = [0u8; 10];
    arr[..text.len()].copy_from_slice(text);
    arr
}

#[test]
fn new_namespace_holds_the_root_alone() {
    let fs = FileSystem::new();
    assert_eq!(fs.live_directories(), 1);
    let root = fs.directory(0);
    assert_eq!(root.index, 0);
    assert_eq!(root.parent_index, 0);
    assert_eq!(root.name, name(b"root"));
    assert_eq!(root.child_count, 0);
    assert_eq!(root.child_indexes, [100; 20]);
    assert_eq!(root.files_indexes, [10; 5]);
    assert!(fs.is_live_directory(0));
    for slot in 1..100 {
        assert!(!fs.is_live_directory(slot));
        assert_eq!(fs.directory(slot).index, 100);
    }
    for slot in 0..10 {
        assert!(!fs.is_live_file(slot));
    }
    assert!(!fs.is_live_directory(100));
    assert!(!fs.is_live_file(10));
}

#[test]
fn created_child_is_resolved() {
    let mut fs = FileSystem::new();
    assert_eq!(fs.create_child(0, b"docs"), Ok(1));
    assert_eq!(fs.resolve_child(0, b"docs"), Ok(1));
    let child = fs.directory(1);
    assert_eq!(child.index, 1);
    assert_eq!(child.name, name(b"docs"));
    assert_eq!(child.parent_index, 0);
    assert_eq!(child.child_count, 0);
    assert_eq!(child.child_indexes, [100; 20]);
    assert_eq!(child.files_indexes, [10; 5]);
    let root = fs.directory(0);
    assert_eq!(root.child_count, 1);
    assert_eq!(root.child_indexes[0], 1);
    assert_eq!(root.child_indexes[1], 100);
    assert_eq!(fs.live_directories(), 2);
}

#[test]
fn created_child_is_resolved_from_a_padded_token() {
    let mut fs = FileSystem::new();
    let mut token = [0u8; 70];
    token[..4].copy_from_slice(b"docs");
    assert_eq!(fs.create_child(0, &token), Ok(1));
    assert_eq!(fs.resolve_child(0, b"docs"), Ok(1));
    assert_eq!(fs.resolve_child(0, &token), Ok(1));
}

#[test]
fn resolve_child_compares_whole_names() {
    let mut fs = FileSystem::new();
    assert_eq!(fs.create_child(0, b"docs"), Ok(1));
    assert_eq!(fs.resolve_child(0, b"doc"), Err(ShellError::NotFound));
    assert_eq!(fs.resolve_child(0, b"docs2"), Err(ShellError::NotFound));
    assert_eq!(fs.resolve_child(0, b"Docs"), Err(ShellError::NotFound));
    assert_eq!(fs.resolve_child(0, b""), Err(ShellError::NotFound));
    assert_eq!(fs.resolve_child(1, b"docs"), Err(ShellError::NotFound));
}

#[test]
fn create_child_takes_a_name_of_ten_bytes() {
    let mut fs = FileSystem::new();
    assert_eq!(fs.create_child(0, b"abcdefghij"), Ok(1));
    assert_eq!(fs.resolve_child(0, b"abcdefghij"), Ok(1));
    assert_eq!(fs.directory(1).name, *b"abcdefghij");
}

#[test]
fn create_child_refuses_a_name_of_eleven_bytes() {
    let mut fs = FileSystem::new();
    assert_eq!(fs.create_child(0, b"abcdefghijk"), Err(ShellError::NameTooLong));
    assert_eq!(fs.live_directories(), 1);
    assert_eq!(fs.directory(0).child_count, 0);
}

#[test]
fn create_child_refuses_an_empty_name() {
    let mut fs = FileSystem::new();
    assert_eq!(fs.create_child(0, b""), Err(ShellError::NameEmpty));
    assert_eq!(fs.create_child(0, &[0u8; 70]), Err(ShellError::NameEmpty));
    assert_eq!(fs.live_directories(), 1);
}

#[test]
fn create_child_refuses_a_name_that_is_taken() {
    let mut fs = FileSystem::new();
    assert_eq!(fs.create_child(0, b"a"), Ok(1));
    assert_eq!(fs.create_child(0, b"a"), Err(ShellError::AlreadyExists));
    assert_eq!(fs.live_directories(), 2);
    assert_eq!(fs.directory(0).child_count, 1);
}

#[test]
fn the_same_name_can_be_used_in_another_directory() {
    let mut fs = FileSystem::new();
    assert_eq!(fs.create_child(0, b"a"), Ok(1));
    assert_eq!(fs.create_child(1, b"a"), Ok(2));
    assert_eq!(fs.resolve_child(0, b"a"), Ok(1));
    assert_eq!(fs.resolve_child(1, b"a"), Ok(2));
}

#[test]
fn a_directory_holds_twenty_children() {
    let mut fs = FileSystem::new();
    for i in 0..20u8 {
        assert_eq!(fs.create_child(0, &[b'a' + i]), Ok(1 + i as usize));
    }
    assert_eq!(fs.directory(0).child_count, 20);
    assert_eq!(fs.create_child(0, b"more"), Err(ShellError::ArenaExhausted));
    assert_eq!(fs.live_directories(), 21);
    assert_eq!(fs.create_child(1, b"more"), Ok(21));
}

#[test]
fn the_pool_holds_a_hundred_directories() {
    let mut fs = FileSystem::new();
    for i in 0..20u8 {
        assert_eq!(fs.create_child(0, &[b'a' + i]), Ok(1 + i as usize));
    }
    let mut made = 20;
    for parent in 1..5usize {
        for i in 0..20u8 {
            if made < 99 {
                assert_eq!(fs.create_child(parent, &[b'a' + i]), Ok(made + 1));
                made += 1;
            }
        }
    }
    assert_eq!(fs.live_directories(), 100);
    assert_eq!(fs.create_child(5, b"x"), Err(ShellError::ArenaExhausted));
    assert_eq!(fs.live_directories(), 100);
    assert_eq!(fs.delete_child(1, b"a"), Ok(21));
    assert_eq!(fs.live_directories(), 99);
    assert_eq!(fs.create_child(5, b"x"), Ok(21));
    assert_eq!(fs.live_directories(), 100);
}

#[test]
fn delete_child_frees_the_slot() {
    let mut fs = FileSystem::new();
    assert_eq!(fs.create_child(0, b"a"), Ok(1));
    assert_eq!(fs.create_child(0, b"b"), Ok(2));
    assert_eq!(fs.delete_child(0, b"a"), Ok(1));
    assert!(!fs.is_live_directory(1));
    let freed = fs.directory(1);
    assert_eq!(freed.index, 100);
    assert_eq!(freed.name, [0u8; 10]);
    assert_eq!(freed.parent_index, 100);
    assert_eq!(freed.child_count, 0);
    assert_eq!(freed.child_indexes, [100; 20]);
    assert_eq!(freed.files_indexes, [10; 5]);
    let root = fs.directory(0);
    assert_eq!(root.child_count, 1);
    assert_eq!(root.child_indexes[0], 100);
    assert_eq!(root.child_indexes[1], 2);
    assert_eq!(fs.resolve_child(0, b"a"), Err(ShellError::NotFound));
    assert_eq!(fs.resolve_child(0, b"b"), Ok(2));
    assert_eq!(fs.live_directories(), 2);
}

#[test]
fn a_freed_slot_is_taken_again() {
    let mut fs = FileSystem::new();
    assert_eq!(fs.create_child(0, b"a"), Ok(1));
    assert_eq!(fs.create_child(0, b"b"), Ok(2));
    assert_eq!(fs.create_child(0, b"c"), Ok(3));
    assert_eq!(fs.delete_child(0, b"b"), Ok(2));
    assert_eq!(fs.create_child(3, b"deep"), Ok(2));
    assert_eq!(fs.directory(2).parent_index, 3);
    assert_eq!(fs.directory(0).child_indexes[1], 100);
    assert_eq!(fs.create_child(0, b"d"), Ok(4));
    assert_eq!(fs.directory(0).child_indexes[1], 4);
}

#[test]
fn delete_child_refuses_an_unknown_name() {
    let mut fs = FileSystem::new();
    assert_eq!(fs.create_child(0, b"a"), Ok(1));
    assert_eq!(fs.delete_child(0, b"b"), Err(ShellError::NotFound));
    assert_eq!(fs.live_directories(), 2);
}

#[test]
fn delete_child_refuses_a_directory_with_children() {
    let mut fs = FileSystem::new();
    assert_eq!(fs.create_child(0, b"a"), Ok(1));
    assert_eq!(fs.create_child(1, b"b"), Ok(2));
    assert_eq!(fs.delete_child(0, b"a"), Err(ShellError::NotEmpty));
    assert_eq!(fs.live_directories(), 3);
    assert_eq!(fs.resolve_child(0, b"a"), Ok(1));
    assert_eq!(fs.resolve_child(1, b"b"), Ok(2));
    assert_eq!(fs.directory(0).child_count, 1);
    assert_eq!(fs.directory(1).child_count, 1);
    assert_eq!(fs.delete_child(1, b"b"), Ok(2));
    assert_eq!(fs.delete_child(0, b"a"), Ok(1));
    assert_eq!(fs.live_directories(), 1);
}

#[test]
fn delete_child_frees_the_files_of_the_directory() {
    let mut fs = FileSystem::new();
    assert_eq!(fs.create_child(0, b"a"), Ok(1));
    assert_eq!(fs.create_file(0, b"keep"), Ok(0));
    assert_eq!(fs.create_file(1, b"one"), Ok(1));
    assert_eq!(fs.create_file(1, b"two"), Ok(2));
    assert_eq!(fs.delete_child(0, b"a"), Ok(1));
    assert!(fs.is_live_file(0));
    assert!(!fs.is_live_file(1));
    assert!(!fs.is_live_file(2));
    assert_eq!(fs.file(1).index, 10);
    assert_eq!(fs.file(1).folder_index, 100);
    assert_eq!(fs.find_file(0, b"keep"), Ok(0));
    assert_eq!(fs.create_file(0, b"next"), Ok(1));
}

#[test]
fn change_directory_moves_down_and_up() {
    let mut fs = FileSystem::new();
    assert_eq!(fs.create_child(0, b"a"), Ok(1));
    assert_eq!(fs.create_child(1, b"b"), Ok(2));
    assert_eq!(fs.change_directory(0, b"a"), Ok(1));
    assert_eq!(fs.change_directory(1, b"b"), Ok(2));
    assert_eq!(fs.change_directory(2, b"."), Ok(1));
    assert_eq!(fs.change_directory(1, b"."), Ok(0));
    let mut token = [0u8; 70];
    token[0] = b'.';
    assert_eq!(fs.change_directory(2, &token), Ok(1));
}

#[test]
fn change_directory_at_the_root_stays_at_the_root() {
    let fs = FileSystem::new();
    assert_eq!(fs.change_directory(0, b"."), Ok(0));
}

#[test]
fn change_directory_takes_one_dot_only_for_the_parent() {
    let mut fs = FileSystem::new();
    assert_eq!(fs.create_child(0, b"a"), Ok(1));
    assert_eq!(fs.change_directory(1, b".."), Err(ShellError::NotFound));
    assert_eq!(fs.change_directory(1, b".x"), Err(ShellError::NotFound));
    assert_eq!(fs.change_directory(1, b". "), Err(ShellError::NotFound));
    assert_eq!(fs.change_directory(0, b".."), Err(ShellError::NotFound));
}

#[test]
fn change_directory_enters_a_child_whose_name_starts_with_a_dot() {
    let mut fs = FileSystem::new();
    assert_eq!(fs.create_child(0, b"a"), Ok(1));
    assert_eq!(fs.create_child(1, b".x"), Ok(2));
    assert_eq!(fs.create_child(1, b".."), Ok(3));
    assert_eq!(fs.change_directory(1, b".x"), Ok(2));
    assert_eq!(fs.change_directory(1, b".."), Ok(3));
    assert_eq!(fs.change_directory(3, b"."), Ok(1));
}

#[test]
fn change_directory_refuses_an_unknown_name() {
    let mut fs = FileSystem::new();
    assert_eq!(fs.create_child(0, b"a"), Ok(1));
    assert_eq!(fs.change_directory(0, b"nope"), Err(ShellError::NotFound));
    assert_eq!(fs.change_directory(0, b""), Err(ShellError::NotFound));
    assert_eq!(fs.change_directory(1, b"a"), Err(ShellError::NotFound));
}

#[test]
fn print_path_goes_from_the_root_down() {
    let mut fs = FileSystem::new();
    assert_eq!(fs.create_child(0, b"a"), Ok(1));
    assert_eq!(fs.create_child(1, b"b"), Ok(2));
    let mut driver = screen();
    fs.print_path(2, &mut driver);
    assert_eq!(shown(&driver), vec!["/root/a/b"]);
    let mut driver = screen();
    fs.print_path(0, &mut driver);
    assert_eq!(shown(&driver), vec!["/root"]);
}

#[test]
fn print_tree_indents_by_four_spaces_a_level() {
    let mut fs = FileSystem::new();
    assert_eq!(fs.create_child(0, b"a"), Ok(1));
    assert_eq!(fs.create_child(1, b"b"), Ok(2));
    assert_eq!(fs.create_child(2, b"c"), Ok(3));
    assert_eq!(fs.create_child(0, b"d"), Ok(4));
    let mut driver = screen();
    fs.print_tree(0, 0, &mut driver);
    assert_eq!(shown(&driver), vec!["", "/a", "    /b", "        /c", "/d"]);
    let mut driver = screen();
    fs.print_tree(1, 0, &mut driver);
    assert_eq!(shown(&driver), vec!["", "/b", "    /c"]);
    let mut driver = screen();
    fs.print_tree(1, 2, &mut driver);
    assert_eq!(shown(&driver), vec!["", "        /b", "            /c"]);
}

#[test]
fn print_tree_of_a_leaf_prints_nothing() {
    let mut fs = FileSystem::new();
    assert_eq!(fs.create_child(0, b"a"), Ok(1));
    let mut driver = screen();
    fs.print_tree(1, 0, &mut driver);
    assert_eq!(shown(&driver), Vec::<String>::new());
    assert_eq!(driver.current_row(), 0);
    assert_eq!(driver.current_column(), 0);
}

#[test]
fn print_tree_skips_the_entries_of_deleted_children() {
    let mut fs = FileSystem::new();
    assert_eq!(fs.create_child(0, b"a"), Ok(1));
    assert_eq!(fs.create_child(0, b"b"), Ok(2));
    assert_eq!(fs.create_child(0, b"c"), Ok(3));
    assert_eq!(fs.delete_child(0, b"b"), Ok(2));
    let mut driver = screen();
    fs.print_tree(0, 0, &mut driver);
    assert_eq!(shown(&driver), vec!["", "/a", "/c"]);
}

#[test]
fn created_file_is_found() {
    let mut fs = FileSystem::new();
    assert_eq!(fs.create_file(0, b"foo"), Ok(0));
    assert_eq!(fs.find_file(0, b"foo"), Ok(0));
    let file = fs.file(0);
    assert_eq!(file.index, 0);
    assert_eq!(file.name, name(b"foo"));
    assert_eq!(file.count_lines, 0);
    assert_eq!(file.folder_index, 0);
    assert_eq!(file.content, [0u8; 2000]);
    assert_eq!(fs.directory(0).files_indexes, [0, 10, 10, 10, 10]);
    assert!(fs.is_live_file(0));
}

#[test]
fn find_file_looks_in_one_directory() {
    let mut fs = FileSystem::new();
    assert_eq!(fs.create_child(0, b"a"), Ok(1));
    assert_eq!(fs.create_file(1, b"foo"), Ok(0));
    assert_eq!(fs.find_file(0, b"foo"), Err(ShellError::NotFound));
    assert_eq!(fs.find_file(1, b"foo"), Ok(0));
    assert_eq!(fs.find_file(1, b"fo"), Err(ShellError::NotFound));
}

#[test]
fn create_file_refuses_a_name_of_eleven_bytes() {
    let mut fs = FileSystem::new();
    assert_eq!(fs.create_file(0, b"abcdefghijk"), Err(ShellError::NameTooLong));
    assert_eq!(fs.create_file(0, b"abcdefghij"), Ok(0));
}

#[test]
fn files_may_share_a_name_and_the_first_is_found() {
    let mut fs = FileSystem::new();
    assert_eq!(fs.create_file(0, b"foo"), Ok(0));
    assert_eq!(fs.create_file(0, b"foo"), Ok(1));
    assert_eq!(fs.find_file(0, b"foo"), Ok(0));
    assert_eq!(fs.delete_file(0, b"foo"), Ok(0));
    assert_eq!(fs.find_file(0, b"foo"), Ok(1));
}

#[test]
fn a_directory_holds_five_files() {
    let mut fs = FileSystem::new();
    for i in 0..5u8 {
        assert_eq!(fs.create_file(0, &[b'a' + i]), Ok(i as usize));
    }
    assert_eq!(fs.create_file(0, b"more"), Err(ShellError::ArenaExhausted));
    assert!(!fs.is_live_file(5));
}

#[test]
fn the_pool_holds_ten_files() {
    let mut fs = FileSystem::new();
    assert_eq!(fs.create_child(0, b"a"), Ok(1));
    assert_eq!(fs.create_child(0, b"b"), Ok(2));
    for i in 0..5u8 {
        assert_eq!(fs.create_file(0, &[b'a' + i]), Ok(2 * i as usize));
        assert_eq!(fs.create_file(1, &[b'a' + i]), Ok(2 * i as usize + 1));
    }
    assert_eq!(fs.create_file(2, b"more"), Err(ShellError::ArenaExhausted));
    assert_eq!(fs.directory(2).files_indexes, [10; 5]);
    assert_eq!(fs.delete_file(1, b"c"), Ok(5));
    assert_eq!(fs.create_file(2, b"more"), Ok(5));
    assert_eq!(fs.file(5).folder_index, 2);
}

#[test]
fn delete_file_frees_the_slot_and_the_entry() {
    let mut fs = FileSystem::new();
    assert_eq!(fs.create_file(0, b"a"), Ok(0));
    assert_eq!(fs.create_file(0, b"b"), Ok(1));
    assert_eq!(fs.delete_file(0, b"a"), Ok(0));
    assert!(!fs.is_live_file(0));
    assert_eq!(fs.file(0).index, 10);
    assert_eq!(fs.file(0).name, [0u8; 10]);
    assert_eq!(fs.file(0).folder_index, 100);
    assert_eq!(fs.directory(0).files_indexes, [10, 1, 10, 10, 10]);
    assert_eq!(fs.find_file(0, b"a"), Err(ShellError::NotFound));
    assert_eq!(fs.find_file(0, b"b"), Ok(1));
}

#[test]
fn delete_file_refuses_an_unknown_name() {
    let mut fs = FileSystem::new();
    assert_eq!(fs.create_file(0, b"a"), Ok(0));
    assert_eq!(fs.delete_file(0, b"b"), Err(ShellError::NotFound));
    assert!(fs.is_live_file(0));
}

#[test]
fn list_files_parts_the_names_by_spaces() {
    let mut fs = FileSystem::new();
    assert_eq!(fs.create_file(0, b"a"), Ok(0));
    assert_eq!(fs.create_file(0, b"bb"), Ok(1));
    assert_eq!(fs.create_file(0, b"ccc"), Ok(2));
    assert_eq!(fs.delete_file(0, b"bb"), Ok(1));
    assert_eq!(fs.create_file(0, b"dd"), Ok(1));
    let mut driver = screen();
    fs.list_files(0, &mut driver);
    assert_eq!(shown(&driver), vec!["a dd ccc"]);
    assert_eq!(driver.current_column(), 8);
}

#[test]
fn list_files_of_an_empty_directory_prints_nothing() {
    let fs = FileSystem::new();
    let mut driver = screen();
    fs.list_files(0, &mut driver);
    assert_eq!(driver.current_column(), 0);
    assert_eq!(shown(&driver), Vec::<String>::new());
}

#[test]
fn add_line_counts_up_to_the_height_of_the_console() {
    let mut fs = FileSystem::new();
    assert_eq!(fs.create_file(0, b"a"), Ok(0));
    fs.add_line(0);
    assert_eq!(fs.file(0).count_lines, 1);
    for _ in 0..30 {
        fs.add_line(0);
    }
    assert_eq!(fs.file(0).count_lines, 25);
}

#[test]
fn read_file_prints_the_meaningful_rows() {
    let mut fs = FileSystem::new();
    assert_eq!(fs.create_file(0, b"a"), Ok(0));
    let mut content = [b' '; 2000];
    content[0] = b'x';
    content[80] = b'y';
    content[160] = b'z';
    fs.store_content(0, content);
    assert_eq!(fs.file(0).content, content);
    fs.add_line(0);
    fs.add_line(0);
    let mut driver = screen();
    driver.print("old text\n\nmore");
    assert_eq!(fs.read_file(0, b"a", &mut driver), Ok(0));
    assert_eq!(shown(&driver), vec!["x", "y"]);
    assert_eq!(driver.current_row(), 1);
    assert_eq!(driver.current_column(), 80);
}

#[test]
fn read_file_refuses_an_unknown_name() {
    let fs = FileSystem::new();
    let mut driver = screen();
    driver.print("old text");
    assert_eq!(fs.read_file(0, b"a", &mut driver), Err(ShellError::NotFound));
    assert_eq!(shown(&driver), vec!["old text"]);
}

#[test]
fn edit_file_takes_no_row_as_meaningful() {
    let mut fs = FileSystem::new();
    assert_eq!(fs.create_file(0, b"a"), Ok(0));
    assert_eq!(fs.create_file(0, b"b"), Ok(1));
    fs.add_line(1);
    fs.add_line(1);
    assert_eq!(fs.edit_file(0, b"b"), Ok(1));
    assert_eq!(fs.file(1).count_lines, 0);
    assert_eq!(fs.file(1).name, name(b"b"));
    assert_eq!(fs.edit_file(0, b"c"), Err(ShellError::NotFound));
}
