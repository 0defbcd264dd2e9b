use pc_keyboard::{DecodedKey, KeyCode};
use unios::error::ShellError;
use unios::shell::{handle_character, handle_keyboard_interrupt, init_shell, Shell};

fn shown(shell: &Shell) -> Vec<String> {
    let glyphs = shell.screen().get_buffer();
    let mut rows = Vec::new();
    for row in 0..25 {
        let text: String = glyphs[row * 80..row * 80 + 80].iter().map(|b| *b as char).collect();
        rows.push(text.trim_end().to_string());
    }
    while rows.last().map(|r| r.is_empty()).unwrap_or(false) {
        rows.pop();
    }
    rows
}

fn press(shell: &mut Shell, keys: &str) {
    for key in keys.bytes() {
        shell.on_key_pressed(key);
    }
}

fn started() -> Shell {
    let mut shell = Shell::new();
    init_shell(&mut shell);
    shell
}

fn tokens(command: &[u8], argument: &[u8]) -> ([u8; 10], [u8; 70]) {
    let mut cmd = [0u8; 10];
    cmd[..command.len()].copy_from_slice(command);
    let mut arg = [0u8; 70];
    arg[..argument.len()].copy_from_slice(argument);
    (cmd, arg)
}

#[test]
fn new_shell_is_at_the_root_with_a_blank_console() {
    let shell = Shell::new();
    assert_eq!(shell.current_directory(), 0);
    assert!(!shell.is_editing_file());
    assert_eq!(shell.current_editing_file(), 10);
    assert_eq!(shell.line().len(), 0);
    assert_eq!(shell.file_system().live_directories(), 1);
    assert_eq!(shown(&shell), Vec::<String>::new());
    assert_eq!(shell.screen().buffer()[1], 0);
}

#[test]
fn init_shell_shows_the_prompt() {
    let shell = started();
    assert_eq!(shown(&shell), vec![" $"]);
    assert_eq!(shell.screen().current_row(), 0);
    assert_eq!(shell.screen().current_column(), 3);
    assert_eq!(shell.screen().buffer()[3], 0x0f);
}

#[test]
fn typed_glyphs_are_shown_and_kept() {
    let mut shell = started();
    press(&mut shell, "echo a b");
    assert_eq!(shown(&shell), vec![" $ echo a b"]);
    assert_eq!(shell.line().len(), 8);
}

#[test]
fn echo_prints_its_argument() {
    let mut shell = started();
    press(&mut shell, "echo hello world\n");
    assert_eq!(shown(&shell), vec![" $ echo hello world", "hello world", " $"]);
    assert_eq!(shell.line().len(), 0);
    assert_eq!(shell.screen().current_row(), 2);
    assert_eq!(shell.screen().current_column(), 3);
}

#[test]
fn unknown_command_is_reported() {
    let mut shell = started();
    press(&mut shell, "frobnicate x\n");
    assert_eq!(shown(&shell), vec![" $ frobnicate x", "Command \"frobnicate\" not found!", " $"]);
}

#[test]
fn unknown_command_gives_its_token() {
    let mut shell = Shell::new();
    let argv = tokens(b"lsx", b"");
    assert_eq!(shell.execute_command(argv), Err(ShellError::CommandNotFound(argv.0)));
}

#[test]
fn a_command_name_is_no_prefix_match() {
    let mut shell = started();
    press(&mut shell, "mkdirs a\n");
    assert_eq!(shell.file_system().live_directories(), 1);
    assert_eq!(shown(&shell)[1], "Command \"mkdirs\" not found!");
}

#[test]
fn an_empty_line_names_no_command() {
    let mut shell = started();
    press(&mut shell, "\n");
    assert_eq!(shown(&shell), vec![" $", "Command \"\" not found!", " $"]);
}

#[test]
fn curdir_prints_the_path() {
    let mut shell = started();
    press(&mut shell, "mkdir a\ncd a\nmkdir b\ncd b\nclear\ncurdir\n");
    assert_eq!(shell.current_directory(), 2);
    assert_eq!(shown(&shell), vec!["", " $ curdir", "/root/a/b", " $"]);
}

#[test]
fn mkdir_creates_and_says_so() {
    let mut shell = started();
    press(&mut shell, "mkdir docs\n");
    assert_eq!(
        shown(&shell),
        vec![" $ mkdir docs", "[Ok] Directory \"docs\" created successfully!", " $"]
    );
    assert_eq!(shell.file_system().resolve_child(0, b"docs"), Ok(1));
    assert_eq!(shell.current_directory(), 0);
}

#[test]
fn mkdir_reports_a_long_name() {
    let mut shell = started();
    press(&mut shell, "mkdir abcdefghijk\n");
    assert_eq!(
        shown(&shell)[1],
        "[Error] The maximum size of the directory name is 10 characters"
    );
    assert_eq!(shell.file_system().live_directories(), 1);
}

#[test]
fn mkdir_reports_an_empty_name() {
    let mut shell = started();
    press(&mut shell, "mkdir\n");
    assert_eq!(shown(&shell)[1], "[Error] The name is empty");
    assert_eq!(shell.execute_command(tokens(b"mkdir", b"")), Err(ShellError::NameEmpty));
}

#[test]
fn mkdir_reports_a_taken_name() {
    let mut shell = started();
    press(&mut shell, "mkdir a\nclear\nmkdir a\n");
    assert_eq!(shown(&shell), vec!["", " $ mkdir a", "[Error] name already exists: a", " $"]);
    assert_eq!(shell.execute_command(tokens(b"mkdir", b"a")), Err(ShellError::AlreadyExists));
}

#[test]
fn mkdir_reports_a_full_directory() {
    let mut shell = Shell::new();
    for i in 0..20u8 {
        assert_eq!(shell.execute_command(tokens(b"mkdir", &[b'a' + i])), Ok(()));
    }
    press(&mut shell, "clear\n");
    assert_eq!(shell.execute_command(tokens(b"mkdir", b"z")), Err(ShellError::ArenaExhausted));
    assert_eq!(shown(&shell), vec!["", " $", "[Error] No free slot is left"]);
}

#[test]
fn cd_moves_to_a_child_and_back() {
    let mut shell = started();
    press(&mut shell, "mkdir a\ncd a\n");
    assert_eq!(shell.current_directory(), 1);
    press(&mut shell, "cd .\n");
    assert_eq!(shell.current_directory(), 0);
    press(&mut shell, "cd .\n");
    assert_eq!(shell.current_directory(), 0);
}

#[test]
fn cd_to_an_unknown_name_stays_and_says_so() {
    let mut shell = started();
    press(&mut shell, "mkdir a\ncd a\nclear\ncd nope\n");
    assert_eq!(shell.current_directory(), 1);
    assert_eq!(shown(&shell), vec!["", " $ cd nope", "[Error] folder not found: nope", " $"]);
    assert!(shown(&shell)[2].contains("folder not found"));
    assert!(shown(&shell)[2].contains("nope"));
    assert_eq!(shell.execute_command(tokens(b"cd", b"nope")), Err(ShellError::NotFound));
    assert_eq!(shell.current_directory(), 1);
    assert_eq!(shell.file_system().live_directories(), 2);
}

#[test]
fn cd_with_two_dots_names_a_child() {
    let mut shell = started();
    press(&mut shell, "mkdir a\ncd a\nclear\ncd ..\n");
    assert_eq!(shell.current_directory(), 1);
    assert_eq!(shown(&shell), vec!["", " $ cd ..", "[Error] folder not found: ..", " $"]);
    press(&mut shell, "mkdir .x\ncd .x\n");
    assert_eq!(shell.current_directory(), 2);
    assert_eq!(shell.file_system().directory(2).parent_index, 1);
    press(&mut shell, "cd .\n");
    assert_eq!(shell.current_directory(), 1);
}

#[test]
fn dirtree_prints_children_under_their_parents() {
    let mut shell = started();
    press(&mut shell, "mkdir a\ncd a\nmkdir b\ncd .\nclear\ndirtree\n");
    assert_eq!(shell.current_directory(), 0);
    assert_eq!(shown(&shell), vec!["", " $ dirtree", "/a", "    /b", " $"]);
}

#[test]
fn deldir_deletes_an_empty_child() {
    let mut shell = started();
    press(&mut shell, "mkdir a\nclear\ndeldir a\n");
    assert_eq!(shell.file_system().live_directories(), 1);
    assert_eq!(shell.file_system().resolve_child(0, b"a"), Err(ShellError::NotFound));
    assert_eq!(shown(&shell), vec!["", " $ deldir a", " $"]);
}

#[test]
fn deldir_reports_a_child_with_children() {
    let mut shell = started();
    press(&mut shell, "mkdir a\ncd a\nmkdir b\ncd .\nclear\ndeldir a\n");
    assert_eq!(shell.file_system().live_directories(), 3);
    assert_eq!(shown(&shell), vec!["", " $ deldir a", "[Error] directory is not empty: a", " $"]);
    assert_eq!(shell.execute_command(tokens(b"deldir", b"a")), Err(ShellError::NotEmpty));
}

#[test]
fn deldir_reports_an_unknown_name() {
    let mut shell = started();
    press(&mut shell, "deldir a\n");
    assert_eq!(shown(&shell)[1], "[Error] folder not found: a");
    assert_eq!(shell.execute_command(tokens(b"deldir", b"a")), Err(ShellError::NotFound));
}

#[test]
fn clear_blanks_the_console() {
    let mut shell = started();
    press(&mut shell, "echo a\nclear\n");
    assert_eq!(shown(&shell), vec!["", " $"]);
    assert_eq!(shell.screen().current_row(), 1);
}

#[test]
fn mkfile_opens_the_file_for_writing() {
    let mut shell = started();
    press(&mut shell, "mkfile foo\n");
    assert!(shell.is_editing_file());
    assert_eq!(shell.current_editing_file(), 0);
    assert_eq!(shell.file_system().find_file(0, b"foo"), Ok(0));
    assert_eq!(shell.file_system().file(0).count_lines, 0);
    assert_eq!(shown(&shell), Vec::<String>::new());
    assert_eq!(shell.screen().current_row(), 0);
    assert_eq!(shell.screen().current_column(), 0);
    assert_eq!(shell.line().len(), 0);
}

#[test]
fn written_file_is_read_back() {
    let mut shell = started();
    press(&mut shell, "mkfile foo\n");
    press(&mut shell, "hi\n");
    assert!(shell.is_editing_file());
    assert_eq!(shell.file_system().file(0).count_lines, 1);
    assert_eq!(shown(&shell), vec!["hi"]);
    press(&mut shell, "\t");
    assert!(!shell.is_editing_file());
    assert_eq!(shell.current_editing_file(), 10);
    assert_eq!(shown(&shell), vec![" $"]);
    let content = shell.file_system().file(0).content;
    assert_eq!(&content[..2], b"hi");
    assert_eq!(&content[2..], &[b' '; 1998][..]);
    press(&mut shell, "readfile foo\n");
    let glyphs = shell.screen().get_buffer();
    let mut expected = [b' '; 80];
    expected[0] = b'h';
    expected[1] = b'i';
    assert_eq!(&glyphs[..80], &expected[..]);
    assert_eq!(shown(&shell), vec!["hi", " $"]);
}

#[test]
fn keys_go_to_the_file_while_it_is_written() {
    let mut shell = started();
    press(&mut shell, "mkfile foo\n");
    press(&mut shell, "mkdir a\nab");
    assert_eq!(shell.file_system().live_directories(), 1);
    assert_eq!(shell.line().len(), 0);
    assert_eq!(shown(&shell), vec!["mkdir a", "ab"]);
    shell.on_key_pressed(8);
    assert_eq!(shown(&shell), vec!["mkdir a", "a"]);
    shell.on_key_pressed(8);
    shell.on_key_pressed(8);
    assert_eq!(shown(&shell), vec!["mkdir a"]);
    assert_eq!(shell.screen().current_row(), 1);
    assert_eq!(shell.file_system().file(0).count_lines, 1);
}

#[test]
fn tab_does_nothing_while_a_line_is_typed() {
    let mut shell = started();
    press(&mut shell, "ec\tho x\n");
    assert_eq!(shown(&shell), vec![" $ echo x", "x", " $"]);
}

#[test]
fn editfile_writes_the_file_anew() {
    let mut shell = started();
    press(&mut shell, "mkfile foo\none\ntwo\n\t");
    assert_eq!(shell.file_system().file(0).count_lines, 2);
    press(&mut shell, "editfile foo\n");
    assert!(shell.is_editing_file());
    assert_eq!(shell.current_editing_file(), 0);
    assert_eq!(shell.file_system().file(0).count_lines, 0);
    assert_eq!(shown(&shell), Vec::<String>::new());
    press(&mut shell, "new\n\t");
    press(&mut shell, "readfile foo\n");
    assert_eq!(shown(&shell), vec!["new", " $"]);
}

#[test]
fn file_commands_report_an_unknown_name() {
    let mut shell = started();
    press(&mut shell, "readfile foo\n");
    assert_eq!(shown(&shell), vec![" $ readfile foo", "[Error] file not found: foo", " $"]);
    assert_eq!(shell.execute_command(tokens(b"editfile", b"foo")), Err(ShellError::NotFound));
    assert_eq!(shell.execute_command(tokens(b"delfile", b"foo")), Err(ShellError::NotFound));
    assert_eq!(shell.execute_command(tokens(b"readfile", b"foo")), Err(ShellError::NotFound));
    assert!(!shell.is_editing_file());
}

#[test]
fn mkfile_reports_a_long_name() {
    let mut shell = started();
    press(&mut shell, "mkfile abcdefghijk\n");
    assert_eq!(shown(&shell)[1], "[Error] The maximum size of the file name is 10 characters");
    assert!(!shell.is_editing_file());
    assert_eq!(
        shell.execute_command(tokens(b"mkfile", b"abcdefghijk")),
        Err(ShellError::NameTooLong)
    );
}

#[test]
fn mkfile_reports_a_full_directory() {
    let mut shell = started();
    for name in ["a", "b", "c", "d", "e"] {
        press(&mut shell, "mkfile ");
        press(&mut shell, name);
        press(&mut shell, "\n\t");
    }
    assert_eq!(shell.execute_command(tokens(b"mkfile", b"f")), Err(ShellError::ArenaExhausted));
    assert!(!shell.is_editing_file());
    assert_eq!(shell.current_editing_file(), 10);
}

#[test]
fn ls_lists_the_files() {
    let mut shell = started();
    press(&mut shell, "mkfile one\n\tmkfile two\n\tls\n");
    assert_eq!(shown(&shell), vec![" $ ls", "one two", " $"]);
}

#[test]
fn delfile_deletes_the_file() {
    let mut shell = started();
    press(&mut shell, "mkfile one\n\tdelfile one\n");
    assert_eq!(shell.file_system().find_file(0, b"one"), Err(ShellError::NotFound));
    assert!(!shell.file_system().is_live_file(0));
    assert_eq!(shown(&shell), vec![" $ delfile one", " $"]);
}

#[test]
fn backspace_keeps_the_prompt() {
    let mut shell = started();
    press(&mut shell, "ab");
    shell.on_key_pressed(8);
    assert_eq!(shown(&shell), vec![" $ a"]);
    assert_eq!(shell.line().len(), 1);
    shell.on_key_pressed(8);
    shell.on_key_pressed(8);
    shell.on_key_pressed(8);
    assert_eq!(shown(&shell), vec![" $"]);
    assert_eq!(shell.screen().current_column(), 3);
    assert_eq!(shell.line().len(), 0);
    press(&mut shell, "echo x\n");
    assert_eq!(shown(&shell), vec![" $ echo x", "x", " $"]);
}

#[test]
fn arrow_codes_and_control_codes_do_nothing() {
    let mut shell = started();
    press(&mut shell, "ec");
    for key in [37u8, 38, 39, 40, 0, 1, 7, 13, 27, 31, 127] {
        shell.on_key_pressed(key);
    }
    press(&mut shell, "ho x");
    assert_eq!(shown(&shell), vec![" $ echo x"]);
    assert_eq!(shell.line().len(), 6);
}

#[test]
fn a_full_line_takes_no_more_glyphs_and_says_so() {
    let mut shell = started();
    for _ in 0..80 {
        shell.on_key_pressed(b'a');
    }
    assert_eq!(shell.line().len(), 80);
    let mut first = String::from(" $ ");
    first.push_str(&"a".repeat(77));
    assert_eq!(shown(&shell), vec![first.clone(), String::from("aaa")]);
    shell.on_key_pressed(b'b');
    assert_eq!(shell.line().len(), 80);
    assert_eq!(
        shown(&shell),
        vec![first, String::from("aaa"), String::from("[Error] The line is full")]
    );
    let (cmd, argument) = shell.line().split().unwrap();
    assert_eq!(cmd, [b'a'; 10]);
    assert_eq!(argument, [b'a'; 70]);
}

#[test]
fn a_long_argument_is_reported() {
    let mut shell = started();
    press(&mut shell, "echo ");
    for _ in 0..71 {
        shell.on_key_pressed(b'x');
    }
    press(&mut shell, "\n");
    let rows = shown(&shell);
    assert_eq!(rows[rows.len() - 2], "[Error] The maximum size of the argument is 70 characters");
    assert_eq!(rows[rows.len() - 1], " $");
    assert_eq!(shell.line().len(), 0);
}

#[test]
fn decoded_character_is_a_keystroke() {
    let mut shell = started();
    handle_keyboard_interrupt(&mut shell, DecodedKey::Unicode('l'));
    handle_keyboard_interrupt(&mut shell, DecodedKey::Unicode('s'));
    assert_eq!(shown(&shell), vec![" $ ls"]);
    assert_eq!(shell.line().len(), 2);
    handle_keyboard_interrupt(&mut shell, DecodedKey::Unicode('\n'));
    assert_eq!(shown(&shell), vec![" $ ls", "", " $"]);
}

#[test]
fn raw_key_does_nothing() {
    let mut shell = started();
    handle_keyboard_interrupt(&mut shell, DecodedKey::RawKey(KeyCode::ArrowUp));
    handle_keyboard_interrupt(&mut shell, DecodedKey::RawKey(KeyCode::F1));
    assert_eq!(shown(&shell), vec![" $"]);
    assert_eq!(shell.line().len(), 0);
}

#[test]
fn a_character_is_taken_by_its_low_byte() {
    let mut shell = started();
    handle_character(&mut shell, Some('\u{161}'));
    handle_character(&mut shell, None);
    assert_eq!(shell.line().len(), 1);
    assert_eq!(shell.screen().get_buffer()[3], 0x61);
    assert_eq!(unios::keys::key_byte('\u{161}'), 0x61);
    assert_eq!(unios::keys::key_byte('a'), 0x61);
}
