use unios::names::{compare_str_with_arr, holds_text, text_len};

fn token(text: &[u8]) -> [u8; 10] {
    let mut arr = [0u8; 10];
    arr[..text.len()].copy_from_slice(text);
    arr
}

#[test]
fn text_len_skips_the_padding() {
    assert_eq!(text_len(b"abc\0\0"), 3);
    assert_eq!(text_len(b"abc"), 3);
    assert_eq!(text_len(b"\0\0"), 0);
    assert_eq!(text_len(b""), 0);
    assert_eq!(text_len(b"a\0b\0"), 3);
}

#[test]
fn holds_text_compares_the_texts() {
    assert!(holds_text(b"foo\0\0\0\0\0\0\0", b"foo"));
    assert!(holds_text(b"foo\0\0\0\0\0\0\0", b"foo\0\0"));
    assert!(!holds_text(b"foo\0\0\0\0\0\0\0", b"fo"));
    assert!(!holds_text(b"foo\0\0\0\0\0\0\0", b"fooo"));
    assert!(!holds_text(b"foo\0\0\0\0\0\0\0", b"Foo"));
    assert!(holds_text(b"\0\0", b""));
}

#[test]
fn compare_str_with_arr_matches_the_whole_token() {
    assert!(compare_str_with_arr("echo", token(b"echo")));
    assert!(compare_str_with_arr("ls", token(b"ls")));
    assert!(compare_str_with_arr("abcdefghij", token(b"abcdefghij")));
}

#[test]
fn compare_str_with_arr_refuses_a_longer_token() {
    assert!(!compare_str_with_arr("ls", token(b"lsblk")));
    assert!(!compare_str_with_arr("cd", token(b"cdx")));
}

#[test]
fn compare_str_with_arr_refuses_a_shorter_token() {
    assert!(!compare_str_with_arr("mkdir", token(b"mk")));
    assert!(!compare_str_with_arr("echo", token(b"")));
}

#[test]
fn compare_str_with_arr_is_case_sensitive() {
    assert!(!compare_str_with_arr("echo", token(b"Echo")));
    assert!(!compare_str_with_arr("echo", token(b"ECHO")));
}

#[test]
fn compare_str_with_arr_refuses_a_string_longer_than_the_token() {
    assert!(!compare_str_with_arr("abcdefghijk", token(b"abcdefghij")));
}

#[test]
fn compare_str_with_arr_takes_the_empty_string_for_the_empty_token() {
    assert!(compare_str_with_arr("", token(b"")));
    assert!(!compare_str_with_arr("", token(b"a")));
}
