use unios::error::ShellError;
use unios::parser::{mu_split, LineBuffer};

fn line(text: &[u8]) -> [u8; 80] {
    let mut arr = [0u8; 80];
    arr[..text.len()].copy_from_slice(text);
    arr
}

fn padded<const N: usize>(text: &[u8]) -> [u8; N] {
    let mut arr = [0u8; N];
    arr[..text.len()].copy_from_slice(text);
    arr
}

fn text_of(token: &[u8]) -> Vec<u8> {
    let mut n = token.len();
    while n > 0 && token[n - 1] == 0 {
        n -= 1;
    }
    token[..n].to_vec()
}

#[test]
fn split_parts_command_and_argument() {
    let (cmd, argument) = mu_split(line(b"mkdir foo"), 9).unwrap();
    assert_eq!(cmd, padded::<10>(b"mkdir"));
    assert_eq!(argument, padded::<70>(b"foo"));
}

#[test]
fn split_without_space_has_no_argument() {
    let (cmd, argument) = mu_split(line(b"ls"), 2).unwrap();
    assert_eq!(cmd, padded::<10>(b"ls"));
    assert_eq!(argument, [0u8; 70]);
}

#[test]
fn split_of_the_empty_line_is_empty() {
    let (cmd, argument) = mu_split(line(b""), 0).unwrap();
    assert_eq!(cmd, [0u8; 10]);
    assert_eq!(argument, [0u8; 70]);
}

#[test]
fn split_looks_at_the_typed_bytes_only() {
    let (cmd, argument) = mu_split(line(b"lsdir foo"), 2).unwrap();
    assert_eq!(cmd, padded::<10>(b"ls"));
    assert_eq!(argument, [0u8; 70]);
}

#[test]
fn split_skips_one_space_only() {
    let (cmd, argument) = mu_split(line(b"echo  a b"), 9).unwrap();
    assert_eq!(cmd, padded::<10>(b"echo"));
    assert_eq!(argument, padded::<70>(b" a b"));
}

#[test]
fn split_with_a_trailing_space_has_no_argument() {
    let (cmd, argument) = mu_split(line(b"ls "), 3).unwrap();
    assert_eq!(cmd, padded::<10>(b"ls"));
    assert_eq!(argument, [0u8; 70]);
}

#[test]
fn split_takes_a_command_of_ten_bytes() {
    let (cmd, argument) = mu_split(line(b"abcdefghij xyz"), 14).unwrap();
    assert_eq!(cmd, padded::<10>(b"abcdefghij"));
    assert_eq!(argument, padded::<70>(b"xyz"));
}

#[test]
fn split_cuts_a_longer_word_after_ten_bytes() {
    let (cmd, argument) = mu_split(line(b"abcdefghijklmno"), 15).unwrap();
    assert_eq!(cmd, padded::<10>(b"abcdefghij"));
    assert_eq!(argument, padded::<70>(b"klmno"));
}

#[test]
fn split_with_a_leading_space_has_an_empty_command() {
    let (cmd, argument) = mu_split(line(b" x"), 2).unwrap();
    assert_eq!(cmd, [0u8; 10]);
    assert_eq!(argument, padded::<70>(b"x"));
}

#[test]
fn split_takes_an_argument_of_seventy_bytes() {
    let mut text = b"a ".to_vec();
    text.extend_from_slice(&[b'x'; 70]);
    let (cmd, argument) = mu_split(line(&text), 72).unwrap();
    assert_eq!(cmd, padded::<10>(b"a"));
    assert_eq!(argument, [b'x'; 70]);
}

#[test]
fn split_refuses_an_argument_of_seventy_one_bytes() {
    let mut text = b"a ".to_vec();
    text.extend_from_slice(&[b'x'; 71]);
    assert_eq!(mu_split(line(&text), 73), Err(ShellError::ArgumentTooLong));
}

#[test]
fn split_refuses_a_full_line_with_a_short_command() {
    let mut text = b"echo ".to_vec();
    text.extend_from_slice(&[b'y'; 75]);
    assert_eq!(mu_split(line(&text), 80), Err(ShellError::ArgumentTooLong));
}

#[test]
fn split_takes_a_full_line_with_a_long_command() {
    let mut text = b"abcdefghi ".to_vec();
    text.extend_from_slice(&[b'y'; 70]);
    let (cmd, argument) = mu_split(line(&text), 80).unwrap();
    assert_eq!(cmd, padded::<10>(b"abcdefghi"));
    assert_eq!(argument, [b'y'; 70]);
}

#[test]
fn tokens_joined_by_a_space_give_the_line_back() {
    let text = b"mkdir projects";
    let (cmd, argument) = mu_split(line(text), text.len()).unwrap();
    let mut joined = text_of(&cmd);
    joined.push(b' ');
    joined.extend_from_slice(&text_of(&argument));
    assert_eq!(joined, text.to_vec());
}

#[test]
fn line_buffer_collects_bytes() {
    let mut buffer = LineBuffer::new();
    assert_eq!(buffer.len(), 0);
    assert_eq!(buffer.append(b'c'), Ok(()));
    assert_eq!(buffer.append(b'd'), Ok(()));
    assert_eq!(buffer.append(b' '), Ok(()));
    assert_eq!(buffer.append(b'x'), Ok(()));
    assert_eq!(buffer.len(), 4);
    let (cmd, argument) = buffer.split().unwrap();
    assert_eq!(cmd, padded::<10>(b"cd"));
    assert_eq!(argument, padded::<70>(b"x"));
}

#[test]
fn line_buffer_is_full_at_eighty_bytes() {
    let mut buffer = LineBuffer::new();
    for _ in 0..80 {
        assert_eq!(buffer.append(b'a'), Ok(()));
    }
    assert_eq!(buffer.append(b'b'), Err(ShellError::BufferFull));
    assert_eq!(buffer.len(), 80);
}

#[test]
fn line_buffer_backspace_takes_the_last_byte() {
    let mut buffer = LineBuffer::new();
    buffer.backspace();
    assert_eq!(buffer.len(), 0);
    let _ = buffer.append(b'l');
    let _ = buffer.append(b's');
    let _ = buffer.append(b'x');
    buffer.backspace();
    assert_eq!(buffer.len(), 2);
    let (cmd, _) = buffer.split().unwrap();
    assert_eq!(cmd, padded::<10>(b"ls"));
}

#[test]
fn line_buffer_clear_empties_the_line() {
    let mut buffer = LineBuffer::new();
    let _ = buffer.append(b'l');
    let _ = buffer.append(b's');
    buffer.clear();
    assert_eq!(buffer.len(), 0);
    let (cmd, argument) = buffer.split().unwrap();
    assert_eq!(cmd, [0u8; 10]);
    assert_eq!(argument, [0u8; 70]);
}
