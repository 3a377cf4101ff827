use nbs_decoder::{read_utf8_string, ByteCursor, ReadError};

fn stored(text: &str) -> Vec<u8> {
    let mut bytes = (text.len() as u32).to_le_bytes().to_vec();
    bytes.extend_from_slice(text.as_bytes());
    bytes
}

#[test]
fn string_round_trip() {
    for text in ["a", "Hello, world", "Für Elise", "音楽", "🎵 notes 🎵", "\u{0}\u{7f}\u{80}\u{7ff}\u{800}\u{ffff}\u{10000}\u{10ffff}"] {
        let bytes = stored(text);
        let mut cursor = ByteCursor::new(&bytes);
        assert_eq!(read_utf8_string(&mut cursor), Ok(text.to_string()));
        assert_eq!(cursor.consumed(), bytes.len());
    }
}

#[test]
fn empty_string_round_trip() {
    let bytes = stored("");
    assert_eq!(bytes, vec![0, 0, 0, 0]);
    let mut cursor = ByteCursor::new(&bytes);
    assert_eq!(read_utf8_string(&mut cursor), Ok(String::new()));
    assert_eq!(cursor.consumed(), 4);
}

#[test]
fn zero_length_reads_no_further_byte() {
    let bytes = [0u8, 0, 0, 0, 0xff, 0xfe];
    let mut cursor = ByteCursor::new(&bytes);
    assert_eq!(read_utf8_string(&mut cursor), Ok(String::new()));
    assert_eq!(cursor.consumed(), 4);
    assert_eq!(cursor.remaining(), 2);
}

#[test]
fn string_length_counts_bytes_not_characters() {
    let bytes = [2u8, 0, 0, 0, 0xc3, 0xa9, b'x'];
    let mut cursor = ByteCursor::new(&bytes);
    assert_eq!(read_utf8_string(&mut cursor), Ok("é".to_string()));
    assert_eq!(cursor.consumed(), 6);
    assert_eq!(cursor.read_u8(), Ok(b'x'));
}

#[test]
fn strings_follow_one_another() {
    let mut bytes = stored("first");
    bytes.extend(stored(""));
    bytes.extend(stored("third"));
    let mut cursor = ByteCursor::new(&bytes);
    assert_eq!(read_utf8_string(&mut cursor), Ok("first".to_string()));
    assert_eq!(read_utf8_string(&mut cursor), Ok(String::new()));
    assert_eq!(read_utf8_string(&mut cursor), Ok("third".to_string()));
    assert_eq!(cursor.remaining(), 0);
}

#[test]
fn truncated_string_is_an_unexpected_end() {
    let bytes = [10u8, 0, 0, 0, b'a', b'b', b'c'];
    let mut cursor = ByteCursor::new(&bytes);
    assert_eq!(read_utf8_string(&mut cursor), Err(ReadError::UnexpectedEnd));
    assert_eq!(cursor.remaining(), 0);
}

#[test]
fn truncated_length_is_an_unexpected_end() {
    for length in 0..4usize {
        let bytes = vec![1u8; length];
        let mut cursor = ByteCursor::new(&bytes);
        assert_eq!(read_utf8_string(&mut cursor), Err(ReadError::UnexpectedEnd));
    }
}

#[test]
fn every_cut_of_a_string_is_an_unexpected_end() {
    let bytes = stored("Für Elise");
    for cut in 0..bytes.len() {
        let mut cursor = ByteCursor::new(&bytes[..cut]);
        assert_eq!(read_utf8_string(&mut cursor), Err(ReadError::UnexpectedEnd));
    }
}

#[test]
fn huge_declared_length_is_an_unexpected_end() {
    let bytes = [0xffu8, 0xff, 0xff, 0xff, b'a'];
    let mut cursor = ByteCursor::new(&bytes);
    assert_eq!(read_utf8_string(&mut cursor), Err(ReadError::UnexpectedEnd));
}

#[test]
fn invalid_utf8_is_invalid_text() {
    for body in [vec![0xffu8], vec![0xc3], vec![0xc3, 0x28], vec![0xe2, 0x82], vec![0xed, 0xa0, 0x80], vec![0xc0, 0x80], vec![0xf4, 0x90, 0x80, 0x80], vec![b'o', b'k', 0x80]] {
        let mut bytes = (body.len() as u32).to_le_bytes().to_vec();
        bytes.extend_from_slice(&body);
        let mut cursor = ByteCursor::new(&bytes);
        assert_eq!(read_utf8_string(&mut cursor), Err(ReadError::InvalidText));
        assert_eq!(cursor.consumed(), bytes.len());
    }
}

#[test]
fn cut_comes_before_invalid_text() {
    let bytes = [3u8, 0, 0, 0, 0xff, 0xff];
    let mut cursor = ByteCursor::new(&bytes);
    assert_eq!(read_utf8_string(&mut cursor), Err(ReadError::UnexpectedEnd));
}

#[test]
fn string_agrees_with_std_decoding() {
    let text = "Nyan cat – ニャンキャット";
    let bytes = stored(text);
    let mut cursor = ByteCursor::new(&bytes);
    let read = read_utf8_string(&mut cursor).unwrap();
    assert_eq!(read.as_bytes(), &bytes[4..]);
    assert_eq!(read.chars().count(), text.chars().count());
}
