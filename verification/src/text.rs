use crate::cursor::{bytes_at, u32_at, ByteCursor, Step};
use crate::error::ReadError;
use vstd::prelude::*;
use vstd::utf8::*;

verus! {

/// The error type of `String::from_utf8`. Nothing is said of its contents.
#[verifier::external_type_specification]
#[verifier::external_body]
pub struct ExFromUtf8Error(std::string::FromUtf8Error);

/// `String::from_utf8` succeeds on the byte vectors that are valid UTF-8 and
/// on no others, and the string that it returns is made of the bytes that it
/// was given.
pub assume_specification[ String::from_utf8 ](vec: Vec<u8>) -> (text: Result<
    String,
    std::string::FromUtf8Error,
>)
    ensures
        text is Ok <==> valid_utf8(vec@),
        text matches Ok(string) ==> encode_utf8(string@) == vec@,
;

/// Reading a string at `pos`: its length in bytes as an unsigned 32-bit
/// number, then that many bytes of UTF-8.
///
/// The bytes are looked at only when all of them are there, so a string that
/// is cut short is reported as such even if what is left of it is not valid
/// UTF-8.
pub open spec fn string_at(bytes: Seq<u8>, pos: int) -> Step<Seq<char>> {
    let length = u32_at(bytes, pos);
    match length.outcome {
        Err(error) => Step::fail(error, length.end),
        Ok(count) => {
            let body = bytes_at(bytes, length.end, count as int);
            match body.outcome {
                Err(error) => Step::fail(error, body.end),
                Ok(raw) => if valid_utf8(raw) {
                    Step::ok(decode_utf8(raw), body.end)
                } else {
                    Step::fail(ReadError::InvalidText, body.end)
                },
            }
        },
    }
}

/// Reads a string: its length in bytes, then its bytes.
pub fn read_utf8_string(cursor: &mut ByteCursor) -> (text: Result<String, ReadError>)
    ensures
        final(cursor).bytes() == old(cursor).bytes(),
        final(cursor).position() == string_at(old(cursor).bytes(), old(cursor).position()).end,
        match text {
            Ok(string) => string_at(old(cursor).bytes(), old(cursor).position()).outcome == Ok::<
                Seq<char>,
                ReadError,
            >(string@),
            Err(error) => string_at(old(cursor).bytes(), old(cursor).position()).outcome == Err::<
                Seq<char>,
                ReadError,
            >(error),
        },
{
    let length = cursor.read_u32()?;
    if length == 0 {
        return Ok(String::new());
    }
    let raw = cursor.read_bytes(length as usize)?;
    match String::from_utf8(raw) {
        Ok(string) => {
            proof {
                encode_utf8_decode_utf8(string@);
            }
            Ok(string)
        },
        Err(_) => Err(ReadError::InvalidText),
    }
}

/// The four bytes that spell `value`, low byte first.
pub open spec fn u32_le_bytes(value: u32) -> Seq<u8> {
    seq![
        (value % 0x100) as u8,
        (value / 0x100 % 0x100) as u8,
        (value / 0x1_0000 % 0x100) as u8,
        (value / 0x100_0000) as u8,
    ]
}

/// The bytes that store `text` as a string: the length of its UTF-8
/// encoding, then the encoding.
pub open spec fn string_field(text: Seq<char>) -> Seq<u8> {
    u32_le_bytes(encode_utf8(text).len() as u32) + encode_utf8(text)
}

/// A stored string reads back as itself: wherever the bytes of
/// [`string_field`] stand in a stream, reading a string at their start gives
/// the text that was stored and stops right behind them. The empty text is
/// stored as a zero length alone and reads back as the empty text.
pub proof fn lemma_string_round_trip(before: Seq<u8>, text: Seq<char>, after: Seq<u8>)
    requires
        encode_utf8(text).len() <= u32::MAX,
    ensures
        string_at(before + string_field(text) + after, before.len() as int) == Step::ok(
            text,
            (before.len() + string_field(text).len()) as int,
        ),
        text.len() == 0 ==> string_field(text) == u32_le_bytes(0),
{
    let encoded = encode_utf8(text);
    let count = encoded.len() as u32;
    let bytes = before + string_field(text) + after;
    let pos = before.len() as int;
    assert(bytes[pos] == u32_le_bytes(count)[0]);
    assert(bytes[pos + 1] == u32_le_bytes(count)[1]);
    assert(bytes[pos + 2] == u32_le_bytes(count)[2]);
    assert(bytes[pos + 3] == u32_le_bytes(count)[3]);
    assert(crate::cursor::le_u32(bytes, pos) == count);
    assert(bytes.subrange(pos + 4, pos + 4 + count) =~= encoded);
    encode_utf8_valid_utf8(text);
    encode_utf8_decode_utf8(text);
    if text.len() == 0 {
        assert(string_field(text) =~= u32_le_bytes(0));
    }
}

} // verus!
