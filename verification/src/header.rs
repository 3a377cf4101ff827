use crate::cursor::{has_bytes, le_u16, le_u32, ByteCursor, Step};
use crate::error::ReadError;
use crate::song::{Header, HeaderView};
use crate::text::{read_utf8_string, string_at};
use vstd::prelude::*;

verus! {

/// Reading the header of a song at `pos`.
///
/// It is made of five bytes of counts, four strings, twenty-five bytes of
/// tempo, flags and statistics, one more string and four bytes of loop
/// settings, in this order.
pub open spec fn header_at(bytes: Seq<u8>, pos: int) -> Step<HeaderView> {
    if !has_bytes(bytes, pos, 5) {
        Step::cut_short(bytes)
    } else {
        let name = string_at(bytes, pos + 5);
        match name.outcome {
            Err(error) => Step::fail(error, name.end),
            Ok(song_name) => {
                let author = string_at(bytes, name.end);
                match author.outcome {
                    Err(error) => Step::fail(error, author.end),
                    Ok(song_author) => {
                        let original = string_at(bytes, author.end);
                        match original.outcome {
                            Err(error) => Step::fail(error, original.end),
                            Ok(song_original_author) => {
                                let description = string_at(bytes, original.end);
                                match description.outcome {
                                    Err(error) => Step::fail(error, description.end),
                                    Ok(song_description) => header_tail_at(
                                        bytes,
                                        pos,
                                        description.end,
                                        song_name,
                                        song_author,
                                        song_original_author,
                                        song_description,
                                    ),
                                }
                            },
                        }
                    },
                }
            },
        }
    }
}

/// Reading what follows the four strings of the header that starts at
/// `start`: the fields from the tempo on, which begin at `pos`.
pub open spec fn header_tail_at(
    bytes: Seq<u8>,
    start: int,
    pos: int,
    song_name: Seq<char>,
    song_author: Seq<char>,
    song_original_author: Seq<char>,
    song_description: Seq<char>,
) -> Step<HeaderView> {
    if !has_bytes(bytes, pos, 25) {
        Step::cut_short(bytes)
    } else {
        let schematic = string_at(bytes, pos + 25);
        match schematic.outcome {
            Err(error) => Step::fail(error, schematic.end),
            Ok(schematic_file_name) => if !has_bytes(bytes, schematic.end, 4) {
                Step::cut_short(bytes)
            } else {
                Step::ok(
                    HeaderView {
                        vanilla_instrument_count: bytes[start],
                        song_length: le_u16(bytes, start + 1),
                        layer_count: le_u16(bytes, start + 3),
                        song_name,
                        song_author,
                        song_original_author,
                        song_description,
                        song_tempo: le_u16(bytes, pos),
                        auto_saving: bytes[pos + 2],
                        auto_saving_duration: bytes[pos + 3],
                        time_signature: bytes[pos + 4],
                        minutes_spent: le_u32(bytes, pos + 5),
                        left_clicks: le_u32(bytes, pos + 9),
                        right_clicks: le_u32(bytes, pos + 13),
                        note_blocks_added: le_u32(bytes, pos + 17),
                        note_blocks_removed: le_u32(bytes, pos + 21),
                        schematic_file_name,
                        loop_on: bytes[schematic.end],
                        max_loop_count: bytes[schematic.end + 1],
                        loop_start_tick: le_u16(bytes, schematic.end + 2),
                    },
                    schematic.end + 4,
                )
            },
        }
    }
}

/// Reads the header of a song, field by field.
pub fn read_header(cursor: &mut ByteCursor) -> (header: Result<Header, ReadError>)
    ensures
        final(cursor).bytes() == old(cursor).bytes(),
        final(cursor).position() == header_at(old(cursor).bytes(), old(cursor).position()).end,
        match header {
            Ok(found) => header_at(old(cursor).bytes(), old(cursor).position()).outcome == Ok::<
                HeaderView,
                ReadError,
            >(found@),
            Err(error) => header_at(old(cursor).bytes(), old(cursor).position()).outcome == Err::<
                HeaderView,
                ReadError,
            >(error),
        },
{
    let vanilla_instrument_count = cursor.read_u8()?;
    let song_length = cursor.read_u16()?;
    let layer_count = cursor.read_u16()?;
    let song_name = read_utf8_string(cursor)?;
    let song_author = read_utf8_string(cursor)?;
    let song_original_author = read_utf8_string(cursor)?;
    let song_description = read_utf8_string(cursor)?;
    let song_tempo = cursor.read_u16()?;
    let auto_saving = cursor.read_u8()?;
    let auto_saving_duration = cursor.read_u8()?;
    let time_signature = cursor.read_u8()?;
    let minutes_spent = cursor.read_u32()?;
    let left_clicks = cursor.read_u32()?;
    let right_clicks = cursor.read_u32()?;
    let note_blocks_added = cursor.read_u32()?;
    let note_blocks_removed = cursor.read_u32()?;
    let schematic_file_name = read_utf8_string(cursor)?;
    let loop_on = cursor.read_u8()?;
    let max_loop_count = cursor.read_u8()?;
    let loop_start_tick = cursor.read_u16()?;
    Ok(
        Header {
            vanilla_instrument_count,
            song_length,
            layer_count,
            song_name,
            song_author,
            song_original_author,
            song_description,
            song_tempo,
            auto_saving,
            auto_saving_duration,
            time_signature,
            minutes_spent,
            left_clicks,
            right_clicks,
            note_blocks_added,
            note_blocks_removed,
            schematic_file_name,
            loop_on,
            max_loop_count,
            loop_start_tick,
        },
    )
}

} // verus!
