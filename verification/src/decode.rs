use crate::cursor::{has_bytes, le_u16, u16_at, u8_at, ByteCursor, Step};
use crate::error::ReadError;
use crate::header::{header_at, read_header};
use crate::layers::{instrument_list_at, layers_at, read_custom_instruments, read_layers};
use crate::notes::{note_table_at, read_notes};
use crate::song::{assemble, Data, DataView, FORMAT_VERSION};
use vstd::prelude::*;

verus! {

/// Reading the body of a version 5 song at `pos`, the position behind the
/// version byte: the header, the note table, as many layers as the header
/// declares, and the custom instruments.
///
/// The song length that the header declares bounds nothing: the note table
/// ends where its closing jump stands.
pub open spec fn song_at(bytes: Seq<u8>, pos: int) -> Step<DataView> {
    let header = header_at(bytes, pos);
    match header.outcome {
        Err(error) => Step::fail(error, header.end),
        Ok(head) => {
            let notes = note_table_at(bytes, header.end, head.song_tempo);
            match notes.outcome {
                Err(error) => Step::fail(error, notes.end),
                Ok(played) => {
                    let layers = layers_at(bytes, notes.end, head.layer_count as nat);
                    match layers.outcome {
                        Err(error) => Step::fail(error, layers.end),
                        Ok(tracks) => {
                            let instruments = instrument_list_at(bytes, layers.end);
                            match instruments.outcome {
                                Err(error) => Step::fail(error, instruments.end),
                                Ok(sounds) => Step::ok(
                                    DataView {
                                        version: FORMAT_VERSION,
                                        header: head,
                                        notes: played,
                                        layers: tracks,
                                        custom_instruments: sounds,
                                    },
                                    instruments.end,
                                ),
                            }
                        },
                    }
                },
            }
        },
    }
}

/// Reading a song file at `pos`: a protocol marker of two bytes, which must
/// be zero, a version byte, which must be 5, and the body of the song.
///
/// A marker or a version that is refused ends the reading where it stands.
pub open spec fn file_at(bytes: Seq<u8>, pos: int) -> Step<DataView> {
    let marker = u16_at(bytes, pos);
    match marker.outcome {
        Err(error) => Step::fail(error, marker.end),
        Ok(protocol) => if protocol != 0 {
            Step::fail(ReadError::UnsupportedFormat, marker.end)
        } else {
            let version = u8_at(bytes, marker.end);
            match version.outcome {
                Err(error) => Step::fail(error, version.end),
                Ok(number) => if number != FORMAT_VERSION {
                    Step::fail(ReadError::UnsupportedVersion, version.end)
                } else {
                    song_at(bytes, version.end)
                },
            }
        },
    }
}

/// Reads the body of a version 5 song: what follows the version byte.
pub fn handle_version_5(cursor: &mut ByteCursor) -> (song: Result<Data, ReadError>)
    ensures
        final(cursor).bytes() == old(cursor).bytes(),
        final(cursor).position() == song_at(old(cursor).bytes(), old(cursor).position()).end,
        match song {
            Ok(data) => song_at(old(cursor).bytes(), old(cursor).position()).outcome == Ok::<
                DataView,
                ReadError,
            >(data@),
            Err(error) => song_at(old(cursor).bytes(), old(cursor).position()).outcome == Err::<
                DataView,
                ReadError,
            >(error),
        },
{
    let header = read_header(cursor)?;
    let notes = read_notes(cursor, header.song_tempo)?;
    let layers = read_layers(cursor, header.layer_count)?;
    let custom_instruments = read_custom_instruments(cursor)?;
    Ok(assemble(header, notes, layers, custom_instruments))
}

/// Reads a song file from its protocol marker on, and refuses every format
/// but version 5.
pub fn read_file(cursor: &mut ByteCursor) -> (song: Result<Data, ReadError>)
    ensures
        final(cursor).bytes() == old(cursor).bytes(),
        final(cursor).position() == file_at(old(cursor).bytes(), old(cursor).position()).end,
        match song {
            Ok(data) => file_at(old(cursor).bytes(), old(cursor).position()).outcome == Ok::<
                DataView,
                ReadError,
            >(data@),
            Err(error) => file_at(old(cursor).bytes(), old(cursor).position()).outcome == Err::<
                DataView,
                ReadError,
            >(error),
        },
{
    let protocol = cursor.read_u16()?;
    if protocol != 0 {
        return Err(ReadError::UnsupportedFormat);
    }
    let version = cursor.read_u8()?;
    if version != FORMAT_VERSION {
        return Err(ReadError::UnsupportedVersion);
    }
    handle_version_5(cursor)
}

/// Decodes the song file that `bytes` holds. Bytes behind the last custom
/// instrument are not looked at.
pub fn parse(bytes: &[u8]) -> (song: Result<Data, ReadError>)
    ensures
        match song {
            Ok(data) => file_at(bytes@, 0).outcome == Ok::<DataView, ReadError>(data@),
            Err(error) => file_at(bytes@, 0).outcome == Err::<DataView, ReadError>(error),
        },
{
    let mut cursor = ByteCursor::new(bytes);
    read_file(&mut cursor)
}

/// Decoding is a function of the bytes alone: two inputs of the same length
/// that hold the same byte at every position give the same song, or the
/// same error.
pub proof fn lemma_same_bytes_same_song(first: Seq<u8>, second: Seq<u8>)
    requires
        first.len() == second.len(),
        forall|i: int| 0 <= i < first.len() ==> first[i] == second[i],
    ensures
        file_at(first, 0) == file_at(second, 0),
{
    assert(first =~= second);
}

/// A file whose marker is zero and whose version byte is not 5 is refused
/// as an unsupported version, and the reading stops behind the version
/// byte: whatever follows it, or whether anything does, makes no
/// difference.
pub proof fn lemma_other_versions_are_refused(bytes: Seq<u8>, pos: int)
    requires
        has_bytes(bytes, pos, 3),
        le_u16(bytes, pos) == 0,
        bytes[pos + 2] != FORMAT_VERSION,
    ensures
        file_at(bytes, pos) == Step::<DataView>::fail(ReadError::UnsupportedVersion, pos + 3),
{
}

/// A file whose marker is not zero is refused as an unsupported format, and
/// the reading stops behind the marker.
pub proof fn lemma_other_markers_are_refused(bytes: Seq<u8>, pos: int)
    requires
        has_bytes(bytes, pos, 2),
        le_u16(bytes, pos) != 0,
    ensures
        file_at(bytes, pos) == Step::<DataView>::fail(ReadError::UnsupportedFormat, pos + 2),
{
}

/// Every song that is read has version 5, as many layers as its header
/// declares and at most 255 custom instruments.
pub proof fn lemma_song_shape(bytes: Seq<u8>, pos: int)
    requires
        file_at(bytes, pos).outcome is Ok,
    ensures
        file_at(bytes, pos).outcome->Ok_0.version == 5,
        file_at(bytes, pos).outcome->Ok_0.layers.len() == file_at(
            bytes,
            pos,
        ).outcome->Ok_0.header.layer_count,
        file_at(bytes, pos).outcome->Ok_0.custom_instruments.len() <= 255,
{
    let body = song_at(bytes, pos + 3);
    let header = header_at(bytes, pos + 3);
    let head = header.outcome->Ok_0;
    let notes = note_table_at(bytes, header.end, head.song_tempo);
    crate::layers::lemma_layers_count(bytes, notes.end, head.layer_count as nat);
    let layers = layers_at(bytes, notes.end, head.layer_count as nat);
    let count = u8_at(bytes, layers.end);
    crate::layers::lemma_instruments_count(bytes, count.end, count.outcome->Ok_0 as nat);
}

} // verus!
