use crate::cursor::{bytes_at, u16_at, u32_at, u8_at, Step};
use crate::decode::{file_at, song_at};
use crate::header::{header_at, header_tail_at};
use crate::layers::{instrument_at, instrument_list_at, instruments_at, layer_at, layers_at};
use crate::notes::{note_at, note_table_at, tick_notes_at, ticks_at};
use crate::song::DataView;
use crate::text::string_at;
use crate::timing::normalized_delay;
use vstd::prelude::*;

verus! {

/// How a reading that succeeds on `bytes` fares on the first `cut` bytes of
/// them, when it starts in both at the same position `pos`: `whole` is the
/// reading on all bytes, `part` the one on the first `cut`.
///
/// The reading on all bytes stays inside them and moves forward. Where it
/// stops at `cut` or before, the cut changes nothing. Where it goes on
/// behind `cut`, the reading on the part is cut short.
pub open spec fn cut_at<T>(whole: Step<T>, part: Step<T>, bytes: Seq<u8>, pos: int, cut: int) -> bool {
    whole.outcome is Ok ==> {
        &&& pos <= whole.end <= bytes.len()
        &&& whole.end <= cut ==> part == whole
        &&& cut < whole.end ==> part == Step::<T>::cut_short(bytes.take(cut))
    }
}

/// Cutting the bytes behind a string, or within it.
pub proof fn lemma_cut_string(bytes: Seq<u8>, pos: int, cut: int)
    requires
        0 <= pos <= cut <= bytes.len(),
    ensures
        cut_at(string_at(bytes, pos), string_at(bytes.take(cut), pos), bytes, pos, cut),
{
    let whole = string_at(bytes, pos);
    if whole.outcome is Ok {
        let length = u32_at(bytes, pos);
        let count = length.outcome->Ok_0;
        if whole.end <= cut {
            assert(bytes.take(cut).subrange(pos + 4, pos + 4 + count) =~= bytes.subrange(
                pos + 4,
                pos + 4 + count,
            ));
        }
    }
}

/// Cutting the bytes behind the notes of a tick, or within them.
pub proof fn lemma_cut_tick_notes(bytes: Seq<u8>, pos: int, layer: u16, delay: u16, cut: int)
    requires
        0 <= pos <= cut <= bytes.len(),
    ensures
        cut_at(
            tick_notes_at(bytes, pos, layer, delay),
            tick_notes_at(bytes.take(cut), pos, layer, delay),
            bytes,
            pos,
            cut,
        ),
    decreases bytes.len() - pos,
{
    let whole = tick_notes_at(bytes, pos, layer, delay);
    if whole.outcome is Ok {
        let jump = u16_at(bytes, pos);
        let distance = jump.outcome->Ok_0;
        if distance != 0 {
            let note = note_at(bytes, jump.end, layer.wrapping_add(distance), delay);
            let first = note.outcome->Ok_0;
            if note.end <= cut {
                lemma_cut_tick_notes(bytes, note.end, first.layer, 0, cut);
            } else {
                crate::notes::lemma_tick_notes_end(bytes, note.end, first.layer, 0);
            }
        }
    }
}

/// Cutting the bytes behind a run of ticks, or within it.
pub proof fn lemma_cut_ticks(
    bytes: Seq<u8>,
    pos: int,
    tick: u16,
    previous: u16,
    tempo: u16,
    cut: int,
)
    requires
        0 <= pos <= cut <= bytes.len(),
    ensures
        cut_at(
            ticks_at(bytes, pos, tick, previous, tempo),
            ticks_at(bytes.take(cut), pos, tick, previous, tempo),
            bytes,
            pos,
            cut,
        ),
    decreases bytes.len() - pos,
{
    let whole = ticks_at(bytes, pos, tick, previous, tempo);
    if whole.outcome is Ok {
        let jump = u16_at(bytes, pos);
        let distance = jump.outcome->Ok_0;
        if distance != 0 {
            let now = tick.wrapping_add(distance);
            let delay = normalized_delay(tempo, now.wrapping_sub(previous));
            let notes = tick_notes_at(bytes, jump.end, u16::MAX, delay);
            crate::notes::lemma_tick_notes_end(bytes, jump.end, u16::MAX, delay);
            if jump.end <= cut {
                lemma_cut_tick_notes(bytes, jump.end, u16::MAX, delay, cut);
            }
            if notes.end <= cut {
                lemma_cut_ticks(bytes, notes.end, now, now, tempo, cut);
            } else {
                lemma_cut_ticks(bytes, notes.end, now, now, tempo, bytes.len() as int);
            }
        }
    }
}

/// Cutting the bytes behind a layer, or within it.
pub proof fn lemma_cut_layer(bytes: Seq<u8>, pos: int, cut: int)
    requires
        0 <= pos <= cut <= bytes.len(),
    ensures
        cut_at(layer_at(bytes, pos), layer_at(bytes.take(cut), pos), bytes, pos, cut),
{
    lemma_cut_string(bytes, pos, cut);
}

/// Cutting the bytes behind a list of layers, or within it.
pub proof fn lemma_cut_layers(bytes: Seq<u8>, pos: int, count: nat, cut: int)
    requires
        0 <= pos <= cut <= bytes.len(),
    ensures
        cut_at(
            layers_at(bytes, pos, count),
            layers_at(bytes.take(cut), pos, count),
            bytes,
            pos,
            cut,
        ),
    decreases count,
{
    let whole = layers_at(bytes, pos, count);
    if whole.outcome is Ok && count > 0 {
        let layer = layer_at(bytes, pos);
        lemma_cut_layer(bytes, pos, cut);
        if layer.end <= cut {
            lemma_cut_layers(bytes, layer.end, (count - 1) as nat, cut);
        } else {
            lemma_cut_layers(bytes, layer.end, (count - 1) as nat, bytes.len() as int);
        }
    }
}

/// Cutting the bytes behind a custom instrument, or within it.
pub proof fn lemma_cut_instrument(bytes: Seq<u8>, pos: int, cut: int)
    requires
        0 <= pos <= cut <= bytes.len(),
    ensures
        cut_at(instrument_at(bytes, pos), instrument_at(bytes.take(cut), pos), bytes, pos, cut),
{
    lemma_cut_string(bytes, pos, cut);
    let name = string_at(bytes, pos);
    if name.outcome is Ok {
        if name.end <= cut {
            lemma_cut_string(bytes, name.end, cut);
        } else {
            lemma_cut_string(bytes, name.end, bytes.len() as int);
        }
    }
}

/// Cutting the bytes behind a run of custom instruments, or within it.
pub proof fn lemma_cut_instruments(bytes: Seq<u8>, pos: int, count: nat, cut: int)
    requires
        0 <= pos <= cut <= bytes.len(),
    ensures
        cut_at(
            instruments_at(bytes, pos, count),
            instruments_at(bytes.take(cut), pos, count),
            bytes,
            pos,
            cut,
        ),
    decreases count,
{
    let whole = instruments_at(bytes, pos, count);
    if whole.outcome is Ok && count > 0 {
        let instrument = instrument_at(bytes, pos);
        lemma_cut_instrument(bytes, pos, cut);
        if instrument.end <= cut {
            lemma_cut_instruments(bytes, instrument.end, (count - 1) as nat, cut);
        } else {
            lemma_cut_instruments(bytes, instrument.end, (count - 1) as nat, bytes.len() as int);
        }
    }
}

/// Cutting the bytes behind a header, or within it.
pub proof fn lemma_cut_header(bytes: Seq<u8>, pos: int, cut: int)
    requires
        0 <= pos <= cut <= bytes.len(),
    ensures
        cut_at(header_at(bytes, pos), header_at(bytes.take(cut), pos), bytes, pos, cut),
{
    let whole = header_at(bytes, pos);
    let end = bytes.len() as int;
    if whole.outcome is Ok {
        let name = string_at(bytes, pos + 5);
        let author = string_at(bytes, name.end);
        let original = string_at(bytes, author.end);
        let description = string_at(bytes, original.end);
        let schematic = string_at(bytes, description.end + 25);
        lemma_cut_string(bytes, pos + 5, if pos + 5 <= cut { cut } else { end });
        lemma_cut_string(bytes, name.end, if name.end <= cut { cut } else { end });
        lemma_cut_string(bytes, author.end, if author.end <= cut { cut } else { end });
        lemma_cut_string(bytes, original.end, if original.end <= cut { cut } else { end });
        lemma_cut_string(
            bytes,
            description.end + 25,
            if description.end + 25 <= cut { cut } else { end },
        );
    }
}

/// Cutting the bytes behind the body of a song, or within it.
pub proof fn lemma_cut_song(bytes: Seq<u8>, pos: int, cut: int)
    requires
        0 <= pos <= cut <= bytes.len(),
    ensures
        cut_at(song_at(bytes, pos), song_at(bytes.take(cut), pos), bytes, pos, cut),
{
    let whole = song_at(bytes, pos);
    let end = bytes.len() as int;
    if whole.outcome is Ok {
        let header = header_at(bytes, pos);
        let head = header.outcome->Ok_0;
        lemma_cut_header(bytes, pos, cut);
        let notes = note_table_at(bytes, header.end, head.song_tempo);
        lemma_cut_ticks(
            bytes,
            header.end,
            u16::MAX,
            0,
            head.song_tempo,
            if header.end <= cut { cut } else { end },
        );
        let layers = layers_at(bytes, notes.end, head.layer_count as nat);
        lemma_cut_layers(
            bytes,
            notes.end,
            head.layer_count as nat,
            if notes.end <= cut { cut } else { end },
        );
        let count = u8_at(bytes, layers.end);
        if count.outcome is Ok {
            lemma_cut_instruments(
                bytes,
                count.end,
                count.outcome->Ok_0 as nat,
                if count.end <= cut { cut } else { end },
            );
        }
    }
}

/// Cutting the bytes behind a song file, or within it.
pub proof fn lemma_cut_file(bytes: Seq<u8>, pos: int, cut: int)
    requires
        0 <= pos <= cut <= bytes.len(),
    ensures
        cut_at(file_at(bytes, pos), file_at(bytes.take(cut), pos), bytes, pos, cut),
{
    if file_at(bytes, pos).outcome is Ok {
        lemma_cut_song(bytes, pos + 3, if pos + 3 <= cut { cut } else { bytes.len() as int });
    }
}

/// A song file that is cut anywhere before its end no longer decodes: the
/// decoder reports that the bytes ended too early, and never a song made
/// of what was left.
pub proof fn lemma_truncated_file_is_refused(bytes: Seq<u8>, cut: int)
    requires
        file_at(bytes, 0).outcome is Ok,
        0 <= cut < file_at(bytes, 0).end,
    ensures
        file_at(bytes.take(cut), 0) == Step::<DataView>::cut_short(bytes.take(cut)),
{
    lemma_cut_file(bytes, 0, bytes.len() as int);
    lemma_cut_file(bytes, 0, cut);
}

/// What stands behind the last byte of a song file has no part in the song
/// that is decoded.
pub proof fn lemma_trailing_bytes_are_ignored(bytes: Seq<u8>)
    requires
        file_at(bytes, 0).outcome is Ok,
    ensures
        0 <= file_at(bytes, 0).end <= bytes.len(),
        file_at(bytes.take(file_at(bytes, 0).end), 0) == file_at(bytes, 0),
{
    lemma_cut_file(bytes, 0, bytes.len() as int);
    lemma_cut_file(bytes, 0, file_at(bytes, 0).end);
}

} // verus!
