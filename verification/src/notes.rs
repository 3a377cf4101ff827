use crate::cursor::{has_bytes, le_i16, le_u16, preceded_by, u16_at, ByteCursor, Step};
use crate::error::ReadError;
use crate::song::Note;
use crate::timing::{normalize_tick, normalized_delay};
use vstd::prelude::*;

verus! {

/// Reading the six bytes of a note at `pos`: instrument, key, velocity,
/// panning and the signed pitch. The note lies on `layer` and comes `delay`
/// after what was played before it.
pub open spec fn note_at(bytes: Seq<u8>, pos: int, layer: u16, delay: u16) -> Step<Note> {
    if has_bytes(bytes, pos, 6) {
        Step::ok(
            Note {
                delay_ticks: delay,
                layer,
                note_block_instrument: bytes[pos],
                note_block_key: bytes[pos + 1],
                note_block_velocity: bytes[pos + 2],
                note_block_panning: bytes[pos + 3],
                note_block_pitch: le_i16(bytes, pos + 4),
            },
            pos + 6,
        )
    } else {
        Step::cut_short(bytes)
    }
}

/// Reading the notes of one tick at `pos`: entries of a layer jump and a
/// note, up to a layer jump of zero.
///
/// Each jump is added to `layer`, the layer of the entry before, and wraps
/// round at 16 bits. The first note gets `delay`, every later one a delay of
/// zero.
pub open spec fn tick_notes_at(bytes: Seq<u8>, pos: int, layer: u16, delay: u16) -> Step<
    Seq<Note>,
>
    decreases bytes.len() - pos,
{
    let jump = u16_at(bytes, pos);
    match jump.outcome {
        Err(error) => Step::fail(error, jump.end),
        Ok(distance) => if distance == 0 {
            Step::ok(Seq::empty(), jump.end)
        } else {
            let note = note_at(bytes, jump.end, layer.wrapping_add(distance), delay);
            match note.outcome {
                Err(error) => Step::fail(error, note.end),
                Ok(first) => preceded_by(
                    seq![first],
                    tick_notes_at(bytes, note.end, first.layer, 0),
                ),
            }
        },
    }
}

/// Reading ticks at `pos`: a tick jump and the notes of the tick, up to a
/// tick jump of zero.
///
/// Each jump is added to `tick`, the tick before, and wraps round at 16
/// bits. The first note of a tick is delayed by the distance, at `tempo`,
/// between its tick and `previous`, the tick that was read before it; that
/// distance wraps round at 16 bits too.
pub open spec fn ticks_at(bytes: Seq<u8>, pos: int, tick: u16, previous: u16, tempo: u16) -> Step<
    Seq<Note>,
>
    decreases bytes.len() - pos,
    via ticks_at_decreases
{
    let jump = u16_at(bytes, pos);
    match jump.outcome {
        Err(error) => Step::fail(error, jump.end),
        Ok(distance) => if distance == 0 {
            Step::ok(Seq::empty(), jump.end)
        } else {
            let now = tick.wrapping_add(distance);
            let delay = normalized_delay(tempo, now.wrapping_sub(previous));
            let notes = tick_notes_at(bytes, jump.end, u16::MAX, delay);
            match notes.outcome {
                Err(error) => Step::fail(error, notes.end),
                Ok(first) => preceded_by(first, ticks_at(bytes, notes.end, now, now, tempo)),
            }
        },
    }
}

#[via_fn]
proof fn ticks_at_decreases(bytes: Seq<u8>, pos: int, tick: u16, previous: u16, tempo: u16) {
    let jump = u16_at(bytes, pos);
    if let Ok(distance) = jump.outcome {
        if distance != 0 {
            let now = tick.wrapping_add(distance);
            let delay = normalized_delay(tempo, now.wrapping_sub(previous));
            lemma_tick_notes_end(bytes, jump.end, u16::MAX, delay);
        }
    }
}

/// Reading the notes of a tick never moves backward, and where it succeeds
/// it has read the closing jump at least.
pub proof fn lemma_tick_notes_end(bytes: Seq<u8>, pos: int, layer: u16, delay: u16)
    requires
        0 <= pos <= bytes.len(),
    ensures
        pos <= tick_notes_at(bytes, pos, layer, delay).end <= bytes.len(),
        tick_notes_at(bytes, pos, layer, delay).outcome is Ok ==> pos + 2 <= tick_notes_at(
            bytes,
            pos,
            layer,
            delay,
        ).end,
    decreases bytes.len() - pos,
{
    let jump = u16_at(bytes, pos);
    if let Ok(distance) = jump.outcome {
        if distance != 0 {
            let note = note_at(bytes, jump.end, layer.wrapping_add(distance), delay);
            if let Ok(first) = note.outcome {
                lemma_tick_notes_end(bytes, note.end, first.layer, 0);
            }
        }
    }
}

/// Reading the note table at `pos`, for a song played at `tempo`.
///
/// The tick count starts one step before tick zero, so that a first jump of
/// one lands on tick zero; the first tick's delay is its distance from tick
/// zero.
pub open spec fn note_table_at(bytes: Seq<u8>, pos: int, tempo: u16) -> Step<Seq<Note>> {
    ticks_at(bytes, pos, u16::MAX, 0, tempo)
}

/// A layer jump of zero right at the start of a tick closes the tick with no
/// note in it, and the two bytes of that jump are all that is read.
pub proof fn lemma_empty_tick(bytes: Seq<u8>, pos: int, layer: u16, delay: u16)
    requires
        has_bytes(bytes, pos, 2),
        le_u16(bytes, pos) == 0,
    ensures
        tick_notes_at(bytes, pos, layer, delay) == Step::ok(Seq::<Note>::empty(), pos + 2),
{
}

/// A tick without notes adds nothing to the note table: what is read is
/// what the ticks behind it hold. The empty tick still counts as the tick
/// that was read before them.
pub proof fn lemma_empty_tick_adds_nothing(
    bytes: Seq<u8>,
    pos: int,
    tick: u16,
    previous: u16,
    tempo: u16,
)
    requires
        has_bytes(bytes, pos, 4),
        le_u16(bytes, pos) != 0,
        le_u16(bytes, pos + 2) == 0,
    ensures
        ticks_at(bytes, pos, tick, previous, tempo) == ticks_at(
            bytes,
            pos + 4,
            tick.wrapping_add(le_u16(bytes, pos)),
            tick.wrapping_add(le_u16(bytes, pos)),
            tempo,
        ),
{
    let now = tick.wrapping_add(le_u16(bytes, pos));
    let delay = normalized_delay(tempo, now.wrapping_sub(previous));
    lemma_empty_tick(bytes, pos + 2, u16::MAX, delay);
    let rest = ticks_at(bytes, pos + 4, now, now, tempo);
    if let Ok(later) = rest.outcome {
        assert(Seq::<Note>::empty() + later =~= later);
    }
}

/// A note table that opens with the closing jump holds no note, and the two
/// bytes of that jump are all that is read.
pub proof fn lemma_empty_table(bytes: Seq<u8>, pos: int, tempo: u16)
    requires
        has_bytes(bytes, pos, 2),
        le_u16(bytes, pos) == 0,
    ensures
        note_table_at(bytes, pos, tempo) == Step::ok(Seq::<Note>::empty(), pos + 2),
{
}

/// Of the notes of one tick only the first is delayed: it has the delay of
/// the tick, and every note behind it has a delay of zero.
pub proof fn lemma_only_first_note_is_delayed(bytes: Seq<u8>, pos: int, layer: u16, delay: u16)
    requires
        tick_notes_at(bytes, pos, layer, delay).outcome is Ok,
    ensures
        forall|i: int|
            0 <= i < tick_notes_at(bytes, pos, layer, delay).outcome->Ok_0.len() ==> (
            #[trigger] tick_notes_at(bytes, pos, layer, delay).outcome->Ok_0[i]).delay_ticks == (if i
                == 0 {
                delay
            } else {
                0u16
            }),
    decreases bytes.len() - pos,
{
    let jump = u16_at(bytes, pos);
    let distance = jump.outcome->Ok_0;
    if distance != 0 {
        let note = note_at(bytes, jump.end, layer.wrapping_add(distance), delay);
        let first = note.outcome->Ok_0;
        lemma_only_first_note_is_delayed(bytes, note.end, first.layer, 0);
    }
}

/// A tick that opens with a layer jump other than zero has a first note: the
/// one stored behind that jump, on the layer that the jump leads to from
/// `layer`, counted round at 16 bits, and with the delay of the tick.
pub proof fn lemma_first_note_of_tick(bytes: Seq<u8>, pos: int, layer: u16, delay: u16)
    requires
        has_bytes(bytes, pos, 2),
        le_u16(bytes, pos) != 0,
        tick_notes_at(bytes, pos, layer, delay).outcome is Ok,
    ensures
        tick_notes_at(bytes, pos, layer, delay).outcome->Ok_0.len() >= 1,
        tick_notes_at(bytes, pos, layer, delay).outcome->Ok_0[0] == note_at(
            bytes,
            pos + 2,
            layer.wrapping_add(le_u16(bytes, pos)),
            delay,
        ).outcome->Ok_0,
        tick_notes_at(bytes, pos, layer, delay).end >= pos + 10,
{
    let note = note_at(bytes, pos + 2, layer.wrapping_add(le_u16(bytes, pos)), delay);
    lemma_tick_notes_end(bytes, note.end, note.outcome->Ok_0.layer, 0);
}

/// The first note of a note table: a first tick jump of `t` and a first
/// layer jump of `l` put it on layer `l - 1` and delay it by the length of
/// `t - 1` ticks, so that jumps of one stand for tick zero and layer zero.
pub proof fn lemma_first_note_of_table(bytes: Seq<u8>, pos: int, tempo: u16)
    requires
        has_bytes(bytes, pos, 4),
        le_u16(bytes, pos) != 0,
        le_u16(bytes, pos + 2) != 0,
        note_table_at(bytes, pos, tempo).outcome is Ok,
    ensures
        note_table_at(bytes, pos, tempo).outcome->Ok_0.len() >= 1,
        note_table_at(bytes, pos, tempo).outcome->Ok_0[0].layer == le_u16(bytes, pos + 2) - 1,
        note_table_at(bytes, pos, tempo).outcome->Ok_0[0].delay_ticks == normalized_delay(
            tempo,
            (le_u16(bytes, pos) - 1) as u16,
        ),
{
    let now = u16::MAX.wrapping_add(le_u16(bytes, pos));
    let delay = normalized_delay(tempo, now.wrapping_sub(0));
    lemma_first_note_of_tick(bytes, pos + 2, u16::MAX, delay);
}

/// Reads the notes of one tick, up to the layer jump of zero that closes it.
/// The first note gets `delay`, every later one a delay of zero.
pub fn read_tick_notes(cursor: &mut ByteCursor, delay: u16) -> (notes: Result<Vec<Note>, ReadError>)
    ensures
        final(cursor).bytes() == old(cursor).bytes(),
        final(cursor).position() == tick_notes_at(
            old(cursor).bytes(),
            old(cursor).position(),
            u16::MAX,
            delay,
        ).end,
        match notes {
            Ok(list) => tick_notes_at(
                old(cursor).bytes(),
                old(cursor).position(),
                u16::MAX,
                delay,
            ).outcome == Ok::<Seq<Note>, ReadError>(list@),
            Err(error) => tick_notes_at(
                old(cursor).bytes(),
                old(cursor).position(),
                u16::MAX,
                delay,
            ).outcome == Err::<Seq<Note>, ReadError>(error),
        },
{
    let ghost whole = tick_notes_at(old(cursor).bytes(), old(cursor).position(), u16::MAX, delay);
    let mut notes: Vec<Note> = Vec::new();
    let mut layer: u16 = u16::MAX;
    let mut next_delay: u16 = delay;
    loop
        invariant
            cursor.bytes() == old(cursor).bytes(),
            whole == tick_notes_at(old(cursor).bytes(), old(cursor).position(), u16::MAX, delay),
            whole == preceded_by(
                notes@,
                tick_notes_at(cursor.bytes(), cursor.position(), layer, next_delay),
            ),
        decreases cursor.bytes().len() - cursor.position(),
    {
        let ghost before = notes@;
        let jump = cursor.read_u16()?;
        if jump == 0 {
            assert(before + Seq::<Note>::empty() =~= before);
            return Ok(notes);
        }
        layer = layer.wrapping_add(jump);
        let note_block_instrument = cursor.read_u8()?;
        let note_block_key = cursor.read_u8()?;
        let note_block_velocity = cursor.read_u8()?;
        let note_block_panning = cursor.read_u8()?;
        let note_block_pitch = cursor.read_i16()?;
        let note = Note {
            delay_ticks: next_delay,
            layer,
            note_block_instrument,
            note_block_key,
            note_block_velocity,
            note_block_panning,
            note_block_pitch,
        };
        notes.push(note);
        next_delay = 0;
        proof {
            let rest = tick_notes_at(cursor.bytes(), cursor.position(), layer, 0);
            if let Ok(later) = rest.outcome {
                assert(before + (seq![note] + later) =~= before.push(note) + later);
            }
        }
    }
}

/// Reads the note table of a song played at `tempo`, up to the tick jump of
/// zero that closes it.
pub fn read_notes(cursor: &mut ByteCursor, tempo: u16) -> (notes: Result<Vec<Note>, ReadError>)
    ensures
        final(cursor).bytes() == old(cursor).bytes(),
        final(cursor).position() == note_table_at(
            old(cursor).bytes(),
            old(cursor).position(),
            tempo,
        ).end,
        match notes {
            Ok(list) => note_table_at(old(cursor).bytes(), old(cursor).position(), tempo).outcome
                == Ok::<Seq<Note>, ReadError>(list@),
            Err(error) => note_table_at(old(cursor).bytes(), old(cursor).position(), tempo).outcome
                == Err::<Seq<Note>, ReadError>(error),
        },
{
    let ghost whole = note_table_at(old(cursor).bytes(), old(cursor).position(), tempo);
    let mut notes: Vec<Note> = Vec::new();
    let mut tick: u16 = u16::MAX;
    let mut previous: u16 = 0;
    loop
        invariant
            cursor.bytes() == old(cursor).bytes(),
            whole == note_table_at(old(cursor).bytes(), old(cursor).position(), tempo),
            whole == preceded_by(
                notes@,
                ticks_at(cursor.bytes(), cursor.position(), tick, previous, tempo),
            ),
        decreases cursor.bytes().len() - cursor.position(),
    {
        let ghost before = notes@;
        let jump = cursor.read_u16()?;
        if jump == 0 {
            assert(before + Seq::<Note>::empty() =~= before);
            return Ok(notes);
        }
        tick = tick.wrapping_add(jump);
        let delay = normalize_tick(tempo, tick.wrapping_sub(previous));
        proof {
            lemma_tick_notes_end(cursor.bytes(), cursor.position(), u16::MAX, delay);
        }
        let mut found = read_tick_notes(cursor, delay)?;
        let ghost first = found@;
        notes.append(&mut found);
        previous = tick;
        proof {
            let rest = ticks_at(cursor.bytes(), cursor.position(), tick, tick, tempo);
            if let Ok(later) = rest.outcome {
                assert(before + (first + later) =~= (before + first) + later);
            }
        }
    }
}

} // verus!
