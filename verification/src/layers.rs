use crate::cursor::{has_bytes, preceded_by, u8_at, ByteCursor, Step};
use crate::error::ReadError;
use crate::song::{CustomInstrument, CustomInstrumentView, Layer, LayerView};
use crate::text::{read_utf8_string, string_at};
use vstd::prelude::*;

verus! {

/// Reading a layer at `pos`: its name, then the lock, volume and stereo
/// bytes.
pub open spec fn layer_at(bytes: Seq<u8>, pos: int) -> Step<LayerView> {
    let name = string_at(bytes, pos);
    match name.outcome {
        Err(error) => Step::fail(error, name.end),
        Ok(layer_name) => if has_bytes(bytes, name.end, 3) {
            Step::ok(
                LayerView {
                    layer_name,
                    layer_lock: bytes[name.end],
                    layer_volume: bytes[name.end + 1],
                    layer_stereo: bytes[name.end + 2],
                },
                name.end + 3,
            )
        } else {
            Step::cut_short(bytes)
        },
    }
}

/// Reading `count` layers at `pos`, one behind the other.
pub open spec fn layers_at(bytes: Seq<u8>, pos: int, count: nat) -> Step<Seq<LayerView>>
    decreases count,
{
    if count == 0 {
        Step::ok(Seq::empty(), pos)
    } else {
        let layer = layer_at(bytes, pos);
        match layer.outcome {
            Err(error) => Step::fail(error, layer.end),
            Ok(first) => preceded_by(seq![first], layers_at(bytes, layer.end, (count - 1) as nat)),
        }
    }
}

/// Reading a custom instrument at `pos`: its name, the name of its sound
/// file, then the pitch and key bytes.
pub open spec fn instrument_at(bytes: Seq<u8>, pos: int) -> Step<CustomInstrumentView> {
    let name = string_at(bytes, pos);
    match name.outcome {
        Err(error) => Step::fail(error, name.end),
        Ok(instrument_name) => {
            let file = string_at(bytes, name.end);
            match file.outcome {
                Err(error) => Step::fail(error, file.end),
                Ok(sound_file) => if has_bytes(bytes, file.end, 2) {
                    Step::ok(
                        CustomInstrumentView {
                            instrument_name,
                            sound_file,
                            sound_pitch: bytes[file.end],
                            press_key: bytes[file.end + 1],
                        },
                        file.end + 2,
                    )
                } else {
                    Step::cut_short(bytes)
                },
            }
        },
    }
}

/// Reading `count` custom instruments at `pos`, one behind the other.
pub open spec fn instruments_at(bytes: Seq<u8>, pos: int, count: nat) -> Step<
    Seq<CustomInstrumentView>,
>
    decreases count,
{
    if count == 0 {
        Step::ok(Seq::empty(), pos)
    } else {
        let instrument = instrument_at(bytes, pos);
        match instrument.outcome {
            Err(error) => Step::fail(error, instrument.end),
            Ok(first) => preceded_by(
                seq![first],
                instruments_at(bytes, instrument.end, (count - 1) as nat),
            ),
        }
    }
}

/// Reading the list of custom instruments at `pos`: one byte that says how
/// many there are, then the instruments.
pub open spec fn instrument_list_at(bytes: Seq<u8>, pos: int) -> Step<Seq<CustomInstrumentView>> {
    let count = u8_at(bytes, pos);
    match count.outcome {
        Err(error) => Step::fail(error, count.end),
        Ok(number) => instruments_at(bytes, count.end, number as nat),
    }
}

/// A list of layers that is read has the length that was asked for.
pub proof fn lemma_layers_count(bytes: Seq<u8>, pos: int, count: nat)
    ensures
        layers_at(bytes, pos, count).outcome matches Ok(list) ==> list.len() == count,
    decreases count,
{
    if count > 0 {
        let layer = layer_at(bytes, pos);
        if layer.outcome is Ok {
            lemma_layers_count(bytes, layer.end, (count - 1) as nat);
        }
    }
}

/// A list of custom instruments that is read has the length that was asked
/// for.
pub proof fn lemma_instruments_count(bytes: Seq<u8>, pos: int, count: nat)
    ensures
        instruments_at(bytes, pos, count).outcome matches Ok(list) ==> list.len() == count,
    decreases count,
{
    if count > 0 {
        let instrument = instrument_at(bytes, pos);
        if instrument.outcome is Ok {
            lemma_instruments_count(bytes, instrument.end, (count - 1) as nat);
        }
    }
}

/// Reads one layer.
pub fn read_layer(cursor: &mut ByteCursor) -> (layer: Result<Layer, ReadError>)
    ensures
        final(cursor).bytes() == old(cursor).bytes(),
        final(cursor).position() == layer_at(old(cursor).bytes(), old(cursor).position()).end,
        match layer {
            Ok(found) => layer_at(old(cursor).bytes(), old(cursor).position()).outcome == Ok::<
                LayerView,
                ReadError,
            >(found@),
            Err(error) => layer_at(old(cursor).bytes(), old(cursor).position()).outcome == Err::<
                LayerView,
                ReadError,
            >(error),
        },
{
    let layer_name = read_utf8_string(cursor)?;
    let layer_lock = cursor.read_u8()?;
    let layer_volume = cursor.read_u8()?;
    let layer_stereo = cursor.read_u8()?;
    Ok(Layer { layer_name, layer_lock, layer_volume, layer_stereo })
}

/// Reads `count` layers, whatever layers the notes of the song name.
pub fn read_layers(cursor: &mut ByteCursor, count: u16) -> (layers: Result<Vec<Layer>, ReadError>)
    ensures
        final(cursor).bytes() == old(cursor).bytes(),
        final(cursor).position() == layers_at(
            old(cursor).bytes(),
            old(cursor).position(),
            count as nat,
        ).end,
        match layers {
            Ok(list) => layers_at(old(cursor).bytes(), old(cursor).position(), count as nat).outcome
                == Ok::<Seq<LayerView>, ReadError>(list.deep_view()),
            Err(error) => layers_at(
                old(cursor).bytes(),
                old(cursor).position(),
                count as nat,
            ).outcome == Err::<Seq<LayerView>, ReadError>(error),
        },
{
    let ghost whole = layers_at(old(cursor).bytes(), old(cursor).position(), count as nat);
    let mut layers: Vec<Layer> = Vec::new();
    let mut done: u16 = 0;
    while done < count
        invariant
            done <= count,
            cursor.bytes() == old(cursor).bytes(),
            whole == layers_at(old(cursor).bytes(), old(cursor).position(), count as nat),
            whole == preceded_by(
                layers.deep_view(),
                layers_at(cursor.bytes(), cursor.position(), (count - done) as nat),
            ),
        decreases count - done,
    {
        let ghost before = layers.deep_view();
        let layer = read_layer(cursor)?;
        layers.push(layer);
        done = done + 1;
        proof {
            assert(layers.deep_view() =~= before.push(layer@));
            let rest = layers_at(cursor.bytes(), cursor.position(), (count - done) as nat);
            if let Ok(later) = rest.outcome {
                assert(before + (seq![layer@] + later) =~= before.push(layer@) + later);
            }
        }
    }
    assert(layers.deep_view() + Seq::<LayerView>::empty() =~= layers.deep_view());
    Ok(layers)
}

/// Reads one custom instrument.
pub fn read_custom_instrument(cursor: &mut ByteCursor) -> (instrument: Result<
    CustomInstrument,
    ReadError,
>)
    ensures
        final(cursor).bytes() == old(cursor).bytes(),
        final(cursor).position() == instrument_at(old(cursor).bytes(), old(cursor).position()).end,
        match instrument {
            Ok(found) => instrument_at(old(cursor).bytes(), old(cursor).position()).outcome == Ok::<
                CustomInstrumentView,
                ReadError,
            >(found@),
            Err(error) => instrument_at(old(cursor).bytes(), old(cursor).position()).outcome
                == Err::<CustomInstrumentView, ReadError>(error),
        },
{
    let instrument_name = read_utf8_string(cursor)?;
    let sound_file = read_utf8_string(cursor)?;
    let sound_pitch = cursor.read_u8()?;
    let press_key = cursor.read_u8()?;
    Ok(CustomInstrument { instrument_name, sound_file, sound_pitch, press_key })
}

/// Reads the list of custom instruments: their number, then each of them.
pub fn read_custom_instruments(cursor: &mut ByteCursor) -> (instruments: Result<
    Vec<CustomInstrument>,
    ReadError,
>)
    ensures
        final(cursor).bytes() == old(cursor).bytes(),
        final(cursor).position() == instrument_list_at(
            old(cursor).bytes(),
            old(cursor).position(),
        ).end,
        match instruments {
            Ok(list) => instrument_list_at(old(cursor).bytes(), old(cursor).position()).outcome
                == Ok::<Seq<CustomInstrumentView>, ReadError>(list.deep_view()),
            Err(error) => instrument_list_at(old(cursor).bytes(), old(cursor).position()).outcome
                == Err::<Seq<CustomInstrumentView>, ReadError>(error),
        },
{
    let ghost whole = instrument_list_at(old(cursor).bytes(), old(cursor).position());
    let count = cursor.read_u8()?;
    let mut instruments: Vec<CustomInstrument> = Vec::with_capacity(count as usize);
    let mut done: u8 = 0;
    while done < count
        invariant
            done <= count,
            cursor.bytes() == old(cursor).bytes(),
            whole == instrument_list_at(old(cursor).bytes(), old(cursor).position()),
            whole == preceded_by(
                instruments.deep_view(),
                instruments_at(cursor.bytes(), cursor.position(), (count - done) as nat),
            ),
        decreases count - done,
    {
        let ghost before = instruments.deep_view();
        let instrument = read_custom_instrument(cursor)?;
        instruments.push(instrument);
        done = done + 1;
        proof {
            assert(instruments.deep_view() =~= before.push(instrument@));
            let rest = instruments_at(cursor.bytes(), cursor.position(), (count - done) as nat);
            if let Ok(later) = rest.outcome {
                assert(before + (seq![instrument@] + later) =~= before.push(instrument@) + later);
            }
        }
    }
    assert(instruments.deep_view() + Seq::<CustomInstrumentView>::empty()
        =~= instruments.deep_view());
    Ok(instruments)
}

} // verus!
