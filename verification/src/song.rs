use vstd::prelude::*;

verus! {

/// One note of a song.
#[derive(Clone, Copy, Debug, PartialEq, Eq, Structural)]
pub struct Note {
    /// Time since the previous tick that holds a note, in twentieths of a
    /// second; zero for every note but the first of its tick.
    pub delay_ticks: u16,
    /// Index of the layer the note lies on, counted from zero.
    pub layer: u16,
    pub note_block_instrument: u8,
    pub note_block_key: u8,
    pub note_block_velocity: u8,
    pub note_block_panning: u8,
    pub note_block_pitch: i16,
}

/// One layer of a song. The layer at index `n` of [`Data::layers`] is the
/// one that notes name by the layer index `n`.
#[derive(Clone, Debug, PartialEq, Eq)]
pub struct Layer {
    pub layer_name: String,
    pub layer_lock: u8,
    pub layer_volume: u8,
    pub layer_stereo: u8,
}

/// A [`Layer`] as a mathematical value.
pub struct LayerView {
    pub layer_name: Seq<char>,
    pub layer_lock: u8,
    pub layer_volume: u8,
    pub layer_stereo: u8,
}

impl View for Layer {
    type V = LayerView;

    open spec fn view(&self) -> LayerView {
        LayerView {
            layer_name: self.layer_name@,
            layer_lock: self.layer_lock,
            layer_volume: self.layer_volume,
            layer_stereo: self.layer_stereo,
        }
    }
}

impl DeepView for Layer {
    type V = LayerView;

    open spec fn deep_view(&self) -> LayerView {
        self@
    }
}

/// A sound that the song's author added to the built-in instruments.
#[derive(Clone, Debug, PartialEq, Eq)]
pub struct CustomInstrument {
    pub instrument_name: String,
    pub sound_file: String,
    pub sound_pitch: u8,
    pub press_key: u8,
}

/// A [`CustomInstrument`] as a mathematical value.
pub struct CustomInstrumentView {
    pub instrument_name: Seq<char>,
    pub sound_file: Seq<char>,
    pub sound_pitch: u8,
    pub press_key: u8,
}

impl View for CustomInstrument {
    type V = CustomInstrumentView;

    open spec fn view(&self) -> CustomInstrumentView {
        CustomInstrumentView {
            instrument_name: self.instrument_name@,
            sound_file: self.sound_file@,
            sound_pitch: self.sound_pitch,
            press_key: self.press_key,
        }
    }
}

impl DeepView for CustomInstrument {
    type V = CustomInstrumentView;

    open spec fn deep_view(&self) -> CustomInstrumentView {
        self@
    }
}

/// The fields that open a song, in the order in which the stream holds them.
#[derive(Clone, Debug, PartialEq, Eq)]
pub struct Header {
    pub vanilla_instrument_count: u8,
    pub song_length: u16,
    pub layer_count: u16,
    pub song_name: String,
    pub song_author: String,
    pub song_original_author: String,
    pub song_description: String,
    /// Speed of the song in hundredths of a tick per second.
    pub song_tempo: u16,
    pub auto_saving: u8,
    pub auto_saving_duration: u8,
    pub time_signature: u8,
    pub minutes_spent: u32,
    pub left_clicks: u32,
    pub right_clicks: u32,
    pub note_blocks_added: u32,
    pub note_blocks_removed: u32,
    pub schematic_file_name: String,
    pub loop_on: u8,
    pub max_loop_count: u8,
    pub loop_start_tick: u16,
}

/// A [`Header`] as a mathematical value.
pub struct HeaderView {
    pub vanilla_instrument_count: u8,
    pub song_length: u16,
    pub layer_count: u16,
    pub song_name: Seq<char>,
    pub song_author: Seq<char>,
    pub song_original_author: Seq<char>,
    pub song_description: Seq<char>,
    pub song_tempo: u16,
    pub auto_saving: u8,
    pub auto_saving_duration: u8,
    pub time_signature: u8,
    pub minutes_spent: u32,
    pub left_clicks: u32,
    pub right_clicks: u32,
    pub note_blocks_added: u32,
    pub note_blocks_removed: u32,
    pub schematic_file_name: Seq<char>,
    pub loop_on: u8,
    pub max_loop_count: u8,
    pub loop_start_tick: u16,
}

impl View for Header {
    type V = HeaderView;

    open spec fn view(&self) -> HeaderView {
        HeaderView {
            vanilla_instrument_count: self.vanilla_instrument_count,
            song_length: self.song_length,
            layer_count: self.layer_count,
            song_name: self.song_name@,
            song_author: self.song_author@,
            song_original_author: self.song_original_author@,
            song_description: self.song_description@,
            song_tempo: self.song_tempo,
            auto_saving: self.auto_saving,
            auto_saving_duration: self.auto_saving_duration,
            time_signature: self.time_signature,
            minutes_spent: self.minutes_spent,
            left_clicks: self.left_clicks,
            right_clicks: self.right_clicks,
            note_blocks_added: self.note_blocks_added,
            note_blocks_removed: self.note_blocks_removed,
            schematic_file_name: self.schematic_file_name@,
            loop_on: self.loop_on,
            max_loop_count: self.max_loop_count,
            loop_start_tick: self.loop_start_tick,
        }
    }
}

/// A decoded song: the header fields, then the notes in the order in which
/// the stream holds them, the layers and the custom instruments.
#[derive(Clone, Debug, PartialEq, Eq)]
pub struct Data {
    pub version: u8,
    pub vanilla_instrument_count: u8,
    pub song_length: u16,
    pub layer_count: u16,
    pub song_name: String,
    pub song_author: String,
    pub song_original_author: String,
    pub song_description: String,
    pub song_tempo: u16,
    pub auto_saving: u8,
    pub auto_saving_duration: u8,
    pub time_signature: u8,
    pub minutes_spent: u32,
    pub left_clicks: u32,
    pub right_clicks: u32,
    pub note_blocks_added: u32,
    pub note_blocks_removed: u32,
    pub schematic_file_name: String,
    pub loop_on: u8,
    pub max_loop_count: u8,
    pub loop_start_tick: u16,
    pub notes: Vec<Note>,
    pub layers: Vec<Layer>,
    pub custom_instruments: Vec<CustomInstrument>,
}

/// A [`Data`] as a mathematical value: the format version, the header and
/// the three lists.
pub struct DataView {
    pub version: u8,
    pub header: HeaderView,
    pub notes: Seq<Note>,
    pub layers: Seq<LayerView>,
    pub custom_instruments: Seq<CustomInstrumentView>,
}

impl View for Data {
    type V = DataView;

    open spec fn view(&self) -> DataView {
        DataView {
            version: self.version,
            header: HeaderView {
                vanilla_instrument_count: self.vanilla_instrument_count,
                song_length: self.song_length,
                layer_count: self.layer_count,
                song_name: self.song_name@,
                song_author: self.song_author@,
                song_original_author: self.song_original_author@,
                song_description: self.song_description@,
                song_tempo: self.song_tempo,
                auto_saving: self.auto_saving,
                auto_saving_duration: self.auto_saving_duration,
                time_signature: self.time_signature,
                minutes_spent: self.minutes_spent,
                left_clicks: self.left_clicks,
                right_clicks: self.right_clicks,
                note_blocks_added: self.note_blocks_added,
                note_blocks_removed: self.note_blocks_removed,
                schematic_file_name: self.schematic_file_name@,
                loop_on: self.loop_on,
                max_loop_count: self.max_loop_count,
                loop_start_tick: self.loop_start_tick,
            },
            notes: self.notes@,
            layers: self.layers.deep_view(),
            custom_instruments: self.custom_instruments.deep_view(),
        }
    }
}

/// The format version that this library decodes.
pub const FORMAT_VERSION: u8 = 5;

/// Puts the decoded parts of a song together.
pub fn assemble(
    header: Header,
    notes: Vec<Note>,
    layers: Vec<Layer>,
    custom_instruments: Vec<CustomInstrument>,
) -> (data: Data)
    ensures
        data@ == (DataView {
            version: FORMAT_VERSION,
            header: header@,
            notes: notes@,
            layers: layers.deep_view(),
            custom_instruments: custom_instruments.deep_view(),
        }),
{
    Data {
        version: FORMAT_VERSION,
        vanilla_instrument_count: header.vanilla_instrument_count,
        song_length: header.song_length,
        layer_count: header.layer_count,
        song_name: header.song_name,
        song_author: header.song_author,
        song_original_author: header.song_original_author,
        song_description: header.song_description,
        song_tempo: header.song_tempo,
        auto_saving: header.auto_saving,
        auto_saving_duration: header.auto_saving_duration,
        time_signature: header.time_signature,
        minutes_spent: header.minutes_spent,
        left_clicks: header.left_clicks,
        right_clicks: header.right_clicks,
        note_blocks_added: header.note_blocks_added,
        note_blocks_removed: header.note_blocks_removed,
        schematic_file_name: header.schematic_file_name,
        loop_on: header.loop_on,
        max_loop_count: header.max_loop_count,
        loop_start_tick: header.loop_start_tick,
        notes,
        layers,
        custom_instruments,
    }
}

} // verus!
