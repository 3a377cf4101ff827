use nbs_decoder::{
    assemble, handle_version_5, parse, read_custom_instrument, read_custom_instruments,
    read_file, read_header, read_layer, read_layers, ByteCursor, CustomInstrument, Data, Header,
    Layer, Note, ReadError,
};

fn text(value: &str) -> Vec<u8> {
    let mut bytes = (value.len() as u32).to_le_bytes().to_vec();
    bytes.extend_from_slice(value.as_bytes());
    bytes
}

fn header_bytes(layer_count: u16, tempo: u16) -> Vec<u8> {
    let mut bytes = vec![16u8];
    bytes.extend_from_slice(&300u16.to_le_bytes());
    bytes.extend_from_slice(&layer_count.to_le_bytes());
    bytes.extend(text("Song"));
    bytes.extend(text("Author"));
    bytes.extend(text("Original"));
    bytes.extend(text("A description"));
    bytes.extend_from_slice(&tempo.to_le_bytes());
    bytes.extend_from_slice(&[1, 10, 4]);
    bytes.extend_from_slice(&11u32.to_le_bytes());
    bytes.extend_from_slice(&222u32.to_le_bytes());
    bytes.extend_from_slice(&3333u32.to_le_bytes());
    bytes.extend_from_slice(&44444u32.to_le_bytes());
    bytes.extend_from_slice(&0x0102_0304u32.to_le_bytes());
    bytes.extend(text("song.schematic"));
    bytes.extend_from_slice(&[1, 3]);
    bytes.extend_from_slice(&0x0201u16.to_le_bytes());
    bytes
}

fn expected_header(layer_count: u16, tempo: u16) -> Header {
    Header {
        vanilla_instrument_count: 16,
        song_length: 300,
        layer_count,
        song_name: "Song".to_string(),
        song_author: "Author".to_string(),
        song_original_author: "Original".to_string(),
        song_description: "A description".to_string(),
        song_tempo: tempo,
        auto_saving: 1,
        auto_saving_duration: 10,
        time_signature: 4,
        minutes_spent: 11,
        left_clicks: 222,
        right_clicks: 3333,
        note_blocks_added: 44444,
        note_blocks_removed: 0x0102_0304,
        schematic_file_name: "song.schematic".to_string(),
        loop_on: 1,
        max_loop_count: 3,
        loop_start_tick: 0x0201,
    }
}

fn note_table() -> Vec<u8> {
    let mut bytes = Vec::new();
    // tick 0: layers 0 and 2
    bytes.extend_from_slice(&[1, 0]);
    bytes.extend_from_slice(&[1, 0, 0, 45, 100, 100, 0, 0]);
    bytes.extend_from_slice(&[2, 0, 1, 50, 90, 80, 0x9c, 0xff]);
    bytes.extend_from_slice(&[0, 0]);
    // tick 10: layer 1
    bytes.extend_from_slice(&[10, 0]);
    bytes.extend_from_slice(&[2, 0, 2, 33, 100, 120, 100, 0]);
    bytes.extend_from_slice(&[0, 0]);
    bytes.extend_from_slice(&[0, 0]);
    bytes
}

fn expected_notes() -> Vec<Note> {
    vec![
        Note {
            delay_ticks: 0,
            layer: 0,
            note_block_instrument: 0,
            note_block_key: 45,
            note_block_velocity: 100,
            note_block_panning: 100,
            note_block_pitch: 0,
        },
        Note {
            delay_ticks: 0,
            layer: 2,
            note_block_instrument: 1,
            note_block_key: 50,
            note_block_velocity: 90,
            note_block_panning: 80,
            note_block_pitch: -100,
        },
        Note {
            delay_ticks: 20,
            layer: 1,
            note_block_instrument: 2,
            note_block_key: 33,
            note_block_velocity: 100,
            note_block_panning: 120,
            note_block_pitch: 100,
        },
    ]
}

fn layer_bytes() -> Vec<u8> {
    let mut bytes = text("Melody");
    bytes.extend_from_slice(&[0, 100, 100]);
    bytes.extend(text(""));
    bytes.extend_from_slice(&[1, 50, 0]);
    bytes
}

fn expected_layers() -> Vec<Layer> {
    vec![
        Layer {
            layer_name: "Melody".to_string(),
            layer_lock: 0,
            layer_volume: 100,
            layer_stereo: 100,
        },
        Layer { layer_name: String::new(), layer_lock: 1, layer_volume: 50, layer_stereo: 0 },
    ]
}

fn instrument_bytes() -> Vec<u8> {
    let mut bytes = vec![1u8];
    bytes.extend(text("Kalimba"));
    bytes.extend(text("kalimba.ogg"));
    bytes.extend_from_slice(&[45, 1]);
    bytes
}

fn expected_instruments() -> Vec<CustomInstrument> {
    vec![CustomInstrument {
        instrument_name: "Kalimba".to_string(),
        sound_file: "kalimba.ogg".to_string(),
        sound_pitch: 45,
        press_key: 1,
    }]
}

fn body_bytes() -> Vec<u8> {
    let mut bytes = header_bytes(2, 1000);
    bytes.extend(note_table());
    bytes.extend(layer_bytes());
    bytes.extend(instrument_bytes());
    bytes
}

fn file_bytes() -> Vec<u8> {
    let mut bytes = vec![0u8, 0, 5];
    bytes.extend(body_bytes());
    bytes
}

fn expected_song() -> Data {
    assemble(expected_header(2, 1000), expected_notes(), expected_layers(), expected_instruments())
}

fn empty_song_bytes() -> Vec<u8> {
    let mut bytes = vec![0u8, 0, 5];
    // counts
    bytes.extend_from_slice(&[0, 0, 0, 0, 0]);
    // four empty strings
    bytes.extend_from_slice(&[0; 16]);
    // tempo 1000, flags
    bytes.extend_from_slice(&1000u16.to_le_bytes());
    bytes.extend_from_slice(&[0, 0, 4]);
    // statistics
    bytes.extend_from_slice(&[0; 20]);
    // schematic name, loop settings
    bytes.extend_from_slice(&[0; 4]);
    bytes.extend_from_slice(&[0, 0, 0, 0]);
    // note table, custom instruments
    bytes.extend_from_slice(&[0, 0]);
    bytes.push(0);
    bytes
}

#[test]
fn whole_song_is_decoded() {
    let song = parse(&file_bytes()).unwrap();
    assert_eq!(song.version, 5);
    assert_eq!(song.vanilla_instrument_count, 16);
    assert_eq!(song.song_length, 300);
    assert_eq!(song.layer_count, 2);
    assert_eq!(song.song_name, "Song");
    assert_eq!(song.song_author, "Author");
    assert_eq!(song.song_original_author, "Original");
    assert_eq!(song.song_description, "A description");
    assert_eq!(song.song_tempo, 1000);
    assert_eq!(song.auto_saving, 1);
    assert_eq!(song.auto_saving_duration, 10);
    assert_eq!(song.time_signature, 4);
    assert_eq!(song.minutes_spent, 11);
    assert_eq!(song.left_clicks, 222);
    assert_eq!(song.right_clicks, 3333);
    assert_eq!(song.note_blocks_added, 44444);
    assert_eq!(song.note_blocks_removed, 0x0102_0304);
    assert_eq!(song.schematic_file_name, "song.schematic");
    assert_eq!(song.loop_on, 1);
    assert_eq!(song.max_loop_count, 3);
    assert_eq!(song.loop_start_tick, 0x0201);
    assert_eq!(song.notes, expected_notes());
    assert_eq!(song.layers, expected_layers());
    assert_eq!(song.custom_instruments, expected_instruments());
    assert_eq!(song, expected_song());
}

#[test]
fn decoding_twice_gives_the_same_song() {
    let bytes = file_bytes();
    let copy = bytes.clone();
    assert_eq!(parse(&bytes), parse(&copy));
    assert_eq!(parse(&bytes), parse(&bytes));
    let cut = &bytes[..40];
    assert_eq!(parse(cut), parse(&cut.to_vec()));
}

#[test]
fn empty_song() {
    let song = parse(&empty_song_bytes()).unwrap();
    assert_eq!(song.version, 5);
    assert_eq!(song.vanilla_instrument_count, 0);
    assert_eq!(song.song_length, 0);
    assert_eq!(song.layer_count, 0);
    assert_eq!(song.song_name, "");
    assert_eq!(song.song_author, "");
    assert_eq!(song.song_original_author, "");
    assert_eq!(song.song_description, "");
    assert_eq!(song.song_tempo, 1000);
    assert_eq!(song.time_signature, 4);
    assert_eq!(song.minutes_spent, 0);
    assert_eq!(song.schematic_file_name, "");
    assert_eq!(song.loop_start_tick, 0);
    assert!(song.notes.is_empty());
    assert!(song.layers.is_empty());
    assert!(song.custom_instruments.is_empty());
}

#[test]
fn song_without_notes_keeps_its_header() {
    let mut bytes = vec![0u8, 0, 5];
    bytes.extend(header_bytes(0, 750));
    bytes.extend_from_slice(&[0, 0]);
    bytes.push(0);
    let song = parse(&bytes).unwrap();
    assert_eq!(song, assemble(expected_header(0, 750), vec![], vec![], vec![]));
    assert!(song.notes.is_empty());
}

#[test]
fn unsupported_version() {
    for version in [0u8, 1, 2, 3, 4, 6, 7, 255] {
        let mut bytes = vec![0u8, 0, version];
        bytes.extend(body_bytes());
        assert_eq!(parse(&bytes), Err(ReadError::UnsupportedVersion));
    }
}

#[test]
fn unsupported_version_reads_nothing_further() {
    for version in [3u8, 6] {
        let bytes = [0u8, 0, version];
        assert_eq!(parse(&bytes), Err(ReadError::UnsupportedVersion));
        let mut longer = bytes.to_vec();
        longer.extend(body_bytes());
        let mut cursor = ByteCursor::new(&longer);
        assert_eq!(read_file(&mut cursor), Err(ReadError::UnsupportedVersion));
        assert_eq!(cursor.consumed(), 3);
    }
}

#[test]
fn unsupported_format() {
    for marker in [1u16, 2, 256, 300, 65535] {
        let mut bytes = marker.to_le_bytes().to_vec();
        bytes.push(5);
        bytes.extend(body_bytes());
        assert_eq!(parse(&bytes), Err(ReadError::UnsupportedFormat));
        let mut cursor = ByteCursor::new(&bytes);
        assert_eq!(read_file(&mut cursor), Err(ReadError::UnsupportedFormat));
        assert_eq!(cursor.consumed(), 2);
        assert_eq!(parse(&bytes[..2]), Err(ReadError::UnsupportedFormat));
    }
}

#[test]
fn marker_is_checked_before_the_version() {
    assert_eq!(parse(&[1, 0, 9]), Err(ReadError::UnsupportedFormat));
    assert_eq!(parse(&[0, 0, 9]), Err(ReadError::UnsupportedVersion));
}

#[test]
fn empty_input() {
    assert_eq!(parse(&[]), Err(ReadError::UnexpectedEnd));
    assert_eq!(parse(&[0]), Err(ReadError::UnexpectedEnd));
    assert_eq!(parse(&[0, 0]), Err(ReadError::UnexpectedEnd));
    assert_eq!(parse(&[0, 0, 5]), Err(ReadError::UnexpectedEnd));
}

#[test]
fn every_cut_of_a_file_is_an_unexpected_end() {
    let bytes = file_bytes();
    assert!(parse(&bytes).is_ok());
    for cut in 0..bytes.len() {
        assert_eq!(parse(&bytes[..cut]), Err(ReadError::UnexpectedEnd));
    }
}

#[test]
fn every_cut_of_an_empty_song_is_an_unexpected_end() {
    let bytes = empty_song_bytes();
    assert!(parse(&bytes).is_ok());
    for cut in 0..bytes.len() {
        assert_eq!(parse(&bytes[..cut]), Err(ReadError::UnexpectedEnd));
    }
}

#[test]
fn truncated_song_name() {
    let mut bytes = vec![0u8, 0, 5, 16, 0, 0, 0, 0];
    bytes.extend_from_slice(&10u32.to_le_bytes());
    bytes.extend_from_slice(b"abc");
    assert_eq!(parse(&bytes), Err(ReadError::UnexpectedEnd));
}

#[test]
fn trailing_bytes_are_ignored() {
    let mut bytes = file_bytes();
    let length = bytes.len();
    bytes.extend_from_slice(&[0xff, 0xfe, 0xfd]);
    assert_eq!(parse(&bytes), Ok(expected_song()));
    let mut cursor = ByteCursor::new(&bytes);
    assert_eq!(read_file(&mut cursor), Ok(expected_song()));
    assert_eq!(cursor.consumed(), length);
    assert_eq!(cursor.remaining(), 3);
}

#[test]
fn invalid_text_in_the_header() {
    let mut bytes = vec![0u8, 0, 5, 16, 0, 0, 0, 0];
    bytes.extend_from_slice(&2u32.to_le_bytes());
    bytes.extend_from_slice(&[0xc3, 0x28]);
    bytes.extend(body_bytes());
    assert_eq!(parse(&bytes), Err(ReadError::InvalidText));
}

#[test]
fn invalid_text_in_a_layer_name() {
    let mut bytes = vec![0u8, 0, 5];
    bytes.extend(header_bytes(1, 1000));
    bytes.extend(note_table());
    bytes.extend_from_slice(&1u32.to_le_bytes());
    bytes.extend_from_slice(&[0xff, 0, 100, 100]);
    bytes.push(0);
    assert_eq!(parse(&bytes), Err(ReadError::InvalidText));
}

#[test]
fn header_is_read_field_by_field() {
    let bytes = header_bytes(7, 1234);
    let mut cursor = ByteCursor::new(&bytes);
    assert_eq!(read_header(&mut cursor), Ok(expected_header(7, 1234)));
    assert_eq!(cursor.remaining(), 0);
}

#[test]
fn every_cut_of_a_header_is_an_unexpected_end() {
    let bytes = header_bytes(7, 1234);
    for cut in 0..bytes.len() {
        let mut cursor = ByteCursor::new(&bytes[..cut]);
        assert_eq!(read_header(&mut cursor), Err(ReadError::UnexpectedEnd));
    }
}

#[test]
fn body_is_read_from_behind_the_version_byte() {
    let bytes = body_bytes();
    let mut cursor = ByteCursor::new(&bytes);
    assert_eq!(handle_version_5(&mut cursor), Ok(expected_song()));
    assert_eq!(cursor.remaining(), 0);
}

#[test]
fn layers_are_read_as_declared() {
    let bytes = layer_bytes();
    let mut cursor = ByteCursor::new(&bytes);
    assert_eq!(read_layers(&mut cursor, 2), Ok(expected_layers()));
    assert_eq!(cursor.remaining(), 0);

    let mut cursor = ByteCursor::new(&bytes);
    assert_eq!(read_layers(&mut cursor, 1).map(|layers| layers.len()), Ok(1));
    assert_eq!(cursor.consumed(), 13);

    let mut cursor = ByteCursor::new(&bytes);
    assert_eq!(read_layers(&mut cursor, 0), Ok(vec![]));
    assert_eq!(cursor.consumed(), 0);

    let mut cursor = ByteCursor::new(&bytes);
    assert_eq!(read_layers(&mut cursor, 3), Err(ReadError::UnexpectedEnd));
}

#[test]
fn one_layer() {
    let bytes = layer_bytes();
    let mut cursor = ByteCursor::new(&bytes);
    assert_eq!(read_layer(&mut cursor), Ok(expected_layers().remove(0)));
    assert_eq!(read_layer(&mut cursor), Ok(expected_layers().remove(1)));
    assert_eq!(read_layer(&mut cursor), Err(ReadError::UnexpectedEnd));
}

#[test]
fn layer_count_is_not_held_against_the_notes() {
    let mut bytes = vec![0u8, 0, 5];
    bytes.extend(header_bytes(0, 1000));
    bytes.extend(note_table());
    bytes.push(0);
    let song = parse(&bytes).unwrap();
    assert_eq!(song.layer_count, 0);
    assert!(song.layers.is_empty());
    assert_eq!(song.notes, expected_notes());
    assert_eq!(song.notes[1].layer, 2);
}

#[test]
fn custom_instruments_follow_their_count() {
    let bytes = instrument_bytes();
    let mut cursor = ByteCursor::new(&bytes);
    assert_eq!(read_custom_instruments(&mut cursor), Ok(expected_instruments()));
    assert_eq!(cursor.remaining(), 0);

    let mut cursor = ByteCursor::new(&[0u8, 1, 2]);
    assert_eq!(read_custom_instruments(&mut cursor), Ok(vec![]));
    assert_eq!(cursor.consumed(), 1);

    let mut two = vec![2u8];
    two.extend_from_slice(&bytes[1..]);
    let mut cursor = ByteCursor::new(&two);
    assert_eq!(read_custom_instruments(&mut cursor), Err(ReadError::UnexpectedEnd));

    let mut cursor = ByteCursor::new(&[]);
    assert_eq!(read_custom_instruments(&mut cursor), Err(ReadError::UnexpectedEnd));
}

#[test]
fn one_custom_instrument() {
    let bytes = instrument_bytes();
    let mut cursor = ByteCursor::new(&bytes[1..]);
    assert_eq!(read_custom_instrument(&mut cursor), Ok(expected_instruments().remove(0)));
    assert_eq!(cursor.remaining(), 0);
}

#[test]
fn many_custom_instruments() {
    let mut bytes = vec![255u8];
    for index in 0..255u8 {
        bytes.extend(text("i"));
        bytes.extend(text("f"));
        bytes.extend_from_slice(&[index, 255 - index]);
    }
    let mut cursor = ByteCursor::new(&bytes);
    let instruments = read_custom_instruments(&mut cursor).unwrap();
    assert_eq!(instruments.len(), 255);
    assert_eq!(instruments[254].sound_pitch, 254);
    assert_eq!(instruments[254].press_key, 1);
    assert_eq!(cursor.remaining(), 0);
}

#[test]
fn assembled_song_has_version_five() {
    let song = assemble(expected_header(2, 1000), expected_notes(), expected_layers(), vec![]);
    assert_eq!(song.version, 5);
    assert_eq!(song.song_name, "Song");
    assert_eq!(song.layer_count, 2);
    assert_eq!(song.notes, expected_notes());
    assert_eq!(song.layers, expected_layers());
    assert!(song.custom_instruments.is_empty());
}

#[test]
fn error_messages() {
    assert_eq!(
        ReadError::UnsupportedFormat.message(),
        "Invalid file, or file was made using an unsupported version of NBS"
    );
    assert_eq!(
        ReadError::UnsupportedVersion.message(),
        "File was made using an unsupported version of NBS"
    );
    assert_eq!(ReadError::UnexpectedEnd.message(), "IO-related error: unexpected end of file");
    assert_eq!(
        ReadError::InvalidText.message(),
        "Invalid string: the bytes are not valid UTF-8"
    );
}
