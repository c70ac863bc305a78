use keysynth::key::{
    create_key, key_absolute_semitone, key_from_keycode, key_to_string, key_transpose,
    note_from_semitone, note_name, note_semitone, Key, KeyCode, Note,
};
use keysynth::patch::{basic_source, kind_at, BasicKind, NodeKind, NoiseGen, PatchSource, NOISE_SEED};
use keysynth::adsr::Adsr;

#[test]
fn semitones_of_notes() {
    assert_eq!(note_semitone(Note::C), 0);
    assert_eq!(note_semitone(Note::A), 9);
    assert_eq!(note_semitone(Note::B), 11);
}

#[test]
fn note_from_semitone_wraps_each_octave() {
    assert_eq!(note_from_semitone(0), Some(Note::C));
    assert_eq!(note_from_semitone(6), Some(Note::Gb));
    assert_eq!(note_from_semitone(13), Some(Note::Db));
    assert_eq!(note_from_semitone(23), Some(Note::B));
}

#[test]
fn note_names_use_flats() {
    assert_eq!(note_name(Note::C), "C");
    assert_eq!(note_name(Note::Gb), "Gb");
    assert_eq!(note_name(Note::Bb), "Bb");
}

#[test]
fn absolute_semitone_of_concert_a() {
    let a4 = create_key(Note::A, 4);
    assert_eq!(key_absolute_semitone(a4), 57);
    assert_eq!(a4.absolute_semitone(), 57);
    assert_eq!(Key::new(Note::C, 0).absolute_semitone(), 0);
}

#[test]
fn transpose_crosses_octaves_both_ways() {
    assert_eq!(key_transpose(Key::new(Note::B, 4), 1), Key::new(Note::C, 5));
    assert_eq!(key_transpose(Key::new(Note::C, 4), -1), Key::new(Note::B, 3));
    assert_eq!(Key::new(Note::C, 0).transpose(-13), Key::new(Note::B, -2));
    assert_eq!(Key::new(Note::E, 4).transpose(24), Key::new(Note::E, 6));
    assert_eq!(Key::new(Note::E, 4).transpose(0), Key::new(Note::E, 4));
}

#[test]
fn key_text_is_name_then_octave() {
    assert_eq!(key_to_string(Key::new(Note::Db, 4)), "Db4");
    assert_eq!(Key::new(Note::C, -1).to_string(), "C-1");
    assert_eq!(Key::new(Note::A, 10).to_string(), "A10");
    assert_eq!(Key::new(Note::G, i32::MIN).to_string(), "G-2147483648");
}

#[test]
fn keyboard_layout() {
    assert_eq!(key_from_keycode(KeyCode::A), Some(Key::new(Note::C, 4)));
    assert_eq!(key_from_keycode(KeyCode::W), Some(Key::new(Note::Db, 4)));
    assert_eq!(key_from_keycode(KeyCode::Semicolon), Some(Key::new(Note::E, 5)));
    assert_eq!(key_from_keycode(KeyCode::P), Some(Key::new(Note::Eb, 5)));
    assert_eq!(Key::from_keycode(KeyCode::Apostrophe), Some(Key::new(Note::F, 5)));
    assert_eq!(key_from_keycode(KeyCode::B), None);
    assert_eq!(key_from_keycode(KeyCode::Other(7)), None);
}

#[test]
fn patch_cycle_and_names() {
    assert_eq!(BasicKind::Sine.next(), BasicKind::Saw);
    assert_eq!(BasicKind::Noise.next(), BasicKind::Sine);
    assert_eq!(BasicKind::Triangle.name(), "Triangle");
    assert_eq!(kind_at(3), BasicKind::Triangle);
    assert_eq!(kind_at(9), BasicKind::Sine);
}

#[test]
fn patch_chains_nodes_in_order() {
    let adsr = Adsr::new(0, 0, 500_000, 0);
    let p = PatchSource::new(BasicKind::Square)
        .push_node(NodeKind::Gain(500_000))
        .push_node(NodeKind::Envelope(adsr));
    assert_eq!(p.nodes, vec![NodeKind::Gain(500_000), NodeKind::Envelope(adsr)]);
    assert_eq!(p.name(), "Square");
    assert!(basic_source(BasicKind::Noise).nodes.is_empty());
}

#[test]
fn noise_follows_xorshift() {
    let mut g = NoiseGen::new(NOISE_SEED);
    let mut x: u64 = NOISE_SEED;
    for _ in 0..100 {
        x ^= x >> 12;
        x ^= x << 25;
        x ^= x >> 27;
        let expected = (x.wrapping_mul(0x2545F4914F6CDD1D) >> 40) as u32;
        let v = g.next_raw();
        assert_eq!(v, expected);
        assert!(v < (1 << 24));
    }
    assert_eq!(g.rng, x);
    assert_ne!(g.rng, NOISE_SEED);
}
