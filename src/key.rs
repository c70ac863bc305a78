use vstd::prelude::*;

verus! {

/// A pitch class of the twelve-tone scale, counted in semitones above C.
#[derive(Debug, Clone, Copy, PartialEq, Eq, Structural, Hash)]
pub enum Note {
    C,
    Db,
    D,
    Eb,
    E,
    F,
    Gb,
    G,
    Ab,
    A,
    Bb,
    B,
}

/// Semitones of a note above C (0..=11).
pub open spec fn semitone_of(note: Note) -> int {
    match note {
        Note::C => 0,
        Note::Db => 1,
        Note::D => 2,
        Note::Eb => 3,
        Note::E => 4,
        Note::F => 5,
        Note::Gb => 6,
        Note::G => 7,
        Note::Ab => 8,
        Note::A => 9,
        Note::Bb => 10,
        Note::B => 11,
    }
}

pub fn note_semitone(note: Note) -> (r: i32)
    ensures
        r == semitone_of(note),
        0 <= r < 12,
{
    match note {
        Note::C => 0,
        Note::Db => 1,
        Note::D => 2,
        Note::Eb => 3,
        Note::E => 4,
        Note::F => 5,
        Note::Gb => 6,
        Note::G => 7,
        Note::Ab => 8,
        Note::A => 9,
        Note::Bb => 10,
        Note::B => 11,
    }
}


/// The note that lies `semitone` steps above C, for 0 <= semitone < 12.
pub open spec fn note_of(semitone: int) -> Note {
    if semitone == 0 {
        Note::C
    } else if semitone == 1 {
        Note::Db
    } else if semitone == 2 {
        Note::D
    } else if semitone == 3 {
        Note::Eb
    } else if semitone == 4 {
        Note::E
    } else if semitone == 5 {
        Note::F
    } else if semitone == 6 {
        Note::Gb
    } else if semitone == 7 {
        Note::G
    } else if semitone == 8 {
        Note::Ab
    } else if semitone == 9 {
        Note::A
    } else if semitone == 10 {
        Note::Bb
    } else {
        Note::B
    }
}

fn note_at(s: u32) -> (r: Note)
    requires
        s < 12,
    ensures
        r == note_of(s as int),
        semitone_of(r) == s,
{
    match s {
        0 => Note::C,
        1 => Note::Db,
        2 => Note::D,
        3 => Note::Eb,
        4 => Note::E,
        5 => Note::F,
        6 => Note::Gb,
        7 => Note::G,
        8 => Note::Ab,
        9 => Note::A,
        10 => Note::Bb,
        _ => Note::B,
    }
}

/// The pitch class of a semitone count: it wraps around every octave, so the
/// result is always present.
pub fn note_from_semitone(semitone: u32) -> (r: Option<Note>)
    ensures
        r == Some(note_of(semitone as int % 12)),
        semitone_of(r.unwrap()) == semitone as int % 12,
{
    Some(note_at(semitone % 12))
}

/// The written name of a note, with flats for the black keys.
pub open spec fn name_of(note: Note) -> Seq<char> {
    match note {
        Note::C => "C"@,
        Note::Db => "Db"@,
        Note::D => "D"@,
        Note::Eb => "Eb"@,
        Note::E => "E"@,
        Note::F => "F"@,
        Note::Gb => "Gb"@,
        Note::G => "G"@,
        Note::Ab => "Ab"@,
        Note::A => "A"@,
        Note::Bb => "Bb"@,
        Note::B => "B"@,
    }
}

pub fn note_name(note: Note) -> (r: &'static str)
    ensures
        r@ == name_of(note),
{
    match note {
        Note::C => "C",
        Note::Db => "Db",
        Note::D => "D",
        Note::Eb => "Eb",
        Note::E => "E",
        Note::F => "F",
        Note::Gb => "Gb",
        Note::G => "G",
        Note::Ab => "Ab",
        Note::A => "A",
        Note::Bb => "Bb",
        Note::B => "B",
    }
}

pub const SEMITONES_PER_OCTAVE: i32 = 12;

/// The octave of the left-hand end of the computer-keyboard layout.
pub const KEYBOARD_BASE_OCTAVE: i32 = 4;

/// A note in a given octave (scientific pitch notation: A4 is concert A).
#[derive(Debug, Clone, Copy, PartialEq, Eq, Structural, Hash)]
pub struct Key {
    pub note: Note,
    pub octave: i32,
}

/// Semitones of a key above C0.
pub open spec fn absolute_of(key: Key) -> int {
    key.octave * 12 + semitone_of(key.note)
}

/// The absolute semitone count of a key, and each term of it, fit in an `i32`.
pub open spec fn fits_i32(key: Key) -> bool {
    i32::MIN <= key.octave * 12 && absolute_of(key) <= i32::MAX
}

/// The key `semitones` steps away from `key`.
pub open spec fn transposed(key: Key, semitones: int) -> Key {
    let a = absolute_of(key) + semitones;
    Key { note: note_of(a % 12), octave: (a / 12) as i32 }
}

pub fn create_key(note: Note, octave: i32) -> (r: Key)
    ensures
        r == (Key { note, octave }),
{
    Key { note, octave }
}

pub fn key_absolute_semitone(key: Key) -> (r: i32)
    requires
        fits_i32(key),
    ensures
        r == absolute_of(key),
{
    key.octave * SEMITONES_PER_OCTAVE + note_semitone(key.note)
}

pub fn key_transpose(key: Key, semitones: i32) -> (r: Key)
    requires
        fits_i32(key),
        i32::MIN <= absolute_of(key) + semitones <= i32::MAX,
    ensures
        r == transposed(key, semitones as int),
        absolute_of(r) == absolute_of(key) + semitones,
{
    let new_absolute = key_absolute_semitone(key) + semitones;
    let new_octave = match new_absolute.checked_div_euclid(SEMITONES_PER_OCTAVE) {
        Some(q) => q,
        None => 0,
    };
    let new_note_value = match new_absolute.checked_rem_euclid(SEMITONES_PER_OCTAVE) {
        Some(m) => m,
        None => 0,
    };
    let r = create_key(note_at(new_note_value as u32), new_octave);
    proof {
        let a = new_absolute as int;
        assert(a == (a / 12) * 12 + a % 12) by (nonlinear_arith);
    }
    r
}

/// The decimal character of a digit below ten.
pub open spec fn digit_char(d: nat) -> char {
    if d == 0 { '0' }
    else if d == 1 { '1' }
    else if d == 2 { '2' }
    else if d == 3 { '3' }
    else if d == 4 { '4' }
    else if d == 5 { '5' }
    else if d == 6 { '6' }
    else if d == 7 { '7' }
    else if d == 8 { '8' }
    else { '9' }
}

/// The decimal digits of a natural number, most significant first, without
/// leading zeros.
pub open spec fn digits_of(n: nat) -> Seq<char>
    decreases n,
{
    if n < 10 {
        seq![digit_char(n)]
    } else {
        digits_of(n / 10).push(digit_char(n % 10))
    }
}

/// The decimal text of an integer, with a leading '-' when it is negative.
pub open spec fn int_text(i: int) -> Seq<char> {
    if i < 0 {
        seq!['-'] + digits_of((-i) as nat)
    } else {
        digits_of(i as nat)
    }
}

/// The text of a key: its note name followed by its octave (`"Db4"`, `"C-1"`).
pub open spec fn key_text(key: Key) -> Seq<char> {
    name_of(key.note) + int_text(key.octave as int)
}

fn digit_str(d: u32) -> (r: &'static str)
    requires
        d < 10,
    ensures
        r@ == seq![digit_char(d as nat)],
{
    proof {
        reveal_strlit("0");
        reveal_strlit("1");
        reveal_strlit("2");
        reveal_strlit("3");
        reveal_strlit("4");
        reveal_strlit("5");
        reveal_strlit("6");
        reveal_strlit("7");
        reveal_strlit("8");
        reveal_strlit("9");
    }
    match d {
        0 => "0",
        1 => "1",
        2 => "2",
        3 => "3",
        4 => "4",
        5 => "5",
        6 => "6",
        7 => "7",
        8 => "8",
        _ => "9",
    }
}

fn append_digits(s: &mut String, n: u32)
    ensures
        final(s)@ == old(s)@ + digits_of(n as nat),
    decreases n,
{
    if n >= 10 {
        append_digits(s, n / 10);
    }
    s.append(digit_str(n % 10));
    proof {
        if n >= 10 {
            assert(digits_of(n as nat) == digits_of((n / 10) as nat).push(digit_char((n % 10) as nat)));
        }
        assert(final(s)@ =~= old(s)@ + digits_of(n as nat));
    }
}

pub fn key_to_string(key: Key) -> (r: String)
    ensures
        r@ == key_text(key),
{
    let mut s = String::from_str(note_name(key.note));
    let octave = key.octave as i64;
    if octave < 0 {
        proof {
            reveal_strlit("-");
        }
        s.append("-");
        append_digits(&mut s, (-octave) as u32);
    } else {
        append_digits(&mut s, octave as u32);
    }
    assert(s@ =~= key_text(key));
    s
}

impl Key {
    pub fn new(note: Note, octave: i32) -> (r: Key)
        ensures
            r == (Key { note, octave }),
    {
        create_key(note, octave)
    }

    pub fn absolute_semitone(self) -> (r: i32)
        requires
            fits_i32(self),
        ensures
            r == absolute_of(self),
    {
        key_absolute_semitone(self)
    }

    pub fn transpose(self, semitones: i32) -> (r: Key)
        requires
            fits_i32(self),
            i32::MIN <= absolute_of(self) + semitones <= i32::MAX,
        ensures
            r == transposed(self, semitones as int),
    {
        key_transpose(self, semitones)
    }

    pub fn from_keycode(keycode: KeyCode) -> (r: Option<Key>)
        ensures
            r == layout_key(keycode),
    {
        key_from_keycode(keycode)
    }

    pub fn to_string(self) -> (r: String)
        ensures
            r@ == key_text(self),
    {
        key_to_string(self)
    }
}

/// A physical key of the computer keyboard, as far as this engine tells keys
/// apart: the keys of the note layout, the patch key, and the keys of the
/// quit chords. Every other key is `Other`, carrying the platform's code.
#[derive(Debug, Clone, Copy, PartialEq, Eq, Structural, Hash)]
pub enum KeyCode {
    A,
    S,
    D,
    F,
    G,
    H,
    J,
    K,
    L,
    Semicolon,
    Apostrophe,
    W,
    E,
    T,
    Y,
    U,
    O,
    P,
    B,
    C,
    Escape,
    LControl,
    Other(u32),
}

/// The note layout: the home row plays the white keys from C4 to F5, the row
/// above it the black keys; any other key plays nothing.
pub open spec fn layout_key(code: KeyCode) -> Option<Key> {
    let base = KEYBOARD_BASE_OCTAVE;
    let next = (KEYBOARD_BASE_OCTAVE + 1) as i32;
    match code {
        KeyCode::A => Some(Key { note: Note::C, octave: base }),
        KeyCode::S => Some(Key { note: Note::D, octave: base }),
        KeyCode::D => Some(Key { note: Note::E, octave: base }),
        KeyCode::F => Some(Key { note: Note::F, octave: base }),
        KeyCode::G => Some(Key { note: Note::G, octave: base }),
        KeyCode::H => Some(Key { note: Note::A, octave: base }),
        KeyCode::J => Some(Key { note: Note::B, octave: base }),
        KeyCode::K => Some(Key { note: Note::C, octave: next }),
        KeyCode::L => Some(Key { note: Note::D, octave: next }),
        KeyCode::Semicolon => Some(Key { note: Note::E, octave: next }),
        KeyCode::Apostrophe => Some(Key { note: Note::F, octave: next }),
        KeyCode::W => Some(Key { note: Note::Db, octave: base }),
        KeyCode::E => Some(Key { note: Note::Eb, octave: base }),
        KeyCode::T => Some(Key { note: Note::Gb, octave: base }),
        KeyCode::Y => Some(Key { note: Note::Ab, octave: base }),
        KeyCode::U => Some(Key { note: Note::Bb, octave: base }),
        KeyCode::O => Some(Key { note: Note::Db, octave: next }),
        KeyCode::P => Some(Key { note: Note::Eb, octave: next }),
        _ => None,
    }
}

pub fn key_from_keycode(keycode: KeyCode) -> (r: Option<Key>)
    ensures
        r == layout_key(keycode),
{
    let base = KEYBOARD_BASE_OCTAVE;
    match keycode {
        KeyCode::A => Some(create_key(Note::C, base)),
        KeyCode::S => Some(create_key(Note::D, base)),
        KeyCode::D => Some(create_key(Note::E, base)),
        KeyCode::F => Some(create_key(Note::F, base)),
        KeyCode::G => Some(create_key(Note::G, base)),
        KeyCode::H => Some(create_key(Note::A, base)),
        KeyCode::J => Some(create_key(Note::B, base)),
        KeyCode::K => Some(create_key(Note::C, base + 1)),
        KeyCode::L => Some(create_key(Note::D, base + 1)),
        KeyCode::Semicolon => Some(create_key(Note::E, base + 1)),
        KeyCode::Apostrophe => Some(create_key(Note::F, base + 1)),
        KeyCode::W => Some(create_key(Note::Db, base)),
        KeyCode::E => Some(create_key(Note::Eb, base)),
        KeyCode::T => Some(create_key(Note::Gb, base)),
        KeyCode::Y => Some(create_key(Note::Ab, base)),
        KeyCode::U => Some(create_key(Note::Bb, base)),
        KeyCode::O => Some(create_key(Note::Db, base + 1)),
        KeyCode::P => Some(create_key(Note::Eb, base + 1)),
        _ => None,
    }
}

} // verus!
