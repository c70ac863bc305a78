use crate::adsr::Adsr;
use crate::input::contains_key;
use crate::key::{key_from_keycode, layout_key, Key, KeyCode};
use crate::patch::BasicKind;
use vstd::prelude::*;

verus! {

/// One sounding note: its identifier, the key that started it, and its gate
/// (open while the key is held; closing it sends the note into its release).
#[derive(Debug, Clone, Copy, PartialEq, Eq, Structural)]
pub struct Voice {
    pub id: u64,
    pub key: KeyCode,
    pub gate: bool,
}

/// What the audio side has to do to a voice's output after a decision of the
/// voice table.
#[derive(Debug, Clone, Copy, PartialEq, Eq, Structural)]
pub enum VoiceAction {
    /// Open an output for a new voice and start playing `note` through
    /// `patch` and an envelope with `adsr`, at `volume`, paused if `paused`.
    Start { id: u64, note: Key, patch: BasicKind, adsr: Adsr, volume: u32, paused: bool },
    /// Close the voice's gate: its envelope goes into its release.
    Release { id: u64 },
    /// Close its gate and stop the output at once, without a release.
    Kill { id: u64 },
    /// Play the voice at this volume (thousandths of unity gain).
    SetVolume { id: u64, volume: u32 },
    /// Pause the output, keeping its position.
    Pause { id: u64 },
    /// Resume a paused output where it stopped.
    Resume { id: u64 },
}

/// The settings a new voice is started with.
#[derive(Debug, Clone, Copy, PartialEq, Eq, Structural)]
pub struct VoiceSettings {
    pub patch: BasicKind,
    pub adsr: Adsr,
    pub volume: u32,
    pub muted: bool,
}

/// The table of live voices, in the order they were started.
#[derive(Debug)]
pub struct PlayState {
    pub voices: Vec<Voice>,
    pub next_id: u64,
}

pub open spec fn voice_ids_unique(s: Seq<Voice>) -> bool {
    forall|i: int, j: int| 0 <= i < j < s.len() ==> s[i].id != s[j].id
}

pub open spec fn ids_below(s: Seq<Voice>, bound: u64) -> bool {
    forall|i: int| 0 <= i < s.len() ==> s[i].id < bound
}

/// A key is sounding when one of its voices still has an open gate.
pub open spec fn key_sounding(s: Seq<Voice>, key: KeyCode) -> bool {
    exists|i: int| 0 <= i < s.len() && s[i].key == key && s[i].gate
}

/// The table with the gates of `key`'s voices closed.
pub open spec fn released(s: Seq<Voice>, key: KeyCode) -> Seq<Voice> {
    s.map_values(|v: Voice| if v.key == key { Voice { gate: false, ..v } } else { v })
}

/// The table with every gate closed.
pub open spec fn all_released(s: Seq<Voice>) -> Seq<Voice> {
    s.map_values(|v: Voice| Voice { gate: false, ..v })
}

/// A release for each of `key`'s voices whose gate is still open.
pub open spec fn release_action(key: KeyCode) -> spec_fn(Voice) -> Option<VoiceAction> {
    |v: Voice| if v.key == key && v.gate { Some(VoiceAction::Release { id: v.id }) } else { None }
}

pub open spec fn release_any_action() -> spec_fn(Voice) -> Option<VoiceAction> {
    |v: Voice| if v.gate { Some(VoiceAction::Release { id: v.id }) } else { None }
}

pub open spec fn kill_action(key: KeyCode) -> spec_fn(Voice) -> Option<VoiceAction> {
    |v: Voice| if v.key == key { Some(VoiceAction::Kill { id: v.id }) } else { None }
}

pub open spec fn kill_any_action() -> spec_fn(Voice) -> Option<VoiceAction> {
    |v: Voice| Some(VoiceAction::Kill { id: v.id })
}

pub open spec fn volume_action(volume: u32) -> spec_fn(Voice) -> Option<VoiceAction> {
    |v: Voice| Some(VoiceAction::SetVolume { id: v.id, volume })
}

pub open spec fn mute_action(muted: bool) -> spec_fn(Voice) -> Option<VoiceAction> {
    |v: Voice|
        if muted {
            Some(VoiceAction::Pause { id: v.id })
        } else {
            Some(VoiceAction::Resume { id: v.id })
        }
}

/// Keeps the voices of every key but `key`.
pub open spec fn keep_other_keys(key: KeyCode) -> spec_fn(Voice) -> Option<Voice> {
    |v: Voice| if v.key == key { None } else { Some(v) }
}

/// Keeps the voices that are not among `finished`.
pub open spec fn keep_unfinished(finished: Seq<u64>) -> spec_fn(Voice) -> Option<Voice> {
    |v: Voice| if finished.contains(v.id) { None } else { Some(v) }
}

/// The voice that `play_note` would start for `key`, if it starts one.
pub open spec fn start_action(id: u64, key: KeyCode, settings: VoiceSettings) -> VoiceAction {
    VoiceAction::Start {
        id,
        note: layout_key(key).unwrap(),
        patch: settings.patch,
        adsr: settings.adsr,
        volume: settings.volume,
        paused: settings.muted,
    }
}

/// `play_note` starts a voice exactly for a key of the note layout that is
/// not sounding already, while identifiers are left.
pub open spec fn starts_voice(s: PlayState, key: KeyCode) -> bool {
    &&& layout_key(key) is Some
    &&& !key_sounding(s.voices@, key)
    &&& s.next_id < u64::MAX
}

/// There are identifiers left for the voices that `play_notes(keys)` starts.
pub open spec fn ids_left(p: PlayState, keys: Seq<KeyCode>) -> bool {
    p.next_id + keys.filter_map(startable(p.voices@)).len() <= u64::MAX
}

/// The keys among a list that get a new voice against the table `s`: keys of
/// the note layout that are not sounding in `s`.
pub open spec fn startable(s: Seq<Voice>) -> spec_fn(KeyCode) -> Option<KeyCode> {
    |k: KeyCode| if layout_key(k) is Some && !key_sounding(s, k) { Some(k) } else { None }
}

/// Fresh voices, gate open, one for each of `keys` in order, numbered on
/// from `first_id`.
pub open spec fn fresh_voices(keys: Seq<KeyCode>, first_id: u64) -> Seq<Voice> {
    Seq::new(keys.len(), |j: int| Voice { id: (first_id + j) as u64, key: keys[j], gate: true })
}

/// The starts of the given voices, in order.
pub open spec fn start_actions(vs: Seq<Voice>, settings: VoiceSettings) -> Seq<VoiceAction> {
    vs.map_values(|v: Voice| start_action(v.id, v.key, settings))
}

/// The table with the gates of the voices of `keys` closed.
pub open spec fn released_keys(s: Seq<Voice>, keys: Seq<KeyCode>) -> Seq<Voice> {
    s.map_values(|v: Voice| if keys.contains(v.key) { Voice { gate: false, ..v } } else { v })
}

/// A release for each voice of `keys` whose gate is still open.
pub open spec fn release_of_keys(keys: Seq<KeyCode>) -> spec_fn(Voice) -> Option<VoiceAction> {
    |v: Voice| if keys.contains(v.key) && v.gate { Some(VoiceAction::Release { id: v.id }) } else { None }
}

/// A filter over a table, taken over the first `i` voices and extended by one.
proof fn lemma_filter_map_step<B>(s: Seq<Voice>, f: spec_fn(Voice) -> Option<B>, i: int)
    requires
        0 <= i < s.len(),
    ensures
        s.take(i + 1).filter_map(f) == s.take(i).filter_map(f) + (match f(s[i]) {
            Some(b) => seq![b],
            None => Seq::empty(),
        }),
{
    s.lemma_filter_map_take_succ(f, i);
}

impl PlayState {
    pub open spec fn wf(self) -> bool {
        &&& voice_ids_unique(self.voices@)
        &&& ids_below(self.voices@, self.next_id)
    }

    pub fn new() -> (r: PlayState)
        ensures
            r.wf(),
            r.voices@ == Seq::<Voice>::empty(),
            r.next_id == 0,
    {
        PlayState { voices: Vec::new(), next_id: 0 }
    }

    /// Whether a voice of `key` still has an open gate.
    pub fn is_sounding(&self, key: KeyCode) -> (r: bool)
        ensures
            r == key_sounding(self.voices@, key),
    {
        let mut i: usize = 0;
        while i < self.voices.len()
            invariant
                0 <= i <= self.voices@.len(),
                forall|j: int| 0 <= j < i ==> !(self.voices@[j].key == key && self.voices@[j].gate),
            decreases self.voices@.len() - i,
        {
            let v = self.voices[i];
            if v.key == key && v.gate {
                return true;
            }
            i = i + 1;
        }
        false
    }

    /// Starts a voice for a key-down of `key`. A key outside the note layout
    /// is ignored, and so is a key that is still held (one sustained voice per
    /// held key); a key whose earlier voice is only releasing gets a new one.
    pub fn play_note(&mut self, key: KeyCode, settings: VoiceSettings) -> (r: Vec<VoiceAction>)
        requires
            old(self).wf(),
        ensures
            final(self).wf(),
            starts_voice(*old(self), key) ==> final(self).voices@ == old(self).voices@.push(
                Voice { id: old(self).next_id, key, gate: true },
            ) && final(self).next_id == old(self).next_id + 1 && r@ == seq![
                start_action(old(self).next_id, key, settings),
            ],
            !starts_voice(*old(self), key) ==> final(self).voices@ == old(self).voices@
                && final(self).next_id == old(self).next_id && r@ == Seq::<VoiceAction>::empty(),
    {
        let note = match key_from_keycode(key) {
            Some(n) => n,
            None => {
                return Vec::new();
            },
        };
        if self.is_sounding(key) || self.next_id == u64::MAX {
            return Vec::new();
        }
        let id = self.next_id;
        self.voices.push(Voice { id, key, gate: true });
        self.next_id = id + 1;
        let mut acts = Vec::new();
        acts.push(
            VoiceAction::Start {
                id,
                note,
                patch: settings.patch,
                adsr: settings.adsr,
                volume: settings.volume,
                paused: settings.muted,
            },
        );
        acts
    }

    /// A key-up: closes the gates of `key`'s voices, which stay in the table
    /// until their release has played out. A key with no voice is a no-op.
    pub fn stop_note(&mut self, key: KeyCode) -> (r: Vec<VoiceAction>)
        requires
            old(self).wf(),
        ensures
            final(self).wf(),
            final(self).voices@ == released(old(self).voices@, key),
            final(self).next_id == old(self).next_id,
            r@ == old(self).voices@.filter_map(release_action(key)),
    {
        let ghost s = self.voices@;
        let ghost n0 = self.next_id;
        let mut acts: Vec<VoiceAction> = Vec::new();
        let mut i: usize = 0;
        while i < self.voices.len()
            invariant
                0 <= i <= self.voices@.len(),
                self.voices@.len() == s.len(),
                self.next_id == n0,
                voice_ids_unique(s),
                ids_below(s, n0),
                forall|j: int| 0 <= j < i ==> self.voices@[j] == released(s, key)[j],
                forall|j: int| i <= j < s.len() ==> self.voices@[j] == s[j],
                acts@ == s.take(i as int).filter_map(release_action(key)),
            decreases s.len() - i,
        {
            let v = self.voices[i];
            proof {
                lemma_filter_map_step(s, release_action(key), i as int);
            }
            if v.key == key {
                if v.gate {
                    acts.push(VoiceAction::Release { id: v.id });
                }
                self.voices.set(i, Voice { gate: false, ..v });
            }
            i = i + 1;
        }
        assert(self.voices@ =~= released(s, key));
        assert(s.take(s.len() as int) == s);
        acts
    }

    /// Closes every gate: all voices go into their release.
    pub fn stop_all(&mut self) -> (r: Vec<VoiceAction>)
        requires
            old(self).wf(),
        ensures
            final(self).wf(),
            final(self).voices@ == all_released(old(self).voices@),
            final(self).next_id == old(self).next_id,
            r@ == old(self).voices@.filter_map(release_any_action()),
    {
        let ghost s = self.voices@;
        let ghost n0 = self.next_id;
        let mut acts: Vec<VoiceAction> = Vec::new();
        let mut i: usize = 0;
        while i < self.voices.len()
            invariant
                0 <= i <= self.voices@.len(),
                self.voices@.len() == s.len(),
                self.next_id == n0,
                voice_ids_unique(s),
                ids_below(s, n0),
                forall|j: int| 0 <= j < i ==> self.voices@[j] == all_released(s)[j],
                forall|j: int| i <= j < s.len() ==> self.voices@[j] == s[j],
                acts@ == s.take(i as int).filter_map(release_any_action()),
            decreases s.len() - i,
        {
            let v = self.voices[i];
            proof {
                lemma_filter_map_step(s, release_any_action(), i as int);
            }
            if v.gate {
                acts.push(VoiceAction::Release { id: v.id });
            }
            self.voices.set(i, Voice { gate: false, ..v });
            i = i + 1;
        }
        assert(self.voices@ =~= all_released(s));
        assert(s.take(s.len() as int) == s);
        acts
    }

    /// Stops `key`'s voices at once and forgets them.
    pub fn kill_note(&mut self, key: KeyCode) -> (r: Vec<VoiceAction>)
        requires
            old(self).wf(),
        ensures
            final(self).wf(),
            final(self).voices@ == old(self).voices@.filter_map(keep_other_keys(key)),
            final(self).next_id == old(self).next_id,
            r@ == old(self).voices@.filter_map(kill_action(key)),
    {
        let ghost s = self.voices@;
        let mut acts: Vec<VoiceAction> = Vec::new();
        let mut kept: Vec<Voice> = Vec::new();
        let mut i: usize = 0;
        while i < self.voices.len()
            invariant
                0 <= i <= self.voices@.len(),
                self.voices@ == s,
                self.wf(),
                acts@ == s.take(i as int).filter_map(kill_action(key)),
                kept@ == s.take(i as int).filter_map(keep_other_keys(key)),
            decreases s.len() - i,
        {
            let v = self.voices[i];
            proof {
                lemma_filter_map_step(s, kill_action(key), i as int);
                lemma_filter_map_step(s, keep_other_keys(key), i as int);
            }
            if v.key == key {
                acts.push(VoiceAction::Kill { id: v.id });
            } else {
                kept.push(v);
            }
            i = i + 1;
        }
        assert(s.take(s.len() as int) == s);
        proof {
            lemma_filter_keeps_wf(s, keep_other_keys(key), self.next_id);
        }
        self.voices = kept;
        acts
    }

    /// Stops every voice at once and empties the table; with no voice left,
    /// identifiers start over from zero.
    pub fn kill_all(&mut self) -> (r: Vec<VoiceAction>)
        requires
            old(self).wf(),
        ensures
            final(self).wf(),
            final(self).voices@ == Seq::<Voice>::empty(),
            final(self).next_id == 0,
            r@ == old(self).voices@.filter_map(kill_any_action()),
            r@.len() == old(self).voices@.len(),
    {
        let ghost s = self.voices@;
        let mut acts: Vec<VoiceAction> = Vec::new();
        let mut i: usize = 0;
        while i < self.voices.len()
            invariant
                0 <= i <= self.voices@.len(),
                self.voices@ == s,
                acts@ == s.take(i as int).filter_map(kill_any_action()),
                acts@.len() == i,
            decreases s.len() - i,
        {
            let v = self.voices[i];
            proof {
                lemma_filter_map_step(s, kill_any_action(), i as int);
            }
            acts.push(VoiceAction::Kill { id: v.id });
            i = i + 1;
        }
        assert(s.take(s.len() as int) == s);
        self.voices = Vec::new();
        self.next_id = 0;
        acts
    }

    /// Forgets the voices whose output has played out (`finished` lists
    /// their identifiers); the others keep their order.
    pub fn cleanup_finished(&mut self, finished: &Vec<u64>)
        requires
            old(self).wf(),
        ensures
            final(self).wf(),
            final(self).voices@ == old(self).voices@.filter_map(keep_unfinished(finished@)),
            final(self).next_id == old(self).next_id,
    {
        let ghost s = self.voices@;
        let mut kept: Vec<Voice> = Vec::new();
        let mut i: usize = 0;
        while i < self.voices.len()
            invariant
                0 <= i <= self.voices@.len(),
                self.voices@ == s,
                kept@ == s.take(i as int).filter_map(keep_unfinished(finished@)),
            decreases s.len() - i,
        {
            let v = self.voices[i];
            proof {
                lemma_filter_map_step(s, keep_unfinished(finished@), i as int);
            }
            if !contains_id(finished, v.id) {
                kept.push(v);
            }
            i = i + 1;
        }
        assert(s.take(s.len() as int) == s);
        proof {
            lemma_filter_keeps_wf(s, keep_unfinished(finished@), self.next_id);
        }
        self.voices = kept;
    }

    /// Sets every live voice to `volume`.
    pub fn set_all_volume(&self, volume: u32) -> (r: Vec<VoiceAction>)
        ensures
            r@ == self.voices@.filter_map(volume_action(volume)),
            r@.len() == self.voices@.len(),
    {
        let mut acts: Vec<VoiceAction> = Vec::new();
        let mut i: usize = 0;
        while i < self.voices.len()
            invariant
                0 <= i <= self.voices@.len(),
                acts@ == self.voices@.take(i as int).filter_map(volume_action(volume)),
                acts@.len() == i,
            decreases self.voices@.len() - i,
        {
            let v = self.voices[i];
            proof {
                lemma_filter_map_step(self.voices@, volume_action(volume), i as int);
            }
            acts.push(VoiceAction::SetVolume { id: v.id, volume });
            i = i + 1;
        }
        assert(self.voices@.take(self.voices@.len() as int) == self.voices@);
        acts
    }

    /// Pauses every live voice (`muted`) or resumes it where it stopped.
    pub fn set_all_muted(&self, muted: bool) -> (r: Vec<VoiceAction>)
        ensures
            r@ == self.voices@.filter_map(mute_action(muted)),
            r@.len() == self.voices@.len(),
    {
        let mut acts: Vec<VoiceAction> = Vec::new();
        let mut i: usize = 0;
        while i < self.voices.len()
            invariant
                0 <= i <= self.voices@.len(),
                acts@ == self.voices@.take(i as int).filter_map(mute_action(muted)),
                acts@.len() == i,
            decreases self.voices@.len() - i,
        {
            let v = self.voices[i];
            proof {
                lemma_filter_map_step(self.voices@, mute_action(muted), i as int);
            }
            if muted {
                acts.push(VoiceAction::Pause { id: v.id });
            } else {
                acts.push(VoiceAction::Resume { id: v.id });
            }
            i = i + 1;
        }
        assert(self.voices@.take(self.voices@.len() as int) == self.voices@);
        acts
    }

    /// Key-downs of several distinct keys: the keys of the note layout that
    /// are not sounding get a voice each, in the order given.
    pub fn play_notes(&mut self, keys: &Vec<KeyCode>, settings: VoiceSettings) -> (r: Vec<VoiceAction>)
        requires
            old(self).wf(),
            keys@.no_duplicates(),
        ensures
            final(self).wf(),
            ids_left(*old(self), keys@) ==> final(self).voices@ == old(self).voices@ + fresh_voices(
                keys@.filter_map(startable(old(self).voices@)),
                old(self).next_id,
            ),
            ids_left(*old(self), keys@) ==> final(self).next_id == old(self).next_id + keys@.filter_map(
                startable(old(self).voices@),
            ).len(),
            ids_left(*old(self), keys@) ==> r@ == start_actions(
                fresh_voices(keys@.filter_map(startable(old(self).voices@)), old(self).next_id),
                settings,
            ),
    {
        let ghost s0 = self.voices@;
        let ghost n0 = self.next_id;
        let ghost cond = ids_left(*self, keys@);
        let mut acts: Vec<VoiceAction> = Vec::new();
        let mut i: usize = 0;
        while i < keys.len()
            invariant
                0 <= i <= keys@.len(),
                keys@.no_duplicates(),
                self.wf(),
                cond == (n0 + keys@.filter_map(startable(s0)).len() <= u64::MAX),
                cond ==> self.voices@ == s0 + fresh_voices(
                    keys@.take(i as int).filter_map(startable(s0)),
                    n0,
                ),
                cond ==> self.next_id == n0 + keys@.take(i as int).filter_map(startable(s0)).len(),
                cond ==> acts@ == start_actions(
                    fresh_voices(keys@.take(i as int).filter_map(startable(s0)), n0),
                    settings,
                ),
            decreases keys@.len() - i,
        {
            let k = keys[i];
            let ghost before = self.voices@;
            proof {
                keys@.lemma_filter_map_take_succ(startable(s0), i as int);
                if cond {
                    lemma_filter_map_prefix_len(keys@, startable(s0), i as int + 1);
                    lemma_fresh_not_sounding(s0, keys@, i as int, n0);
                }
            }
            let mut more = self.play_note(k, settings);
            proof {
                if cond {
                    let f0 = keys@.take(i as int).filter_map(startable(s0));
                    let f1 = keys@.take(i as int + 1).filter_map(startable(s0));
                    assert(keys@.take(i as int + 1)[i as int] == k);
                    if startable(s0)(k) is Some {
                        assert(f1 =~= f0 + seq![k]);
                        assert(fresh_voices(f1, n0) =~= fresh_voices(f0, n0).push(
                            Voice { id: (n0 + f0.len()) as u64, key: k, gate: true },
                        ));
                        assert(self.voices@ =~= s0 + fresh_voices(f1, n0));
                        assert(start_actions(fresh_voices(f1, n0), settings) =~= start_actions(
                            fresh_voices(f0, n0),
                            settings,
                        ) + more@);
                    } else {
                        assert(f1 =~= f0);
                    }
                }
            }
            acts.append(&mut more);
            i = i + 1;
        }
        assert(keys@.take(keys@.len() as int) == keys@);
        acts
    }

    /// Key-ups of several keys at once: closes the gates of their voices.
    pub fn stop_notes(&mut self, keys: &Vec<KeyCode>) -> (r: Vec<VoiceAction>)
        requires
            old(self).wf(),
        ensures
            final(self).wf(),
            final(self).voices@ == released_keys(old(self).voices@, keys@),
            final(self).next_id == old(self).next_id,
            r@ == old(self).voices@.filter_map(release_of_keys(keys@)),
    {
        let ghost s = self.voices@;
        let ghost n0 = self.next_id;
        let mut acts: Vec<VoiceAction> = Vec::new();
        let mut i: usize = 0;
        while i < self.voices.len()
            invariant
                0 <= i <= self.voices@.len(),
                self.voices@.len() == s.len(),
                self.next_id == n0,
                voice_ids_unique(s),
                ids_below(s, n0),
                forall|j: int| 0 <= j < i ==> self.voices@[j] == released_keys(s, keys@)[j],
                forall|j: int| i <= j < s.len() ==> self.voices@[j] == s[j],
                acts@ == s.take(i as int).filter_map(release_of_keys(keys@)),
            decreases s.len() - i,
        {
            let v = self.voices[i];
            proof {
                lemma_filter_map_step(s, release_of_keys(keys@), i as int);
            }
            if contains_key(keys, v.key) {
                if v.gate {
                    acts.push(VoiceAction::Release { id: v.id });
                }
                self.voices.set(i, Voice { gate: false, ..v });
            }
            i = i + 1;
        }
        assert(self.voices@ =~= released_keys(s, keys@));
        assert(s.take(s.len() as int) == s);
        acts
    }
}

fn contains_id(ids: &Vec<u64>, id: u64) -> (r: bool)
    ensures
        r == ids@.contains(id),
{
    let mut i: usize = 0;
    while i < ids.len()
        invariant
            0 <= i <= ids@.len(),
            forall|j: int| 0 <= j < i ==> ids@[j] != id,
        decreases ids@.len() - i,
    {
        if ids[i] == id {
            return true;
        }
        i = i + 1;
    }
    false
}

/// Dropping voices from a table keeps its identifiers unique and bounded.
proof fn lemma_filter_keeps_wf(s: Seq<Voice>, f: spec_fn(Voice) -> Option<Voice>, bound: u64)
    requires
        voice_ids_unique(s),
        ids_below(s, bound),
        forall|v: Voice| #[trigger] f(v) == Some(v) || f(v) is None,
    ensures
        voice_ids_unique(s.filter_map(f)),
        ids_below(s.filter_map(f), bound),
        forall|v: Voice| s.filter_map(f).contains(v) ==> s.contains(v),
    decreases s.len(),
{
    assert forall|v: Voice| s.filter_map(f).contains(v) implies s.contains(v) by {
        s.lemma_filter_map_contains(f, v);
        let t = choose|t: Voice| #[trigger] s.contains(t) && f(t) == Some(v);
        assert(f(t) == Some(t) || f(t) is None);
    }
    if s.len() > 0 {
        let rest = s.drop_last();
        assert(voice_ids_unique(rest));
        assert(ids_below(rest, bound));
        lemma_filter_keeps_wf(rest, f, bound);
        let fr = rest.filter_map(f);
        if f(s.last()) is Some {
            assert(s.filter_map(f) == fr + seq![s.last()]);
            assert forall|j: int| 0 <= j < fr.len() implies fr[j].id != s.last().id by {
                assert(fr.contains(fr[j]));
                assert(rest.contains(fr[j]));
                let k = choose|k: int| 0 <= k < rest.len() && rest[k] == fr[j];
                assert(s[k] == rest[k]);
            }
            assert forall|j: int| 0 <= j < s.filter_map(f).len() implies s.filter_map(f)[j].id < bound by {
                if j < fr.len() {
                    assert(s.filter_map(f)[j] == fr[j]);
                }
            }
        } else {
            assert(s.filter_map(f) == fr);
        }
    }
}

/// Where no voice of `key` has an open gate, a key-up of `key` has nothing
/// to release.
proof fn lemma_nothing_to_release(s: Seq<Voice>, key: KeyCode)
    requires
        forall|i: int| 0 <= i < s.len() ==> !(s[i].key == key && s[i].gate),
    ensures
        s.filter_map(release_action(key)) == Seq::<VoiceAction>::empty(),
    decreases s.len(),
{
    if s.len() > 0 {
        lemma_nothing_to_release(s.drop_last(), key);
        assert(!(s[s.len() - 1].key == key && s[s.len() - 1].gate));
    }
}

/// Releasing a key twice is releasing it once: the second key-up leaves the
/// table as the first left it and sends no further release.
pub proof fn lemma_release_idempotent(s: Seq<Voice>, key: KeyCode)
    ensures
        released(released(s, key), key) == released(s, key),
        released(s, key).filter_map(release_action(key)) == Seq::<VoiceAction>::empty(),
{
    assert(released(released(s, key), key) =~= released(s, key));
    lemma_nothing_to_release(released(s, key), key);
}

/// Filtering a sequence never makes it longer.
pub proof fn lemma_filter_map_len<A, B>(s: Seq<A>, f: spec_fn(A) -> Option<B>)
    ensures
        s.filter_map(f).len() <= s.len(),
    decreases s.len(),
{
    if s.len() > 0 {
        lemma_filter_map_len(s.drop_last(), f);
    }
}

/// While the voices of distinct keys are started one after the other, the
/// key about to be played sounds exactly as it did in the starting table:
/// the fresh voices belong to the keys before it.
proof fn lemma_fresh_not_sounding(s0: Seq<Voice>, keys: Seq<KeyCode>, i: int, first_id: u64)
    requires
        keys.no_duplicates(),
        0 <= i < keys.len(),
    ensures
        key_sounding(s0 + fresh_voices(keys.take(i).filter_map(startable(s0)), first_id), keys[i])
            == key_sounding(s0, keys[i]),
{
    let fk = keys.take(i).filter_map(startable(s0));
    let fresh = fresh_voices(fk, first_id);
    let all = s0 + fresh;
    let k = keys[i];
    if key_sounding(all, k) && !key_sounding(s0, k) {
        let j = choose|j: int| 0 <= j < all.len() && all[j].key == k && all[j].gate;
        if j < s0.len() {
            assert(all[j] == s0[j]);
        } else {
            let q = j - s0.len();
            assert(fresh[q].key == fk[q]);
            assert(fk.contains(fk[q]));
            keys.take(i).lemma_filter_map_contains(startable(s0), fk[q]);
            let t = choose|t: KeyCode| #[trigger] keys.take(i).contains(t) && startable(s0)(t) == Some(fk[q]);
            let m = choose|m: int| 0 <= m < i && keys.take(i)[m] == t;
            assert(keys[m] == keys[i]);
        }
    }
    if key_sounding(s0, k) {
        let j = choose|j: int| 0 <= j < s0.len() && s0[j].key == k && s0[j].gate;
        assert(all[j] == s0[j]);
    }
}

/// Filtering a prefix gives no more than filtering the whole sequence.
pub proof fn lemma_filter_map_prefix_len<A, B>(s: Seq<A>, f: spec_fn(A) -> Option<B>, i: int)
    requires
        0 <= i <= s.len(),
    ensures
        s.take(i).filter_map(f).len() <= s.filter_map(f).len(),
    decreases s.len() - i,
{
    if i == s.len() {
        assert(s.take(i) == s);
    } else {
        s.lemma_filter_map_take_succ(f, i);
        lemma_filter_map_prefix_len(s, f, i + 1);
    }
}

/// A filter that keeps nothing of a sequence gives the empty sequence.
pub proof fn lemma_filter_map_none<A, B>(s: Seq<A>, f: spec_fn(A) -> Option<B>)
    requires
        forall|i: int| 0 <= i < s.len() ==> (#[trigger] f(s[i])) is None,
    ensures
        s.filter_map(f) == Seq::<B>::empty(),
    decreases s.len(),
{
    if s.len() > 0 {
        assert(f(s[s.len() - 1]) is None);
        lemma_filter_map_none(s.drop_last(), f);
    }
}

/// What a filter keeps of an element of a sequence is in the filtered sequence.
pub proof fn lemma_filter_map_keeps<A, B>(s: Seq<A>, f: spec_fn(A) -> Option<B>, a: A)
    requires
        s.contains(a),
        f(a) is Some,
    ensures
        s.filter_map(f).contains(f(a).unwrap()),
    decreases s.len(),
{
    let b = f(a).unwrap();
    if s.last() == a {
        assert(s.filter_map(f)[s.filter_map(f).len() - 1] == b);
    } else {
        let m = choose|m: int| 0 <= m < s.len() && s[m] == a;
        assert(s.drop_last()[m] == a);
        lemma_filter_map_keeps(s.drop_last(), f, a);
        let fr = s.drop_last().filter_map(f);
        let q = choose|q: int| 0 <= q < fr.len() && fr[q] == b;
        assert(s.filter_map(f)[q] == b);
    }
}

/// After a restart every held key of the note layout is sounding.
pub proof fn lemma_fresh_covers_held(held: Seq<KeyCode>, k: KeyCode)
    requires
        held.contains(k),
        layout_key(k) is Some,
    ensures
        key_sounding(fresh_voices(held.filter_map(startable(Seq::empty())), 0), k),
{
    let f = startable(Seq::<Voice>::empty());
    assert(!key_sounding(Seq::<Voice>::empty(), k));
    lemma_filter_map_keeps(held, f, k);
    let keys = held.filter_map(f);
    let j = choose|j: int| 0 <= j < keys.len() && keys[j] == k;
    let vs = fresh_voices(keys, 0);
    assert(vs[j].key == k && vs[j].gate);
}

/// A filter that keeps every element maps each one, in order.
pub proof fn lemma_filter_map_all<A, B>(s: Seq<A>, f: spec_fn(A) -> Option<B>)
    requires
        forall|i: int| 0 <= i < s.len() ==> (#[trigger] f(s[i])) is Some,
    ensures
        s.filter_map(f).len() == s.len(),
        forall|i: int| 0 <= i < s.len() ==> s.filter_map(f)[i] == f(s[i]).unwrap(),
    decreases s.len(),
{
    if s.len() > 0 {
        let rest = s.drop_last();
        assert forall|i: int| 0 <= i < rest.len() implies (#[trigger] f(rest[i])) is Some by {
            assert(rest[i] == s[i]);
        }
        lemma_filter_map_all(rest, f);
        assert(f(s[s.len() - 1]) is Some);
        assert forall|i: int| 0 <= i < s.len() implies s.filter_map(f)[i] == f(s[i]).unwrap() by {
            if i < rest.len() {
                assert(rest[i] == s[i]);
            }
        }
    }
}

/// Keeping some keys of a list without repeats gives a list without repeats.
pub proof fn lemma_filter_map_unique(s: Seq<KeyCode>, f: spec_fn(KeyCode) -> Option<KeyCode>)
    requires
        s.no_duplicates(),
        forall|k: KeyCode| #[trigger] f(k) is None || f(k) == Some(k),
    ensures
        s.filter_map(f).no_duplicates(),
    decreases s.len(),
{
    if s.len() > 0 {
        let rest = s.drop_last();
        let x = s.last();
        assert(rest.no_duplicates());
        lemma_filter_map_unique(rest, f);
        let fr = rest.filter_map(f);
        if f(x) is Some {
            assert(f(x) == Some(x));
            assert forall|a: int| 0 <= a < fr.len() implies fr[a] != x by {
                assert(fr.contains(fr[a]));
                rest.lemma_filter_map_contains(f, fr[a]);
                let t = choose|t: KeyCode| #[trigger] rest.contains(t) && f(t) == Some(fr[a]);
                assert(f(t) == Some(t));
                let m = choose|m: int| 0 <= m < rest.len() && rest[m] == t;
                assert(s[m] == rest[m]);
            }
            assert(s.filter_map(f) == fr + seq![x]);
        }
    }
}

} // verus!
