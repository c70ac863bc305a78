use crate::adsr::{Adsr, AMP_ONE};
use crate::input::{
    distinct, distinct_keys, distinct_where, is_patch_key, kept_keys, lemma_distinct,
};
use crate::key::{layout_key, KeyCode};
use crate::patch::{kind_at, kind_at_spec, BasicKind, BASIC_KIND_COUNT};
use crate::voices::{
    fresh_voices, kill_any_action, lemma_filter_map_all, lemma_filter_map_keeps,
    lemma_filter_map_len, lemma_filter_map_none, lemma_filter_map_unique, start_action,
    lemma_fresh_covers_held, release_of_keys, released_keys,
    start_actions, startable, PlayState, Voice, VoiceAction, VoiceSettings,
};
use vstd::prelude::*;

verus! {

/// Unity gain, in thousandths: volumes are counted in thousandths.
pub const VOLUME_UNITY: u32 = 1000;

/// The loudest volume the engine plays at: twice unity gain.
pub const VOLUME_MAX: u32 = 2000;

/// Default envelope: 10 ms attack, 100 ms decay, sustain at 70 %, 200 ms release.
pub const ADSR_ATTACK_US: u64 = 10_000;

pub const ADSR_DECAY_US: u64 = 100_000;

pub const ADSR_SUSTAIN: u32 = 700_000;

pub const ADSR_RELEASE_US: u64 = 200_000;

/// What observers may read of the engine: volume, mute and the active patch.
#[derive(Debug, Clone, Copy, PartialEq, Eq, Structural)]
pub struct AudioSnapshot {
    pub volume: u32,
    pub muted: bool,
    pub patch: BasicKind,
}

/// The commands that the user interface sends to the engine.
#[derive(Debug, Clone, Copy, PartialEq, Eq, Structural)]
pub enum AudioCommand {
    /// Set the volume, in thousandths of unity gain; held to `0 ..= 2000`.
    SetVolume(i64),
    SetMuted(bool),
    /// Move on to the next patch of the cycle.
    TogglePatch,
    SetPatch(BasicKind),
    SetAdsr(Adsr),
}

/// A volume request held to the range the engine plays at.
pub open spec fn clamp_volume(v: int) -> u32 {
    if v < 0 {
        0
    } else if v > VOLUME_MAX {
        VOLUME_MAX
    } else {
        v as u32
    }
}

/// The runtime state of the engine: volume, mute, envelope, active patch,
/// the keys held down, and the table of voices. One control loop owns it and
/// applies every command and key change to it in turn.
#[derive(Debug)]
pub struct Engine {
    pub volume: u32,
    pub muted: bool,
    pub adsr: Adsr,
    pub current_patch: BasicKind,
    pub toggle_index: usize,
    pub held_keys: Vec<KeyCode>,
    pub play: PlayState,
}

pub open spec fn snapshot_of(e: Engine) -> AudioSnapshot {
    AudioSnapshot { volume: e.volume, muted: e.muted, patch: e.current_patch }
}

pub open spec fn settings_of(e: Engine) -> VoiceSettings {
    VoiceSettings { patch: e.current_patch, adsr: e.adsr, volume: e.volume, muted: e.muted }
}

/// The voice table after a restart: the table is emptied, then each held
/// key of the note layout gets a fresh voice, gate open, in the order the
/// keys are held, numbered from zero.
pub open spec fn restarted_voices(held: Seq<KeyCode>) -> Seq<Voice> {
    fresh_voices(held.filter_map(startable(Seq::empty())), 0)
}

/// The actions of a restart: a kill for every old voice, then a start for
/// every new one.
pub open spec fn restart_actions(
    old_voices: Seq<Voice>,
    new_voices: Seq<Voice>,
    settings: VoiceSettings,
) -> Seq<VoiceAction> {
    old_voices.filter_map(kill_any_action()) + start_actions(new_voices, settings)
}

/// What a restart does: every old voice is killed, then each held key of the
/// note layout gets a fresh voice with the engine's (new) settings.
pub open spec fn restart_effect(e0: Engine, e1: Engine, acts: Seq<VoiceAction>) -> bool {
    &&& e1.play.voices@ == restarted_voices(e0.held_keys@)
    &&& e1.play.next_id == e1.play.voices@.len()
    &&& acts == restart_actions(e0.play.voices@, e1.play.voices@, settings_of(e1))
}

/// Envelope parameters with the sustain level held to full scale.
pub open spec fn clamped_adsr(a: Adsr) -> Adsr {
    Adsr { sustain: if a.sustain > AMP_ONE { AMP_ONE } else { a.sustain }, ..a }
}

/// What a command does to the settings of the engine, and, for volume and
/// mute, the actions it sends to the live voices.
pub open spec fn command_effect(
    e0: Engine,
    e1: Engine,
    cmd: AudioCommand,
    acts: Seq<VoiceAction>,
) -> bool {
    match cmd {
        AudioCommand::SetVolume(v) => {
            &&& e1 == Engine { volume: clamp_volume(v as int), ..e0 }
            &&& acts == e0.play.voices@.filter_map(
                crate::voices::volume_action(clamp_volume(v as int)),
            )
        },
        AudioCommand::SetMuted(m) => {
            &&& e1 == Engine { muted: m, ..e0 }
            &&& acts == e0.play.voices@.filter_map(crate::voices::mute_action(m))
        },
        AudioCommand::TogglePatch => {
            &&& e1.toggle_index == (e0.toggle_index + 1) % (BASIC_KIND_COUNT as int)
            &&& e1.current_patch == kind_at_spec(e1.toggle_index as int)
            &&& e1.volume == e0.volume && e1.muted == e0.muted && e1.adsr == e0.adsr
        },
        AudioCommand::SetPatch(k) => {
            &&& e1.current_patch == k
            &&& e1.toggle_index == e0.toggle_index
            &&& e1.volume == e0.volume && e1.muted == e0.muted && e1.adsr == e0.adsr
        },
        AudioCommand::SetAdsr(a) => {
            &&& e1.adsr == clamped_adsr(a)
            &&& e1.current_patch == e0.current_patch
            &&& e1.toggle_index == e0.toggle_index
            &&& e1.volume == e0.volume && e1.muted == e0.muted
        },
    }
}

/// The newly pressed keys of a change, without the patch key.
pub open spec fn newly_pressed(now: Seq<KeyCode>, prev: Seq<KeyCode>) -> Seq<KeyCode> {
    distinct(now, kept_keys(prev, true))
}

/// The newly released keys of a change.
pub open spec fn newly_released(now: Seq<KeyCode>, prev: Seq<KeyCode>) -> Seq<KeyCode> {
    distinct(prev, kept_keys(now, false))
}

/// What a change of the held keys does to the voice table and which actions
/// it sends, given the engine before (`e0`) and after (`e1`) it: on a patch
/// key press the table is first restarted for the new held keys (which
/// leaves no newly pressed key without a voice); then the newly pressed keys
/// that can sound get fresh voices, and the voices of the newly released
/// keys have their gates closed.
pub open spec fn delta_outcome(
    e0: Engine,
    e1: Engine,
    now: Seq<KeyCode>,
    prev: Seq<KeyCode>,
    toggle: bool,
    acts: Seq<VoiceAction>,
) -> bool {
    let base = if toggle {
        restarted_voices(e1.held_keys@)
    } else {
        e0.play.voices@
    };
    let base_next = if toggle {
        base.len() as u64
    } else {
        e0.play.next_id
    };
    let restart = if toggle {
        restart_actions(e0.play.voices@, base, settings_of(e1))
    } else {
        Seq::empty()
    };
    let fresh = fresh_voices(newly_pressed(now, prev).filter_map(startable(base)), base_next);
    &&& e1.play.next_id == base_next + fresh.len()
    &&& e1.play.voices@ == released_keys(base + fresh, newly_released(now, prev))
    &&& acts == restart + start_actions(fresh, settings_of(e1)) + (base + fresh).filter_map(
        release_of_keys(newly_released(now, prev)),
    )
}

/// The commands that restart the held keys' voices.
pub open spec fn restarts(cmd: AudioCommand) -> bool {
    match cmd {
        AudioCommand::TogglePatch | AudioCommand::SetPatch(_) | AudioCommand::SetAdsr(_) => true,
        _ => false,
    }
}

impl Engine {
    pub open spec fn wf(self) -> bool {
        &&& self.play.wf()
        &&& self.adsr.wf()
        &&& self.volume <= VOLUME_MAX
        &&& self.toggle_index < BASIC_KIND_COUNT
        &&& self.held_keys@.no_duplicates()
        &&& forall|i: int| 0 <= i < self.held_keys@.len() ==> !is_patch_key(#[trigger] self.held_keys@[i])
    }

    /// The engine at start-up: unity volume, not muted, the sine patch, the
    /// default envelope, nothing held and nothing sounding.
    pub fn new() -> (r: Engine)
        ensures
            r.wf(),
            r.volume == VOLUME_UNITY,
            !r.muted,
            r.current_patch == BasicKind::Sine,
            r.toggle_index == 0,
            r.adsr == (Adsr {
                attack_us: ADSR_ATTACK_US,
                decay_us: ADSR_DECAY_US,
                sustain: ADSR_SUSTAIN,
                release_us: ADSR_RELEASE_US,
            }),
            r.held_keys@ == Seq::<KeyCode>::empty(),
            r.play.voices@ == Seq::<Voice>::empty(),
    {
        Engine {
            volume: VOLUME_UNITY,
            muted: false,
            adsr: Adsr::new(ADSR_ATTACK_US, ADSR_DECAY_US, ADSR_SUSTAIN, ADSR_RELEASE_US),
            current_patch: BasicKind::Sine,
            toggle_index: 0,
            held_keys: Vec::new(),
            play: PlayState::new(),
        }
    }

    /// The state that observers see.
    pub fn snapshot(&self) -> (r: AudioSnapshot)
        ensures
            r == snapshot_of(*self),
    {
        AudioSnapshot { volume: self.volume, muted: self.muted, patch: self.current_patch }
    }

    fn settings(&self) -> (r: VoiceSettings)
        ensures
            r == settings_of(*self),
    {
        VoiceSettings {
            patch: self.current_patch,
            adsr: self.adsr,
            volume: self.volume,
            muted: self.muted,
        }
    }

    /// Sets the volume, held to `0 ..= VOLUME_MAX`, and applies it to every
    /// live voice at once.
    pub fn set_volume(&mut self, v: i64) -> (r: Vec<VoiceAction>)
        requires
            old(self).wf(),
        ensures
            final(self).wf(),
            *final(self) == (Engine { volume: clamp_volume(v as int), ..*old(self) }),
            r@ == old(self).play.voices@.filter_map(crate::voices::volume_action(clamp_volume(v as int))),
    {
        let c: u32 = if v < 0 {
            0
        } else if v > VOLUME_MAX as i64 {
            VOLUME_MAX
        } else {
            v as u32
        };
        self.volume = c;
        self.play.set_all_volume(c)
    }

    /// Mutes (pauses every live voice) or unmutes (resumes them where they
    /// stopped).
    pub fn set_muted(&mut self, m: bool) -> (r: Vec<VoiceAction>)
        requires
            old(self).wf(),
        ensures
            final(self).wf(),
            *final(self) == (Engine { muted: m, ..*old(self) }),
            r@ == old(self).play.voices@.filter_map(crate::voices::mute_action(m)),
    {
        self.muted = m;
        self.play.set_all_muted(m)
    }

    /// Moves on to the next patch of the cycle.
    pub fn cycle_patch(&mut self)
        requires
            old(self).wf(),
        ensures
            final(self).wf(),
            final(self).toggle_index == (old(self).toggle_index + 1) % (BASIC_KIND_COUNT as int),
            final(self).current_patch == kind_at_spec(final(self).toggle_index as int),
            final(self).volume == old(self).volume,
            final(self).muted == old(self).muted,
            final(self).adsr == old(self).adsr,
            final(self).held_keys == old(self).held_keys,
            final(self).play == old(self).play,
    {
        self.toggle_index = (self.toggle_index + 1) % BASIC_KIND_COUNT;
        self.current_patch = kind_at(self.toggle_index);
    }

    /// Stops every voice at once and starts a fresh one, with the current
    /// patch and envelope, for each held key: used after the patch or the
    /// envelope has changed. The held keys stay as they are.
    pub fn restart_active_notes(&mut self) -> (r: Vec<VoiceAction>)
        requires
            old(self).wf(),
        ensures
            final(self).wf(),
            final(self).volume == old(self).volume,
            final(self).muted == old(self).muted,
            final(self).adsr == old(self).adsr,
            final(self).current_patch == old(self).current_patch,
            final(self).toggle_index == old(self).toggle_index,
            final(self).held_keys == old(self).held_keys,
            restart_effect(*old(self), *final(self), r@),
    {
        let settings = self.settings();
        let mut acts = self.play.kill_all();
        let held_count = self.held_keys.len();
        proof {
            lemma_filter_map_len(self.held_keys@, startable(self.play.voices@));
            assert(usize::MAX == 0xffff_ffff || usize::MAX == 0xffff_ffff_ffff_ffff);
            assert(held_count <= usize::MAX);
            assert(self.held_keys@.len() <= u64::MAX);
        }
        let mut started = self.play.play_notes(&self.held_keys, settings);
        acts.append(&mut started);
        acts
    }

    /// Forgets the voices whose output has played out.
    pub fn cleanup_finished(&mut self, finished: &Vec<u64>)
        requires
            old(self).wf(),
        ensures
            final(self).wf(),
            final(self).play.voices@ == old(self).play.voices@.filter_map(
                crate::voices::keep_unfinished(finished@),
            ),
            final(self).play.next_id == old(self).play.next_id,
            final(self).volume == old(self).volume,
            final(self).muted == old(self).muted,
            final(self).adsr == old(self).adsr,
            final(self).current_patch == old(self).current_patch,
            final(self).toggle_index == old(self).toggle_index,
            final(self).held_keys == old(self).held_keys,
    {
        self.play.cleanup_finished(finished);
    }

    /// Applies one command of the user interface. Volume and mute apply to
    /// the live voices at once; a change of patch or envelope restarts the
    /// voices of the held keys with it.
    pub fn handle_command(&mut self, cmd: AudioCommand) -> (r: Vec<VoiceAction>)
        requires
            old(self).wf(),
        ensures
            final(self).wf(),
            final(self).held_keys == old(self).held_keys,
            command_effect(*old(self), *final(self), cmd, r@),
            restarts(cmd) ==> restart_effect(*old(self), *final(self), r@),
    {
        match cmd {
            AudioCommand::SetVolume(v) => self.set_volume(v),
            AudioCommand::SetMuted(m) => self.set_muted(m),
            AudioCommand::TogglePatch => {
                self.cycle_patch();
                self.restart_active_notes()
            },
            AudioCommand::SetPatch(k) => {
                self.current_patch = k;
                self.restart_active_notes()
            },
            AudioCommand::SetAdsr(a) => {
                self.adsr = Adsr::new(a.attack_us, a.decay_us, a.sustain, a.release_us);
                self.restart_active_notes()
            },
        }
    }

    /// Applies one change of the held keys (`now` held, `prev` held before).
    /// The held keys become the keys of `now`, each once, without the patch
    /// key. With `toggle` (the patch key went down) the patch cycles and the
    /// held keys' voices restart. Then each newly pressed key starts a voice
    /// (as `play_note` would) and each newly released key's voices go into
    /// their release.
    pub fn apply_key_delta(
        &mut self,
        now: &Vec<KeyCode>,
        prev: &Vec<KeyCode>,
        toggle: bool,
    ) -> (r: Vec<VoiceAction>)
        requires
            old(self).wf(),
        ensures
            final(self).wf(),
            final(self).held_keys@ == distinct(now@, kept_keys(Seq::empty(), true)),
            final(self).volume == old(self).volume,
            final(self).muted == old(self).muted,
            final(self).adsr == old(self).adsr,
            toggle ==> final(self).toggle_index == (old(self).toggle_index + 1) % (
            BASIC_KIND_COUNT as int),
            toggle ==> final(self).current_patch == kind_at_spec(final(self).toggle_index as int),
            !toggle ==> final(self).toggle_index == old(self).toggle_index,
            !toggle ==> final(self).current_patch == old(self).current_patch,
            toggle || old(self).play.next_id + now@.len() <= u64::MAX ==> delta_outcome(
                *old(self),
                *final(self),
                now@,
                prev@,
                toggle,
                r@,
            ),
    {
        let ghost e0 = *self;
        self.held_keys = distinct_keys(now, true);
        let mut acts: Vec<VoiceAction> = Vec::new();
        if toggle {
            self.cycle_patch();
            acts = self.restart_active_notes();
        }
        let ghost e1 = *self;
        let ghost acts1 = acts@;
        let settings = self.settings();
        let pressed = distinct_where(now, prev, true);
        let released = distinct_where(prev, now, false);
        proof {
            lemma_distinct(now@, kept_keys(Seq::empty(), true));
            lemma_distinct(now@, kept_keys(prev@, true));
            let base = self.play.voices@;
            let f = startable(base);
            if toggle {
                assert forall|i: int| 0 <= i < pressed@.len() implies (#[trigger] f(pressed@[i])) is None by {
                    let k = pressed@[i];
                    assert(pressed@.contains(k));
                    assert(self.held_keys@.contains(k));
                    if layout_key(k) is Some {
                        lemma_fresh_covers_held(self.held_keys@, k);
                    }
                }
                lemma_filter_map_none(pressed@, f);
            } else if e0.play.next_id + now@.len() <= u64::MAX {
                lemma_filter_map_len(pressed@, f);
            }
        }
        let mut started = self.play.play_notes(&pressed, settings);
        acts.append(&mut started);
        let mut stopped = self.play.stop_notes(&released);
        acts.append(&mut stopped);
        proof {
            if toggle || e0.play.next_id + now@.len() <= u64::MAX {
                let base = e1.play.voices@;
                let fresh = fresh_voices(pressed@.filter_map(startable(base)), e1.play.next_id);
                assert(acts@ =~= acts1 + start_actions(fresh, settings) + (base + fresh).filter_map(
                    release_of_keys(released@),
                ));
            }
        }
        acts
    }
}

/// Setting the volume and then reading the snapshot gives back the request
/// held to `0 ..= VOLUME_MAX`.
pub proof fn lemma_volume_round_trip(e0: Engine, e1: Engine, x: i64, acts: Seq<VoiceAction>)
    requires
        command_effect(e0, e1, AudioCommand::SetVolume(x), acts),
    ensures
        snapshot_of(e1).volume == if x < 0 {
            0
        } else if x > VOLUME_MAX {
            VOLUME_MAX as int
        } else {
            x as int
        },
{
}

/// Some voice of the table belongs to `key`.
pub open spec fn has_voice(s: Seq<Voice>, key: KeyCode) -> bool {
    exists|j: int| 0 <= j < s.len() && s[j].key == key
}

/// `key` is held and plays a note.
pub open spec fn plays(held: Seq<KeyCode>, key: KeyCode) -> bool {
    held.contains(key) && layout_key(key) is Some
}

/// Rotating the patch while keys are held keeps the held keys, kills every
/// voice that was playing, and starts exactly one fresh voice, gate open, on
/// the new patch for each held key of the note layout, and no other.
pub proof fn lemma_rotation_restarts_held_keys(e0: Engine, e1: Engine, acts: Seq<VoiceAction>)
    requires
        e0.wf(),
        e1.held_keys == e0.held_keys,
        command_effect(e0, e1, AudioCommand::TogglePatch, acts),
        restart_effect(e0, e1, acts),
    ensures
        e1.held_keys@ == e0.held_keys@,
        e1.current_patch == kind_at_spec((e0.toggle_index + 1) % (BASIC_KIND_COUNT as int)),
        acts.len() == e0.play.voices@.len() + e1.play.voices@.len(),
        forall|i: int|
            0 <= i < e0.play.voices@.len() ==> acts[i] == (VoiceAction::Kill {
                id: e0.play.voices@[i].id,
            }),
        forall|j: int|
            0 <= j < e1.play.voices@.len() ==> e1.play.voices@[j].gate && acts[e0.play.voices@.len()
                + j] == start_action(
                e1.play.voices@[j].id,
                e1.play.voices@[j].key,
                settings_of(e1),
            ),
        forall|k: KeyCode| has_voice(e1.play.voices@, k) <==> plays(e0.held_keys@, k),
        forall|a: int, b: int|
            0 <= a < b < e1.play.voices@.len() ==> e1.play.voices@[a].key != e1.play.voices@[b].key,
{
    let old_vs = e0.play.voices@;
    let held = e0.held_keys@;
    let f = startable(Seq::<Voice>::empty());
    let keys = held.filter_map(f);
    lemma_filter_map_all(old_vs, kill_any_action());
    assert forall|k: KeyCode| has_voice(e1.play.voices@, k) <==> plays(held, k) by {
        if exists|j: int| 0 <= j < e1.play.voices@.len() && e1.play.voices@[j].key == k {
            let j = choose|j: int| 0 <= j < e1.play.voices@.len() && e1.play.voices@[j].key == k;
            assert(keys.contains(keys[j]));
            held.lemma_filter_map_contains(f, keys[j]);
            let t = choose|t: KeyCode| #[trigger] held.contains(t) && f(t) == Some(keys[j]);
        }
        if held.contains(k) && layout_key(k) is Some {
            assert(!crate::voices::key_sounding(Seq::<Voice>::empty(), k));
            lemma_filter_map_keeps(held, f, k);
            let j = choose|j: int| 0 <= j < keys.len() && keys[j] == k;
            assert(e1.play.voices@[j].key == k);
        }
    }
    lemma_filter_map_unique(held, f);
}

} // verus!
