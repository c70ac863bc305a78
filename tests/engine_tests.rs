use keysynth::adsr::Adsr;
use keysynth::engine::{AudioCommand, Engine, VOLUME_MAX, VOLUME_UNITY};
use keysynth::input::{distinct_keys, same_key_set, InputEvent, Reconciler};
use keysynth::key::{Key, KeyCode, Note};
use keysynth::patch::BasicKind;
use keysynth::voices::{PlayState, Voice, VoiceAction, VoiceSettings};

fn settings() -> VoiceSettings {
    VoiceSettings {
        patch: BasicKind::Sine,
        adsr: Adsr::new(10_000, 100_000, 700_000, 200_000),
        volume: VOLUME_UNITY,
        muted: false,
    }
}

fn start_ids(acts: &[VoiceAction]) -> Vec<u64> {
    acts.iter()
        .filter_map(|a| match a {
            VoiceAction::Start { id, .. } => Some(*id),
            _ => None,
        })
        .collect()
}

#[test]
fn play_note_starts_one_voice_per_held_key() {
    let mut p = PlayState::new();
    let acts = p.play_note(KeyCode::H, settings());
    assert_eq!(acts.len(), 1);
    match acts[0] {
        VoiceAction::Start { id, note, patch, volume, paused, .. } => {
            assert_eq!(id, 0);
            assert_eq!(note, Key::new(Note::A, 4));
            assert_eq!(patch, BasicKind::Sine);
            assert_eq!(volume, VOLUME_UNITY);
            assert!(!paused);
        }
        _ => panic!("expected a start"),
    }
    assert!(p.play_note(KeyCode::H, settings()).is_empty());
    assert_eq!(p.voices.len(), 1);
    assert!(p.play_note(KeyCode::Other(3), settings()).is_empty());
    assert!(p.play_note(KeyCode::B, settings()).is_empty());
    assert_eq!(p.voices.len(), 1);
}

#[test]
fn released_key_restruck_gets_a_new_voice() {
    let mut p = PlayState::new();
    p.play_note(KeyCode::A, settings());
    p.stop_note(KeyCode::A);
    let acts = p.play_note(KeyCode::A, settings());
    assert_eq!(start_ids(&acts), vec![1]);
    assert_eq!(
        p.voices,
        vec![
            Voice { id: 0, key: KeyCode::A, gate: false },
            Voice { id: 1, key: KeyCode::A, gate: true }
        ]
    );
}

#[test]
fn release_twice_is_release_once() {
    let mut p = PlayState::new();
    p.play_note(KeyCode::A, settings());
    p.play_note(KeyCode::S, settings());
    let first = p.stop_note(KeyCode::A);
    assert_eq!(first, vec![VoiceAction::Release { id: 0 }]);
    let after_first = p.voices.clone();
    let second = p.stop_note(KeyCode::A);
    assert!(second.is_empty());
    assert_eq!(p.voices, after_first);
    assert_eq!(p.voices[0], Voice { id: 0, key: KeyCode::A, gate: false });
    assert_eq!(p.voices[1], Voice { id: 1, key: KeyCode::S, gate: true });
}

#[test]
fn release_of_a_silent_key_is_a_no_op() {
    let mut p = PlayState::new();
    p.play_note(KeyCode::A, settings());
    assert!(p.stop_note(KeyCode::D).is_empty());
    assert_eq!(p.voices, vec![Voice { id: 0, key: KeyCode::A, gate: true }]);
}

#[test]
fn kill_and_cleanup() {
    let mut p = PlayState::new();
    p.play_note(KeyCode::A, settings());
    p.play_note(KeyCode::S, settings());
    p.play_note(KeyCode::D, settings());
    assert_eq!(p.kill_note(KeyCode::S), vec![VoiceAction::Kill { id: 1 }]);
    assert_eq!(p.voices.len(), 2);
    p.cleanup_finished(&vec![0, 42]);
    assert_eq!(p.voices, vec![Voice { id: 2, key: KeyCode::D, gate: true }]);
    assert_eq!(p.stop_all(), vec![VoiceAction::Release { id: 2 }]);
    assert_eq!(p.kill_all(), vec![VoiceAction::Kill { id: 2 }]);
    assert!(p.voices.is_empty());
    assert_eq!(p.next_id, 0);
}

#[test]
fn volume_is_clamped_and_reported() {
    let mut e = Engine::new();
    assert_eq!(e.snapshot().volume, VOLUME_UNITY);
    e.handle_command(AudioCommand::SetVolume(2500));
    assert_eq!(e.snapshot().volume, VOLUME_MAX);
    e.handle_command(AudioCommand::SetVolume(-7));
    assert_eq!(e.snapshot().volume, 0);
    e.set_volume(1500);
    assert_eq!(e.snapshot().volume, 1500);
}

#[test]
fn volume_applies_to_live_voices() {
    let mut e = Engine::new();
    e.apply_key_delta(&vec![KeyCode::A], &vec![], false);
    let acts = e.handle_command(AudioCommand::SetVolume(300));
    assert_eq!(acts, vec![VoiceAction::SetVolume { id: 0, volume: 300 }]);
}

#[test]
fn two_keys_mute_and_unmute() {
    let mut e = Engine::new();
    let acts = e.apply_key_delta(&vec![KeyCode::A, KeyCode::D], &vec![], false);
    assert_eq!(start_ids(&acts), vec![0, 1]);
    assert_eq!(e.play.voices.len(), 2);
    let acts = e.handle_command(AudioCommand::SetMuted(true));
    assert_eq!(acts, vec![VoiceAction::Pause { id: 0 }, VoiceAction::Pause { id: 1 }]);
    assert!(e.snapshot().muted);
    let acts = e.handle_command(AudioCommand::SetMuted(false));
    assert_eq!(acts, vec![VoiceAction::Resume { id: 0 }, VoiceAction::Resume { id: 1 }]);
    assert_eq!(
        e.play.voices,
        vec![
            Voice { id: 0, key: KeyCode::A, gate: true },
            Voice { id: 1, key: KeyCode::D, gate: true }
        ]
    );
}

#[test]
fn new_voice_while_muted_starts_paused() {
    let mut e = Engine::new();
    e.set_muted(true);
    let acts = e.apply_key_delta(&vec![KeyCode::G], &vec![], false);
    match acts[0] {
        VoiceAction::Start { paused, .. } => assert!(paused),
        _ => panic!("expected a start"),
    }
}

#[test]
fn patch_rotation_restarts_held_keys() {
    let mut e = Engine::new();
    let held = vec![KeyCode::A, KeyCode::S, KeyCode::D];
    e.apply_key_delta(&held, &vec![], false);
    let acts = e.handle_command(AudioCommand::TogglePatch);
    assert_eq!(e.snapshot().patch, BasicKind::Saw);
    assert_eq!(
        &acts[..3],
        &[VoiceAction::Kill { id: 0 }, VoiceAction::Kill { id: 1 }, VoiceAction::Kill { id: 2 }]
    );
    assert_eq!(acts.len(), 6);
    for a in &acts[3..] {
        match a {
            VoiceAction::Start { patch, .. } => assert_eq!(*patch, BasicKind::Saw),
            _ => panic!("expected a start"),
        }
    }
    assert_eq!(start_ids(&acts), vec![0, 1, 2]);
    assert_eq!(e.held_keys, held);
    let keys: Vec<KeyCode> = e.play.voices.iter().map(|v| v.key).collect();
    assert_eq!(keys, held);
}

#[test]
fn patch_key_cycles_instead_of_playing() {
    let mut e = Engine::new();
    e.apply_key_delta(&vec![KeyCode::A], &vec![], false);
    let acts = e.apply_key_delta(&vec![KeyCode::A, KeyCode::B], &vec![KeyCode::A], true);
    assert_eq!(e.current_patch, BasicKind::Saw);
    assert_eq!(e.held_keys, vec![KeyCode::A]);
    assert_eq!(acts.len(), 2);
    assert_eq!(acts[0], VoiceAction::Kill { id: 0 });
    assert_eq!(e.play.voices, vec![Voice { id: 0, key: KeyCode::A, gate: true }]);
    assert_eq!(acts[1], VoiceAction::Start {
        id: 0,
        note: Key::new(Note::C, 4),
        patch: BasicKind::Saw,
        adsr: e.adsr,
        volume: VOLUME_UNITY,
        paused: false,
    });
}

#[test]
fn set_patch_and_envelope_restart() {
    let mut e = Engine::new();
    e.apply_key_delta(&vec![KeyCode::J], &vec![], false);
    e.handle_command(AudioCommand::SetPatch(BasicKind::Noise));
    assert_eq!(e.snapshot().patch, BasicKind::Noise);
    let a = Adsr { attack_us: 1, decay_us: 2, sustain: 5_000_000, release_us: 3 };
    let acts = e.handle_command(AudioCommand::SetAdsr(a));
    assert_eq!(e.adsr.sustain, 1_000_000);
    match acts[1] {
        VoiceAction::Start { adsr, patch, .. } => {
            assert_eq!(adsr, e.adsr);
            assert_eq!(patch, BasicKind::Noise);
        }
        _ => panic!("expected a start"),
    }
}

#[test]
fn key_up_releases() {
    let mut e = Engine::new();
    e.apply_key_delta(&vec![KeyCode::A, KeyCode::S], &vec![], false);
    let acts = e.apply_key_delta(&vec![KeyCode::S], &vec![KeyCode::A, KeyCode::S], false);
    assert_eq!(acts, vec![VoiceAction::Release { id: 0 }]);
    assert_eq!(e.held_keys, vec![KeyCode::S]);
}

#[test]
fn focus_loss_releases_and_refocus_is_quiet() {
    let mut r = Reconciler::new();
    let held = vec![KeyCode::A, KeyCode::S];
    match r.tick(true, &held) {
        Some(InputEvent::Keys { now, prev, toggle }) => {
            assert_eq!(now, held);
            assert!(prev.is_empty());
            assert!(!toggle);
        }
        other => panic!("unexpected {:?}", other),
    }
    match r.tick(false, &held) {
        Some(InputEvent::Keys { now, prev, toggle }) => {
            assert!(now.is_empty());
            assert_eq!(prev, held);
            assert!(!toggle);
        }
        other => panic!("unexpected {:?}", other),
    }
    assert_eq!(r.tick(false, &held), None);
    assert_eq!(r.tick(true, &held), None);
    assert_eq!(r.tick(true, &vec![KeyCode::S, KeyCode::A]), None);
    match r.tick(true, &vec![KeyCode::S]) {
        Some(InputEvent::Keys { now, prev, .. }) => {
            assert_eq!(now, vec![KeyCode::S]);
            assert_eq!(prev, held);
        }
        other => panic!("unexpected {:?}", other),
    }
}

#[test]
fn patch_key_fires_on_its_rising_edge_only() {
    let mut r = Reconciler::new();
    match r.tick(true, &vec![KeyCode::B]) {
        Some(InputEvent::Keys { toggle, .. }) => assert!(toggle),
        other => panic!("unexpected {:?}", other),
    }
    match r.tick(true, &vec![KeyCode::B, KeyCode::A]) {
        Some(InputEvent::Keys { toggle, .. }) => assert!(!toggle),
        other => panic!("unexpected {:?}", other),
    }
}

#[test]
fn quit_chords() {
    let mut r = Reconciler::new();
    assert_eq!(r.tick(true, &vec![KeyCode::Escape]), Some(InputEvent::Quit));
    assert_eq!(r.tick(true, &vec![KeyCode::C]).is_some(), true);
    assert_eq!(r.tick(true, &vec![KeyCode::C, KeyCode::LControl]), Some(InputEvent::Quit));
}

#[test]
fn key_sets() {
    let d = distinct_keys(&vec![KeyCode::A, KeyCode::B, KeyCode::A, KeyCode::S], true);
    assert_eq!(d, vec![KeyCode::A, KeyCode::S]);
    let d = distinct_keys(&vec![KeyCode::B, KeyCode::B], false);
    assert_eq!(d, vec![KeyCode::B]);
    assert!(same_key_set(&vec![KeyCode::A, KeyCode::S], &vec![KeyCode::S, KeyCode::A]));
    assert!(!same_key_set(&vec![KeyCode::A], &vec![KeyCode::S, KeyCode::A]));
    assert!(same_key_set(&vec![], &vec![]));
}

#[test]
fn engine_starts_quiet_at_unity() {
    let e = Engine::new();
    let s = e.snapshot();
    assert_eq!(s.volume, VOLUME_UNITY);
    assert!(!s.muted);
    assert_eq!(s.patch, BasicKind::Sine);
    assert!(e.play.voices.is_empty());
    assert!(e.held_keys.is_empty());
}

#[test]
fn finished_voices_leave_the_engine() {
    let mut e = Engine::new();
    e.apply_key_delta(&vec![KeyCode::A, KeyCode::S], &vec![], false);
    e.apply_key_delta(&vec![KeyCode::S], &vec![KeyCode::A, KeyCode::S], false);
    e.cleanup_finished(&vec![0]);
    assert_eq!(e.play.voices, vec![Voice { id: 1, key: KeyCode::S, gate: true }]);
}

#[test]
fn unmapped_keys_are_held_but_silent() {
    let mut e = Engine::new();
    let acts = e.apply_key_delta(&vec![KeyCode::Other(99), KeyCode::Other(5)], &vec![], false);
    assert!(acts.is_empty());
    assert_eq!(e.held_keys.len(), 2);
}

#[test]
fn presses_start_before_releases() {
    let mut e = Engine::new();
    e.apply_key_delta(&vec![KeyCode::A, KeyCode::S], &vec![], false);
    let acts = e.apply_key_delta(
        &vec![KeyCode::S, KeyCode::D, KeyCode::D],
        &vec![KeyCode::A, KeyCode::S],
        false,
    );
    assert_eq!(acts.len(), 2);
    assert_eq!(start_ids(&acts[..1]), vec![2]);
    assert_eq!(acts[1], VoiceAction::Release { id: 0 });
    assert_eq!(e.held_keys, vec![KeyCode::S, KeyCode::D]);
    assert_eq!(
        e.play.voices,
        vec![
            Voice { id: 0, key: KeyCode::A, gate: false },
            Voice { id: 1, key: KeyCode::S, gate: true },
            Voice { id: 2, key: KeyCode::D, gate: true }
        ]
    );
}

#[test]
fn play_and_stop_many_keys() {
    let mut p = PlayState::new();
    let acts = p.play_notes(&vec![KeyCode::A, KeyCode::Other(1), KeyCode::G], settings());
    assert_eq!(start_ids(&acts), vec![0, 1]);
    let keys: Vec<KeyCode> = p.voices.iter().map(|v| v.key).collect();
    assert_eq!(keys, vec![KeyCode::A, KeyCode::G]);
    let acts = p.stop_notes(&vec![KeyCode::G, KeyCode::A]);
    assert_eq!(acts, vec![VoiceAction::Release { id: 0 }, VoiceAction::Release { id: 1 }]);
    assert!(p.voices.iter().all(|v| !v.gate));
    assert!(p.stop_notes(&vec![KeyCode::A]).is_empty());
}
