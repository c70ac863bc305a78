use keysynth::adsr::{samples_for, Adsr, AdsrNode, Envelope, Stage, AMP_ONE, SAMPLE_RATE};

#[test]
fn durations_round_to_whole_samples() {
    assert_eq!(samples_for(100_000, 48_000), 4800);
    assert_eq!(samples_for(200_000, 48_000), 9600);
    assert_eq!(samples_for(11, 48_000), 1);
    assert_eq!(samples_for(32, 48_000), 2);
    assert_eq!(samples_for(u64::MAX, u32::MAX), u64::MAX);
}

#[test]
fn zero_durations_take_one_sample() {
    assert_eq!(samples_for(0, SAMPLE_RATE), 1);
    let env = Adsr::new(0, 0, 400_000, 0).to_envelope(SAMPLE_RATE);
    assert_eq!((env.attack_samples, env.decay_samples, env.release_samples), (1, 1, 1));
    let mut e = Envelope::new(env);
    assert_eq!(e.step(true), AMP_ONE);
    assert_eq!(e.stage, Stage::Decay);
    assert_eq!(e.step(true), 400_000);
    assert_eq!(e.stage, Stage::Sustain);
    assert_eq!(e.next_gain(false), None);
    assert_eq!(e.stage, Stage::Done);
}

#[test]
fn sustain_is_held_to_full_scale() {
    assert_eq!(Adsr::new(1, 2, 3_000_000, 4).sustain, AMP_ONE);
    assert_eq!(Adsr::new(1, 2, 250_000, 4).sustain, 250_000);
}

#[test]
fn release_mid_decay() {
    let env = Adsr::new(100_000, 100_000, 500_000, 200_000).to_envelope(48_000);
    assert_eq!((env.attack_samples, env.decay_samples, env.release_samples), (4800, 4800, 9600));
    let mut e = Envelope::new(env);
    let mut last = 0;
    for n in 1..=4800u32 {
        let a = e.next_gain(true).unwrap();
        assert!(a >= last);
        assert!(a <= AMP_ONE);
        if n < 4800 {
            assert!(a < AMP_ONE);
        }
        last = a;
    }
    assert_eq!(last, AMP_ONE);
    assert_eq!(e.stage, Stage::Decay);
    for _ in 4801..=7200u32 {
        let a = e.next_gain(true).unwrap();
        assert!(a <= last);
        last = a;
    }
    assert_eq!(last, 750_000);
    let mut released = 0u32;
    let mut first = true;
    loop {
        match e.next_gain(false) {
            Some(a) => {
                if first {
                    assert_eq!(e.release_from, 750_000);
                    assert_eq!(a, 749_921);
                    first = false;
                }
                assert!(a <= last);
                last = a;
                released += 1;
                assert_eq!(a as u64, 750_000u64 * (9600 - released as u64) / 9600);
            }
            None => break,
        }
    }
    assert!(released < 9600);
    assert_eq!(e.stage, Stage::Done);
    assert_eq!(e.amp, 0);
    assert_eq!(e.next_gain(true), None);
}

#[test]
fn shape_holds_over_many_parameters() {
    let params = [
        (1_000u64, 2_000u64, 0u32, 3_000u64),
        (0, 5_000, 1_000_000, 0),
        (7_000, 0, 300_000, 10_000),
        (2_500, 2_500, 999_999, 2_500),
    ];
    for &(a, d, s, r) in params.iter() {
        let env = Adsr::new(a, d, s, r).to_envelope(SAMPLE_RATE);
        let mut e = Envelope::new(env);
        let mut last = 0;
        let mut reached_full = false;
        for _ in 0..2000 {
            let before = e.stage;
            let v = e.step(true);
            assert!(v <= AMP_ONE);
            match before {
                Stage::Attack => assert!(v >= last),
                Stage::Decay => assert!(v <= last),
                Stage::Sustain => assert_eq!(v, env.sustain),
                _ => unreachable!(),
            }
            if e.stage == Stage::Decay && before == Stage::Attack {
                assert_eq!(v, AMP_ONE);
                reached_full = true;
            }
            last = v;
        }
        assert!(reached_full);
        assert_eq!(e.stage, Stage::Sustain);
        assert_eq!(last, env.sustain);
        let mut steps = 0u64;
        while e.stage != Stage::Done {
            let v = e.step(false);
            assert!(v <= last);
            last = v;
            steps += 1;
        }
        assert_eq!(last, 0);
        assert!(steps <= env.release_samples);
    }
}

#[test]
fn node_starts_a_silent_attack() {
    let node = AdsrNode::new(Adsr::new(1_000, 1_000, 500_000, 1_000), 48_000);
    let e = node.start();
    assert_eq!(e.stage, Stage::Attack);
    assert_eq!(e.amp, 0);
    assert_eq!(e.env.attack_samples, 48);
    let mut e = e;
    assert_eq!(e.step(true), AMP_ONE / 48);
}

#[test]
fn release_from_mid_attack_is_proportional() {
    let env = Adsr::new(100_000, 100_000, 500_000, 100_000).to_envelope(48_000);
    let mut e = Envelope::new(env);
    for _ in 0..1200 {
        e.step(true);
    }
    assert_eq!(e.amp, 250_000);
    let a = e.step(false);
    assert_eq!(e.stage, Stage::Release);
    assert_eq!(e.release_from, 250_000);
    assert_eq!(a, 250_000 * 4799 / 4800);
    let mut n = 1;
    while e.next_gain(false).is_some() {
        n += 1;
    }
    assert_eq!(n, 4799);
}

#[test]
fn conversion_holds_sustain_to_full_scale() {
    let a = Adsr { attack_us: 0, decay_us: 1_000, sustain: 2_000_000, release_us: 0 };
    let env = a.to_envelope(48_000);
    assert_eq!(env.sustain, AMP_ONE);
    let mut e = AdsrNode::new(a, 48_000).start();
    assert_eq!(e.step(true), AMP_ONE);
    for _ in 0..48 {
        assert_eq!(e.step(true), AMP_ONE);
    }
    assert_eq!(e.stage, Stage::Sustain);
}
