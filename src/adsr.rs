use vstd::arithmetic::div_mod::{lemma_div_by_multiple, lemma_div_is_ordered};
use vstd::arithmetic::mul::lemma_mul_inequality;
use vstd::prelude::*;

verus! {

/// Full scale of an amplitude or a level: levels are counted in millionths.
pub const AMP_ONE: u32 = 1_000_000;

/// Microseconds in a second.
pub const MICROS_PER_SECOND: u64 = 1_000_000;

/// The output sample rate of the engine, in samples per second.
pub const SAMPLE_RATE: u32 = 48_000;

/// Envelope parameters: the three durations in microseconds and the sustain
/// level in millionths of full scale.
#[derive(Debug, Clone, Copy, PartialEq, Eq, Structural)]
pub struct Adsr {
    pub attack_us: u64,
    pub decay_us: u64,
    pub sustain: u32,
    pub release_us: u64,
}

/// The parameters resolved against a sample rate: each stage's length in
/// samples (never zero) and the sustain level.
#[derive(Debug, Clone, Copy, PartialEq, Eq, Structural)]
pub struct AdsrEnvelope {
    pub attack_samples: u64,
    pub decay_samples: u64,
    pub release_samples: u64,
    pub sustain: u32,
}

/// The length in samples of a stage of `us` microseconds: the duration times
/// the rate, rounded to the nearest sample, at least one sample.
pub open spec fn stage_samples(us: u64, sample_rate: u32) -> int {
    let n = (us * sample_rate + MICROS_PER_SECOND / 2) / (MICROS_PER_SECOND as int);
    if n < 1 {
        1
    } else if n > u64::MAX {
        u64::MAX as int
    } else {
        n
    }
}

pub open spec fn envelope_of(adsr: Adsr, sample_rate: u32) -> AdsrEnvelope {
    AdsrEnvelope {
        attack_samples: stage_samples(adsr.attack_us, sample_rate) as u64,
        decay_samples: stage_samples(adsr.decay_us, sample_rate) as u64,
        release_samples: stage_samples(adsr.release_us, sample_rate) as u64,
        sustain: if adsr.sustain > AMP_ONE { AMP_ONE } else { adsr.sustain },
    }
}

/// Rounds a duration to whole samples; a zero duration still takes one sample.
pub fn samples_for(us: u64, sample_rate: u32) -> (r: u64)
    ensures
        r == stage_samples(us, sample_rate),
        r >= 1,
{
    proof {
        assert(us * sample_rate <= u64::MAX * u32::MAX) by (nonlinear_arith)
            requires
                us <= u64::MAX,
                sample_rate <= u32::MAX,
        ;
    }
    let n: u128 = (us as u128 * sample_rate as u128 + (MICROS_PER_SECOND / 2) as u128)
        / MICROS_PER_SECOND as u128;
    if n < 1 {
        1
    } else if n > u64::MAX as u128 {
        u64::MAX
    } else {
        n as u64
    }
}

impl Adsr {
    /// Builds the parameters, holding the sustain level to full scale at most.
    pub fn new(attack_us: u64, decay_us: u64, sustain: u32, release_us: u64) -> (r: Adsr)
        ensures
            r.attack_us == attack_us,
            r.decay_us == decay_us,
            r.release_us == release_us,
            r.sustain == if sustain > AMP_ONE { AMP_ONE } else { sustain },
    {
        let sustain = if sustain > AMP_ONE { AMP_ONE } else { sustain };
        Adsr { attack_us, decay_us, sustain, release_us }
    }

    pub open spec fn wf(self) -> bool {
        self.sustain <= AMP_ONE
    }

    /// Resolves the parameters against a sample rate; a sustain level above
    /// full scale is held to full scale.
    pub fn to_envelope(&self, sample_rate: u32) -> (r: AdsrEnvelope)
        ensures
            r == envelope_of(*self, sample_rate),
            r.wf(),
    {
        AdsrEnvelope {
            attack_samples: samples_for(self.attack_us, sample_rate),
            decay_samples: samples_for(self.decay_us, sample_rate),
            release_samples: samples_for(self.release_us, sample_rate),
            sustain: if self.sustain > AMP_ONE { AMP_ONE } else { self.sustain },
        }
    }
}

impl AdsrEnvelope {
    pub open spec fn wf(self) -> bool {
        &&& self.attack_samples >= 1
        &&& self.decay_samples >= 1
        &&& self.release_samples >= 1
        &&& self.sustain <= AMP_ONE
    }
}

/// The stages of an envelope, in the order a note goes through them.
#[derive(Debug, Clone, Copy, PartialEq, Eq, Structural)]
pub enum Stage {
    Attack,
    Decay,
    Sustain,
    Release,
    Done,
}

/// The running state of one note's envelope.
///
/// Within a stage the level is computed from the position in the stage, so a
/// stage of `n` samples reaches its target exactly at its `n`-th sample:
/// the attack climbs by `1/n` of full scale per sample, the decay falls by
/// `(1 - sustain)/n`, and the release falls by `1/n` of the level the note
/// had when its gate closed.
#[derive(Debug, Clone, Copy, PartialEq, Eq, Structural)]
pub struct Envelope {
    pub env: AdsrEnvelope,
    pub stage: Stage,
    pub stage_pos: u64,
    pub amp: u32,
    pub release_from: u32,
}

/// `scale * pos / len`, rounded down.
pub open spec fn ramp(scale: int, pos: int, len: int) -> int {
    scale * pos / len
}

pub open spec fn attack_level(env: AdsrEnvelope, pos: int) -> int {
    ramp(AMP_ONE as int, pos, env.attack_samples as int)
}

pub open spec fn decay_level(env: AdsrEnvelope, pos: int) -> int {
    AMP_ONE - ramp(AMP_ONE - env.sustain, pos, env.decay_samples as int)
}

pub open spec fn release_level(env: AdsrEnvelope, from: int, pos: int) -> int {
    ramp(from, env.release_samples - pos, env.release_samples as int)
}

/// One sample of the envelope: first its gate is read (a closed gate sends a
/// sounding note into its release, from the level it has now), then the
/// stage advances by one sample.
pub open spec fn step_spec(e: Envelope, gate: bool) -> Envelope {
    let e = if !gate && e.stage != Stage::Release && e.stage != Stage::Done {
        Envelope { stage: Stage::Release, stage_pos: 0, release_from: e.amp, ..e }
    } else {
        e
    };
    let pos = e.stage_pos + 1;
    match e.stage {
        Stage::Attack => if pos >= e.env.attack_samples {
            Envelope { stage: Stage::Decay, stage_pos: 0, amp: AMP_ONE, ..e }
        } else {
            Envelope { stage_pos: pos as u64, amp: attack_level(e.env, pos) as u32, ..e }
        },
        Stage::Decay => if pos >= e.env.decay_samples {
            Envelope { stage: Stage::Sustain, stage_pos: 0, amp: e.env.sustain, ..e }
        } else {
            Envelope { stage_pos: pos as u64, amp: decay_level(e.env, pos) as u32, ..e }
        },
        Stage::Sustain => Envelope { amp: e.env.sustain, ..e },
        Stage::Release => if pos >= e.env.release_samples {
            Envelope { stage: Stage::Done, stage_pos: 0, amp: 0, ..e }
        } else {
            Envelope {
                stage_pos: pos as u64,
                amp: release_level(e.env, e.release_from as int, pos) as u32,
                ..e
            }
        },
        Stage::Done => Envelope { amp: 0, ..e },
    }
}

/// `k` samples of the envelope with its gate held as given.
pub open spec fn run(e: Envelope, gate: bool, k: nat) -> Envelope
    decreases k,
{
    if k == 0 {
        e
    } else {
        run(step_spec(e, gate), gate, (k - 1) as nat)
    }
}

proof fn lemma_ramp(scale: int, pos: int, len: int)
    requires
        0 <= scale,
        0 <= pos <= len,
        0 < len,
    ensures
        0 <= ramp(scale, pos, len) <= scale,
        pos < len ==> ramp(scale, pos, len) <= ramp(scale, pos + 1, len),
        0 < pos ==> ramp(scale, pos - 1, len) <= ramp(scale, pos, len),
{
    lemma_mul_inequality(0, pos, scale);
    lemma_mul_inequality(pos, len, scale);
    assert(scale * pos == pos * scale) by (nonlinear_arith);
    assert(scale * len == len * scale) by (nonlinear_arith);
    lemma_div_is_ordered(0, scale * pos, len);
    lemma_div_is_ordered(scale * pos, scale * len, len);
    lemma_div_by_multiple(scale, len);
    if pos < len {
        lemma_mul_inequality(pos, pos + 1, scale);
        assert(scale * (pos + 1) == (pos + 1) * scale) by (nonlinear_arith);
        lemma_div_is_ordered(scale * pos, scale * (pos + 1), len);
    }
    if 0 < pos {
        lemma_mul_inequality(pos - 1, pos, scale);
        assert(scale * (pos - 1) == (pos - 1) * scale) by (nonlinear_arith);
        lemma_div_is_ordered(scale * (pos - 1), scale * pos, len);
    }
}

impl Envelope {
    /// What the running state holds between samples: the level is the one
    /// that the stage and the position in it give, and never leaves
    /// `0 ..= AMP_ONE`.
    pub open spec fn wf(self) -> bool {
        &&& self.env.wf()
        &&& self.amp <= AMP_ONE
        &&& self.release_from <= AMP_ONE
        &&& match self.stage {
            Stage::Attack => self.stage_pos < self.env.attack_samples && self.amp == attack_level(
                self.env,
                self.stage_pos as int,
            ),
            Stage::Decay => self.stage_pos < self.env.decay_samples && self.amp == decay_level(
                self.env,
                self.stage_pos as int,
            ),
            Stage::Sustain => self.amp == self.env.sustain,
            Stage::Release => self.stage_pos < self.env.release_samples && self.amp
                == release_level(self.env, self.release_from as int, self.stage_pos as int),
            Stage::Done => self.amp == 0,
        }
    }

    /// A note at its start: in its attack, silent.
    pub fn new(env: AdsrEnvelope) -> (r: Envelope)
        requires
            env.wf(),
        ensures
            r.wf(),
            r == (Envelope { env, stage: Stage::Attack, stage_pos: 0, amp: 0, release_from: 0 }),
    {
        proof {
            lemma_div_by_multiple(0, env.attack_samples as int);
        }
        Envelope { env, stage: Stage::Attack, stage_pos: 0, amp: 0, release_from: 0 }
    }

    /// Advances the envelope by one sample and returns its new level.
    pub fn step(&mut self, gate: bool) -> (r: u32)
        requires
            old(self).wf(),
        ensures
            *final(self) == step_spec(*old(self), gate),
            final(self).wf(),
            r == final(self).amp,
    {
        proof {
            lemma_step_wf(*self, gate);
        }
        if !gate && self.stage != Stage::Release && self.stage != Stage::Done {
            self.stage = Stage::Release;
            self.stage_pos = 0;
            self.release_from = self.amp;
        }
        match self.stage {
            Stage::Attack => {
                let pos = self.stage_pos + 1;
                if pos >= self.env.attack_samples {
                    self.stage = Stage::Decay;
                    self.stage_pos = 0;
                    self.amp = AMP_ONE;
                } else {
                    self.stage_pos = pos;
                    self.amp = ramp_exec(AMP_ONE, pos, self.env.attack_samples);
                }
            },
            Stage::Decay => {
                let pos = self.stage_pos + 1;
                if pos >= self.env.decay_samples {
                    self.stage = Stage::Sustain;
                    self.stage_pos = 0;
                    self.amp = self.env.sustain;
                } else {
                    self.stage_pos = pos;
                    self.amp = AMP_ONE - ramp_exec(
                        AMP_ONE - self.env.sustain,
                        pos,
                        self.env.decay_samples,
                    );
                }
            },
            Stage::Sustain => {
                self.amp = self.env.sustain;
            },
            Stage::Release => {
                let pos = self.stage_pos + 1;
                if pos >= self.env.release_samples {
                    self.stage = Stage::Done;
                    self.stage_pos = 0;
                    self.amp = 0;
                } else {
                    self.stage_pos = pos;
                    self.amp = ramp_exec(
                        self.release_from,
                        self.env.release_samples - pos,
                        self.env.release_samples,
                    );
                }
            },
            Stage::Done => {
                self.amp = 0;
            },
        }
        self.amp
    }
}

impl Envelope {
    /// The next level of a note that is still sounding: `None` once its
    /// envelope has finished (the sample that finishes it gives `None` too).
    pub fn next_gain(&mut self, gate: bool) -> (r: Option<u32>)
        requires
            old(self).wf(),
        ensures
            final(self).wf(),
            old(self).stage == Stage::Done ==> *final(self) == *old(self) && r is None,
            old(self).stage != Stage::Done ==> *final(self) == step_spec(*old(self), gate),
            old(self).stage != Stage::Done ==> r == if final(self).stage == Stage::Done {
                None
            } else {
                Some(final(self).amp)
            },
    {
        if self.stage == Stage::Done {
            return None;
        }
        let amp = self.step(gate);
        if self.stage == Stage::Done {
            None
        } else {
            Some(amp)
        }
    }
}

/// The envelope stage of a patch: parameters and the sample rate they are
/// resolved against. Each note it applies to gets an envelope of its own.
#[derive(Debug, Clone, Copy, PartialEq, Eq, Structural)]
pub struct AdsrNode {
    pub adsr: Adsr,
    pub sample_rate: u32,
}

impl AdsrNode {
    pub fn new(adsr: Adsr, sample_rate: u32) -> (r: AdsrNode)
        ensures
            r == (AdsrNode { adsr, sample_rate }),
    {
        AdsrNode { adsr, sample_rate }
    }

    /// A fresh envelope for one note: in its attack, silent.
    pub fn start(&self) -> (r: Envelope)
        ensures
            r.wf(),
            r == (Envelope {
                env: envelope_of(self.adsr, self.sample_rate),
                stage: Stage::Attack,
                stage_pos: 0,
                amp: 0,
                release_from: 0,
            }),
    {
        Envelope::new(self.adsr.to_envelope(self.sample_rate))
    }
}

fn ramp_exec(scale: u32, pos: u64, len: u64) -> (r: u32)
    requires
        pos <= len,
        0 < len,
    ensures
        r == ramp(scale as int, pos as int, len as int),
{
    proof {
        lemma_ramp(scale as int, pos as int, len as int);
        assert(scale * pos <= u32::MAX * u64::MAX) by (nonlinear_arith)
            requires
                scale <= u32::MAX,
                pos <= u64::MAX,
        ;
    }
    ((scale as u128 * pos as u128) / len as u128) as u32
}

/// One sample keeps the envelope well formed.
pub proof fn lemma_step_wf(e: Envelope, gate: bool)
    requires
        e.wf(),
    ensures
        step_spec(e, gate).wf(),
{
    let e1 = if !gate && e.stage != Stage::Release && e.stage != Stage::Done {
        Envelope { stage: Stage::Release, stage_pos: 0, release_from: e.amp, ..e }
    } else {
        e
    };
    let pos = e1.stage_pos + 1;
    let n = step_spec(e, gate);
    match e1.stage {
        Stage::Attack => {
            if pos < e1.env.attack_samples {
                lemma_ramp(AMP_ONE as int, pos, e1.env.attack_samples as int);
            }
        },
        Stage::Decay => {
            if pos < e1.env.decay_samples {
                lemma_ramp(AMP_ONE - e1.env.sustain, pos, e1.env.decay_samples as int);
            }
        },
        Stage::Release => {
            if pos < e1.env.release_samples {
                lemma_ramp(
                    e1.release_from as int,
                    e1.env.release_samples - pos,
                    e1.env.release_samples as int,
                );
            }
            if e1.stage_pos == 0 {
                lemma_ramp(e1.release_from as int, e1.env.release_samples as int, e1.env.release_samples as int);
                lemma_div_by_multiple(e1.release_from as int, e1.env.release_samples as int);
            }
        },
        _ => {},
    }
}

/// The shape of the envelope, one sample at a time: the level never leaves
/// `0 ..= AMP_ONE`; while its gate is open it rises through the attack and
/// enters the decay exactly at full scale, falls through the decay and enters
/// the sustain exactly at the sustain level, and holds that level; once its
/// gate is closed (or the release has begun) it only falls, until the
/// envelope is done and silent.
pub proof fn lemma_envelope_shape(e: Envelope, gate: bool)
    requires
        e.wf(),
    ensures
        step_spec(e, gate).wf(),
        0 <= step_spec(e, gate).amp <= AMP_ONE,
        gate && e.stage == Stage::Attack ==> e.amp <= step_spec(e, gate).amp,
        gate && e.stage == Stage::Attack ==> step_spec(e, gate).stage == Stage::Attack || (
        step_spec(e, gate).stage == Stage::Decay && step_spec(e, gate).amp == AMP_ONE),
        gate && e.stage == Stage::Decay ==> step_spec(e, gate).amp <= e.amp,
        gate && e.stage == Stage::Decay ==> step_spec(e, gate).stage == Stage::Decay || (
        step_spec(e, gate).stage == Stage::Sustain && step_spec(e, gate).amp == e.env.sustain),
        gate && e.stage == Stage::Sustain ==> step_spec(e, gate).stage == Stage::Sustain
            && step_spec(e, gate).amp == e.env.sustain,
        (!gate || e.stage == Stage::Release) && e.stage != Stage::Done ==> step_spec(e, gate).amp
            <= e.amp,
        (!gate || e.stage == Stage::Release) && e.stage != Stage::Done ==> step_spec(
            e,
            gate,
        ).stage == Stage::Release || step_spec(e, gate).stage == Stage::Done,
        e.stage == Stage::Done ==> step_spec(e, gate).stage == Stage::Done,
        step_spec(e, gate).stage == Stage::Done ==> step_spec(e, gate).amp == 0,
{
    lemma_step_wf(e, gate);
    let pos = e.stage_pos as int;
    match e.stage {
        Stage::Attack => {
            lemma_ramp(AMP_ONE as int, pos, e.env.attack_samples as int);
        },
        Stage::Decay => {
            lemma_ramp(AMP_ONE - e.env.sustain, pos, e.env.decay_samples as int);
        },
        Stage::Release => {
            lemma_ramp(e.release_from as int, e.env.release_samples - pos, e.env.release_samples as int);
        },
        _ => {},
    }
    if !gate && e.stage != Stage::Release && e.stage != Stage::Done {
        let n = e.env.release_samples as int;
        lemma_ramp(e.amp as int, n - 1, n);
        lemma_div_by_multiple(e.amp as int, n);
        assert(e.amp * n == n * e.amp) by (nonlinear_arith);
    }
}

/// With its gate open, an attack runs to its end in the samples it has left
/// and hands over to the decay exactly at full scale.
pub proof fn lemma_attack_reaches_full(e: Envelope)
    requires
        e.wf(),
        e.stage == Stage::Attack,
    ensures
        run(e, true, (e.env.attack_samples - e.stage_pos) as nat).stage == Stage::Decay,
        run(e, true, (e.env.attack_samples - e.stage_pos) as nat).amp == AMP_ONE,
    decreases e.env.attack_samples - e.stage_pos,
{
    let k = (e.env.attack_samples - e.stage_pos) as nat;
    let n = step_spec(e, true);
    lemma_step_wf(e, true);
    if k > 1 {
        lemma_attack_reaches_full(n);
        assert(run(e, true, k) == run(n, true, (k - 1) as nat));
    } else {
        assert(run(e, true, k) == run(n, true, 0));
    }
}

/// With its gate open, a decay runs to its end in the samples it has left and
/// settles exactly at the sustain level.
pub proof fn lemma_decay_reaches_sustain(e: Envelope)
    requires
        e.wf(),
        e.stage == Stage::Decay,
    ensures
        run(e, true, (e.env.decay_samples - e.stage_pos) as nat).stage == Stage::Sustain,
        run(e, true, (e.env.decay_samples - e.stage_pos) as nat).amp == e.env.sustain,
    decreases e.env.decay_samples - e.stage_pos,
{
    let k = (e.env.decay_samples - e.stage_pos) as nat;
    let n = step_spec(e, true);
    lemma_step_wf(e, true);
    if k > 1 {
        lemma_decay_reaches_sustain(n);
        assert(run(e, true, k) == run(n, true, (k - 1) as nat));
    } else {
        assert(run(e, true, k) == run(n, true, 0));
    }
}

/// Whatever its gate does, a release is done, and silent, within the samples
/// it has left.
pub proof fn lemma_release_reaches_silence(e: Envelope, gate: bool)
    requires
        e.wf(),
        e.stage == Stage::Release,
    ensures
        run(e, gate, (e.env.release_samples - e.stage_pos) as nat).stage == Stage::Done,
        run(e, gate, (e.env.release_samples - e.stage_pos) as nat).amp == 0,
    decreases e.env.release_samples - e.stage_pos,
{
    let k = (e.env.release_samples - e.stage_pos) as nat;
    let n = step_spec(e, gate);
    lemma_step_wf(e, gate);
    if k > 1 {
        lemma_release_reaches_silence(n, gate);
        assert(run(e, gate, k) == run(n, gate, (k - 1) as nat));
    } else {
        assert(run(e, gate, k) == run(n, gate, 0));
    }
}

/// A stage of zero seconds collapses to a single sample, at any sample rate;
/// an attack of one sample reaches full scale on the first sample.
pub proof fn lemma_zero_duration(adsr: Adsr, sample_rate: u32)
    ensures
        stage_samples(0, sample_rate) == 1,
        adsr.attack_us == 0 ==> envelope_of(adsr, sample_rate).attack_samples == 1,
        adsr.decay_us == 0 ==> envelope_of(adsr, sample_rate).decay_samples == 1,
        adsr.release_us == 0 ==> envelope_of(adsr, sample_rate).release_samples == 1,
        adsr.attack_us == 0 ==> step_spec(
            Envelope {
                env: envelope_of(adsr, sample_rate),
                stage: Stage::Attack,
                stage_pos: 0,
                amp: 0,
                release_from: 0,
            },
            true,
        ).amp == AMP_ONE,
{
    assert(0 * sample_rate == 0);
}

/// Within a release, each sample's level is the level the release started
/// from times the samples left over the release length, rounded down.
pub proof fn lemma_release_levels(e: Envelope, gate: bool, j: nat)
    requires
        e.wf(),
        e.stage == Stage::Release,
        e.stage_pos + j < e.env.release_samples,
    ensures
        run(e, gate, j).stage == Stage::Release,
        run(e, gate, j).stage_pos == e.stage_pos + j,
        run(e, gate, j).release_from == e.release_from,
        run(e, gate, j).amp == release_level(e.env, e.release_from as int, e.stage_pos + j),
    decreases j,
{
    if j > 0 {
        lemma_step_wf(e, gate);
        lemma_release_levels(step_spec(e, gate), gate, (j - 1) as nat);
    }
}

/// A sounding note whose gate closes releases from the level it has at that
/// moment: with `a` that level and `n` the release length, its `j`-th sample
/// with a closed gate has the level `a * (n - j) / n` rounded down, and its
/// `n`-th sample ends the note.
pub proof fn lemma_release_from_current_level(e: Envelope, j: nat)
    requires
        e.wf(),
        e.stage != Stage::Release,
        e.stage != Stage::Done,
        1 <= j <= e.env.release_samples,
    ensures
        j < e.env.release_samples ==> run(e, false, j).stage == Stage::Release,
        j < e.env.release_samples ==> run(e, false, j).amp == e.amp * (e.env.release_samples - j)
            / (e.env.release_samples as int),
        j == e.env.release_samples ==> run(e, false, j).stage == Stage::Done,
        j == e.env.release_samples ==> run(e, false, j).amp == 0,
{
    let n = step_spec(e, false);
    lemma_step_wf(e, false);
    assert(run(e, false, j) == run(n, false, (j - 1) as nat));
    if e.env.release_samples == 1 {
        assert(run(n, false, 0) == n);
    } else {
        assert(n.stage == Stage::Release && n.stage_pos == 1 && n.release_from == e.amp);
        if j < e.env.release_samples {
            lemma_release_levels(n, false, (j - 1) as nat);
        } else {
            lemma_release_reaches_silence(n, false);
        }
    }
}

} // verus!
