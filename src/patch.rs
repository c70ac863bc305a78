use crate::adsr::Adsr;
use vstd::prelude::*;

verus! {

/// The built-in generators, in the order the patch key cycles through them.
#[derive(Debug, Clone, Copy, PartialEq, Eq, Structural)]
pub enum BasicKind {
    Sine,
    Saw,
    Square,
    Triangle,
    Noise,
}

/// Number of built-in generators.
pub const BASIC_KIND_COUNT: usize = 5;

/// Position of a generator in the patch cycle.
pub open spec fn kind_index(kind: BasicKind) -> int {
    match kind {
        BasicKind::Sine => 0,
        BasicKind::Saw => 1,
        BasicKind::Square => 2,
        BasicKind::Triangle => 3,
        BasicKind::Noise => 4,
    }
}

/// The generator at a position of the patch cycle; positions past the end
/// give the sine.
pub open spec fn kind_at_spec(index: int) -> BasicKind {
    if index == 1 {
        BasicKind::Saw
    } else if index == 2 {
        BasicKind::Square
    } else if index == 3 {
        BasicKind::Triangle
    } else if index == 4 {
        BasicKind::Noise
    } else {
        BasicKind::Sine
    }
}

pub open spec fn kind_name(kind: BasicKind) -> Seq<char> {
    match kind {
        BasicKind::Sine => "Sine"@,
        BasicKind::Saw => "Saw"@,
        BasicKind::Square => "Square"@,
        BasicKind::Triangle => "Triangle"@,
        BasicKind::Noise => "Noise"@,
    }
}

pub fn kind_at(index: usize) -> (r: BasicKind)
    ensures
        r == kind_at_spec(index as int),
        index < BASIC_KIND_COUNT ==> kind_index(r) == index,
{
    match index {
        0 => BasicKind::Sine,
        1 => BasicKind::Saw,
        2 => BasicKind::Square,
        3 => BasicKind::Triangle,
        4 => BasicKind::Noise,
        _ => BasicKind::Sine,
    }
}

impl BasicKind {
    /// The generator after this one in the cycle, wrapping from noise to sine.
    pub fn next(self) -> (r: BasicKind)
        ensures
            kind_index(r) == (kind_index(self) + 1) % (BASIC_KIND_COUNT as int),
    {
        match self {
            BasicKind::Sine => BasicKind::Saw,
            BasicKind::Saw => BasicKind::Square,
            BasicKind::Square => BasicKind::Triangle,
            BasicKind::Triangle => BasicKind::Noise,
            BasicKind::Noise => BasicKind::Sine,
        }
    }

    pub fn name(self) -> (r: &'static str)
        ensures
            r@ == kind_name(self),
    {
        match self {
            BasicKind::Sine => "Sine",
            BasicKind::Saw => "Saw",
            BasicKind::Square => "Square",
            BasicKind::Triangle => "Triangle",
            BasicKind::Noise => "Noise",
        }
    }
}

/// A processing stage that a patch applies to its generator's samples.
#[derive(Debug, Clone, Copy, PartialEq, Eq, Structural)]
pub enum NodeKind {
    /// Multiplies each sample by a level in millionths of full scale.
    Gain(u32),
    /// Shapes the samples by an envelope with these parameters.
    Envelope(Adsr),
}

/// A patch: one generator feeding a chain of nodes, applied in order
/// (generator, then the first node, then the second, ...).
#[derive(Debug, Clone, PartialEq, Eq)]
pub struct PatchSource {
    pub generator: BasicKind,
    pub nodes: Vec<NodeKind>,
}

impl PatchSource {
    pub fn new(generator: BasicKind) -> (r: PatchSource)
        ensures
            r.generator == generator,
            r.nodes@ == Seq::<NodeKind>::empty(),
    {
        PatchSource { generator, nodes: Vec::new() }
    }

    /// Appends a node at the end of the chain.
    pub fn push_node(self, node: NodeKind) -> (r: PatchSource)
        ensures
            r.generator == self.generator,
            r.nodes@ == self.nodes@.push(node),
    {
        let mut p = self;
        p.nodes.push(node);
        p
    }

    /// A patch is named after its generator.
    pub fn name(&self) -> (r: &'static str)
        ensures
            r@ == kind_name(self.generator),
    {
        self.generator.name()
    }
}

/// The built-in patch of a generator: the generator alone, at full level.
pub fn basic_source(kind: BasicKind) -> (r: PatchSource)
    ensures
        r.generator == kind,
        r.nodes@ == Seq::<NodeKind>::empty(),
{
    PatchSource::new(kind)
}

/// The multiplier of the noise generator's output step.
pub const NOISE_MULTIPLIER: u64 = 0x2545F4914F6CDD1D;

/// The seed that every noise voice starts from.
pub const NOISE_SEED: u64 = 0x1234_5678_9ABC_DEF0;

/// The xorshift step of the noise generator's state.
pub open spec fn xorshift(x: u64) -> u64 {
    let a = x ^ (x >> 12u64);
    let b = a ^ (a << 25u64);
    b ^ (b >> 27u64)
}

/// The 24-bit noise value drawn from a state that has just been advanced.
pub open spec fn noise_value(state: u64) -> u32 {
    ((((state as int) * (NOISE_MULTIPLIER as int)) % 0x1_0000_0000_0000_0000) as u64 >> 40u64) as u32
}

/// A reproducible white-noise generator: a xorshift state, and from it 24-bit
/// values spread evenly over `0 .. 2^24` (a sample is `2 * v / 2^24 - 1`).
#[derive(Debug, Clone, Copy, PartialEq, Eq, Structural)]
pub struct NoiseGen {
    pub rng: u64,
}

impl NoiseGen {
    pub fn new(seed: u64) -> (r: NoiseGen)
        ensures
            r.rng == seed,
    {
        NoiseGen { rng: seed }
    }

    /// Advances the state and returns the next 24-bit value.
    pub fn next_raw(&mut self) -> (r: u32)
        ensures
            final(self).rng == xorshift(old(self).rng),
            r == noise_value(final(self).rng),
            r < 0x100_0000,
    {
        let mut x = self.rng;
        x = x ^ (x >> 12u64);
        x = x ^ (x << 25u64);
        x = x ^ (x >> 27u64);
        self.rng = x;
        let y = x.wrapping_mul(NOISE_MULTIPLIER);
        let u = (y >> 40u64) as u32;
        proof {
            assert(y >> 40u64 < 0x100_0000) by (bit_vector);
        }
        u
    }
}

} // verus!
