//! Audio samples, as the 16 kHz mono that the model expects.
//!
//! A sample is a single-precision number. Nothing here computes with it: samples are copied, cut
//! and compared by loudness, for which their bits are enough, so it is the bits that are kept.
use vstd::prelude::*;
use vstd::slice::slice_to_vec;

verus! {

/// What the model wants.
pub const TARGET_RATE: u32 = 16_000;

/// How many samples are resampled at a time.
pub const BLOCK: usize = 1024;

/// The bits of positive infinity. A larger magnitude is not a number.
pub const INFINITY_BITS: u32 = 0x7f80_0000;

/// One sample, by the bits of its IEEE 754 single-precision number.
#[derive(Clone, Copy, Debug, PartialEq, Eq, Structural)]
pub struct Sample {
    pub bits: u32,
}

impl Sample {
    /// The bits without the sign.
    pub open spec fn magnitude(self) -> int {
        if self.bits >= 0x8000_0000 {
            self.bits - 0x8000_0000
        } else {
            self.bits as int
        }
    }

    /// The bits of the absolute value, which order as the values do; zero for what is not a
    /// number.
    pub open spec fn loudness(self) -> int {
        if self.magnitude() > INFINITY_BITS {
            0
        } else {
            self.magnitude()
        }
    }

    /// The sample that makes no sound.
    pub open spec fn silence() -> Sample {
        Sample { bits: 0 }
    }

    /// The bits of the absolute value, or zero for what is not a number.
    pub fn amplitude(&self) -> (r: u32)
        ensures
            r == self.loudness(),
    {
        let magnitude: u32 = if self.bits >= 0x8000_0000 {
            self.bits - 0x8000_0000
        } else {
            self.bits
        };
        if magnitude > INFINITY_BITS {
            0
        } else {
            magnitude
        }
    }
}

/// `level` is the loudest there is in `samples`, and zero where there is nothing.
pub open spec fn is_peak(samples: Seq<Sample>, level: int) -> bool {
    &&& forall|i: int| 0 <= i < samples.len() ==> (#[trigger] samples[i]).loudness() <= level
    &&& level == 0 || exists|i: int|
        0 <= i < samples.len() && (#[trigger] samples[i]).loudness() == level
}

/// Peak amplitude, for rejecting silence before paying for inference.
pub fn peak(samples: &[Sample]) -> (r: Sample)
    ensures
        is_peak(samples@, r.bits as int),
        r.loudness() == r.bits,
{
    let mut most: u32 = 0;
    let mut i: usize = 0;
    while i < samples.len()
        invariant
            i <= samples.len(),
            is_peak(samples@.take(i as int), most as int),
            most <= INFINITY_BITS,
        decreases samples.len() - i,
    {
        let level: u32 = samples[i].amplitude();
        let ghost before = samples@.take(i as int);
        let ghost after = samples@.take(i + 1);
        let ghost was = most;
        assert(after[i as int] == samples[i as int]);
        assert(forall|j: int| 0 <= j < i ==> #[trigger] after[j] == before[j]);
        if level > most {
            most = level;
        }
        proof {
            if most != 0 && most == was {
                let j = choose|j: int|
                    0 <= j < before.len() && (#[trigger] before[j]).loudness() == was;
                assert(after[j].loudness() == most);
            }
        }
        i += 1;
    }
    assert(samples@.take(i as int) =~= samples@);
    Sample { bits: most }
}

/// There is only one peak.
pub proof fn law_peak_is_unique(samples: Seq<Sample>, a: int, b: int)
    requires
        is_peak(samples, a),
        is_peak(samples, b),
        a >= 0,
        b >= 0,
    ensures
        a == b,
{
}

/// How many blocks `len` samples fill, the last one perhaps in part.
pub open spec fn block_count(len: nat) -> nat {
    ((len + BLOCK - 1) / (BLOCK as int)) as nat
}

/// `samples` in blocks of one size, with silence behind the last one.
pub open spec fn blocks_of(samples: Seq<Sample>) -> Seq<Seq<Sample>> {
    Seq::new(
        block_count(samples.len()),
        |b: int|
            Seq::new(
                BLOCK as nat,
                |i: int|
                    if b * BLOCK + i < samples.len() {
                        samples[b * BLOCK + i]
                    } else {
                        Sample::silence()
                    },
            ),
    )
}

/// What is left to do for a recording to be at the target rate.
pub enum Resampling {
    /// Nothing: these are the samples.
    Done(Vec<Sample>),
    /// These blocks have to go through the resampler, one after the other.
    Blocks(Vec<Vec<Sample>>),
}

/// The block of `samples` that begins at `start`, filled up with silence.
fn block_at(samples: &[Sample], start: usize) -> (r: Vec<Sample>)
    requires
        start < samples.len(),
    ensures
        r@ == Seq::new(
            BLOCK as nat,
            |i: int|
                if start + i < samples.len() {
                    samples@[start + i]
                } else {
                    Sample::silence()
                },
        ),
{
    let mut block: Vec<Sample> = Vec::new();
    while block.len() < BLOCK
        invariant
            start < samples.len(),
            block.len() <= BLOCK,
            forall|i: int|
                0 <= i < block.len() ==> #[trigger] block[i] == if start + i < samples.len() {
                    samples@[start + i]
                } else {
                    Sample::silence()
                },
        decreases BLOCK - block.len(),
    {
        let at: usize = block.len();
        if at < samples.len() - start {
            block.push(samples[start + at]);
        } else {
            block.push(Sample { bits: 0 });
        }
    }
    assert(block@ =~= Seq::new(
        BLOCK as nat,
        |i: int|
            if start + i < samples.len() {
                samples@[start + i]
            } else {
                Sample::silence()
            },
    ));
    block
}

/// Resample to [`TARGET_RATE`].
///
/// Never decimate by picking every Nth sample: without the low-pass, content above 8 kHz folds
/// straight into the speech band and measurably degrades recognition. So what is not at the target
/// rate yet is only cut into blocks here, for a resampler to work on.
///
/// The final partial block is padded with silence so the tail is not dropped. Trailing words
/// matter.
pub fn resample_to_target(samples: &[Sample], rate: u32) -> (r: Resampling)
    ensures
        match r {
            Resampling::Done(all) => rate == TARGET_RATE && all@ == samples@,
            Resampling::Blocks(blocks) => {
                &&& rate != TARGET_RATE
                &&& blocks@.len() == blocks_of(samples@).len()
                &&& forall|b: int|
                    0 <= b < blocks@.len() ==> (#[trigger] blocks@[b])@ == blocks_of(samples@)[b]
            },
        },
{
    if rate == TARGET_RATE {
        return Resampling::Done(slice_to_vec(samples));
    }
    let mut blocks: Vec<Vec<Sample>> = Vec::new();
    let mut pos: usize = 0;
    while pos < samples.len()
        invariant
            blocks@.len() <= block_count(samples@.len()),
            pos <= samples.len(),
            pos < samples.len() ==> pos == blocks@.len() * BLOCK,
            pos == samples.len() ==> blocks@.len() == block_count(samples@.len()),
            forall|b: int|
                0 <= b < blocks@.len() ==> (#[trigger] blocks@[b])@ == blocks_of(samples@)[b],
        decreases samples.len() - pos,
    {
        let block = block_at(samples, pos);
        assert(block@ =~= blocks_of(samples@)[blocks@.len() as int]);
        blocks.push(block);
        if samples.len() - pos > BLOCK {
            pos += BLOCK;
        } else {
            pos = samples.len();
        }
    }
    Resampling::Blocks(blocks)
}

/// No sample is dropped or moved: the block that holds it is the one it falls into.
pub proof fn law_blocks_hold_every_sample(samples: Seq<Sample>, at: int)
    requires
        0 <= at < samples.len(),
    ensures
        (at / (BLOCK as int)) < blocks_of(samples).len(),
        blocks_of(samples)[at / (BLOCK as int)][at % (BLOCK as int)] == samples[at],
{
}

/// All that is added is less than one block of silence at the end.
pub proof fn law_padding_is_silence(samples: Seq<Sample>, b: int, i: int)
    requires
        0 <= b < blocks_of(samples).len(),
        0 <= i < BLOCK,
        b * BLOCK + i >= samples.len(),
    ensures
        blocks_of(samples)[b][i] == Sample::silence(),
        b == blocks_of(samples).len() - 1,
        i > 0,
{
}

/// Why there is no recording.
#[derive(Debug)]
pub enum CaptureError {
    NoInputDevice,
    NoInputConfig { reason: String },
    CannotOpen { reason: String },
    CannotStart { reason: String },
    BufferPoisoned,
}

impl CaptureError {
    /// What the user is told.
    pub open spec fn text(self) -> Seq<char> {
        match self {
            CaptureError::NoInputDevice => "no input device"@,
            CaptureError::NoInputConfig { reason } => "no default input config: "@ + reason@,
            CaptureError::CannotOpen { reason } => "could not open microphone: "@ + reason@,
            CaptureError::CannotStart { reason } => "could not start microphone: "@ + reason@,
            CaptureError::BufferPoisoned => "audio buffer poisoned"@,
        }
    }

    /// What the user is told.
    pub fn message(&self) -> (r: String)
        ensures
            r@ == self.text(),
    {
        match self {
            CaptureError::NoInputDevice => "no input device".to_string(),
            CaptureError::NoInputConfig { reason } => {
                let mut out = "no default input config: ".to_string();
                out.append(reason.as_str());
                out
            },
            CaptureError::CannotOpen { reason } => {
                let mut out = "could not open microphone: ".to_string();
                out.append(reason.as_str());
                out
            },
            CaptureError::CannotStart { reason } => {
                let mut out = "could not start microphone: ".to_string();
                out.append(reason.as_str());
                out
            },
            CaptureError::BufferPoisoned => "audio buffer poisoned".to_string(),
        }
    }
}

/// A finished capture, at the rate of the device.
pub struct Captured {
    pub samples: Vec<Sample>,
    pub rate: u32,
}

impl Captured {
    /// What is left to do for the model to get 16 kHz samples. Nothing was recorded, nothing is
    /// resampled.
    pub fn finish(&self) -> (r: Resampling)
        ensures
            match r {
                Resampling::Done(all) => {
                    &&& self.samples@.len() == 0 || self.rate == TARGET_RATE
                    &&& all@ == self.samples@
                },
                Resampling::Blocks(blocks) => {
                    &&& self.samples@.len() > 0
                    &&& self.rate != TARGET_RATE
                    &&& blocks@.len() == blocks_of(self.samples@).len()
                    &&& forall|b: int|
                        0 <= b < blocks@.len() ==> (#[trigger] blocks@[b])@ == blocks_of(
                            self.samples@,
                        )[b]
                },
            },
    {
        if self.samples.len() == 0 {
            return Resampling::Done(Vec::new());
        }
        resample_to_target(self.samples.as_slice(), self.rate)
    }
}

/// Loudness is the absolute value: the bits without the sign bit, or nothing for what is not a
/// number.
pub proof fn law_loudness_is_the_absolute_value(sample: Sample)
    ensures
        sample.bits % 0x8000_0000 <= 0x7f80_0000 ==> sample.loudness() == sample.bits
            % 0x8000_0000,
        sample.bits % 0x8000_0000 > 0x7f80_0000 ==> sample.loudness() == 0,
{
}

/// The peak is a bound that is reached: no number among the samples is louder, and unless it is
/// zero one of them is as loud.
pub proof fn law_peak_is_reached(samples: Seq<Sample>, level: int)
    requires
        level >= 0,
    ensures
        is_peak(samples, level) <==> {
            &&& forall|i: int|
                0 <= i < samples.len() && (#[trigger] samples[i]).bits % 0x8000_0000 <= 0x7f80_0000
                    ==> samples[i].bits % 0x8000_0000 <= level
            &&& level == 0 || exists|i: int|
                0 <= i < samples.len() && level <= 0x7f80_0000 && (#[trigger] samples[i]).bits
                    % 0x8000_0000 == level
        },
{
    if is_peak(samples, level) && level != 0 {
        let i = choose|i: int|
            0 <= i < samples.len() && (#[trigger] samples[i]).loudness() == level;
        assert(samples[i].bits % 0x8000_0000 == level);
    }
    if level != 0 && exists|i: int|
        0 <= i < samples.len() && level <= 0x7f80_0000 && (#[trigger] samples[i]).bits % 0x8000_0000
            == level {
        let i = choose|i: int|
            0 <= i < samples.len() && level <= 0x7f80_0000 && (#[trigger] samples[i]).bits
                % 0x8000_0000 == level;
        assert(samples[i].loudness() == level);
    }
}

/// The blocks joined one after the other are the samples and less than a block of zeros behind
/// them: every block has 1024 samples, and each of them is the sample at that place of the whole.
pub proof fn law_blocks_join_to_the_samples(samples: Seq<Sample>)
    ensures
        0 <= blocks_of(samples).len() * 1024 - samples.len() < 1024,
        forall|b: int|
            0 <= b < blocks_of(samples).len() ==> (#[trigger] blocks_of(samples)[b]).len() == 1024,
        forall|b: int, i: int|
            0 <= b < blocks_of(samples).len() && 0 <= i < 1024 && b * 1024 + i < samples.len()
                ==> #[trigger] blocks_of(samples)[b][i] == samples[b * 1024 + i],
        forall|b: int, i: int|
            0 <= b < blocks_of(samples).len() && 0 <= i < 1024 && b * 1024 + i >= samples.len()
                ==> (#[trigger] blocks_of(samples)[b][i]).bits == 0,
{
}

/// Each failure is told with its reason, to the letter.
pub proof fn law_failures_name_their_reason(reason: String)
    ensures
        (CaptureError::NoInputConfig { reason }).text() == "no default input config: "@ + reason@,
        (CaptureError::CannotOpen { reason }).text() == "could not open microphone: "@ + reason@,
        (CaptureError::CannotStart { reason }).text() == "could not start microphone: "@ + reason@,
{
}

} // verus!
