use vstd::prelude::*;

verus! {

/// The processor clock in Hz: the one time base of audio synthesis.
pub const CPU_FREQ: u64 = 1_789_773;

/// A set of audio channels, one bit each in the low five bits.
#[derive(Clone, Copy, Debug, PartialEq, Eq, Structural)]
pub struct AudioChannels {
    pub bits: u8,
}

impl AudioChannels {
    pub const SQUARE1: u8 = 0x01;
    pub const SQUARE2: u8 = 0x02;
    pub const TRIANGLE: u8 = 0x04;
    pub const NOISE: u8 = 0x08;
    pub const DMC: u8 = 0x10;
    pub const ALL: u8 = 0x1F;

    pub open spec fn wf(&self) -> bool {
        self.bits < 32
    }

    /// Every channel of `other` is in this set.
    pub open spec fn has(&self, other: AudioChannels) -> bool {
        self.bits & other.bits == other.bits
    }

    /// The set with no channel.
    pub fn empty() -> (r: AudioChannels)
        ensures
            r.bits == 0,
    {
        AudioChannels { bits: 0 }
    }

    /// The set of all five channels.
    pub fn all() -> (r: AudioChannels)
        ensures
            r.bits == 0x1F,
    {
        AudioChannels { bits: AudioChannels::ALL }
    }

    /// The channels named by the low five bits of `bits`; other bits are dropped.
    pub fn from_bits_truncate(bits: u8) -> (r: AudioChannels)
        ensures
            r.bits == bits & 0x1F,
            r.wf(),
    {
        assert(bits & 0x1Fu8 < 32) by (bit_vector);
        AudioChannels { bits: bits & AudioChannels::ALL }
    }

    /// The raw bit pattern.
    pub fn bits(&self) -> (r: u8)
        ensures
            r == self.bits,
    {
        self.bits
    }

    /// Whether every channel of `other` is in this set.
    pub fn contains(&self, other: AudioChannels) -> (r: bool)
        ensures
            r == self.has(other),
    {
        self.bits & other.bits == other.bits
    }

    /// The channels in both sets.
    pub fn intersection(&self, other: AudioChannels) -> (r: AudioChannels)
        requires
            self.wf(),
        ensures
            r.bits == self.bits & other.bits,
            r.wf(),
    {
        let a = self.bits;
        let b = other.bits;
        assert(a < 32 ==> a & b < 32) by (bit_vector);
        AudioChannels { bits: self.bits & other.bits }
    }

    /// Flips membership of each channel of `other`.
    pub fn toggle(&mut self, other: AudioChannels)
        requires
            old(self).wf(),
            other.wf(),
        ensures
            final(self).bits == old(self).bits ^ other.bits,
            final(self).wf(),
    {
        let a = self.bits;
        let b = other.bits;
        assert(a < 32 && b < 32 ==> a ^ b < 32) by (bit_vector);
        self.bits = self.bits ^ other.bits;
    }
}

/// Duty cycle of duty setting `d`, in eighths of a period: 1, 2, 4 or 6.
pub open spec fn duty_eighths(d: u8) -> u8 {
    if d == 0 { 1 } else if d == 1 { 2 } else if d == 2 { 4 } else { 6 }
}

/// The 11-bit period after a write of its low byte.
pub open spec fn with_low_byte(period: u16, value: u8) -> u16 {
    (period as int - period as int % 256 + value as int) as u16
}

/// The 11-bit period after a write of its high three bits.
pub open spec fn with_high_bits(period: u16, value: u8) -> u16 {
    (period as int % 256 + (value as int % 8) * 256) as u16
}

/// Where sample `i` of `n`, spread evenly over the cycles
/// `[start, start + elapsed)`, falls within a waveform period of `p` cycles:
/// the numerator of its phase over the denominator `p * n`.
pub open spec fn phase_numerator(start: u64, elapsed: u64, n: nat, i: nat, p: nat) -> int {
    (start as int * n + elapsed as int * i) % (p * n) as int
}

/// Pulse output of `sq` for sample `i` of `n` over `[start, start + elapsed)`:
/// 0 when muted, +1 while the phase is within the duty cycle, else -1.
pub open spec fn pulse_level(sq: SquareWave, start: u64, elapsed: u64, n: nat, i: nat) -> i8 {
    let p = 16 * (sq.period + 1);
    if sq.period < 8 {
        0
    } else if phase_numerator(start, elapsed, n, i, p as nat) * 8 <= duty_eighths(sq.duty) * p * n {
        1
    } else {
        -1i8
    }
}

/// Triangle output of `tri` for sample `i` of `n` over `[start, start + elapsed)`,
/// as a numerator over `32 * (period + 1) * n`: the phase split into four
/// quarters that ramp 0 to 1, 1 to 0, 0 to -1 and -1 to 0; 0 when muted.
pub open spec fn triangle_level(tri: TriangleWave, start: u64, elapsed: u64, n: nat, i: nat) -> int {
    let d = 32 * (tri.period + 1) * n;
    let r = phase_numerator(start, elapsed, n, i, (32 * (tri.period + 1)) as nat);
    let quarter = (4 * r) / d;
    let offset = (4 * r) % d;
    if tri.period < 2 {
        0
    } else if quarter == 0 {
        offset
    } else if quarter == 1 {
        d - offset
    } else if quarter == 2 {
        -offset
    } else {
        offset - d
    }
}

fn phase_of(start: u64, elapsed: u64, n: usize, i: usize, p: u32) -> (r: u128)
    requires
        0 < p <= 65536,
        i < n,
        n < 0x8000_0000_0000_0000,
    ensures
        r == phase_numerator(start, elapsed, n as nat, i as nat, p as nat),
        r < p as int * n as int,
{
    proof {
        assert(start as int * n as int <= 0xFFFF_FFFF_FFFF_FFFF * 0x8000_0000_0000_0000) by (nonlinear_arith)
            requires start <= u64::MAX, n < 0x8000_0000_0000_0000;
        assert(elapsed as int * i as int <= 0xFFFF_FFFF_FFFF_FFFF * 0x8000_0000_0000_0000) by (nonlinear_arith)
            requires elapsed <= u64::MAX, i < 0x8000_0000_0000_0000;
        assert(p as int * n as int <= 65536 * 0x8000_0000_0000_0000) by (nonlinear_arith)
            requires p <= 65536, n < 0x8000_0000_0000_0000;
        assert(p as int * n as int > 0) by (nonlinear_arith) requires p > 0, n > i;
    }
    let a: u128 = start as u128 * n as u128;
    let b: u128 = elapsed as u128 * i as u128;
    let m: u128 = p as u128 * n as u128;
    (a + b) % m
}

/// A pulse oscillator: an 11-bit period and one of four duty settings.
#[derive(Clone, Copy, Debug, PartialEq, Eq, Structural)]
pub struct SquareWave {
    /// Duty setting 0-3, for duty cycles of 1/8, 1/4, 1/2 and 3/4.
    pub duty: u8,
    pub period: u16,
}

impl SquareWave {
    pub open spec fn wf(&self) -> bool {
        self.duty < 4 && self.period < 2048
    }

    pub fn new() -> (r: SquareWave)
        ensures
            r.duty == 2,
            r.period == 0,
            r.wf(),
    {
        SquareWave { duty: 2, period: 0 }
    }

    /// The duty cycle in eighths of a period.
    pub fn duty_eighths(&self) -> (r: u8)
        requires
            self.wf(),
        ensures
            r == duty_eighths(self.duty),
    {
        match self.duty {
            0 => 1,
            1 => 2,
            2 => 4,
            _ => 6,
        }
    }

    /// Whether the period lies below the cutoff, where the output is silent.
    pub fn is_muted(&self) -> (r: bool)
        ensures
            r == (self.period < 8),
    {
        self.period < 8
    }

    /// The length of one waveform period, in processor cycles.
    pub fn period_cycles(&self) -> (r: u32)
        requires
            self.wf(),
        ensures
            r == 16 * (self.period + 1),
    {
        16 * (self.period as u32 + 1)
    }

    /// Fills `output` with the pulse levels for the cycles
    /// `[start_cycle, start_cycle + elapsed_cycles)`, samples evenly spaced.
    pub fn output_samples(&self, start_cycle: u64, elapsed_cycles: u64, output: &mut [i8])
        requires
            self.wf(),
            old(output)@.len() < 0x8000_0000_0000_0000,
        ensures
            final(output)@.len() == old(output)@.len(),
            forall|i: int| 0 <= i < old(output)@.len() ==> #[trigger] final(output)@[i]
                == pulse_level(*self, start_cycle, elapsed_cycles, old(output)@.len() as nat, i as nat),
    {
        let n = output.len();
        let muted = self.is_muted();
        let p = self.period_cycles();
        let e = self.duty_eighths() as u128;
        let mut i: usize = 0;
        while i < n
            invariant
                n == output@.len(),
                n == old(output)@.len(),
                n < 0x8000_0000_0000_0000,
                i <= n,
                muted == (self.period < 8),
                p == 16 * (self.period + 1),
                e == duty_eighths(self.duty),
                self.wf(),
                forall|j: int| 0 <= j < i ==> #[trigger] output@[j]
                    == pulse_level(*self, start_cycle, elapsed_cycles, n as nat, j as nat),
            decreases n - i,
        {
            let level: i8 = if muted {
                0
            } else {
                let r = phase_of(start_cycle, elapsed_cycles, n, i, p);
                proof {
                    assert(e * p * n <= 6 * 32768 * 0x8000_0000_0000_0000) by (nonlinear_arith)
                        requires e <= 6, p <= 32768, n < 0x8000_0000_0000_0000;
                    assert(p as int * n as int <= 32768 * 0x8000_0000_0000_0000) by (nonlinear_arith)
                        requires p <= 32768, n < 0x8000_0000_0000_0000;
                    assert(e * p <= 6 * 32768) by (nonlinear_arith) requires e <= 6, p <= 32768;
                }
                let high: u128 = e * (p as u128) * (n as u128);
                if r * 8 <= high { 1 } else { -1 }
            };
            output[i] = level;
            i = i + 1;
        }
    }

    /// $4003/$4007: the high three bits of the period.
    pub fn write_coarse_tune(&mut self, value: u8)
        requires
            old(self).wf(),
        ensures
            *final(self) == (SquareWave { period: with_high_bits(old(self).period, value), ..*old(self) }),
            final(self).wf(),
    {
        self.period = coarse_tuned(self.period, value);
    }

    /// $4002/$4006: the low byte of the period.
    pub fn write_fine_tune(&mut self, value: u8)
        requires
            old(self).wf(),
        ensures
            *final(self) == (SquareWave { period: with_low_byte(old(self).period, value), ..*old(self) }),
            final(self).wf(),
    {
        self.period = fine_tuned(self.period, value);
    }

    /// $4000/$4004: the duty setting from the top two bits.
    pub fn write_control(&mut self, value: u8)
        requires
            old(self).wf(),
        ensures
            *final(self) == (SquareWave { duty: value / 64, ..*old(self) }),
            final(self).wf(),
    {
        assert(value >> 6u8 == value / 64) by (bit_vector);
        self.duty = value >> 6u8;
    }

    /// $4001/$4005: the sweep unit, which is not modelled; the write changes nothing.
    pub fn write_ramp(&mut self, value: u8)
        ensures
            *final(self) == *old(self),
    {
    }
}

/// A triangle oscillator: an 11-bit period.
#[derive(Clone, Copy, Debug, PartialEq, Eq, Structural)]
pub struct TriangleWave {
    pub period: u16,
}

impl TriangleWave {
    pub open spec fn wf(&self) -> bool {
        self.period < 2048
    }

    pub fn new() -> (r: TriangleWave)
        ensures
            r.period == 0,
    {
        TriangleWave { period: 0 }
    }

    /// Whether the period lies below the cutoff, where the output is silent.
    pub fn is_muted(&self) -> (r: bool)
        ensures
            r == (self.period < 2),
    {
        self.period < 2
    }

    /// The length of one waveform period, in processor cycles.
    pub fn period_cycles(&self) -> (r: u32)
        requires
            self.wf(),
        ensures
            r == 32 * (self.period + 1),
    {
        32 * (self.period as u32 + 1)
    }

    /// Fills `output` with the triangle levels for the cycles
    /// `[start_cycle, start_cycle + elapsed_cycles)`, samples evenly spaced,
    /// each a numerator over the returned denominator.
    pub fn output_samples(&self, start_cycle: u64, elapsed_cycles: u64, output: &mut [i128]) -> (denominator: u128)
        requires
            self.wf(),
            old(output)@.len() < 0x8000_0000_0000_0000,
        ensures
            denominator == 32 * (self.period + 1) * old(output)@.len(),
            final(output)@.len() == old(output)@.len(),
            forall|i: int| 0 <= i < old(output)@.len() ==> #[trigger] final(output)@[i]
                == triangle_level(*self, start_cycle, elapsed_cycles, old(output)@.len() as nat, i as nat),
    {
        let n = output.len();
        let muted = self.is_muted();
        let p = self.period_cycles();
        assert(p * n < 0x1_0000_0000_0000_0000_0000) by (nonlinear_arith)
            requires p <= 65536, n < 0x8000_0000_0000_0000;
        let d: u128 = p as u128 * n as u128;
        let mut i: usize = 0;
        while i < n
            invariant
                n == output@.len(),
                n == old(output)@.len(),
                n < 0x8000_0000_0000_0000,
                i <= n,
                muted == (self.period < 2),
                p == 32 * (self.period + 1),
                d == p * n,
                d < 0x1_0000_0000_0000_0000_0000,
                self.wf(),
                forall|j: int| 0 <= j < i ==> #[trigger] output@[j]
                    == triangle_level(*self, start_cycle, elapsed_cycles, n as nat, j as nat),
            decreases n - i,
        {
            let level: i128 = if muted {
                0
            } else {
                let r = phase_of(start_cycle, elapsed_cycles, n, i, p);
                let quarter = (4 * r) / d;
                let offset = ((4 * r) % d) as i128;
                if quarter == 0 {
                    offset
                } else if quarter == 1 {
                    d as i128 - offset
                } else if quarter == 2 {
                    -offset
                } else {
                    offset - d as i128
                }
            };
            output[i] = level;
            i = i + 1;
        }
        d
    }

    /// $4008: the linear counter control, which is not modelled; the write changes nothing.
    pub fn write_control(&mut self, value: u8)
        ensures
            *final(self) == *old(self),
    {
    }

    /// $400A: the low byte of the period.
    pub fn write_fine_tune(&mut self, value: u8)
        requires
            old(self).wf(),
        ensures
            final(self).period == with_low_byte(old(self).period, value),
            final(self).wf(),
    {
        self.period = fine_tuned(self.period, value);
    }

    /// $400B: the high three bits of the period.
    pub fn write_coarse_tune(&mut self, value: u8)
        requires
            old(self).wf(),
        ensures
            final(self).period == with_high_bits(old(self).period, value),
            final(self).wf(),
    {
        self.period = coarse_tuned(self.period, value);
    }
}

fn fine_tuned(period: u16, value: u8) -> (r: u16)
    requires
        period < 2048,
    ensures
        r == with_low_byte(period, value),
        r < 2048,
{
    let v = value as u16;
    assert(v < 256 && period < 2048 ==> (period & 0xFF00u16) | v == period - period % 256 + v
        && period - period % 256 + v < 2048) by (bit_vector);
    (period & 0xFF00u16) | (value as u16)
}

fn coarse_tuned(period: u16, value: u8) -> (r: u16)
    ensures
        r == with_high_bits(period, value),
        r < 2048,
{
    let v = value as u16;
    assert(v < 256 ==> (period & 0x00FFu16) | ((v & 0x7u16) << 8u16) == period % 256 + (v % 8) * 256
        && period % 256 + (v % 8) * 256 < 2048) by (bit_vector);
    (period & 0x00FFu16) | (((value as u16) & 0x7u16) << 8u16)
}

/// Whole samples owed for `elapsed` cycles at `rate` samples per second.
pub open spec fn samples_owed(rate: u32, elapsed: u64) -> int {
    (rate as int * elapsed as int) / CPU_FREQ as int
}

/// Whether `channel` sounds under the host and guest masks: it must be in both.
pub open spec fn channel_active(host: AudioChannels, guest: AudioChannels, channel: AudioChannels) -> bool {
    (host.bits & guest.bits) & channel.bits == channel.bits
}

/// What one flush of the synthesiser must produce: the window of cycles
/// `[start_cycle, end_cycle)`, the number of output samples, and for each
/// channel its oscillator if it sounds, or `None` if it contributes silence.
#[derive(Clone, Copy, Debug, PartialEq, Eq, Structural)]
pub struct SynthesisStep {
    pub start_cycle: u64,
    pub end_cycle: u64,
    pub sample_count: usize,
    pub square1: Option<SquareWave>,
    pub square2: Option<SquareWave>,
    pub triangle: Option<TriangleWave>,
}

/// Audio state: the oscillators, the guest and host channel masks, the rate
/// of the attached output (if any), and the cycle through which audio has
/// been synthesised.
#[derive(Debug)]
pub struct APU {
    pub output_rate: Option<u32>,
    pub square_wave1: SquareWave,
    pub square_wave2: SquareWave,
    pub triangle_wave: TriangleWave,
    /// Which channels the game wants enabled.
    pub guest_enabled_channels: AudioChannels,
    /// Which channels the user lets sound.
    pub host_enabled_channels: AudioChannels,
    pub last_cpu_cycles: u64,
}

impl APU {
    pub open spec fn wf(&self) -> bool {
        self.square_wave1.wf() && self.square_wave2.wf() && self.triangle_wave.wf()
            && self.guest_enabled_channels.wf() && self.host_enabled_channels.wf()
    }

    /// Samples per second of the output, 0 when none is attached.
    pub open spec fn rate(&self) -> u32 {
        match self.output_rate {
            Some(r) => r,
            None => 0,
        }
    }

    /// A flush up to `end` can be carried out: the watermark is not rewound
    /// and the samples it owes fit in memory.
    pub open spec fn can_run_until(&self, end: u64) -> bool {
        self.last_cpu_cycles <= end && samples_owed(self.rate(), (end - self.last_cpu_cycles) as u64) <= usize::MAX
    }

    pub open spec fn active(&self, channel: u8) -> bool {
        channel_active(self.host_enabled_channels, self.guest_enabled_channels, AudioChannels { bits: channel })
    }

    /// The work that flushing up to `end` asks for.
    pub open spec fn planned_step(&self, end: u64) -> SynthesisStep {
        SynthesisStep {
            start_cycle: self.last_cpu_cycles,
            end_cycle: end,
            sample_count: samples_owed(self.rate(), (end - self.last_cpu_cycles) as u64) as usize,
            square1: if self.active(AudioChannels::SQUARE1) { Some(self.square_wave1) } else { None },
            square2: if self.active(AudioChannels::SQUARE2) { Some(self.square_wave2) } else { None },
            triangle: if self.active(AudioChannels::TRIANGLE) { Some(self.triangle_wave) } else { None },
        }
    }

    /// The state after flushing up to `end`: only the watermark moves.
    pub open spec fn after_run(&self, end: u64) -> APU {
        APU { last_cpu_cycles: end, ..*self }
    }

    /// The state after a register write, by address.
    pub open spec fn after_write(&self, addr: u16, value: u8) -> APU {
        let sq1 = self.square_wave1;
        let sq2 = self.square_wave2;
        let tri = self.triangle_wave;
        if addr == 0x4000 {
            APU { square_wave1: SquareWave { duty: value / 64, ..sq1 }, ..*self }
        } else if addr == 0x4002 {
            APU { square_wave1: SquareWave { period: with_low_byte(sq1.period, value), ..sq1 }, ..*self }
        } else if addr == 0x4003 {
            APU { square_wave1: SquareWave { period: with_high_bits(sq1.period, value), ..sq1 }, ..*self }
        } else if addr == 0x4004 {
            APU { square_wave2: SquareWave { duty: value / 64, ..sq2 }, ..*self }
        } else if addr == 0x4006 {
            APU { square_wave2: SquareWave { period: with_low_byte(sq2.period, value), ..sq2 }, ..*self }
        } else if addr == 0x4007 {
            APU { square_wave2: SquareWave { period: with_high_bits(sq2.period, value), ..sq2 }, ..*self }
        } else if addr == 0x400A {
            APU { triangle_wave: TriangleWave { period: with_low_byte(tri.period, value) }, ..*self }
        } else if addr == 0x400B {
            APU { triangle_wave: TriangleWave { period: with_high_bits(tri.period, value) }, ..*self }
        } else if addr == 0x4015 {
            APU { guest_enabled_channels: AudioChannels { bits: value & 0x1F }, ..*self }
        } else {
            *self
        }
    }

    /// Silent oscillators, no channel requested by the game, every channel
    /// allowed by the host, no output, watermark at cycle 0.
    pub fn new() -> (r: APU)
        ensures
            r.wf(),
            r.output_rate.is_none(),
            r.square_wave1 == (SquareWave { duty: 2, period: 0 }),
            r.square_wave2 == (SquareWave { duty: 2, period: 0 }),
            r.triangle_wave == (TriangleWave { period: 0 }),
            r.guest_enabled_channels.bits == 0,
            r.host_enabled_channels.bits == 0x1F,
            r.last_cpu_cycles == 0,
    {
        APU {
            output_rate: None,
            square_wave1: SquareWave::new(),
            square_wave2: SquareWave::new(),
            triangle_wave: TriangleWave::new(),
            guest_enabled_channels: AudioChannels::empty(),
            host_enabled_channels: AudioChannels::all(),
            last_cpu_cycles: 0,
        }
    }

    /// Attaches an output that takes `samples_per_second` samples per second.
    pub fn attach_output_device(&mut self, samples_per_second: u32)
        ensures
            *final(self) == (APU { output_rate: Some(samples_per_second), ..*old(self) }),
    {
        self.output_rate = Some(samples_per_second);
    }

    /// Whether `channel` sounds: the host and the guest mask both hold it.
    pub fn channel_enabled(&self, channel: AudioChannels) -> (r: bool)
        requires
            self.wf(),
        ensures
            r == channel_active(self.host_enabled_channels, self.guest_enabled_channels, channel),
    {
        let enabled = self.host_enabled_channels.intersection(self.guest_enabled_channels);
        enabled.contains(channel)
    }

    /// Advances the watermark to `end_cpu_cycle` and returns the audio owed
    /// for the cycles since the last flush: the sample count is
    /// `floor(rate * elapsed / CPU_FREQ)`, zero without an output.
    pub fn run_until_cycle(&mut self, end_cpu_cycle: u64) -> (step: SynthesisStep)
        requires
            old(self).wf(),
            old(self).can_run_until(end_cpu_cycle),
        ensures
            step == old(self).planned_step(end_cpu_cycle),
            *final(self) == old(self).after_run(end_cpu_cycle),
    {
        let start_cpu_cycle = self.last_cpu_cycles;
        let samples_per_second: u32 = match self.output_rate {
            Some(r) => r,
            None => 0,
        };
        let elapsed: u64 = end_cpu_cycle - start_cpu_cycle;
        let product: u128 = samples_per_second as u128 * elapsed as u128;
        assert(product == samples_per_second as int * elapsed as int) by (nonlinear_arith)
            requires
                product == (samples_per_second as u128 * elapsed as u128) as int,
                samples_per_second <= u32::MAX,
                elapsed <= u64::MAX;
        let sample_count: usize = (product / (CPU_FREQ as u128)) as usize;
        assert(0x01u8 & 0x1Fu8 == 0x01u8 && 0x02u8 & 0x1Fu8 == 0x02u8 && 0x04u8 & 0x1Fu8 == 0x04u8)
            by (bit_vector);

        let square1 = if self.channel_enabled(AudioChannels::from_bits_truncate(AudioChannels::SQUARE1)) {
            Some(self.square_wave1)
        } else {
            None
        };
        let square2 = if self.channel_enabled(AudioChannels::from_bits_truncate(AudioChannels::SQUARE2)) {
            Some(self.square_wave2)
        } else {
            None
        };
        let triangle = if self.channel_enabled(AudioChannels::from_bits_truncate(AudioChannels::TRIANGLE)) {
            Some(self.triangle_wave)
        } else {
            None
        };
        self.last_cpu_cycles = end_cpu_cycle;
        SynthesisStep {
            start_cycle: start_cpu_cycle,
            end_cycle: end_cpu_cycle,
            sample_count,
            square1,
            square2,
            triangle,
        }
    }

    /// Flushes the audio owed up to `cpu_cycle` under the old parameters, then
    /// applies the write of `value` to register `addr`; unlisted addresses are
    /// ignored. Returns the flushed work.
    pub fn write_register(&mut self, addr: u16, value: u8, cpu_cycle: u64) -> (step: SynthesisStep)
        requires
            old(self).wf(),
            old(self).can_run_until(cpu_cycle),
        ensures
            step == old(self).planned_step(cpu_cycle),
            *final(self) == old(self).after_run(cpu_cycle).after_write(addr, value),
            final(self).wf(),
    {
        let step = self.run_until_cycle(cpu_cycle);
        match addr {
            0x4000 => self.square_wave1.write_control(value),
            0x4001 => self.square_wave1.write_ramp(value),
            0x4002 => self.square_wave1.write_fine_tune(value),
            0x4003 => self.square_wave1.write_coarse_tune(value),
            0x4004 => self.square_wave2.write_control(value),
            0x4005 => self.square_wave2.write_ramp(value),
            0x4006 => self.square_wave2.write_fine_tune(value),
            0x4007 => self.square_wave2.write_coarse_tune(value),
            0x4008 => self.triangle_wave.write_control(value),
            0x400A => self.triangle_wave.write_fine_tune(value),
            0x400B => self.triangle_wave.write_coarse_tune(value),
            0x4015 => {
                self.guest_enabled_channels = AudioChannels::from_bits_truncate(value);
            },
            _ => {},
        }
        step
    }

    /// Flips the host's permission for each channel of `channel`; the guest
    /// mask is untouched.
    pub fn toggle_channel(&mut self, channel: AudioChannels)
        requires
            old(self).wf(),
            channel.wf(),
        ensures
            *final(self) == (APU {
                host_enabled_channels: AudioChannels { bits: old(self).host_enabled_channels.bits ^ channel.bits },
                ..*old(self)
            }),
            final(self).wf(),
    {
        self.host_enabled_channels.toggle(channel);
    }
}

/// A second flush up to the same cycle owes no samples and changes nothing.
pub proof fn lemma_run_until_cycle_idempotent(apu: APU, end: u64)
    requires
        apu.wf(),
        apu.can_run_until(end),
    ensures
        apu.after_run(end).can_run_until(end),
        apu.after_run(end).planned_step(end).sample_count == 0,
        apu.after_run(end).after_run(end) == apu.after_run(end),
{
    assert(apu.rate() as int * 0 == 0);
}

/// A single channel sounds exactly when both the host and the guest mask
/// hold it; toggling it at the host flips whether it sounds while the guest
/// mask holds it, and leaves it silent while the guest mask does not.
pub proof fn lemma_channel_enable_is_and(host: AudioChannels, guest: AudioChannels, k: u8)
    requires
        k < 5,
    ensures
        channel_active(host, guest, AudioChannels { bits: (1u8 << k) })
            == (host.has(AudioChannels { bits: (1u8 << k) }) && guest.has(AudioChannels { bits: (1u8 << k) })),
        channel_active(AudioChannels { bits: host.bits ^ (1u8 << k) }, guest, AudioChannels { bits: (1u8 << k) })
            == (guest.has(AudioChannels { bits: (1u8 << k) })
                && !host.has(AudioChannels { bits: (1u8 << k) })),
{
    let h = host.bits;
    let g = guest.bits;
    assert(k < 5 ==> (((h & g) & (1u8 << k)) == (1u8 << k))
        == ((h & (1u8 << k)) == (1u8 << k) && (g & (1u8 << k)) == (1u8 << k))) by (bit_vector);
    assert(k < 5 ==> ((((h ^ (1u8 << k)) & g) & (1u8 << k)) == (1u8 << k))
        == ((g & (1u8 << k)) == (1u8 << k) && !((h & (1u8 << k)) == (1u8 << k)))) by (bit_vector);
}

/// A muted pulse oscillator is silent at every sample of every window.
pub proof fn lemma_pulse_muted_is_silent(sq: SquareWave, start: u64, elapsed: u64, n: nat, i: nat)
    requires
        sq.period < 8,
    ensures
        pulse_level(sq, start, elapsed, n, i) == 0,
{
}

/// A triangle level never leaves [-1, 1]: its numerator is bounded by its
/// denominator; a muted triangle is silent.
pub proof fn lemma_triangle_in_range(tri: TriangleWave, start: u64, elapsed: u64, n: nat, i: nat)
    requires
        tri.wf(),
        i < n,
    ensures
        -(32 * (tri.period + 1) * n) <= triangle_level(tri, start, elapsed, n, i) <= 32 * (tri.period + 1) * n,
        tri.period < 2 ==> triangle_level(tri, start, elapsed, n, i) == 0,
{
    let d = 32 * (tri.period + 1) * n;
    let p = (32 * (tri.period + 1)) as nat;
    assert(d > 0) by (nonlinear_arith) requires d == 32 * (tri.period + 1) * n, n > 0;
    assert(p * n == d) by (nonlinear_arith) requires p == 32 * (tri.period + 1), d == 32 * (tri.period + 1) * n;
    let r = phase_numerator(start, elapsed, n, i, p);
    assert(0 <= r < d);
    assert(0 <= (4 * r) % d < d);
}

/// The triangle shape over one period of `d` phase units, scaled so that
/// the peaks are at `d` and `-d`.
spec fn triangle_shape(r: int, d: int) -> int {
    if 4 * r < d { 4 * r } else if 4 * r < 3 * d { 2 * d - 4 * r } else { 4 * r - 4 * d }
}

proof fn lemma_triangle_shape(tri: TriangleWave, start: u64, elapsed: u64, n: nat, i: nat)
    requires
        tri.wf(),
        tri.period >= 2,
        n > 0,
    ensures
        triangle_level(tri, start, elapsed, n, i) == triangle_shape(
            phase_numerator(start, elapsed, n, i, (32 * (tri.period + 1)) as nat),
            32 * (tri.period + 1) * n,
        ),
{
    let d = 32 * (tri.period + 1) * n;
    let p = (32 * (tri.period + 1)) as nat;
    assert(d > 0) by (nonlinear_arith) requires d == 32 * (tri.period + 1) * n, n > 0;
    assert(p * n == d) by (nonlinear_arith) requires p == 32 * (tri.period + 1), d == 32 * (tri.period + 1) * n;
    let r = phase_numerator(start, elapsed, n, i, p);
    assert(0 <= r < d);
    let x = 4 * r;
    let q = x / d;
    let off = x % d;
    assert(x == q * d + off && 0 <= off < d) by (nonlinear_arith) requires d > 0, q == x / d, off == x % d;
    assert(0 <= q <= 3) by (nonlinear_arith) requires x == q * d + off, 0 <= off < d, 0 <= x < 4 * d;
    if q == 0 {
        assert(x == off) by (nonlinear_arith) requires x == q * d + off, q == 0;
    } else if q == 1 {
        assert(x == d + off) by (nonlinear_arith) requires x == q * d + off, q == 1;
    } else if q == 2 {
        assert(x == 2 * d + off) by (nonlinear_arith) requires x == q * d + off, q == 2;
    } else {
        assert(x == 3 * d + off) by (nonlinear_arith) requires x == q * d + off, q == 3;
    }
}

proof fn lemma_shape_steps(a: int, b: int, d: int)
    requires
        0 <= a <= b < d,
    ensures
        -4 * (b - a) <= triangle_shape(b, d) - triangle_shape(a, d) <= 4 * (b - a),
        -4 * a <= triangle_shape(a, d) <= 4 * a,
        -4 * (d - b) <= triangle_shape(b, d) <= 4 * (d - b),
{
}

/// Consecutive triangle samples differ by at most one sample step: the
/// phase advances by `elapsed / n` cycles per sample, and the level by at
/// most four times that in units of a period, which is `4 * elapsed` over the
/// denominator. The wave stays continuous across quarter and period boundaries.
pub proof fn lemma_triangle_continuous(tri: TriangleWave, start: u64, elapsed: u64, n: nat, i: nat)
    requires
        tri.wf(),
        i + 1 < n,
    ensures
        -4 * elapsed <= triangle_level(tri, start, elapsed, n, i + 1) - triangle_level(tri, start, elapsed, n, i)
            <= 4 * elapsed,
{
    if tri.period >= 2 {
        let p = (32 * (tri.period + 1)) as nat;
        let d = 32 * (tri.period + 1) * n;
        assert(p * n == d) by (nonlinear_arith) requires p == 32 * (tri.period + 1), d == 32 * (tri.period + 1) * n;
        assert(d > 0) by (nonlinear_arith) requires d == 32 * (tri.period + 1) * n, n > 0;
        lemma_triangle_shape(tri, start, elapsed, n, i);
        lemma_triangle_shape(tri, start, elapsed, n, (i + 1) as nat);
        let x = start as int * n + elapsed as int * i;
        let a = phase_numerator(start, elapsed, n, i, p);
        let b = phase_numerator(start, elapsed, n, (i + 1) as nat, p);
        assert(start as int * n + elapsed as int * (i + 1) == x + elapsed) by (nonlinear_arith)
            requires x == start as int * n + elapsed as int * i;
        let e = elapsed as int % d;
        vstd::arithmetic::div_mod::lemma_add_mod_noop(x, elapsed as int, d);
        vstd::arithmetic::div_mod::lemma_mod_bound(x, d);
        assert(0 <= e < d);
        assert(b == (a + e) % d);
        vstd::arithmetic::div_mod::lemma_mod_decreases(elapsed as nat, d as nat);
        assert(e <= elapsed);
        if a + e < d {
            vstd::arithmetic::div_mod::lemma_small_mod((a + e) as nat, d as nat);
            lemma_shape_steps(a, a + e, d);
        } else {
            vstd::arithmetic::div_mod::lemma_mod_sub_multiples_vanish(a + e, d);
            vstd::arithmetic::div_mod::lemma_small_mod((a + e - d) as nat, d as nat);
            assert(b == a + e - d);
            lemma_shape_steps(b, a, d);
        }
    }
}

} // verus!
