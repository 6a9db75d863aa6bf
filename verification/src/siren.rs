use vstd::prelude::*;
use crate::arith::{wrapping_add_u32, top_byte, lemma_top_byte, lemma_wrapping_add_u32_is_mod, lemma_top_byte_is_div};

verus! {

/// One period of `x - x^3/6 + x^5/120` over `x` in `[0, 2*pi)`, in 256 steps, in Q16.
pub const SINE_LUT: [i32; 256] = [
    0, 1608, 3215, 4821, 6423, 8022, 9616, 11204,
    12785, 14359, 15923, 17479, 19024, 20557, 22078, 23586,
    25079, 26557, 28020, 29465, 30893, 32302, 33692, 35061,
    36410, 37736, 39040, 40320, 41576, 42807, 44012, 45191,
    46343, 47467, 48562, 49628, 50665, 51671, 52646, 53590,
    54502, 55381, 56227, 57040, 57819, 58563, 59273, 59948,
    60587, 61190, 61758, 62289, 62784, 63242, 63663, 64047,
    64394, 64703, 64976, 65211, 65409, 65570, 65695, 65782,
    65832, 65846, 65824, 65765, 65671, 65542, 65378, 65179,
    64947, 64680, 64381, 64050, 63687, 63294, 62870, 62416,
    61934, 61425, 60888, 60326, 59739, 59128, 58495, 57840,
    57165, 56471, 55759, 55031, 54288, 53532, 52764, 51985,
    51198, 50404, 49605, 48803, 47999, 47195, 46394, 45597,
    44806, 44024, 43254, 42496, 41754, 41029, 40325, 39644,
    38989, 38362, 37765, 37202, 36676, 36189, 35745, 35346,
    34996, 34697, 34454, 34269, 34146, 34088, 34100, 34183,
    34343, 34583, 34907, 35319, 35822, 36421, 37120, 37924,
    38836, 39860, 41003, 42267, 43658, 45180, 46838, 48637,
    50583, 52679, 54931, 57344, 59924, 62676, 65606, 68718,
    72019, 75514, 79210, 83112, 87225, 91557, 96114, 100901,
    105924, 111192, 116709, 122483, 128520, 134828, 141412, 148281,
    155441, 162900, 170664, 178742, 187140, 195867, 204930, 214336,
    224095, 234213, 244699, 255562, 266809, 278449, 290490, 302942,
    315812, 329110, 342845, 357025, 371661, 386761, 402334, 418391,
    434940, 451992, 469556, 487643, 506262, 525424, 545138, 565416,
    586267, 607703, 629734, 652372, 675627, 699509, 724031, 749204,
    775040, 801549, 828744, 856636, 885237, 914560, 944617, 975420,
    1006982, 1039314, 1072430, 1106343, 1141066, 1176611, 1212992, 1250223,
    1288316, 1327285, 1367144, 1407908, 1449589, 1492203, 1535763, 1580284,
    1625780, 1672265, 1719757, 1768267, 1817813, 1868409, 1920069, 1972810,
    2026648, 2081599, 2137678, 2194901, 2253284, 2312844, 2373597, 2435560,
    2498750, 2563183, 2628877, 2695850, 2764117, 2833695, 2904605, 2976863,
];

/// Every entry of `SINE_LUT` lies in `0..=2976863`.
pub proof fn lemma_sine_lut_bounds()
    ensures
        forall|i: int| 0 <= i < 256 ==> 0 <= #[trigger] SINE_LUT@[i] <= 2976863,
{
}

/// Phase increments (fractions of a full turn per sample, scaled by `2^32`) for a siren.
pub struct SirenParams {
    pub min_inc: u32,
    pub max_inc: u32,
    pub lfo_inc: u32,
}

/// A sine carrier whose frequency sweeps between two increments, driven by a
/// slower sine (the LFO).
pub struct Siren {
    pub carrier_phase: u32,
    pub lfo_phase: u32,
    pub min_inc: u32,
    pub max_inc: u32,
    pub lfo_inc: u32,
}

impl Siren {
    /// The LFO phase after one step.
    pub open spec fn next_lfo_phase(&self) -> u32 {
        wrapping_add_u32(self.lfo_phase, self.lfo_inc)
    }

    /// The part of the carrier increment above `min_inc` for the next step:
    /// `max_inc - min_inc` scaled by the LFO value mapped from `[-1, 1]` to `[0, 1]`.
    pub open spec fn sweep(&self) -> u32 {
        let lfo_val = SINE_LUT@[top_byte(self.next_lfo_phase())];
        let range = (self.max_inc - self.min_inc) as u64;
        let norm_lfo = (((lfo_val + 65536) as i32) >> 1i32) as u64;
        (((range * norm_lfo) as u64) >> 16u64) as u32
    }

    /// Whether a step stays within `u32` arithmetic: the sweep range is not negative
    /// and the carrier increment does not overflow.
    pub open spec fn can_step(&self) -> bool {
        &&& self.min_inc <= self.max_inc
        &&& self.min_inc + self.sweep() <= u32::MAX
    }

    /// The state after one step.
    pub open spec fn stepped(&self) -> Siren {
        Siren {
            carrier_phase: wrapping_add_u32(self.carrier_phase, (self.min_inc + self.sweep()) as u32),
            lfo_phase: self.next_lfo_phase(),
            min_inc: self.min_inc,
            max_inc: self.max_inc,
            lfo_inc: self.lfo_inc,
        }
    }

    /// The sample a step produces: half the carrier's sine value, as `i16`.
    pub open spec fn output(&self) -> i16 {
        (SINE_LUT@[top_byte(self.stepped().carrier_phase)] >> 1i32) as i16
    }

    /// The state after `n` steps.
    pub open spec fn run(s: Siren, n: nat) -> Siren
        decreases n,
    {
        if n == 0 { s } else { Self::run(s, (n - 1) as nat).stepped() }
    }

    /// Whether each of the first `n` steps stays within `u32` arithmetic.
    pub open spec fn can_run(s: Siren, n: nat) -> bool {
        forall|k: nat| k < n ==> (#[trigger] Self::run(s, k)).can_step()
    }

    pub fn apply_params(&mut self, params: &SirenParams)
        ensures
            final(self).min_inc == params.min_inc,
            final(self).max_inc == params.max_inc,
            final(self).lfo_inc == params.lfo_inc,
            final(self).carrier_phase == old(self).carrier_phase,
            final(self).lfo_phase == old(self).lfo_phase,
    {
        self.min_inc = params.min_inc;
        self.max_inc = params.max_inc;
        self.lfo_inc = params.lfo_inc;
    }

    pub fn next_sample(&mut self) -> (r: i16)
        requires
            old(self).can_step(),
        ensures
            *final(self) == old(self).stepped(),
            r == old(self).output(),
    {
        proof {
            lemma_sine_lut_bounds();
            lemma_top_byte(old(self).next_lfo_phase());
            lemma_top_byte(old(self).stepped().carrier_phase);
        }
        self.lfo_phase = self.lfo_phase.wrapping_add(self.lfo_inc);
        let lfo_idx = (self.lfo_phase >> 24) as usize;
        let lfo_val = SINE_LUT[lfo_idx];

        let range = (self.max_inc - self.min_inc) as u64;
        let norm_lfo = ((lfo_val + 65536) >> 1) as u64;
        proof {
            let v = lfo_val;
            assert(0 <= ((v + 65536) as i32 >> 1i32) <= 1600000) by (bit_vector)
                requires 0 <= v <= 2976863;
            assert(range * norm_lfo <= 0xffff_ffff * 1600000) by (nonlinear_arith)
                requires range <= 0xffff_ffff, norm_lfo <= 1600000;
        }
        let current_inc = self.min_inc + (((range * norm_lfo) >> 16) as u32);

        self.carrier_phase = self.carrier_phase.wrapping_add(current_inc);
        let carrier_idx = (self.carrier_phase >> 24) as usize;
        let sample_q16 = SINE_LUT[carrier_idx];

        (sample_q16 >> 1) as i16
    }

    /// Fills `buffer` with consecutive samples.
    pub fn process(&mut self, buffer: &mut [i16])
        requires
            Self::can_run(*old(self), old(buffer)@.len()),
        ensures
            final(buffer)@.len() == old(buffer)@.len(),
            forall|i: int| 0 <= i < old(buffer)@.len() ==>
                final(buffer)@[i] == (#[trigger] Self::run(*old(self), i as nat)).output(),
            *final(self) == Self::run(*old(self), old(buffer)@.len()),
    {
        let n = buffer.len();
        let mut i: usize = 0;
        while i < n
            invariant
                n == buffer@.len(),
                n == old(buffer)@.len(),
                i <= n,
                Self::can_run(*old(self), n as nat),
                *self == Self::run(*old(self), i as nat),
                forall|j: int| 0 <= j < i ==>
                    buffer@[j] == (#[trigger] Self::run(*old(self), j as nat)).output(),
            decreases n - i,
        {
            assert(Self::run(*old(self), i as nat).can_step());
            buffer[i] = self.next_sample();
            i += 1;
        }
    }
}

/// One step of a siren, from its fields alone. The LFO phase advances by `lfo_inc`
/// modulo `2^32`; the LFO value is the table entry at the whole top byte of the new
/// LFO phase; the carrier advances by `min_inc` plus `max_inc - min_inc` scaled by
/// that value mapped from Q16 `[-1, 1]` to `[0, 1]` (the scaled part cut to 32 bits);
/// the sample is half the table entry at the top byte of the new carrier phase.
pub proof fn lemma_siren_step(s: Siren)
    requires
        s.can_step(),
    ensures
        ({
            let lfo = (s.lfo_phase + s.lfo_inc) % 0x1_0000_0000;
            let lfo_val = SINE_LUT@[lfo / 0x100_0000];
            let sweep = (s.max_inc - s.min_inc) * ((lfo_val + 0x1_0000) / 2) / 0x1_0000
                % 0x1_0000_0000;
            let carrier = (s.carrier_phase + s.min_inc + sweep) % 0x1_0000_0000;
            &&& s.stepped().lfo_phase == lfo
            &&& s.stepped().carrier_phase == carrier
            &&& s.stepped().min_inc == s.min_inc
            &&& s.stepped().max_inc == s.max_inc
            &&& s.stepped().lfo_inc == s.lfo_inc
            &&& s.output() == (SINE_LUT@[carrier / 0x100_0000] / 2) as i16
        }),
{
    lemma_sine_lut_bounds();
    let next_lfo = s.next_lfo_phase();
    lemma_wrapping_add_u32_is_mod(s.lfo_phase, s.lfo_inc);
    lemma_top_byte(next_lfo);
    lemma_top_byte_is_div(next_lfo);
    let lfo_val = SINE_LUT@[top_byte(next_lfo)];
    let w: i32 = (lfo_val + 65536) as i32;
    assert(w >> 1i32 == w / 2i32) by (bit_vector)
        requires w >= 0i32;
    let range = (s.max_inc - s.min_inc) as u64;
    let norm = (w >> 1i32) as u64;
    assert(range * norm <= 0xffff_ffff * 1600000) by (nonlinear_arith)
        requires range <= 0xffff_ffff, norm <= 1600000;
    let p = (range * norm) as u64;
    assert(p >> 16u64 == p / 0x1_0000u64) by (bit_vector);
    let q = p >> 16u64;
    assert(q as u32 == q % 0x1_0000_0000u64) by (bit_vector);
    let next_carrier = s.stepped().carrier_phase;
    lemma_wrapping_add_u32_is_mod(s.carrier_phase, (s.min_inc + s.sweep()) as u32);
    lemma_top_byte(next_carrier);
    lemma_top_byte_is_div(next_carrier);
    let c = SINE_LUT@[top_byte(next_carrier)];
    assert(c >> 1i32 == c / 2i32) by (bit_vector)
        requires c >= 0i32;
}

/// Running `n` steps and then `m` more is running `n + m` steps, so filling one
/// buffer and then another gives the samples of filling both at once.
pub proof fn lemma_siren_run_adds(s: Siren, n: nat, m: nat)
    ensures
        Siren::run(Siren::run(s, n), m) == Siren::run(s, n + m),
    decreases m,
{
    if m > 0 {
        lemma_siren_run_adds(s, n, (m - 1) as nat);
        assert((n + m - 1) as nat == n + (m - 1) as nat);
    }
}

} // verus!
