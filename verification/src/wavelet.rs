use vstd::prelude::*;
use crate::arith::{wrapping_add_u32, top_byte, lemma_top_byte, lemma_wrapping_add_u32_is_mod, lemma_top_byte_is_div};

verus! {

/// The bell `1 / (1 + t^2 + t^4/2)` for `t` in `[-4, 4)`, in 256 steps, in Q16.
pub const MORLET_GAUSS_LUT: [i32; 256] = [
    451, 465, 479, 493, 509, 524, 540, 557,
    575, 593, 612, 631, 652, 673, 695, 718,
    742, 767, 793, 820, 848, 877, 908, 939,
    973, 1007, 1043, 1081, 1121, 1162, 1205, 1250,
    1297, 1347, 1398, 1452, 1509, 1568, 1630, 1695,
    1763, 1835, 1910, 1989, 2071, 2158, 2250, 2346,
    2447, 2553, 2664, 2782, 2906, 3036, 3174, 3319,
    3471, 3632, 3802, 3982, 4171, 4371, 4582, 4805,
    5041, 5290, 5553, 5832, 6127, 6439, 6769, 7118,
    7488, 7879, 8293, 8731, 9195, 9686, 10205, 10754,
    11335, 11950, 12599, 13285, 14009, 14774, 15579, 16429,
    17322, 18262, 19250, 20286, 21371, 22506, 23692, 24928,
    26214, 27549, 28932, 30361, 31833, 33346, 34895, 36477,
    38086, 39717, 41364, 43019, 44675, 46325, 47960, 49571,
    51150, 52687, 54174, 55602, 56962, 58246, 59447, 60556,
    61567, 62474, 63272, 63955, 64520, 64962, 65280, 65472,
    65536, 65472, 65280, 64962, 64520, 63955, 63272, 62474,
    61567, 60556, 59447, 58246, 56962, 55602, 54174, 52687,
    51150, 49571, 47960, 46325, 44675, 43019, 41364, 39717,
    38086, 36477, 34895, 33346, 31833, 30361, 28932, 27549,
    26214, 24928, 23692, 22506, 21371, 20286, 19250, 18262,
    17322, 16429, 15579, 14774, 14009, 13285, 12599, 11950,
    11335, 10754, 10205, 9686, 9195, 8731, 8293, 7879,
    7488, 7118, 6769, 6439, 6127, 5832, 5553, 5290,
    5041, 4805, 4582, 4371, 4171, 3982, 3802, 3632,
    3471, 3319, 3174, 3036, 2906, 2782, 2664, 2553,
    2447, 2346, 2250, 2158, 2071, 1989, 1910, 1835,
    1763, 1695, 1630, 1568, 1509, 1452, 1398, 1347,
    1297, 1250, 1205, 1162, 1121, 1081, 1043, 1007,
    973, 939, 908, 877, 848, 820, 793, 767,
    742, 718, 695, 673, 652, 631, 612, 593,
    575, 557, 540, 524, 509, 493, 479, 465,
];

/// One period of `x - x^3/6 + x^5/120` over `x` in `[0, 2*pi)`, in 256 steps, in Q16.
pub const MORLET_SINE_LUT: [i32; 256] = [
    0, 1608, 3215, 4821, 6423, 8022, 9616, 11204,
    12785, 14359, 15923, 17479, 19024, 20557, 22078, 23586,
    25079, 26557, 28020, 29465, 30893, 32302, 33692, 35061,
    36410, 37736, 39040, 40320, 41576, 42807, 44012, 45191,
    46343, 47467, 48562, 49628, 50665, 51671, 52646, 53590,
    54502, 55381, 56227, 57040, 57819, 58563, 59273, 59948,
    60587, 61190, 61758, 62289, 62784, 63242, 63663, 64047,
    64394, 64703, 64976, 65211, 65409, 65570, 65695, 65782,
    65832, 65846, 65824, 65765, 65671, 65542, 65378, 65179,
    64947, 64680, 64381, 64050, 63687, 63294, 62870, 62416,
    61934, 61425, 60888, 60326, 59739, 59128, 58495, 57840,
    57165, 56471, 55759, 55031, 54288, 53532, 52764, 51985,
    51198, 50404, 49605, 48803, 47999, 47195, 46394, 45597,
    44806, 44024, 43254, 42496, 41754, 41029, 40325, 39644,
    38989, 38362, 37765, 37202, 36676, 36189, 35745, 35346,
    34996, 34697, 34454, 34269, 34146, 34088, 34100, 34183,
    34343, 34583, 34907, 35319, 35822, 36421, 37120, 37924,
    38836, 39860, 41003, 42267, 43658, 45180, 46838, 48637,
    50583, 52679, 54931, 57344, 59924, 62676, 65606, 68718,
    72019, 75514, 79210, 83112, 87225, 91557, 96114, 100901,
    105924, 111192, 116709, 122483, 128520, 134828, 141412, 148281,
    155441, 162900, 170664, 178742, 187140, 195867, 204930, 214336,
    224095, 234213, 244699, 255562, 266809, 278449, 290490, 302942,
    315812, 329110, 342845, 357025, 371661, 386761, 402334, 418391,
    434940, 451992, 469556, 487643, 506262, 525424, 545138, 565416,
    586267, 607703, 629734, 652372, 675627, 699509, 724031, 749204,
    775040, 801549, 828744, 856636, 885237, 914560, 944617, 975420,
    1006982, 1039314, 1072430, 1106343, 1141066, 1176611, 1212992, 1250223,
    1288316, 1327285, 1367144, 1407908, 1449589, 1492203, 1535763, 1580284,
    1625780, 1672265, 1719757, 1768267, 1817813, 1868409, 1920069, 1972810,
    2026648, 2081599, 2137678, 2194901, 2253284, 2312844, 2373597, 2435560,
    2498750, 2563183, 2628877, 2695850, 2764117, 2833695, 2904605, 2976863,
];

/// Every entry of the two Morlet tables fits in 22 bits.
pub proof fn lemma_morlet_lut_bounds()
    ensures
        forall|i: int| 0 <= i < 256 ==> 0 <= #[trigger] MORLET_GAUSS_LUT@[i] <= 65536,
        forall|i: int| 0 <= i < 256 ==> 0 <= #[trigger] MORLET_SINE_LUT@[i] <= 2976863,
{
}

/// Phase increments and gain of a Morlet wavelet generator.
pub struct WaveletParams {
    pub scale_inc: u32,
    pub center_inc: u32,
    pub gain_q16: i32,
}

/// A sine carrier shaped by a bell envelope, each with its own phase, times a gain.
pub struct Wavelet {
    pub scale_phase: u32,
    pub center_phase: u32,
    pub scale_inc: u32,
    pub center_inc: u32,
    pub gain_q16: i32,
}

impl Wavelet {
    /// The state after one step.
    pub open spec fn stepped(&self) -> Wavelet {
        Wavelet {
            scale_phase: wrapping_add_u32(self.scale_phase, self.scale_inc),
            center_phase: wrapping_add_u32(self.center_phase, self.center_inc),
            scale_inc: self.scale_inc,
            center_inc: self.center_inc,
            gain_q16: self.gain_q16,
        }
    }

    /// The sample a step produces: envelope times carrier times gain, each product
    /// scaled back by `2^16` and cut to 32 bits, then halved and cut to 16 bits.
    pub open spec fn output(&self) -> i16 {
        let next = self.stepped();
        let gauss_val = MORLET_GAUSS_LUT@[top_byte(next.scale_phase)];
        let sine_val = MORLET_SINE_LUT@[top_byte(next.center_phase)];
        let wave_q16 = (((gauss_val * sine_val) as i64) >> 16i64) as i32;
        let output_q16 = (((wave_q16 * self.gain_q16) as i64) >> 16i64) as i32;
        (output_q16 >> 1i32) as i16
    }

    /// The state after `n` steps.
    pub open spec fn run(s: Wavelet, n: nat) -> Wavelet
        decreases n,
    {
        if n == 0 { s } else { Self::run(s, (n - 1) as nat).stepped() }
    }

    pub fn apply_params(&mut self, params: &WaveletParams)
        ensures
            final(self).scale_inc == params.scale_inc,
            final(self).center_inc == params.center_inc,
            final(self).gain_q16 == params.gain_q16,
            final(self).scale_phase == old(self).scale_phase,
            final(self).center_phase == old(self).center_phase,
    {
        self.scale_inc = params.scale_inc;
        self.center_inc = params.center_inc;
        self.gain_q16 = params.gain_q16;
    }

    pub fn next_sample(&mut self) -> (r: i16)
        ensures
            *final(self) == old(self).stepped(),
            r == old(self).output(),
    {
        proof {
            lemma_morlet_lut_bounds();
            lemma_top_byte(old(self).stepped().scale_phase);
            lemma_top_byte(old(self).stepped().center_phase);
        }
        self.scale_phase = self.scale_phase.wrapping_add(self.scale_inc);
        self.center_phase = self.center_phase.wrapping_add(self.center_inc);

        let gauss_idx = (self.scale_phase >> 24) as usize;
        let sine_idx = (self.center_phase >> 24) as usize;

        let gauss_val = MORLET_GAUSS_LUT[gauss_idx];
        let sine_val = MORLET_SINE_LUT[sine_idx];

        proof {
            assert(gauss_val as i64 * sine_val as i64 <= 65536 * 2976863) by (nonlinear_arith)
                requires 0 <= gauss_val <= 65536, 0 <= sine_val <= 2976863;
            assert(gauss_val as i64 * sine_val as i64 >= 0) by (nonlinear_arith)
                requires 0 <= gauss_val, 0 <= sine_val;
        }
        let wave_q16 = ((gauss_val as i64 * sine_val as i64) >> 16) as i32;
        proof {
            let w = wave_q16 as i64;
            let g = self.gain_q16 as i64;
            assert(-0x8000_0000 * 0x8000_0000 <= w * g <= 0x8000_0000 * 0x8000_0000) by (nonlinear_arith)
                requires -0x8000_0000 <= w < 0x8000_0000, -0x8000_0000 <= g < 0x8000_0000;
        }
        let output_q16 = ((wave_q16 as i64 * self.gain_q16 as i64) >> 16) as i32;

        (output_q16 >> 1) as i16
    }

    /// Fills `buffer` with consecutive samples.
    pub fn process(&mut self, buffer: &mut [i16])
        ensures
            final(buffer)@.len() == old(buffer)@.len(),
            forall|i: int| 0 <= i < old(buffer)@.len() ==>
                final(buffer)@[i] == (#[trigger] Self::run(*old(self), i as nat)).output(),
            *final(self) == Self::run(*old(self), old(buffer)@.len()),
    {
        let n = buffer.len();
        let mut i: usize = 0;
        while i < n
            invariant
                n == buffer@.len(),
                n == old(buffer)@.len(),
                i <= n,
                *self == Self::run(*old(self), i as nat),
                forall|j: int| 0 <= j < i ==>
                    buffer@[j] == (#[trigger] Self::run(*old(self), j as nat)).output(),
            decreases n - i,
        {
            buffer[i] = self.next_sample();
            i += 1;
        }
    }
}

/// One step of a wavelet, from its fields alone. Both phases advance by their
/// increments modulo `2^32`; the envelope is the bell table entry at the top byte of
/// the new scale phase and the carrier the sine table entry at the top byte of the
/// new center phase; the sample is their product scaled back by `2^16`, times the
/// gain scaled back by `2^16` (cut to 32 bits), halved and cut to 16 bits, whatever
/// the gain. So at unit gain the sample is half the scaled product, and it is zero
/// wherever the envelope times the carrier is below `2^16`.
pub proof fn lemma_wavelet_step(s: Wavelet)
    ensures
        ({
            let sp = (s.scale_phase + s.scale_inc) % 0x1_0000_0000;
            let cp = (s.center_phase + s.center_inc) % 0x1_0000_0000;
            let envelope = MORLET_GAUSS_LUT@[sp / 0x100_0000];
            let carrier = MORLET_SINE_LUT@[cp / 0x100_0000];
            let wave = envelope * carrier / 0x1_0000;
            &&& s.stepped().scale_phase == sp
            &&& s.stepped().center_phase == cp
            &&& s.stepped().scale_inc == s.scale_inc
            &&& s.stepped().center_inc == s.center_inc
            &&& s.stepped().gain_q16 == s.gain_q16
            &&& s.output() == ((wave * s.gain_q16 / 0x1_0000) as i32 / 2) as i16
            &&& s.gain_q16 == 0x1_0000 ==> s.output() == (wave / 2) as i16
            &&& envelope * carrier < 0x1_0000 ==> s.output() == 0
        }),
{
    lemma_morlet_lut_bounds();
    let next = s.stepped();
    lemma_wrapping_add_u32_is_mod(s.scale_phase, s.scale_inc);
    lemma_wrapping_add_u32_is_mod(s.center_phase, s.center_inc);
    lemma_top_byte(next.scale_phase);
    lemma_top_byte(next.center_phase);
    lemma_top_byte_is_div(next.scale_phase);
    lemma_top_byte_is_div(next.center_phase);
    let g = MORLET_GAUSS_LUT@[top_byte(next.scale_phase)];
    let c = MORLET_SINE_LUT@[top_byte(next.center_phase)];
    assert(0 <= g * c <= 65536 * 2976863) by (nonlinear_arith)
        requires 0 <= g <= 65536, 0 <= c <= 2976863;
    let p = (g * c) as i64;
    assert(p >> 16i64 == p / 0x1_0000i64) by (bit_vector);
    let wave = g * c / 0x1_0000;
    assert(0 <= wave <= 2976863);
    let w = (p >> 16i64) as i32;
    assert(w == wave);
    let gain = s.gain_q16;
    assert(-0x20_0000_0000_0000 <= w * gain <= 0x20_0000_0000_0000) by (nonlinear_arith)
        requires 0 <= w <= 2976863, -0x8000_0000 <= gain < 0x8000_0000;
    let q = (w * gain) as i64;
    assert(q >> 16i64 == q / 0x1_0000i64) by (bit_vector);
    let o = (q >> 16i64) as i32;
    assert(o >> 1i32 == o / 2i32) by (bit_vector);
    if gain == 0x1_0000 {
        assert(wave * gain / 0x1_0000 == wave) by (nonlinear_arith)
            requires gain == 0x1_0000;
    }
    if g * c < 0x1_0000 {
        assert(wave == 0);
        assert(wave * gain == 0) by (nonlinear_arith)
            requires wave == 0;
        assert(o == 0);
    }
}

/// Running `n` steps and then `m` more is running `n + m` steps, so filling one
/// buffer and then another gives the samples of filling both at once.
pub proof fn lemma_wavelet_run_adds(s: Wavelet, n: nat, m: nat)
    ensures
        Wavelet::run(Wavelet::run(s, n), m) == Wavelet::run(s, n + m),
    decreases m,
{
    if m > 0 {
        lemma_wavelet_run_adds(s, n, (m - 1) as nat);
        assert((n + m - 1) as nat == n + (m - 1) as nat);
    }
}

} // verus!
