use vstd::prelude::*;
use crate::siren::Siren;
use crate::wavelet::Wavelet;

verus! {

/// Integer division rounding toward zero, as Rust's `/` on signed integers does.
pub open spec fn div_toward_zero(n: int, d: int) -> int {
    let q = (if n < 0 { -n } else { n }) / (if d < 0 { -d } else { d });
    if (n < 0) == (d < 0) { q } else { -q }
}

/// `x` limited to `lo..=hi`.
pub open spec fn clamped(x: int, lo: int, hi: int) -> int {
    if x < lo { lo } else if x > hi { hi } else { x }
}

/// Parameters of a Mobius warp `(a*x + b) / (c*x + d)` and of the blend with the
/// wavelet, all in Q16.
pub struct MobiusParams {
    pub a_q16: i32,
    pub b_q16: i32,
    pub c_q16: i32,
    pub d_q16: i32,
    pub blend_q16: i32,
}

/// A siren warped by a Mobius map, blended with a wavelet.
pub struct Mobius {
    pub siren: Siren,
    pub wavelet: Wavelet,
    pub a_q16: i32,
    pub b_q16: i32,
    pub c_q16: i32,
    pub d_q16: i32,
    pub blend_q16: i32,
}

fn div_i64_toward_zero(n: i64, d: i64) -> (q: i64)
    requires
        d != 0,
        -0x4000_0000_0000_0000 < n < 0x4000_0000_0000_0000,
        -0x4000_0000_0000_0000 < d < 0x4000_0000_0000_0000,
    ensures
        q == div_toward_zero(n as int, d as int),
{
    let un: u64 = if n < 0 { (-n) as u64 } else { n as u64 };
    let ud: u64 = if d < 0 { (-d) as u64 } else { d as u64 };
    let uq = un / ud;
    proof {
        assert(uq <= un) by (nonlinear_arith)
            requires uq == un / ud, ud >= 1;
    }
    if (n < 0) != (d < 0) { -(uq as i64) } else { uq as i64 }
}

fn clamp_i32(x: i32, lo: i32, hi: i32) -> (r: i32)
    requires
        lo <= hi,
    ensures
        r == clamped(x as int, lo as int, hi as int),
{
    if x < lo { lo } else if x > hi { hi } else { x }
}

impl Mobius {
    /// The numerator `a*x + b` of the warp at `x`, in Q16, cut to 32 bits.
    pub open spec fn numerator(&self, x: i32) -> i32 {
        (((((self.a_q16 * x) as i64) >> 16i64) + self.b_q16) as i64) as i32
    }

    /// The denominator `c*x + d` of the warp at `x`, in Q16, cut to 32 bits.
    pub open spec fn denominator(&self, x: i32) -> i32 {
        (((((self.c_q16 * x) as i64) >> 16i64) + self.d_q16) as i64) as i32
    }

    /// The warp of `x`: the numerator itself where the denominator is zero, else the
    /// Q16 quotient rounded toward zero and cut to 32 bits.
    pub open spec fn warp(&self, x: i32) -> i32 {
        let num = self.numerator(x);
        let den = self.denominator(x);
        if den == 0 {
            num
        } else {
            div_toward_zero((((num as i64) << 16i64) as i64) as int, den as int) as i32
        }
    }

    /// The warped siren sample limited to the `i16` range.
    pub open spec fn warped_sample(&self) -> int {
        clamped(self.warp(self.siren.output() as i32) as int, -32768, 32767)
    }

    /// The two halves of the blend: the warped siren weighted by `1 - blend` and the
    /// wavelet weighted by `blend`, as the products before scaling.
    pub open spec fn blend_products(&self) -> (int, int) {
        (
            self.warped_sample() * (65536 - self.blend_q16),
            self.wavelet.output() * self.blend_q16,
        )
    }

    /// The blend before limiting, when its parts stay within `i32`.
    pub open spec fn blended(&self) -> int {
        let (p, q) = self.blend_products();
        ((p as i32) >> 16i32) + ((q as i32) >> 16i32)
    }

    /// Whether a step stays within `i32` arithmetic.
    pub open spec fn can_step(&self) -> bool {
        let (p, q) = self.blend_products();
        &&& self.siren.can_step()
        &&& i32::MIN <= 65536 - self.blend_q16 <= i32::MAX
        &&& i32::MIN <= p <= i32::MAX
        &&& i32::MIN <= q <= i32::MAX
        &&& i32::MIN <= self.blended() <= i32::MAX
    }

    /// The state after one step.
    pub open spec fn stepped(&self) -> Mobius {
        Mobius {
            siren: self.siren.stepped(),
            wavelet: self.wavelet.stepped(),
            a_q16: self.a_q16,
            b_q16: self.b_q16,
            c_q16: self.c_q16,
            d_q16: self.d_q16,
            blend_q16: self.blend_q16,
        }
    }

    /// The sample a step produces: the blend limited to the `i16` range.
    pub open spec fn output(&self) -> i16 {
        clamped(self.blended(), -32768, 32767) as i16
    }

    /// The state after `n` steps.
    pub open spec fn run(s: Mobius, n: nat) -> Mobius
        decreases n,
    {
        if n == 0 { s } else { Self::run(s, (n - 1) as nat).stepped() }
    }

    /// Whether each of the first `n` steps stays within `i32` arithmetic.
    pub open spec fn can_run(s: Mobius, n: nat) -> bool {
        forall|k: nat| k < n ==> (#[trigger] Self::run(s, k)).can_step()
    }

    pub fn apply_params(&mut self, params: &MobiusParams)
        ensures
            final(self).a_q16 == params.a_q16,
            final(self).b_q16 == params.b_q16,
            final(self).c_q16 == params.c_q16,
            final(self).d_q16 == params.d_q16,
            final(self).blend_q16 == params.blend_q16,
            final(self).siren == old(self).siren,
            final(self).wavelet == old(self).wavelet,
    {
        self.a_q16 = params.a_q16;
        self.b_q16 = params.b_q16;
        self.c_q16 = params.c_q16;
        self.d_q16 = params.d_q16;
        self.blend_q16 = params.blend_q16;
    }

    fn transform_q16(&self, x_q16: i32) -> (r: i32)
        ensures
            r == self.warp(x_q16),
    {
        proof {
            let a = self.a_q16 as i64;
            let c = self.c_q16 as i64;
            let x = x_q16 as i64;
            assert(-0x4000_0000_0000_0000 <= a * x <= 0x4000_0000_0000_0000) by (nonlinear_arith)
                requires -0x8000_0000 <= a < 0x8000_0000, -0x8000_0000 <= x < 0x8000_0000;
            assert(-0x4000_0000_0000_0000 <= c * x <= 0x4000_0000_0000_0000) by (nonlinear_arith)
                requires -0x8000_0000 <= c < 0x8000_0000, -0x8000_0000 <= x < 0x8000_0000;
            let pa = (a * x) as i64;
            let pc = (c * x) as i64;
            assert(-0x4000_0000_0000 <= (pa >> 16i64) <= 0x4000_0000_0000) by (bit_vector)
                requires -0x4000_0000_0000_0000 <= pa <= 0x4000_0000_0000_0000;
            assert(-0x4000_0000_0000 <= (pc >> 16i64) <= 0x4000_0000_0000) by (bit_vector)
                requires -0x4000_0000_0000_0000 <= pc <= 0x4000_0000_0000_0000;
        }
        let num = (((self.a_q16 as i64 * x_q16 as i64) >> 16) + self.b_q16 as i64) as i32;
        let den = (((self.c_q16 as i64 * x_q16 as i64) >> 16) + self.d_q16 as i64) as i32;

        if den == 0 {
            num
        } else {
            let shifted = (num as i64) << 16;
            proof {
                let n = num as i64;
                assert(-0x8000_0000_0000 <= (n << 16i64) <= 0x8000_0000_0000) by (bit_vector)
                    requires -0x8000_0000 <= n < 0x8000_0000;
            }
            (div_i64_toward_zero(shifted, den as i64)) as i32
        }
    }

    pub fn next_sample(&mut self) -> (r: i16)
        requires
            old(self).can_step(),
        ensures
            *final(self) == old(self).stepped(),
            r == old(self).output(),
    {
        let s_sample = self.siren.next_sample() as i32;
        let w_sample = self.wavelet.next_sample() as i32;

        let s_warped = self.transform_q16(s_sample);
        let s_clamped = clamp_i32(s_warped, -32768, 32767);

        let blended = ((s_clamped * (65536 - self.blend_q16)) >> 16) + ((w_sample * self.blend_q16) >> 16);

        clamp_i32(blended, -32768, 32767) as i16
    }

    /// Fills `buffer` with consecutive samples.
    pub fn process(&mut self, buffer: &mut [i16])
        requires
            Self::can_run(*old(self), old(buffer)@.len()),
        ensures
            final(buffer)@.len() == old(buffer)@.len(),
            forall|i: int| 0 <= i < old(buffer)@.len() ==>
                final(buffer)@[i] == (#[trigger] Self::run(*old(self), i as nat)).output(),
            *final(self) == Self::run(*old(self), old(buffer)@.len()),
    {
        let n = buffer.len();
        let mut i: usize = 0;
        while i < n
            invariant
                n == buffer@.len(),
                n == old(buffer)@.len(),
                i <= n,
                Self::can_run(*old(self), n as nat),
                *self == Self::run(*old(self), i as nat),
                forall|j: int| 0 <= j < i ==>
                    buffer@[j] == (#[trigger] Self::run(*old(self), j as nat)).output(),
            decreases n - i,
        {
            assert(Self::run(*old(self), i as nat).can_step());
            buffer[i] = self.next_sample();
            i += 1;
        }
    }
}

/// The sample of a step from its parts: the siren's sample, warped and limited to the
/// `i16` range, weighted by `65536 - blend_q16`, plus the wavelet's sample weighted by
/// `blend_q16` itself, each product scaled back by `2^16` rounding down, the sum
/// limited to the `i16` range; for every blend whose products stay within `i32`.
pub proof fn lemma_mobius_blend(s: Mobius)
    requires
        i32::MIN <= clamped(s.warp(s.siren.output() as i32) as int, -32768, 32767) * (65536
            - s.blend_q16) <= i32::MAX,
        i32::MIN <= s.wavelet.output() * s.blend_q16 <= i32::MAX,
    ensures
        ({
            let ws = clamped(s.warp(s.siren.output() as i32) as int, -32768, 32767);
            let w = s.wavelet.output() as int;
            let b = s.blend_q16 as int;
            s.output() == clamped(ws * (65536 - b) / 65536 + w * b / 65536, -32768, 32767) as i16
        }),
{
    let (p, q) = s.blend_products();
    let pi = p as i32;
    let qi = q as i32;
    assert(pi >> 16i32 == pi / 0x1_0000i32) by (bit_vector);
    assert(qi >> 16i32 == qi / 0x1_0000i32) by (bit_vector);
}

/// The ends of the blend: at `blend_q16 == 65536` (1.0) the sample is the wavelet's
/// sample, and at `blend_q16 == 0` it is the siren's sample warped and limited to the
/// `i16` range.
pub proof fn lemma_mobius_blend_ends(s: Mobius)
    ensures
        s.blend_q16 == 0x1_0000 ==> s.output() == s.wavelet.output(),
        s.blend_q16 == 0 ==> s.output() == clamped(
            s.warp(s.siren.output() as i32) as int,
            -32768,
            32767,
        ) as i16,
{
    let ws = clamped(s.warp(s.siren.output() as i32) as int, -32768, 32767);
    let w = s.wavelet.output() as int;
    if s.blend_q16 == 0x1_0000 {
        assert(ws * (65536 - s.blend_q16) == 0) by (nonlinear_arith)
            requires s.blend_q16 == 0x1_0000;
        assert(w * s.blend_q16 == w * 0x1_0000);
        assert(-32768 * 0x1_0000 <= w * 0x1_0000 <= 32767 * 0x1_0000) by (nonlinear_arith)
            requires -32768 <= w <= 32767;
        lemma_mobius_blend(s);
        assert(w * 0x1_0000 / 65536 == w) by (nonlinear_arith);
    }
    if s.blend_q16 == 0 {
        assert(ws * 65536 / 65536 == ws) by (nonlinear_arith);
        assert(-32768 * 0x1_0000 <= ws * 0x1_0000 <= 32767 * 0x1_0000) by (nonlinear_arith)
            requires -32768 <= ws <= 32767;
        lemma_mobius_blend(s);
    }
}

/// With `c = 0` and `d = 1.0` the warp is the affine map `a*x + b`: `a*x` scaled back
/// by `2^16` rounding down, plus `b`, cut to 32 bits. In particular the identity
/// coefficients (`a = 1.0`, `b = 0`) leave every sample unchanged.
pub proof fn lemma_mobius_affine_warp(s: Mobius, x: i32)
    requires
        s.c_q16 == 0,
        s.d_q16 == 0x1_0000,
    ensures
        s.warp(x) == (s.a_q16 * x / 0x1_0000 + s.b_q16) as i32,
        s.a_q16 == 0x1_0000 && s.b_q16 == 0 ==> s.warp(x) == x,
{
    let a = s.a_q16;
    assert(-0x4000_0000_0000_0000 <= a * x <= 0x4000_0000_0000_0000) by (nonlinear_arith)
        requires -0x8000_0000 <= a < 0x8000_0000, -0x8000_0000 <= x < 0x8000_0000;
    let ax = (a * x) as i64;
    assert(ax >> 16i64 == ax / 0x1_0000i64) by (bit_vector);
    let cx = (s.c_q16 * x) as i64;
    assert(cx == 0);
    assert(cx >> 16i64 == 0) by (bit_vector)
        requires cx == 0;
    let n = s.numerator(x);
    assert(s.denominator(x) == 0x1_0000);
    let ni = n as i64;
    assert((ni << 16i64) == 0x1_0000 * ni) by (bit_vector)
        requires -0x8000_0000 <= ni < 0x8000_0000;
    assert(div_toward_zero(0x1_0000 * n, 0x1_0000) == n) by (nonlinear_arith);
    if a == 0x1_0000 && s.b_q16 == 0 {
        assert(a * x / 0x1_0000 == x) by (nonlinear_arith)
            requires a == 0x1_0000;
    }
}

/// Running `n` steps and then `m` more is running `n + m` steps, so filling one
/// buffer and then another gives the samples of filling both at once.
pub proof fn lemma_mobius_run_adds(s: Mobius, n: nat, m: nat)
    ensures
        Mobius::run(Mobius::run(s, n), m) == Mobius::run(s, n + m),
    decreases m,
{
    if m > 0 {
        lemma_mobius_run_adds(s, n, (m - 1) as nat);
        assert((n + m - 1) as nat == n + (m - 1) as nat);
    }
}

} // verus!
