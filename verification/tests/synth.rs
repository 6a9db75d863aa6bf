use kyaaa::mobius::{Mobius, MobiusParams};
use kyaaa::siren::{Siren, SirenParams, SINE_LUT};
use kyaaa::wavelet::{Wavelet, WaveletParams, MORLET_GAUSS_LUT, MORLET_SINE_LUT};

fn sine_table() -> [i32; 256] {
    let mut table = [0i32; 256];
    let mut i = 0;
    while i < 256 {
        let phase = (i as f32) / 256.0 * 6.283185307179586;
        let x = phase;
        let x3 = x * x * x;
        let x5 = x3 * x * x;
        let sine = x - (x3 / 6.0) + (x5 / 120.0);
        table[i] = (sine * 65536.0) as i32;
        i += 1;
    }
    table
}

fn gauss_table() -> [i32; 256] {
    let mut table = [0i32; 256];
    let mut i = 0;
    while i < 256 {
        let t = ((i as f32) - 128.0) / 32.0;
        let t2 = t * t;
        let exp_approx = 1.0 / (1.0 + t2 + (t2 * t2 * 0.5));
        table[i] = (exp_approx * 65536.0) as i32;
        i += 1;
    }
    table
}

fn inc(hz: f64) -> u32 {
    ((hz / 44100.0) * 4294967296.0) as u32
}

fn q16(v: f64) -> i32 {
    (v * 65536.0) as i32
}

fn siren(min_hz: f64, max_hz: f64, lfo_hz: f64) -> Siren {
    Siren { carrier_phase: 0, lfo_phase: 0, min_inc: inc(min_hz), max_inc: inc(max_hz), lfo_inc: inc(lfo_hz) }
}

fn wavelet(scale_hz: f64, center_hz: f64, gain: f64) -> Wavelet {
    Wavelet { scale_phase: 0, center_phase: 0, scale_inc: inc(scale_hz), center_inc: inc(center_hz), gain_q16: q16(gain) }
}

fn mobius(a: f64, b: f64, c: f64, d: f64, blend: f64) -> Mobius {
    Mobius {
        siren: siren(200.0, 800.0, 2.0),
        wavelet: wavelet(3.0, 440.0, 0.8),
        a_q16: q16(a),
        b_q16: q16(b),
        c_q16: q16(c),
        d_q16: q16(d),
        blend_q16: q16(blend),
    }
}

struct RefSiren { carrier_phase: u32, lfo_phase: u32, min_inc: u32, max_inc: u32, lfo_inc: u32 }

impl RefSiren {
    fn next_sample(&mut self, lut: &[i32; 256]) -> i16 {
        self.lfo_phase = self.lfo_phase.wrapping_add(self.lfo_inc);
        let lfo_idx = (self.lfo_phase >> 24) as usize;
        let lfo_val = lut[lfo_idx];
        let range = (self.max_inc - self.min_inc) as u64;
        let norm_lfo = ((lfo_val + 65536) >> 1) as u64;
        let current_inc = self.min_inc + (((range * norm_lfo) >> 16) as u32);
        self.carrier_phase = self.carrier_phase.wrapping_add(current_inc);
        let carrier_idx = (self.carrier_phase >> 24) as usize;
        (lut[carrier_idx] >> 1) as i16
    }
}

struct RefWavelet { scale_phase: u32, center_phase: u32, scale_inc: u32, center_inc: u32, gain_q16: i32 }

impl RefWavelet {
    fn next_sample(&mut self, gauss: &[i32; 256], sine: &[i32; 256]) -> i16 {
        self.scale_phase = self.scale_phase.wrapping_add(self.scale_inc);
        self.center_phase = self.center_phase.wrapping_add(self.center_inc);
        let gauss_val = gauss[(self.scale_phase >> 24) as usize];
        let sine_val = sine[(self.center_phase >> 24) as usize];
        let wave_q16 = ((gauss_val as i64 * sine_val as i64) >> 16) as i32;
        let output_q16 = ((wave_q16 as i64 * self.gain_q16 as i64) >> 16) as i32;
        (output_q16 >> 1) as i16
    }
}

fn ref_transform(a: i32, b: i32, c: i32, d: i32, x_q16: i32) -> i32 {
    let num = (((a as i64 * x_q16 as i64) >> 16) + b as i64) as i32;
    let den = (((c as i64 * x_q16 as i64) >> 16) + d as i64) as i32;
    if den == 0 { num } else { (((num as i64) << 16) / den as i64) as i32 }
}

#[test]
fn lookup_tables_match_their_formulas() {
    assert_eq!(SINE_LUT, sine_table());
    assert_eq!(MORLET_SINE_LUT, sine_table());
    assert_eq!(MORLET_GAUSS_LUT, gauss_table());
}

#[test]
fn siren_samples_match_the_formula() {
    let lut = sine_table();
    let mut s = siren(220.0, 880.0, 3.0);
    let mut r = RefSiren { carrier_phase: 0, lfo_phase: 0, min_inc: s.min_inc, max_inc: s.max_inc, lfo_inc: s.lfo_inc };
    for _ in 0..5000 {
        assert_eq!(s.next_sample(), r.next_sample(&lut));
    }
    assert_eq!(s.carrier_phase, r.carrier_phase);
    assert_eq!(s.lfo_phase, r.lfo_phase);
}

#[test]
fn siren_first_sample_exact_value() {
    let mut s = Siren { carrier_phase: 0, lfo_phase: 0, min_inc: 0x0100_0000, max_inc: 0x0100_0000, lfo_inc: 0 };
    assert_eq!(s.next_sample(), (SINE_LUT[1] >> 1) as i16);
    assert_eq!(s.carrier_phase, 0x0100_0000);
    assert_eq!(s.next_sample(), (SINE_LUT[2] >> 1) as i16);
}

#[test]
fn siren_apply_params_keeps_phases() {
    let mut s = siren(100.0, 200.0, 1.0);
    s.next_sample();
    let (c, l) = (s.carrier_phase, s.lfo_phase);
    s.apply_params(&SirenParams { min_inc: 1, max_inc: 2, lfo_inc: 3 });
    assert_eq!((s.min_inc, s.max_inc, s.lfo_inc), (1, 2, 3));
    assert_eq!((s.carrier_phase, s.lfo_phase), (c, l));
}

#[test]
fn siren_process_equals_repeated_next_sample() {
    let mut a = siren(300.0, 900.0, 5.0);
    let mut b = siren(300.0, 900.0, 5.0);
    let mut buf = [0i16; 64];
    a.process(&mut buf);
    for x in buf.iter() {
        assert_eq!(*x, b.next_sample());
    }
    let mut first = [0i16; 10];
    let mut second = [0i16; 20];
    let mut c = siren(300.0, 900.0, 5.0);
    c.process(&mut first);
    c.process(&mut second);
    assert_eq!(&first[..], &buf[..10]);
    assert_eq!(&second[..], &buf[10..30]);
}

#[test]
fn wavelet_samples_match_the_formula() {
    let gauss = gauss_table();
    let sine = sine_table();
    for (scale, center, gain) in [(3.0, 440.0, 0.8), (50.0, 1000.0, -2.5), (0.5, 20.0, 30000.0)] {
        let mut w = wavelet(scale, center, gain);
        let mut r = RefWavelet { scale_phase: 0, center_phase: 0, scale_inc: w.scale_inc, center_inc: w.center_inc, gain_q16: w.gain_q16 };
        for _ in 0..3000 {
            assert_eq!(w.next_sample(), r.next_sample(&gauss, &sine));
        }
    }
}

#[test]
fn wavelet_apply_params_and_process() {
    let mut w = wavelet(3.0, 440.0, 0.8);
    w.apply_params(&WaveletParams { scale_inc: 7, center_inc: 9, gain_q16: 65536 });
    assert_eq!((w.scale_inc, w.center_inc, w.gain_q16), (7, 9, 65536));
    let mut v = wavelet(3.0, 440.0, 0.8);
    v.apply_params(&WaveletParams { scale_inc: 7, center_inc: 9, gain_q16: 65536 });
    let mut buf = [0i16; 16];
    w.process(&mut buf);
    for x in buf.iter() {
        assert_eq!(*x, v.next_sample());
    }
}

#[test]
fn mobius_samples_match_the_formula() {
    let lut = sine_table();
    let gauss = gauss_table();
    for (a, b, c, d, blend) in [
        (1.0, 0.0, 0.0, 1.0, 0.5),
        (2.0, -0.25, 0.5, 1.0, 0.25),
        (-1.5, 0.1, -0.75, -0.5, 0.9),
        (1.0, 0.0, 1.0, 0.0, 0.0),
    ] {
        let mut m = mobius(a, b, c, d, blend);
        let mut rs = RefSiren { carrier_phase: 0, lfo_phase: 0, min_inc: m.siren.min_inc, max_inc: m.siren.max_inc, lfo_inc: m.siren.lfo_inc };
        let mut rw = RefWavelet { scale_phase: 0, center_phase: 0, scale_inc: m.wavelet.scale_inc, center_inc: m.wavelet.center_inc, gain_q16: m.wavelet.gain_q16 };
        for _ in 0..3000 {
            let s_sample = rs.next_sample(&lut) as i32;
            let w_sample = rw.next_sample(&gauss, &lut) as i32;
            let warped = ref_transform(m.a_q16, m.b_q16, m.c_q16, m.d_q16, s_sample);
            let clamped = warped.clamp(-32768, 32767);
            let blended = ((clamped * (65536 - m.blend_q16)) >> 16) + ((w_sample * m.blend_q16) >> 16);
            let expected = blended.clamp(-32768, 32767) as i16;
            assert_eq!(m.next_sample(), expected);
        }
    }
}

#[test]
fn mobius_division_rounds_toward_zero() {
    let mut m = mobius(0.0, -1.0, 0.0, 3.0, 0.0);
    m.siren = Siren { carrier_phase: 0, lfo_phase: 0, min_inc: 0, max_inc: 0, lfo_inc: 0 };
    // numerator -65536, denominator 3 * 65536: -65536 * 65536 / 196608 = -21845.33.. -> -21845
    assert_eq!(m.next_sample(), -21845);
}

#[test]
fn mobius_zero_denominator_passes_the_numerator() {
    let mut m = mobius(0.0, 0.25, 0.0, 0.0, 0.0);
    m.siren = Siren { carrier_phase: 0, lfo_phase: 0, min_inc: 0, max_inc: 0, lfo_inc: 0 };
    assert_eq!(m.next_sample(), 16384);
}

#[test]
fn mobius_apply_params_and_process() {
    let mut m = mobius(1.0, 0.0, 0.0, 1.0, 0.5);
    let p = MobiusParams { a_q16: 65536, b_q16: 0, c_q16: 0, d_q16: 65536, blend_q16: 16384 };
    m.apply_params(&p);
    assert_eq!((m.a_q16, m.b_q16, m.c_q16, m.d_q16, m.blend_q16), (65536, 0, 0, 65536, 16384));
    let mut n = mobius(1.0, 0.0, 0.0, 1.0, 0.25);
    let mut buf = [0i16; 32];
    m.process(&mut buf);
    for x in buf.iter() {
        assert_eq!(*x, n.next_sample());
    }
}
