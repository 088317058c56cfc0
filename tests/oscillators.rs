use nes_core::apu::{SquareWave, TriangleWave};

#[test]
fn pulse_below_cutoff_is_silent() {
    let sq = SquareWave { duty: 2, period: 5 };
    let mut out = [7i8; 64];
    sq.output_samples(0, 10_000, &mut out);
    assert!(out.iter().all(|&x| x == 0));
    sq.output_samples(123_456, 77, &mut out);
    assert!(out.iter().all(|&x| x == 0));
}

#[test]
fn pulse_half_duty_is_positive_for_half_a_period() {
    let sq = SquareWave { duty: 2, period: 100 };
    let period_cycles = 16 * 101;
    let mut out = [0i8; 100];
    sq.output_samples(1, period_cycles, &mut out);
    let positive = out.iter().filter(|&&x| x == 1).count();
    let negative = out.iter().filter(|&&x| x == -1).count();
    assert_eq!(positive, 50);
    assert_eq!(negative, 50);
    assert!(out[..50].iter().all(|&x| x == 1));
}

#[test]
fn pulse_quarter_duty() {
    let sq = SquareWave { duty: 1, period: 100 };
    let mut out = [0i8; 8];
    // phases 0, 1/8, ..., 7/8: high while phase <= 1/4
    sq.output_samples(0, 16 * 101, &mut out);
    assert_eq!(out, [1, 1, 1, -1, -1, -1, -1, -1]);
}

#[test]
fn pulse_window_start_shifts_phase() {
    let sq = SquareWave { duty: 0, period: 9 };
    let mut out = [0i8; 4];
    // period 160 cycles; samples at 80, 120, 160, 200 cycles: phases 1/2, 3/4, 0, 1/4
    sq.output_samples(80, 160, &mut out);
    assert_eq!(out, [-1, -1, 1, -1]);
}

#[test]
fn triangle_below_cutoff_is_silent() {
    let tri = TriangleWave { period: 1 };
    let mut out = [5i128; 32];
    let d = tri.output_samples(0, 5_000, &mut out);
    assert_eq!(d, 64 * 32);
    assert!(out.iter().all(|&x| x == 0));
}

#[test]
fn triangle_ramps_through_four_quarters() {
    let tri = TriangleWave { period: 3 };
    // period 128 cycles, 8 samples over one period
    let mut out = [0i128; 8];
    let d = tri.output_samples(0, 128, &mut out);
    assert_eq!(d, 128 * 8);
    let values: Vec<f64> = out.iter().map(|&x| x as f64 / d as f64).collect();
    assert_eq!(values, vec![0.0, 0.5, 1.0, 0.5, 0.0, -0.5, -1.0, -0.5]);
}

#[test]
fn triangle_stays_in_range_and_moves_smoothly() {
    let tri = TriangleWave { period: 2000 };
    let mut out = vec![0i128; 4096];
    let elapsed = 4 * 32 * 2001;
    let d = tri.output_samples(12_345, elapsed, &mut out);
    let step = 4.0 * elapsed as f64 / (32.0 * 2001.0 * 4096.0);
    let mut prev: Option<f64> = None;
    for &x in out.iter() {
        let v = x as f64 / d as f64;
        assert!(v >= -1.0 && v <= 1.0);
        if let Some(p) = prev {
            assert!((v - p).abs() <= step + 1e-9);
        }
        prev = Some(v);
    }
}
