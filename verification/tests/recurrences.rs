use kalman::rational::Rational;
use kalman::recurrence::{highpass_filter, lowpass_filter};
use kalman::scalar::Scalar;

fn r(num: i64, den: i64) -> Rational {
    Rational::new(num, den)
}

fn n(v: i64) -> Rational {
    Rational::new(v, 1)
}

#[derive(Clone, Copy, Debug, PartialEq)]
struct Single(f32);

impl Scalar for Single {
    fn from_int(n: i32) -> Self {
        Single(n as f32)
    }

    fn plus(&self, rhs: &Self) -> Self {
        Single(self.0 + rhs.0)
    }

    fn minus(&self, rhs: &Self) -> Self {
        Single(self.0 - rhs.0)
    }

    fn times(&self, rhs: &Self) -> Self {
        Single(self.0 * rhs.0)
    }

    fn recip(&self) -> Self {
        Single(1.0 / self.0)
    }

    fn is_negligible(&self) -> bool {
        self.0.abs() < f32::EPSILON
    }
}

#[test]
fn lowpass_of_a_step() {
    let mut data = vec![n(1), n(1), n(1), n(1)];
    lowpass_filter(&mut data, r(1, 2));
    // y0 = x0 / 2, then each output moves half of the way to the input.
    assert_eq!(data, vec![r(1, 2), r(3, 4), r(7, 8), r(15, 16)]);
}

#[test]
fn lowpass_follows_the_input_with_a_lag() {
    let mut data = vec![n(4), n(0), n(8), n(-4)];
    lowpass_filter(&mut data, r(1, 4));
    // 1; 1 + (0 - 1)/4 = 3/4; 3/4 + (8 - 3/4)/4 = 41/16; 41/16 + (-4 - 41/16)/4 = 59/64
    assert_eq!(data, vec![n(1), r(3, 4), r(41, 16), r(59, 64)]);
}

#[test]
fn lowpass_of_one_sample_scales_it() {
    let mut data = vec![n(6)];
    lowpass_filter(&mut data, r(1, 3));
    assert_eq!(data, vec![n(2)]);
}

#[test]
fn lowpass_with_factor_one_keeps_the_input() {
    let mut data = vec![n(3), n(-2), n(7)];
    lowpass_filter(&mut data, n(1));
    assert_eq!(data, vec![n(3), n(-2), n(7)]);
}

#[test]
fn highpass_scales_all_but_the_first_sample() {
    let mut data = vec![n(4), n(2), n(-6), n(8)];
    highpass_filter(&mut data, r(1, 2));
    // In exact arithmetic (y + x) - y is x: each later sample is halved.
    assert_eq!(data, vec![n(4), n(1), n(-3), n(4)]);
}

#[test]
fn highpass_of_one_sample_keeps_it() {
    let mut data = vec![r(5, 7)];
    highpass_filter(&mut data, r(1, 2));
    assert_eq!(data, vec![r(5, 7)]);
}

#[test]
fn lowpass_in_single_precision() {
    let sampling_rate: f32 = 100.0;
    let cutoff: f32 = 5.0;
    let rc = 1.0 / (cutoff * 2.0 * core::f32::consts::PI);
    let dt = 1.0 / sampling_rate;
    let alpha = dt / (rc + dt);
    let input: [f32; 5] = [1.0, 0.5, -0.25, 2.0, 0.0];

    let mut expected = input;
    expected[0] *= alpha;
    for i in 1..expected.len() {
        expected[i] = expected[i - 1] + alpha * (expected[i] - expected[i - 1]);
    }

    let mut data: Vec<Single> = input.iter().map(|v| Single(*v)).collect();
    lowpass_filter(&mut data, Single(alpha));
    let got: Vec<f32> = data.iter().map(|v| v.0).collect();
    assert_eq!(got, expected.to_vec());
    assert!(got[0] < 0.25 && got[0] > 0.23);
}

#[test]
fn highpass_in_single_precision() {
    let sampling_rate: f32 = 100.0;
    let cutoff: f32 = 5.0;
    let rc = 1.0 / (cutoff * 2.0 * core::f32::consts::PI);
    let dt = 1.0 / sampling_rate;
    let alpha = rc / (rc + dt);
    let input: [f32; 5] = [1.0, 0.5, -0.25, 2.0, 0.0];

    let mut expected = input;
    expected[0] *= 1.0;
    for i in 1..expected.len() {
        expected[i] = alpha * (expected[i - 1] + expected[i] - expected[i - 1]);
    }

    let mut data: Vec<Single> = input.iter().map(|v| Single(*v)).collect();
    highpass_filter(&mut data, Single(alpha));
    let got: Vec<f32> = data.iter().map(|v| v.0).collect();
    assert_eq!(got, expected.to_vec());
    assert_eq!(got[0], 1.0);
}
