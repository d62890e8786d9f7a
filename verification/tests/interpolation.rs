use granular_synth::{
    cubic_interpolation, four_point_interpolation, interpolate, linear_interpolation, sinc,
    sinc_interpolation, Interpolation,
};

const ONE: i64 = 32768;

#[test]
fn every_kernel_is_exact_on_whole_indices() {
    let buf: Vec<i32> = vec![100, -200, 300, 4000, -5000];
    for i in 0..buf.len() {
        let x = (i as i64) * ONE;
        assert_eq!(linear_interpolation(&buf, x), buf[i]);
        assert_eq!(cubic_interpolation(&buf, x), buf[i]);
        assert_eq!(four_point_interpolation(&buf, x), buf[i]);
        assert_eq!(sinc_interpolation(&buf, x), buf[i]);
        assert_eq!(interpolate(Interpolation::Linear, &buf, x), buf[i]);
        assert_eq!(interpolate(Interpolation::Cubic, &buf, x), buf[i]);
        assert_eq!(interpolate(Interpolation::FourPoint, &buf, x), buf[i]);
        assert_eq!(interpolate(Interpolation::Sinc, &buf, x), buf[i]);
    }
}

#[test]
fn linear_interpolates_halfway() {
    let buf: Vec<i32> = vec![100, 200];
    assert_eq!(linear_interpolation(&buf, 16384), 150);
    assert_eq!(linear_interpolation(&buf, 8192), 125);
}

#[test]
fn linear_reads_zero_outside_the_buffer() {
    let buf: Vec<i32> = vec![100, 200];
    assert_eq!(linear_interpolation(&buf, 10 * ONE), 0);
    let empty: Vec<i32> = vec![];
    assert_eq!(linear_interpolation(&empty, 0), 0);
    assert_eq!(sinc_interpolation(&empty, 0), 0);
    assert_eq!(cubic_interpolation(&empty, 0), 0);
    assert_eq!(four_point_interpolation(&empty, 0), 0);
}

#[test]
fn linear_fades_in_from_the_left_edge() {
    // Between index -1 (out of range, zero) and index 0.
    let buf: Vec<i32> = vec![1000, 1000];
    assert_eq!(linear_interpolation(&buf, -16384), 500);
}

#[test]
fn sinc_kernel_center_and_zero_crossings() {
    // sinc(0) is one; at whole-sample offsets the kernel vanishes.
    assert_eq!(sinc(0), 32768);
    assert_eq!(sinc(32768), 0);
    assert_eq!(sinc(-32768), 0);
    assert_eq!(sinc(65536), 0);
    assert_eq!(sinc(-65536), 0);
    // Near the midpoint the kernel is about 2 / pi.
    let mid = sinc(16384);
    assert!(mid > 20000 && mid < 21500, "sinc(HALF) = {}", mid);
}

#[test]
fn sinc_interpolation_of_a_constant_signal_is_exact() {
    // The normalization cancels the weights exactly on a flat buffer.
    let buf: Vec<i32> = vec![32768; 64];
    for x in [5 * ONE + 123, 10 * ONE + 16384, 30 * ONE + 29999] {
        assert_eq!(sinc_interpolation(&buf, x), 32768);
    }
}

#[test]
fn cubic_interpolates_between_neighbors() {
    let buf: Vec<i32> = vec![0, 32768, 32768, 0];
    let v = cubic_interpolation(&buf, ONE + 16384);
    // The tangents pull the flat middle segment down by one sixteenth.
    assert_eq!(v, 30720);
}

#[test]
fn four_point_clamps_left_taps_to_the_first_sample() {
    // Reading between the first two samples uses the first sample twice.
    let buf: Vec<i32> = vec![1000, 3000, 5000, 7000];
    let v = four_point_interpolation(&buf, 16384);
    assert!(v > 1000 && v < 3000, "hermite fade = {}", v);
}
