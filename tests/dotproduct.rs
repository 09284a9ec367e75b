use simd_kernels::dotproduct::{dot_product, dot_product_neon, generate_ramp};
use simd_kernels::lanes::{
    add_wide, extract_lane, horizontal_sum, load_narrow, load_narrow_padded, splat_wide,
    widen_mul_acc, WideLanes,
};

fn scalar_oracle(v1: &[i16], v2: &[i16]) -> i64 {
    v1.iter().zip(v2.iter()).map(|(a, b)| (*a as i64) * (*b as i64)).sum()
}

#[test]
fn ramp_dot_product_scenario() {
    let v1: Vec<i16> = vec![0, 1, 2, 3];
    let v2: Vec<i16> = vec![100, 101, 102, 103];
    let expected: i32 = 0 * 100 + 1 * 101 + 2 * 102 + 3 * 103;
    assert_eq!(expected, 614);
    assert_eq!(dot_product(&v1, &v2), expected);
    assert_eq!(dot_product_neon(&v1, &v2), expected);
}

#[test]
fn generate_ramp_counts_up_from_start() {
    assert_eq!(generate_ramp(100, 4), vec![100, 101, 102, 103]);
    assert_eq!(generate_ramp(-2, 3), vec![-2, -1, 0]);
    assert_eq!(generate_ramp(5, 0), Vec::<i16>::new());
    let top = generate_ramp(i16::MAX - 1, 2);
    assert_eq!(top, vec![i16::MAX - 1, i16::MAX]);
}

#[test]
fn kernel_matches_reference_on_many_lengths() {
    for len in [0usize, 1, 2, 3, 4, 5, 15, 16, 17, 31, 32, 33, 100, 1024] {
        let v1 = generate_ramp(0, len);
        let v2 = generate_ramp(100, len);
        let expected = scalar_oracle(&v1, &v2) as i32;
        assert_eq!(dot_product(&v1, &v2), expected, "len {}", len);
        assert_eq!(dot_product_neon(&v1, &v2), expected, "len {}", len);
    }
}

#[test]
fn kernel_matches_reference_with_signed_values() {
    let v1: Vec<i16> = (0..37).map(|i: i32| ((i * 7919) % 601 - 300) as i16).collect();
    let v2: Vec<i16> = (0..37).map(|i: i32| ((i * 104729) % 1201 - 600) as i16).collect();
    let expected = scalar_oracle(&v1, &v2);
    assert_eq!(dot_product(&v1, &v2) as i64, expected);
    assert_eq!(dot_product_neon(&v1, &v2) as i64, expected);
}

#[test]
fn ramp_of_1024_dot_product() {
    let v1 = generate_ramp(0, 1024);
    let v2 = generate_ramp(100, 1024);
    assert_eq!(dot_product(&v1, &v2), 409_767_424);
    assert_eq!(dot_product_neon(&v1, &v2), 409_767_424);
}

#[test]
fn sum_past_i32_wraps_in_both_kernels() {
    let v1: Vec<i16> = vec![i16::MIN, i16::MIN];
    let v2: Vec<i16> = vec![i16::MIN, i16::MIN];
    assert_eq!(dot_product(&v1, &v2), i32::MIN);
    assert_eq!(dot_product_neon(&v1, &v2), i32::MIN);
    let w1: Vec<i16> = vec![i16::MIN; 21];
    let w2: Vec<i16> = vec![i16::MAX; 21];
    assert_eq!(dot_product(&w1, &w2), dot_product_neon(&w1, &w2));
    assert_eq!(dot_product(&w1, &w2), (scalar_oracle(&w1, &w2) as i32));
}

#[test]
fn zero_padding_keeps_result() {
    let v1: Vec<i16> = vec![3, -4, 5, 6, 7];
    let v2: Vec<i16> = vec![2, 9, -1, 8, 10];
    let plain = dot_product_neon(&v1, &v2);
    assert_eq!(plain, 6 - 36 - 5 + 48 + 70);
    for pad in [3usize, 11, 27] {
        let mut p1 = v1.clone();
        let mut p2 = v2.clone();
        p1.extend(std::iter::repeat(0i16).take(pad));
        p2.extend(std::iter::repeat(123i16).take(pad));
        assert_eq!(dot_product_neon(&p1, &p2), plain, "pad {}", pad);
        assert_eq!(dot_product(&p1, &p2), plain, "pad {}", pad);
    }
}

#[test]
fn lane_primitives() {
    let data: Vec<i16> = vec![1, -2, 3, -4, 5, 6];
    let g = load_narrow(&data, 1);
    assert_eq!(g.v, [-2, 3, -4, 5]);
    let tail = load_narrow_padded(&data, 4);
    assert_eq!(tail.v, [5, 6, 0, 0]);
    let acc = splat_wide(10);
    assert_eq!(acc.v, [10, 10, 10, 10]);
    let m = widen_mul_acc(acc, g, g);
    assert_eq!(m.v, [14, 19, 26, 35]);
    assert_eq!(extract_lane(m, 2), 26);
    let s = add_wide(m, WideLanes { v: [1, 2, 3, i32::MAX] });
    assert_eq!(s.v, [15, 21, 29, i32::MIN + 34]);
    assert_eq!(horizontal_sum(WideLanes { v: [1, 2, 3, 4] }), 10);
    assert_eq!(horizontal_sum(WideLanes { v: [i32::MAX, 1, 0, 0] }), i32::MIN);
    let big = widen_mul_acc(
        splat_wide(0),
        load_narrow(&[i16::MIN; 4], 0),
        load_narrow(&[i16::MIN; 4], 0),
    );
    assert_eq!(big.v, [1 << 30; 4]);
}
