use priceoracle::consensus::{mean, median, sort_samples, verify, Verdict};

#[test]
fn median_of_single_sample() {
    assert_eq!(median(&vec![3]), 3);
}

#[test]
fn median_of_two_truncates() {
    assert_eq!(median(&vec![1, 3]), 2);
}

#[test]
fn median_of_odd_count() {
    assert_eq!(median(&vec![5, 1, 3]), 3);
}

#[test]
fn median_of_even_count_truncates() {
    // (2 + 3) / 2 == 2 with integer truncation, not 2.5.
    assert_eq!(median(&vec![1, 2, 3, 4]), 2);
}

#[test]
fn median_is_order_independent() {
    let perms: [[u64; 3]; 6] = [
        [1, 3, 5],
        [1, 5, 3],
        [3, 1, 5],
        [3, 5, 1],
        [5, 1, 3],
        [5, 3, 1],
    ];
    for p in perms.iter() {
        assert_eq!(median(&p.to_vec()), 3);
    }
    assert_eq!(median(&vec![4, 3, 2, 1]), 2);
    assert_eq!(median(&vec![2, 4, 1, 3]), 2);
}

#[test]
fn median_leaves_input_untouched() {
    let samples: Vec<u64> = vec![5, 1, 3];
    let m = median(&samples);
    assert_eq!(m, 3);
    assert_eq!(samples, vec![5, 1, 3]);
}

#[test]
fn median_of_large_samples_has_no_overflow() {
    assert_eq!(median(&vec![u64::MAX, u64::MAX - 1]), u64::MAX - 1);
}

#[test]
fn mean_truncates_toward_zero() {
    assert_eq!(mean(&vec![2, 3]), 2);
    assert_eq!(mean(&vec![1, 2, 3, 4]), 2);
    assert_eq!(mean(&vec![7]), 7);
}

#[test]
fn sort_samples_orders_ascending() {
    assert_eq!(sort_samples(&vec![5, 1, 3]), vec![1, 3, 5]);
    assert_eq!(sort_samples(&vec![2, 2, 1]), vec![1, 2, 2]);
    assert_eq!(sort_samples(&vec![]), vec![]);
}

#[test]
fn verify_accepts_at_exact_boundary() {
    let m: u64 = 100;
    let t: u64 = 5;
    assert_eq!(verify(m + t, m, t), Verdict::Accept);
    assert_eq!(verify(m + t + 1, m, t), Verdict::Reject);
    assert_eq!(verify(m - t, m, t), Verdict::Accept);
    assert_eq!(verify(m - t - 1, m, t), Verdict::Reject);
}

#[test]
fn verify_with_zero_tolerance() {
    assert_eq!(verify(100, 100, 0), Verdict::Accept);
    assert_eq!(verify(101, 100, 0), Verdict::Reject);
    assert_eq!(verify(99, 100, 0), Verdict::Reject);
}

#[test]
fn verify_never_underflows() {
    assert_eq!(verify(0, u64::MAX, u64::MAX), Verdict::Accept);
    assert_eq!(verify(u64::MAX, 0, u64::MAX), Verdict::Accept);
    assert_eq!(verify(0, u64::MAX, u64::MAX - 1), Verdict::Reject);
}
