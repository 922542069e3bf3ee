use priceoracle::codec::encode_samples;
use priceoracle::oracle::{
    create_inherent, extract_inherent_data, is_privileged_caller, Oracle, MAX_DRIFT,
};
use priceoracle::window::SampleWindow;
use priceoracle::{Error, Origin};

fn oracle_with_window(samples: &[u64], capacity: usize, tolerance: u64) -> Oracle {
    let window = SampleWindow::from_samples(&samples.to_vec(), capacity);
    let current = samples.last().copied().unwrap_or(0);
    Oracle::from_state(window, current, tolerance)
}

#[test]
fn first_ever_process_accepts_unconditionally() {
    let mut o = Oracle::new(5, 0);
    assert_eq!(o.get_current_price(), 0);
    assert_eq!(o.process(42), Ok(()));
    assert_eq!(o.window_snapshot(), &vec![42]);
    assert_eq!(o.get_current_price(), 42);
}

#[test]
fn defaults_start_empty_and_zero() {
    let o = Oracle::with_defaults();
    assert_eq!(o.get_current_price(), 0);
    assert_eq!(o.window_snapshot(), &Vec::<u64>::new());
    assert_eq!(o.tolerance(), MAX_DRIFT);
}

#[test]
fn rejection_leaves_state_identical() {
    let mut o = oracle_with_window(&[100, 101, 99, 102, 98], 5, 5);
    let window_before = o.window_snapshot().clone();
    let price_before = o.get_current_price();
    assert_eq!(o.process(120), Err(Error::DriftExceeded));
    assert_eq!(o.window_snapshot(), &window_before);
    assert_eq!(o.get_current_price(), price_before);
}

#[test]
fn end_to_end_accept_then_reject() {
    // Window [100, 101, 99, 102, 98] has median 100; tolerance 5.
    let mut o = oracle_with_window(&[100, 101, 99, 102, 98], 5, 5);
    assert_eq!(o.submit_price(Origin::Inherent, 103), Ok(()));
    assert_eq!(o.window_snapshot(), &vec![101, 99, 102, 98, 103]);
    assert_eq!(o.get_current_price(), 103);
    // The updated window has median 101, so 120 drifts too far.
    assert_eq!(o.submit_price(Origin::Inherent, 120), Err(Error::DriftExceeded));
    assert_eq!(o.window_snapshot(), &vec![101, 99, 102, 98, 103]);
    assert_eq!(o.get_current_price(), 103);
}

#[test]
fn acceptance_boundary_through_process() {
    let mut within = oracle_with_window(&[100], 5, 5);
    assert_eq!(within.process(105), Ok(()));
    let mut beyond = oracle_with_window(&[100], 5, 5);
    assert_eq!(beyond.process(106), Err(Error::DriftExceeded));
    let mut below = oracle_with_window(&[100], 5, 5);
    assert_eq!(below.process(95), Ok(()));
    let mut far_below = oracle_with_window(&[100], 5, 5);
    assert_eq!(far_below.process(94), Err(Error::DriftExceeded));
}

#[test]
fn unauthorized_caller_is_turned_away_before_any_logic() {
    let mut o = oracle_with_window(&[100], 5, 5);
    // Even a price that would pass the drift check is rejected.
    assert_eq!(o.submit_price(Origin::External, 100), Err(Error::Unauthorized));
    assert_eq!(o.window_snapshot(), &vec![100]);
    assert_eq!(o.get_current_price(), 100);
    assert!(is_privileged_caller(Origin::Inherent));
    assert!(!is_privileged_caller(Origin::External));
}

#[test]
fn missing_inherent_data_is_fatal() {
    assert_eq!(extract_inherent_data(None), Err(Error::MissingData));
    assert_eq!(create_inherent(None), Err(Error::MissingData));
}

#[test]
fn extract_decodes_provided_samples() {
    let bytes = encode_samples(&vec![1, 3]);
    assert_eq!(extract_inherent_data(Some(&bytes)), Ok(vec![1, 3]));
}

#[test]
fn extract_rejects_malformed_bytes() {
    let ragged: Vec<u8> = vec![1, 2, 3];
    assert_eq!(extract_inherent_data(Some(&ragged)), Err(Error::DecodingError));
    assert_eq!(create_inherent(Some(&ragged)), Err(Error::DecodingError));
}

#[test]
fn create_inherent_derives_the_median() {
    let odd = encode_samples(&vec![5, 1, 3]);
    assert_eq!(create_inherent(Some(&odd)), Ok(3));
    let even = encode_samples(&vec![1, 3]);
    assert_eq!(create_inherent(Some(&even)), Ok(2));
}

#[test]
fn create_inherent_with_no_samples_is_missing_data() {
    let empty: Vec<u8> = Vec::new();
    assert_eq!(create_inherent(Some(&empty)), Err(Error::MissingData));
}

#[test]
fn accepted_price_rotates_into_a_full_window() {
    let mut o = oracle_with_window(&[10, 11, 12], 3, 100);
    assert_eq!(o.process(13), Ok(()));
    assert_eq!(o.window_snapshot(), &vec![11, 12, 13]);
    assert_eq!(o.get_current_price(), 13);
}
