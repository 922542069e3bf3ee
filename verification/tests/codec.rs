use priceoracle::codec::{decode_samples, encode_samples};
use priceoracle::Error;

#[test]
fn encoding_is_little_endian_per_sample() {
    let bytes = encode_samples(&vec![0x0102030405060708]);
    assert_eq!(bytes, vec![0x08, 0x07, 0x06, 0x05, 0x04, 0x03, 0x02, 0x01]);
}

#[test]
fn codec_round_trip() {
    let samples: Vec<u64> = vec![0, 1, 42, u64::MAX, 1 << 63];
    let bytes = encode_samples(&samples);
    assert_eq!(decode_samples(&bytes), Ok(samples));
}

#[test]
fn decode_rejects_ragged_length() {
    assert_eq!(decode_samples(&vec![1, 2, 3]), Err(Error::DecodingError));
    assert_eq!(decode_samples(&vec![0; 15]), Err(Error::DecodingError));
}

#[test]
fn decode_of_empty_store_is_empty_window() {
    assert_eq!(decode_samples(&vec![]), Ok(vec![]));
}
