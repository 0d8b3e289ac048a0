use tiny_bench::benching::SamplingData;
use tiny_bench::error::Error;
use tiny_bench::ser::{ser_sampling_data, ser_timing_data, try_de_sampling_data, try_de_timing_data};
use tiny_bench::timing::TimingData;

#[test]
fn can_ser_de_timing() {
    let min_nanos = 0;
    let max_nanos = u128::MAX;
    let elapsed = 555_555;
    let iterations = 99_959_599_959;
    let rd = TimingData {
        min_nanos,
        max_nanos,
        elapsed,
        iterations,
    };
    assert_eq!(rd, try_de_timing_data(&ser_timing_data(rd)).unwrap());
}

#[test]
fn can_ser_de_sampling() {
    let sampling = SamplingData {
        samples: vec![5, 6, 7, 8, 9, 10],
        times: vec![15, 16, 17, 18, 19, 20],
    };
    assert_eq!(
        sampling,
        try_de_sampling_data(&ser_sampling_data(&sampling)).unwrap()
    );
}

#[test]
fn empty_sampling_is_just_the_count() {
    let empty = SamplingData {
        samples: vec![],
        times: vec![],
    };
    let bytes = ser_sampling_data(&empty);
    assert_eq!(vec![0u8; 8], bytes);
    assert_eq!(empty, try_de_sampling_data(&bytes).unwrap());
}

#[test]
fn sampling_layout_is_little_endian() {
    let data = SamplingData {
        samples: vec![0x0102],
        times: vec![0x0304],
    };
    let mut expected = vec![1u8, 0, 0, 0, 0, 0, 0, 0, 0x02, 0x01, 0, 0, 0, 0, 0, 0, 0x04, 0x03];
    expected.extend_from_slice(&[0u8; 14]);
    assert_eq!(expected, ser_sampling_data(&data));
}

#[test]
fn round_trips_large_values() {
    let data = SamplingData {
        samples: vec![u64::MAX, 0, 1 << 40],
        times: vec![u128::MAX, 0, 1 << 100],
    };
    let bytes = ser_sampling_data(&data);
    assert_eq!(8 + 3 * 24, bytes.len());
    assert_eq!(data, try_de_sampling_data(&bytes).unwrap());
}

#[test]
fn refuses_short_buffer() {
    assert_eq!(Err(Error::TooShort { found: 7 }), try_de_sampling_data(&[0u8; 7]));
    assert_eq!(Err(Error::TooShort { found: 0 }), try_de_sampling_data(&[]));
}

#[test]
fn refuses_length_mismatch() {
    let mut bytes = ser_sampling_data(&SamplingData {
        samples: vec![1],
        times: vec![2],
    });
    bytes.pop();
    assert_eq!(
        Err(Error::LengthMismatch {
            expected: 32,
            found: 31
        }),
        try_de_sampling_data(&bytes)
    );
    bytes.push(0);
    bytes.push(0);
    assert_eq!(
        Err(Error::LengthMismatch {
            expected: 32,
            found: 33
        }),
        try_de_sampling_data(&bytes)
    );
}

#[test]
fn refuses_huge_count_without_reading() {
    let bytes = [0xffu8; 8];
    assert_eq!(
        Err(Error::LengthMismatch {
            expected: 8 + 24 * (u64::MAX as u128),
            found: 8
        }),
        try_de_sampling_data(&bytes)
    );
}

#[test]
fn timing_layout_and_errors() {
    let rd = TimingData {
        min_nanos: 1,
        max_nanos: 2,
        elapsed: 3,
        iterations: 4,
    };
    let bytes = ser_timing_data(rd);
    assert_eq!(64, bytes.len());
    assert_eq!(1, bytes[0]);
    assert_eq!(2, bytes[16]);
    assert_eq!(3, bytes[32]);
    assert_eq!(4, bytes[48]);
    assert_eq!(
        Err(Error::LengthMismatch {
            expected: 64,
            found: 63
        }),
        try_de_timing_data(&bytes[..63])
    );
}

#[test]
fn error_new_holds_message() {
    assert_eq!(Error::Message("disk full".to_string()), Error::new("disk full".to_string()));
}
