use wispmq_cli::bench::payload::{build, decode, Header, HEADER_LEN};

#[test]
fn header_survives_a_round_trip() {
    let header = Header {
        elapsed_ns: 1_234_567_890,
        publisher: 7,
        seq: 42,
    };
    let payload = build(64, header);
    assert_eq!(payload.len(), 64);
    assert_eq!(decode(&payload), Some(header));
}

#[test]
fn payload_smaller_than_the_header_is_filled_to_header_length() {
    let payload = build(
        4,
        Header {
            elapsed_ns: 1,
            publisher: 0,
            seq: 0,
        },
    );
    assert_eq!(payload.len(), HEADER_LEN);
}

#[test]
fn decoding_a_short_payload_returns_none() {
    assert_eq!(decode(&[0u8; 15]), None);
    assert_eq!(decode(&[]), None);
}

#[test]
fn filler_is_deterministic_so_runs_are_comparable() {
    let a = build(
        128,
        Header {
            elapsed_ns: 1,
            publisher: 1,
            seq: 1,
        },
    );
    let b = build(
        128,
        Header {
            elapsed_ns: 1,
            publisher: 1,
            seq: 1,
        },
    );
    assert_eq!(a, b);
}

#[test]
fn the_header_is_big_endian_and_the_filler_zero() {
    let payload = build(
        18,
        Header {
            elapsed_ns: 0x0102_0304_0506_0708,
            publisher: 0x090A_0B0C,
            seq: 0x0D0E_0F10,
        },
    );
    assert_eq!(
        payload,
        vec![1, 2, 3, 4, 5, 6, 7, 8, 9, 10, 11, 12, 13, 14, 15, 16, 0, 0]
    );
}

#[test]
fn the_largest_header_survives() {
    let header = Header {
        elapsed_ns: u64::MAX,
        publisher: u32::MAX,
        seq: u32::MAX,
    };
    assert_eq!(decode(&build(0, header)), Some(header));
}

#[test]
fn a_read_header_writes_the_same_bytes() {
    let payload: Vec<u8> = (240..=255).chain(1..=4).collect();
    let header = decode(&payload).expect("twenty bytes hold a header");
    assert_eq!(build(0, header), payload[..HEADER_LEN].to_vec());
}
