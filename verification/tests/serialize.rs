use tl::serialize::serialize_dyn_len;
use tl::{Float64, Serialize};

#[test]
fn serialize_primitives() {
    assert_eq!(42_u8.to_bytes(), vec![0x2a]);
    assert_eq!(479140174_i32.to_bytes(), vec![0x4e, 0x19, 0x8f, 0x1c]);
    assert_eq!(
        87194167051075149_i64.to_bytes(),
        vec![0x4d, 0xbe, 0x90, 0x9, 0xa2, 0xc6, 0x35, 0x1]
    );
    assert_eq!(
        Float64::from_bits(551.297392_f64.to_bits()).to_bytes(),
        vec![0xbc, 0x90, 0x0e, 0x0f, 0x61, 0x3a, 0x81, 0x40]
    );
    assert_eq!(true.to_bytes(), vec![0x1]);
    assert_eq!(false.to_bytes(), vec![0x0]);
    assert_eq!(
        String::from("hello").to_bytes(),
        vec![0x5, b'h', b'e', b'l', b'l', b'o']
    );
    assert_eq!(
        [vec![0xdd; 997], vec![b'j', b'o', b'y']].concat().to_bytes(),
        [
            vec![0xff, 0xe8, 0x3, 0x0, 0x0, 0x0, 0x0, 0x0, 0x0],
            vec![0xdd; 997],
            vec![b'j', b'o', b'y']
        ]
        .concat()
    );
    assert_eq!(Some(0x28_i32).to_bytes(), vec![0x1, 0x28, 0x0, 0x0, 0x0]);
    assert_eq!(None::<i32>.to_bytes(), vec![0x0]);
}

#[test]
fn dyn_len() {
    assert_eq!(dyn_len_to_bytes(0x50), vec![0x50]);
    assert_eq!(
        dyn_len_to_bytes(0x24397),
        vec![0xff, 0x97, 0x43, 0x2, 0x0, 0x0, 0x0, 0x0, 0x0]
    );
}

#[test]
fn serialize_time_and_results() {
    assert_eq!(
        tl::Time::from_millis(1).to_bytes(),
        vec![0x1, 0x0, 0x0, 0x0, 0x0, 0x0, 0x0, 0x0]
    );
    assert_eq!(
        tl::Time::from_millis(-1).to_bytes(),
        vec![0xff; 8]
    );
    assert_eq!((-1_i32).to_bytes(), vec![0xff, 0xff, 0xff, 0xff]);
    let ok: Result<bool, u8> = Ok(true);
    assert_eq!(ok.to_bytes(), vec![0x1, 0x1]);
    let err: Result<bool, u8> = Err(9);
    assert_eq!(err.to_bytes(), vec![0x0, 0x9]);
}

/// The boundary of the dynamic-length format: 254 fits one byte, 255 takes
/// the marker form.
#[test]
fn dyn_len_boundary() {
    assert_eq!(dyn_len_to_bytes(254), vec![254]);
    assert_eq!(
        dyn_len_to_bytes(255),
        vec![0xff, 0xff, 0x0, 0x0, 0x0, 0x0, 0x0, 0x0, 0x0]
    );
}

fn dyn_len_to_bytes(len: usize) -> Vec<u8> {
    let mut buf = Vec::new();
    serialize_dyn_len(len, &mut buf);
    buf
}
