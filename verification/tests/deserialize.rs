use tl::deserialize::Error;
use tl::{Deserialize, Float64, Serialize};

#[test]
fn deserialize_primitives() -> Result<(), Error> {
    assert_eq!(u8::from_bytes(&[0x2a])?, 42_u8);
    assert_eq!(i32::from_bytes(&[0x4e, 0x19, 0x8f, 0x1c])?, 479140174_i32);
    assert_eq!(
        i64::from_bytes(&[0x4d, 0xbe, 0x90, 0x9, 0xa2, 0xc6, 0x35, 0x1])?,
        87194167051075149_i64
    );
    assert_eq!(
        Float64::from_bytes(&[0xbc, 0x90, 0x0e, 0x0f, 0x61, 0x3a, 0x81, 0x40])?,
        Float64::from_bits(551.297392_f64.to_bits())
    );
    assert_eq!(bool::from_bytes(&[0x1])?, true);
    assert_eq!(bool::from_bytes(&[0x0])?, false);
    assert_eq!(
        String::from_bytes(&[0x5, b'h', b'e', b'l', b'l', b'o'])?,
        String::from("hello")
    );
    assert_eq!(
        Vec::<u8>::from_bytes(
            &[
                vec![0xff, 0xe8, 0x3, 0x0, 0x0, 0x0, 0x0, 0x0, 0x0],
                vec![0xdd; 997],
                vec![b'j', b'o', b'y']
            ]
            .concat()
        )?,
        [vec![0xdd; 997], vec![b'j', b'o', b'y']].concat()
    );
    assert_eq!(Option::<i32>::from_bytes(&[0x1, 0x28, 0x0, 0x0, 0x0])?, Some(0x28));
    assert_eq!(Option::<i32>::from_bytes(&[0x0])?, None::<i32>);
    Ok(())
}

#[test]
fn deserialize_dyn_len() -> Result<(), Error> {
    assert_eq!(dyn_len_from_bytes(vec![0x50])?, 0x50);
    assert_eq!(
        dyn_len_from_bytes(vec![0xff, 0x97, 0x43, 0x2, 0x0, 0x0, 0x0, 0x0, 0x0])?,
        0x24397
    );
    Ok(())
}

/// Decoding each boundary encoding reproduces the original length.
#[test]
fn dyn_len_boundary_round_trip() -> Result<(), Error> {
    assert_eq!(dyn_len_from_bytes(vec![254])?, 254);
    assert_eq!(
        dyn_len_from_bytes(vec![0xff, 0xff, 0x0, 0x0, 0x0, 0x0, 0x0, 0x0, 0x0])?,
        255
    );
    Ok(())
}

/// Bytes that are not UTF-8 fail with the string error, not a truncation.
#[test]
fn invalid_string_is_rejected() {
    let r = String::from_bytes(&[0x2, 0xff, 0xfe]);
    assert!(matches!(r, Err(Error::InvalidString)));
}

/// A truncated buffer fails with the end-of-data error.
#[test]
fn truncated_input_is_rejected() {
    let r = i64::from_bytes(&[0x1, 0x2]);
    assert!(matches!(r, Err(Error::Read(tl::read::Error::Eof))));
}

/// Every wire shape decodes back to the value it was encoded from.
#[test]
fn round_trips() -> Result<(), Error> {
    assert_eq!(i32::from_bytes(&(-77_i32).to_bytes())?, -77);
    assert_eq!(i64::from_bytes(&i64::MIN.to_bytes())?, i64::MIN);
    assert_eq!(u8::from_bytes(&255_u8.to_bytes())?, 255);
    assert_eq!(bool::from_bytes(&false.to_bytes())?, false);
    assert_eq!(
        String::from_bytes(&String::from("héllo wörld").to_bytes())?,
        String::from("héllo wörld")
    );
    let v: Vec<i64> = vec![1, -2, 3];
    assert_eq!(Vec::<i64>::from_bytes(&v.to_bytes())?, v);
    let o: Option<String> = Some(String::from("x"));
    assert_eq!(Option::<String>::from_bytes(&o.to_bytes())?, o);
    let res: Result<Vec<u8>, i32> = Err(-5);
    assert_eq!(Result::<Vec<u8>, i32>::from_bytes(&res.to_bytes())?, res);
    let t = tl::Time::from_millis(-123456789);
    assert_eq!(tl::Time::from_bytes(&t.to_bytes())?, t);
    let f = Float64::from_bits(0.74_f64.to_bits());
    assert_eq!(Float64::from_bytes(&f.to_bytes())?, f);
    Ok(())
}

/// The boolean decode policy: 0x01 is true, every other byte is false.
#[test]
fn bool_decode_policy() -> Result<(), Error> {
    assert_eq!(bool::from_bytes(&[0x2])?, false);
    assert_eq!(bool::from_bytes(&[0xff])?, false);
    Ok(())
}

fn dyn_len_from_bytes(buf: Vec<u8>) -> Result<u64, Error> {
    let mut src = &buf as &[u8];
    tl::deserialize::deserialize_dyn_len(&mut src)
}
