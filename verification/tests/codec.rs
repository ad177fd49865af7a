use nanonis_tcp::codec::allocating::Vec2D;
use nanonis_tcp::codec::api::{ActionType, LineDir, MotorAxis, MotorDir, ScanDir, ScanMovementType};
use nanonis_tcp::codec::fixed_string::FixedString;
use nanonis_tcp::codec::{CodecRead, CodecWrite};
use nanonis_tcp::error::IoError;

fn encode<T: CodecWrite>(v: &T) -> Vec<u8> {
    let mut out = Vec::new();
    v.codec_write(&mut out);
    assert_eq!(out.len(), v.codec_len());
    out
}

fn decode<T: CodecRead>(bytes: &[u8]) -> Result<(T, usize), IoError> {
    T::codec_read(bytes, 0)
}

#[test]
fn integers_are_big_endian() {
    assert_eq!(encode(&0x0102_0304u32), vec![1, 2, 3, 4]);
    assert_eq!(encode(&0x0a0bu16), vec![0x0a, 0x0b]);
    assert_eq!(encode(&-1i32), vec![0xff, 0xff, 0xff, 0xff]);
    assert_eq!(encode(&0x0102_0304_0506_0708u64), vec![1, 2, 3, 4, 5, 6, 7, 8]);
    assert_eq!(decode::<u32>(&[1, 2, 3, 4, 9]).unwrap(), (0x0102_0304, 4));
    assert_eq!(decode::<i32>(&[0xff, 0xff, 0xff, 0xfe]).unwrap(), (-2, 4));
    assert_eq!(decode::<u16>(&[0x12, 0x34]).unwrap(), (0x1234, 2));
    assert_eq!(decode::<u64>(&[0, 0, 0, 1, 0, 0, 0, 2]).unwrap(), ((1u64 << 32) | 2, 8));
}

#[test]
fn short_input_is_unexpected_eof() {
    assert_eq!(decode::<u32>(&[1, 2, 3]), Err(IoError::UnexpectedEof));
    assert_eq!(decode::<u16>(&[1]), Err(IoError::UnexpectedEof));
    assert_eq!(decode::<u64>(&[0; 7]), Err(IoError::UnexpectedEof));
    assert_eq!(u32::codec_read(&[1, 2, 3, 4], 2), Err(IoError::UnexpectedEof));
}

#[test]
fn reading_starts_at_the_given_position() {
    let bytes = [9, 9, 0, 0, 0, 7];
    assert_eq!(u32::codec_read(&bytes, 2).unwrap(), (7, 6));
}

#[test]
fn floats_travel_as_their_bits() {
    let bias = 1.5f32;
    let bytes = encode(&bias.to_bits());
    assert_eq!(bytes, bias.to_be_bytes().to_vec());
    let (bits, _) = decode::<u32>(&bytes).unwrap();
    assert_eq!(f32::from_bits(bits), 1.5);
    let x = -2.25f64;
    assert_eq!(encode(&x.to_bits()), x.to_be_bytes().to_vec());
}

#[test]
fn booleans_are_words() {
    assert_eq!(encode(&true), vec![0, 0, 0, 1]);
    assert_eq!(encode(&false), vec![0, 0, 0, 0]);
    assert_eq!(decode::<bool>(&[0, 0, 0, 2]).unwrap(), (true, 4));
    assert_eq!(decode::<bool>(&[0, 0, 0, 0]).unwrap(), (false, 4));
}

#[test]
fn sizes_are_non_negative_i32() {
    assert_eq!(encode(&5usize), vec![0, 0, 0, 5]);
    assert_eq!(decode::<usize>(&[0, 0, 1, 0]).unwrap(), (256, 4));
    assert_eq!(decode::<usize>(&[0xff, 0xff, 0xff, 0xff]), Err(IoError::NegativeSize(-1)));
}

#[test]
fn unit_takes_no_bytes() {
    assert_eq!(encode(&()), Vec::<u8>::new());
    assert_eq!(decode::<()>(&[]).unwrap(), ((), 0));
}

#[test]
fn strings_are_length_prefixed_utf8() {
    let s = String::from("hé");
    let bytes = encode(&s);
    assert_eq!(bytes, vec![0, 0, 0, 3, b'h', 0xc3, 0xa9]);
    let (back, end) = decode::<String>(&bytes).unwrap();
    assert_eq!(back, "hé");
    assert_eq!(end, 7);
    assert_eq!(decode::<String>(&[0, 0, 0, 0]).unwrap(), (String::new(), 4));
}

#[test]
fn string_errors() {
    assert_eq!(decode::<String>(&[0, 0, 0, 2, 0xff, 0xfe]), Err(IoError::InvalidUtf8));
    assert_eq!(decode::<String>(&[0, 0, 0, 5, b'a']), Err(IoError::UnexpectedEof));
    assert_eq!(decode::<String>(&[0xff, 0xff, 0xff, 0xff]), Err(IoError::NegativeSize(-1)));
}

#[test]
fn arrays_are_count_prefixed() {
    let v: Vec<i32> = vec![1, -1];
    let bytes = encode(&v);
    assert_eq!(bytes, vec![0, 0, 0, 2, 0, 0, 0, 1, 0xff, 0xff, 0xff, 0xff]);
    assert_eq!(decode::<Vec<i32>>(&bytes).unwrap(), (v, 12));
    let names: Vec<String> = vec!["a".into(), "bc".into()];
    let bytes = encode(&names);
    assert_eq!(decode::<Vec<String>>(&bytes).unwrap(), (names, bytes.len()));
}

#[test]
fn non_positive_count_reads_empty_array() {
    assert_eq!(decode::<Vec<u32>>(&[0xff, 0xff, 0xff, 0xfd, 1, 2]).unwrap(), (vec![], 4));
    assert_eq!(decode::<Vec<u32>>(&[0, 0, 0, 0]).unwrap(), (vec![], 4));
}

#[test]
fn array_with_missing_element_fails() {
    assert_eq!(decode::<Vec<u32>>(&[0, 0, 0, 2, 0, 0, 0, 1]), Err(IoError::UnexpectedEof));
}

#[test]
fn vec2d_roundtrip() {
    let v = Vec2D { size: [2, 3], data: vec![1u32, 2, 3, 4, 5, 6] };
    let bytes = encode(&v);
    assert_eq!(bytes.len(), 8 + 6 * 4);
    assert_eq!(&bytes[..8], &[0, 0, 0, 2, 0, 0, 0, 3]);
    let (back, end) = decode::<Vec2D<u32>>(&bytes).unwrap();
    assert_eq!(back.size, [2, 3]);
    assert_eq!(back.data, v.data);
    assert_eq!(end, bytes.len());
}

#[test]
fn vec2d_errors_and_default() {
    assert_eq!(decode::<Vec2D<u32>>(&[0xff, 0xff, 0xff, 0xff, 0, 0, 0, 1]).err(), Some(IoError::NegativeSize(-1)));
    assert_eq!(decode::<Vec2D<u32>>(&[0, 0, 0, 1, 0, 0, 0, 1]).err(), Some(IoError::UnexpectedEof));
    let d: Vec2D<u32> = Vec2D::default();
    assert_eq!(d.size, [0, 0]);
    assert!(d.data.is_empty());
    let (strings, _) = decode::<Vec2D<String>>(&[0, 0, 0, 1, 0, 0, 0, 1, 0, 0, 0, 1, b'x']).unwrap();
    assert_eq!(strings.data, vec![String::from("x")]);
}

#[test]
fn fixed_string_reads_up_to_nul() {
    let mut bytes = vec![0u8; 8];
    bytes[..3].copy_from_slice(b"abc");
    bytes[5] = b'z';
    let (f, end) = decode::<FixedString<8>>(&bytes).unwrap();
    assert_eq!(end, 8);
    assert_eq!(encode(&f), bytes);
    assert!(f.text_eq("abc"));
    assert!(!f.text_eq("abcz"));
    assert_eq!(f.to_string(), "abc");
    let (full, _) = decode::<FixedString<3>>(b"xyz").unwrap();
    assert_eq!(full.to_string(), "xyz");
}

#[test]
fn fixed_string_errors() {
    assert_eq!(decode::<FixedString<4>>(b"abc").err(), Some(IoError::UnexpectedEof));
    assert_eq!(decode::<FixedString<4>>(&[0xff, 0, 0, 0]).err(), Some(IoError::InvalidUtf8));
    assert_eq!(decode::<FixedString<4>>(&[b'a', 0, 0xff, 0xff]).unwrap().0.to_string(), "a");
}

#[test]
fn enum_codes() {
    assert_eq!(u16::from(ActionType::Start), 0);
    assert_eq!(u16::from(ActionType::GoToCenter), 6);
    assert_eq!(encode(&ActionType::Resume), vec![0, 3]);
    assert_eq!(u32::from(ScanDir::Up), 1);
    assert_eq!(u32::from(LineDir::Forward), 1);
    assert_eq!(u32::from(LineDir::Backward), 0);
    assert_eq!(u32::from(MotorDir::ZNeg), 5);
    assert_eq!(encode(&MotorDir::YPos), vec![0, 0, 0, 2]);
    assert_eq!(u16::from(MotorAxis::Z), 3);
    assert_eq!(encode(&ScanMovementType::Scan(LineDir::Forward)), vec![0, 0]);
    assert_eq!(encode(&ScanMovementType::Scan(LineDir::Backward)), vec![0, 1]);
    assert_eq!(encode(&ScanMovementType::StartOfScan), vec![0, 3]);
}

#[test]
fn enum_decoding() {
    assert_eq!(decode::<ScanDir>(&[0, 0, 0, 1]).unwrap(), (ScanDir::Up, 4));
    assert_eq!(decode::<ScanDir>(&[0, 0, 0, 2]), Err(IoError::InvalidScanDir(2)));
    assert_eq!(decode::<LineDir>(&[0, 0, 0, 0]).unwrap(), (LineDir::Backward, 4));
    assert_eq!(decode::<LineDir>(&[0, 0, 0, 7]), Err(IoError::InvalidLineDir(7)));
    assert_eq!(decode::<ScanMovementType>(&[0, 2]).unwrap(), (ScanMovementType::FrameCenter, 2));
    assert_eq!(decode::<ScanMovementType>(&[0, 4]), Err(IoError::InvalidScanMovementType(4)));
    for m in [
        ScanMovementType::Scan(LineDir::Forward),
        ScanMovementType::Scan(LineDir::Backward),
        ScanMovementType::FrameCenter,
        ScanMovementType::StartOfScan,
    ] {
        assert_eq!(decode::<ScanMovementType>(&encode(&m)).unwrap(), (m, 2));
    }
}

#[test]
fn timeouts_are_milliseconds_or_minus_one() {
    assert_eq!(encode(&Some(1500u128)), vec![0, 0, 0x05, 0xdc]);
    assert_eq!(encode(&None::<u128>), vec![0xff, 0xff, 0xff, 0xff]);
    assert_eq!(encode(&Some(0x1_0000_0001u128)), vec![0, 0, 0, 1]);
}

#[test]
fn tuples_are_fields_in_order() {
    let t = (1u16, true, String::from("z"));
    let bytes = encode(&t);
    assert_eq!(bytes, vec![0, 1, 0, 0, 0, 1, 0, 0, 0, 1, b'z']);
    let (back, end) = decode::<(u16, bool, String)>(&bytes).unwrap();
    assert_eq!(back, t);
    assert_eq!(end, 11);
}
