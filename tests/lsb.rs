use mindbender::carrier::Carrier;
use mindbender::error::ApplicationError;
use mindbender::steganography::lsb::{decode, encode};
use mindbender::stenography;

fn create_blank_image(width: u32, height: u32) -> Carrier {
    Carrier::from_pixel(width, height, [0, 0, 0])
}

#[test]
fn test_encode_decode() {
    let mut image = create_blank_image(10, 10);
    let data = "Hello, World!";
    encode(data, &mut image).expect("Encoding failed");
    let decoded_data = decode(&image).expect("Decoding failed");

    assert_eq!(data, decoded_data);
}

#[test]
fn lsb_test_insufficient_capacity() {
    let mut image = create_blank_image(1, 1);
    let data = "This message is too long to fit";
    let result = encode(data, &mut image);

    assert!(result.is_err());
    assert_eq!(
        result.unwrap_err().to_string(),
        "Encoding error: Image too small to encode data"
    );
}

#[test]
fn test_encode_empty_string() {
    let mut image = create_blank_image(5, 5);
    let data = "";
    encode(data, &mut image).expect("Encoding failed");
    let decoded_data = decode(&image).expect("Decoding failed");

    assert_eq!(data, decoded_data);
}

#[test]
fn test_encode_decode_with_delimiter() {
    let mut image = create_blank_image(10, 10);
    let data = "Message with delimiter test";
    encode(data, &mut image).expect("Encoding failed");
    let decoded_data = decode(&image).expect("Decoding failed");

    assert_eq!(data, decoded_data);
}

#[test]
fn encode_writes_bits_most_significant_first() {
    let mut image = Carrier::from_pixel(8, 1, [0xff, 0xff, 0xff]);
    encode("A", &mut image).unwrap();
    let samples = image.samples();
    // 'A' is 0b0100_0001, then the zero delimiter.
    assert_eq!(&samples[..8], &[0xfe, 0xff, 0xfe, 0xfe, 0xfe, 0xfe, 0xfe, 0xff][..]);
    assert_eq!(&samples[8..16], &[0xfe; 8][..]);
    assert_eq!(&samples[16..], &[0xff; 8][..]);
}

#[test]
fn encode_keeps_the_upper_bits() {
    let mut image = Carrier::from_pixel(6, 1, [0x80, 0x41, 0x33]);
    encode("z", &mut image).unwrap();
    for (i, s) in image.samples().iter().enumerate() {
        let original = [0x80u8, 0x41, 0x33][i % 3];
        assert_eq!(s & 0xfe, original & 0xfe);
    }
}

#[test]
fn encode_at_exact_capacity_and_one_pixel_short() {
    // Five bytes and the delimiter need 48 bits.
    let mut exact = create_blank_image(16, 1);
    assert!(encode("Hello", &mut exact).is_ok());
    assert_eq!(decode(&exact).unwrap(), "Hello");

    let mut short = create_blank_image(15, 1);
    let before = short.clone();
    let result = encode("Hello", &mut short);
    assert!(matches!(result, Err(ApplicationError::EncodingError(_))));
    assert_eq!(short, before);
}

#[test]
fn insufficient_capacity_leaves_the_carrier_untouched() {
    let mut image = Carrier::from_pixel(1, 1, [7, 8, 9]);
    assert!(encode("x", &mut image).is_err());
    assert_eq!(image.samples(), &[7, 8, 9][..]);
}

#[test]
fn unicode_round_trips() {
    let mut image = create_blank_image(20, 20);
    let data = "特殊字符测试 🚀✨";
    encode(data, &mut image).unwrap();
    assert_eq!(decode(&image).unwrap(), data);
}

#[test]
fn extraction_stops_at_the_first_zero_byte() {
    let mut image = create_blank_image(10, 10);
    encode("ab\u{0}cd", &mut image).unwrap();
    assert_eq!(decode(&image).unwrap(), "ab");
}

#[test]
fn extraction_without_delimiter_reads_whole_bytes() {
    // 'h', 'i' and two leftover channel bytes, and no delimiter.
    let bits: [u8; 16] = [0, 1, 1, 0, 1, 0, 0, 0, 0, 1, 1, 0, 1, 0, 0, 1];
    let mut samples: Vec<u8> = bits.iter().map(|b| 0x10 | b).collect();
    samples.push(1);
    samples.push(1);
    let image = Carrier::from_raw(6, 1, samples).unwrap();
    assert_eq!(decode(&image).unwrap(), "hi");
}

#[test]
fn invalid_utf8_is_a_decoding_error() {
    // 0xff then the delimiter.
    let mut samples = vec![1u8; 8];
    samples.extend_from_slice(&[0u8; 10]);
    let image = Carrier::from_raw(6, 1, samples).unwrap();
    assert!(matches!(decode(&image), Err(ApplicationError::DecodingError(_))));
    assert!(matches!(
        stenography::lsb::decode(&image),
        Err(ApplicationError::DecodingError(_))
    ));
}

#[test]
fn both_encoders_write_the_same_bits() {
    let source = Carrier::from_pixel(9, 7, [0x12, 0x35, 0x78]);
    let mut in_place = source.clone();
    encode("same bits either way", &mut in_place).unwrap();
    let copy = stenography::lsb::encode("same bits either way", &source).unwrap();
    assert_eq!(copy, in_place);
    assert_eq!(stenography::lsb::decode(&copy).unwrap(), "same bits either way");
    assert_eq!(source, Carrier::from_pixel(9, 7, [0x12, 0x35, 0x78]));
}

#[test]
fn copying_encoder_refuses_a_small_carrier() {
    let source = create_blank_image(2, 2);
    let result = stenography::lsb::encode("A", &source);
    assert!(matches!(result, Err(ApplicationError::EncodingError(_))));
    let fits = stenography::lsb::encode("", &source).unwrap();
    assert_eq!(stenography::lsb::decode(&fits).unwrap(), "");
}
