use tss_client::{TssDeserialize, TssError, TssReader, TssSerialize};

#[derive(Debug, PartialEq)]
struct TestStruct {
    a: u16,
    b: u32,
    c: [u8; 4],
}

fn test_struct_from_tss_bytes(bytes: &[u8]) -> Result<TestStruct, TssError> {
    let mut reader = TssReader::new(bytes);
    let a = u16::from_tss_reader(&mut reader)?;
    let b = u32::from_tss_reader(&mut reader)?;
    let c = <[u8; 4]>::from_tss_reader(&mut reader)?;

    Ok(TestStruct { a, b, c })
}

#[test]
fn test_struct_deserialize() {
    let data = vec![0x00, 0x01, 0x00, 0x00, 0x00, 0x02, 0xAA, 0xBB, 0xCC, 0xDD];
    let test_struct = test_struct_from_tss_bytes(&data).unwrap();

    assert_eq!(test_struct.a, 1);
    assert_eq!(test_struct.b, 2);
    assert_eq!(test_struct.c, [0xAA, 0xBB, 0xCC, 0xDD]);
}

#[test]
fn big_endian_law_u16() {
    assert_eq!(0x1234u16.to_tss_bytes(), vec![0x12u8, 0x34]);
    assert_eq!(0u16.to_tss_bytes(), vec![0u8, 0]);
    assert_eq!(u16::MAX.to_tss_bytes(), vec![0xFFu8, 0xFF]);
}

#[test]
fn big_endian_law_u32() {
    assert_eq!(0xAABBCCDDu32.to_tss_bytes(), vec![0xAAu8, 0xBB, 0xCC, 0xDD]);
    assert_eq!(1u32.to_tss_bytes(), vec![0u8, 0, 0, 1]);
}

#[test]
fn big_endian_law_u64() {
    assert_eq!(
        0x0102030405060708u64.to_tss_bytes(),
        vec![1u8, 2, 3, 4, 5, 6, 7, 8]
    );
    let decoded = u64::from_tss_bytes(&[1u8, 2, 3, 4, 5, 6, 7, 8]).unwrap();
    assert_eq!(decoded, 0x0102030405060708u64);
}

#[test]
fn u8_codec() {
    assert_eq!(0xABu8.to_tss_bytes(), vec![0xABu8]);
    assert_eq!(u8::from_tss_bytes(&[0xCD]).unwrap(), 0xCD);
}

#[test]
fn byte_array_codec() {
    let arr = [1u8, 2, 3];
    assert_eq!(arr.to_tss_bytes(), vec![1u8, 2, 3]);
    let back = <[u8; 3]>::from_tss_bytes(&[1u8, 2, 3, 99]).unwrap();
    assert_eq!(back, arr);
}

#[test]
fn bool_accepts_only_zero_and_one() {
    assert_eq!(bool::from_tss_bytes(&[0]).unwrap(), false);
    assert_eq!(bool::from_tss_bytes(&[1]).unwrap(), true);
    assert_eq!(bool::from_tss_bytes(&[2]), Err(TssError::InvalidFormat));
    assert_eq!(bool::from_tss_bytes(&[]), Err(TssError::InsufficientData));
}

#[test]
fn truncated_integer_is_insufficient_data() {
    assert_eq!(u16::from_tss_bytes(&[1]), Err(TssError::InsufficientData));
    assert_eq!(u32::from_tss_bytes(&[1, 2]), Err(TssError::InsufficientData));
    assert_eq!(
        u64::from_tss_bytes(&[1, 2, 3, 4, 5, 6, 7]),
        Err(TssError::InsufficientData)
    );
}

#[test]
fn sequence_roundtrip_preserves_length_and_order() {
    let list: Vec<u32> = vec![1, 0x01020304, 0xFFFFFFFF];
    let bytes = list.to_tss_bytes();
    assert_eq!(
        bytes,
        vec![
            0x00u8, 0x00, 0x00, 0x03, // count
            0x00, 0x00, 0x00, 0x01, // 1
            0x01, 0x02, 0x03, 0x04, // 0x01020304
            0xFF, 0xFF, 0xFF, 0xFF, // 0xFFFFFFFF
        ]
    );
    let back: Vec<u32> = Vec::from_tss_bytes(&bytes).unwrap();
    assert_eq!(back, list);
}

#[test]
fn sequence_of_bytes_decodes_by_count() {
    let decoded: Vec<u8> = Vec::from_tss_bytes(&[0, 0, 0, 3, 0xAA, 0xBB, 0xCC, 0xDD]).unwrap();
    assert_eq!(decoded, vec![0xAAu8, 0xBB, 0xCC]);
}

#[test]
fn sequence_length_prefix_exceeding_data_is_insufficient_data() {
    // Count of 5, but only two u32 elements follow.
    let mut bytes = vec![0u8, 0, 0, 5];
    bytes.extend_from_slice(&[0, 0, 0, 1, 0, 0, 0, 2]);
    let r: Result<Vec<u32>, TssError> = Vec::from_tss_bytes(&bytes);
    assert_eq!(r, Err(TssError::InsufficientData));
}

#[test]
fn empty_sequence_roundtrip() {
    let list: Vec<u32> = vec![];
    let bytes = list.to_tss_bytes();
    assert_eq!(bytes, vec![0u8, 0, 0, 0]);
    let back: Vec<u32> = Vec::from_tss_bytes(&bytes).unwrap();
    assert_eq!(back, list);
}

#[test]
fn u16_array_encodes_elementwise_big_endian() {
    let arr = [0x0102u16, 0x0304];
    assert_eq!(arr.to_tss_bytes(), vec![1u8, 2, 3, 4]);
    let back = <[u16; 2]>::from_tss_bytes(&[1, 2, 3, 4]).unwrap();
    assert_eq!(back, arr);
}

#[test]
fn u32_array_encodes_elementwise_big_endian() {
    let arr = [0x01020304u32, 0xAABBCCDD];
    assert_eq!(arr.to_tss_bytes(), vec![1u8, 2, 3, 4, 0xAA, 0xBB, 0xCC, 0xDD]);
    let back = <[u32; 2]>::from_tss_bytes(&[1, 2, 3, 4, 0xAA, 0xBB, 0xCC, 0xDD]).unwrap();
    assert_eq!(back, arr);
    assert_eq!(
        <[u32; 2]>::from_tss_bytes(&[1, 2, 3]),
        Err(TssError::InsufficientData)
    );
}

#[test]
fn error_messages_describe_the_error() {
    assert_eq!(
        TssError::InsufficientData.message(),
        "insufficient data for deserialization"
    );
    assert_eq!(TssError::Custom("boom".to_string()).message(), "boom");
}
