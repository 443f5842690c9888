use tss_client::{TssDeserialize, TssError, TssReader, TssSerialize};

#[derive(Debug, PartialEq)]
struct TpmGetRandomCommand {
    tag: u16,
    length: u32,
    command_code: u32,
    bytes_requested: u16,
}

fn get_random_to_tss_bytes(cmd: &TpmGetRandomCommand) -> Vec<u8> {
    let mut buffer = Vec::new();
    buffer.extend_from_slice(&cmd.tag.to_tss_bytes());
    buffer.extend_from_slice(&cmd.length.to_tss_bytes());
    buffer.extend_from_slice(&cmd.command_code.to_tss_bytes());
    buffer.extend_from_slice(&cmd.bytes_requested.to_tss_bytes());
    buffer
}

fn get_random_from_tss_bytes(bytes: &[u8]) -> Result<TpmGetRandomCommand, TssError> {
    let mut reader = TssReader::new(bytes);
    let tag = u16::from_tss_reader(&mut reader)?;
    let length = u32::from_tss_reader(&mut reader)?;
    let command_code = u32::from_tss_reader(&mut reader)?;
    let bytes_requested = u16::from_tss_reader(&mut reader)?;
    Ok(TpmGetRandomCommand {
        tag,
        length,
        command_code,
        bytes_requested,
    })
}

#[derive(Debug, PartialEq)]
struct TpmResponse {
    tag: u16,
    length: u32,
    response_code: u32,
    data: [u8; 4],
}

fn response_from_tss_bytes(bytes: &[u8]) -> Result<TpmResponse, TssError> {
    let mut reader = TssReader::new(bytes);
    let tag = u16::from_tss_reader(&mut reader)?;
    let length = u32::from_tss_reader(&mut reader)?;
    let response_code = u32::from_tss_reader(&mut reader)?;
    let data = <[u8; 4]>::from_tss_reader(&mut reader)?;
    Ok(TpmResponse {
        tag,
        length,
        response_code,
        data,
    })
}

#[test]
fn test_serialize_command() {
    let cmd = TpmGetRandomCommand {
        tag: 0x8001,
        length: 12,
        command_code: 0x017B,
        bytes_requested: 32,
    };

    let bytes = get_random_to_tss_bytes(&cmd);
    let expected = vec![
        0x80, 0x01, // tag
        0x00, 0x00, 0x00, 0x0C, // length
        0x00, 0x00, 0x01, 0x7B, // command_code
        0x00, 0x20, // bytes_requested
    ];

    assert_eq!(bytes, expected);
}

#[test]
fn test_deserialize_response() {
    let response_bytes = vec![
        0x80, 0x01, // tag
        0x00, 0x00, 0x00, 0x0E, // length
        0x00, 0x00, 0x00, 0x00, // response_code (success)
        0xAB, 0xCD, 0xEF, 0x12, // data
    ];

    let response = response_from_tss_bytes(&response_bytes).unwrap();

    assert_eq!(response.tag, 0x8001);
    assert_eq!(response.length, 14);
    assert_eq!(response.response_code, 0);
    assert_eq!(response.data, [0xAB, 0xCD, 0xEF, 0x12]);
}

#[test]
fn test_roundtrip() {
    let original = TpmGetRandomCommand {
        tag: 0x8001,
        length: 12,
        command_code: 0x017B,
        bytes_requested: 32,
    };

    let bytes = get_random_to_tss_bytes(&original);
    let decoded = get_random_from_tss_bytes(&bytes).unwrap();

    assert_eq!(original, decoded);
}
