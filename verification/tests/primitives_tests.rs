use tss_client::{
    Capabilities, CapabilitiesResponse, CommandHeader, Empty, GetCapabilityCommand, RawResponse,
    ReadPcrCommand, ResponseHeader, StartupCommand, TaggedProperty, TssDeserialize, TssError,
    TssSerialize,
};

#[test]
fn command_header_roundtrip() {
    let header = CommandHeader {
        tag: 0x8001,
        length: 22,
        command_code: 0x17A,
    };
    let bytes = header.to_tss_bytes();
    assert_eq!(
        bytes,
        vec![0x80u8, 0x01, 0x00, 0x00, 0x00, 0x16, 0x00, 0x00, 0x01, 0x7A]
    );
    let back = CommandHeader::from_tss_bytes(&bytes).unwrap();
    assert_eq!(back, header);
}

#[test]
fn response_header_roundtrip() {
    let header = ResponseHeader {
        tag: 0x8001,
        size: 10,
        response_code: 0x922,
    };
    let bytes = header.to_tss_bytes();
    assert_eq!(
        bytes,
        vec![0x80u8, 0x01, 0x00, 0x00, 0x00, 0x0A, 0x00, 0x00, 0x09, 0x22]
    );
    let back = ResponseHeader::from_tss_bytes(&bytes).unwrap();
    assert_eq!(back, header);
}

#[test]
fn startup_command_roundtrip() {
    let cmd = StartupCommand { startup_type: 1 };
    let bytes = cmd.to_tss_bytes();
    assert_eq!(bytes, vec![0x00u8, 0x01]);
    assert_eq!(StartupCommand::from_tss_bytes(&bytes).unwrap(), cmd);
}

#[test]
fn get_capability_command_roundtrip() {
    let cmd = GetCapabilityCommand {
        capability: 6,
        property: 0x100,
        property_count: 1,
    };
    let bytes = cmd.to_tss_bytes();
    assert_eq!(
        bytes,
        vec![0x00u8, 0x00, 0x00, 0x06, 0x00, 0x00, 0x01, 0x00, 0x00, 0x00, 0x00, 0x01]
    );
    assert_eq!(GetCapabilityCommand::from_tss_bytes(&bytes).unwrap(), cmd);
}

#[test]
fn tagged_property_roundtrip() {
    let prop = TaggedProperty {
        tag: 0x100,
        value: 7,
    };
    let bytes = prop.to_tss_bytes();
    assert_eq!(bytes, vec![0x00u8, 0x00, 0x01, 0x00, 0x00, 0x00, 0x00, 0x07]);
    assert_eq!(TaggedProperty::from_tss_bytes(&bytes).unwrap(), prop);
}

#[test]
fn empty_rejects_trailing_bytes() {
    assert_eq!(Empty::from_tss_bytes(&[]).unwrap(), Empty {});
    assert_eq!(Empty::from_tss_bytes(&[0]), Err(TssError::InvalidFormat));
}

#[test]
fn raw_response_captures_remaining_bytes() {
    let raw = RawResponse::from_tss_bytes(&[1, 2, 3]).unwrap();
    assert_eq!(raw.bytes, vec![1u8, 2, 3]);
    let empty = RawResponse::from_tss_bytes(&[]).unwrap();
    assert_eq!(empty.bytes, Vec::<u8>::new());
}

#[test]
fn capability_discriminant_one_decodes_to_handles() {
    // more_data=true, discriminant 1, two handles.
    let bytes = vec![
        0x01u8, // more_data
        0x00, 0x00, 0x00, 0x01, // discriminant: handles
        0x00, 0x00, 0x00, 0x02, // count
        0x80, 0x00, 0x00, 0x00, // handle 0
        0x80, 0x00, 0x00, 0x01, // handle 1
    ];
    let response = CapabilitiesResponse::from_tss_bytes(&bytes).unwrap();
    assert_eq!(response.more_data, true);
    assert_eq!(
        response.capabilities,
        Capabilities::Handles(vec![0x80000000, 0x80000001])
    );
}

#[test]
fn capability_discriminant_six_decodes_to_tagged_properties() {
    let bytes = vec![
        0x00u8, // more_data
        0x00, 0x00, 0x00, 0x06, // discriminant: tagged properties
        0x00, 0x00, 0x00, 0x01, // count
        0x00, 0x00, 0x01, 0x00, // tag
        0x00, 0x00, 0x00, 0x07, // value
    ];
    let response = CapabilitiesResponse::from_tss_bytes(&bytes).unwrap();
    assert_eq!(response.more_data, false);
    assert_eq!(
        response.capabilities,
        Capabilities::TaggedProperties(vec![TaggedProperty {
            tag: 0x100,
            value: 7
        }])
    );
}

#[test]
fn unrecognized_capability_discriminant_fails() {
    let bytes = vec![
        0x00u8, // more_data
        0x00, 0x00, 0x00, 0x03, // unrecognized discriminant
        0x00, 0x00, 0x00, 0x00, // would-be count
    ];
    assert_eq!(
        CapabilitiesResponse::from_tss_bytes(&bytes),
        Err(TssError::UnsupportedCapabilityType(3))
    );
}

#[test]
fn capabilities_response_truncated_sequence_fails() {
    // Declares two tagged properties but carries only one.
    let bytes = vec![
        0x00u8, // more_data
        0x00, 0x00, 0x00, 0x06, // discriminant
        0x00, 0x00, 0x00, 0x02, // count
        0x00, 0x00, 0x01, 0x00, // tag
        0x00, 0x00, 0x00, 0x07, // value
    ];
    assert_eq!(
        CapabilitiesResponse::from_tss_bytes(&bytes),
        Err(TssError::InsufficientData)
    );
}

#[test]
fn pcr_mask_sets_bit_i_mod_8_of_byte_i_div_8() {
    let cmd = ReadPcrCommand {
        hash: 0x000B,
        pcr_index: vec![0, 9, 23],
    };
    let bytes = cmd.to_tss_bytes();
    assert_eq!(
        bytes,
        vec![
            0x00u8, 0x0B, // hash
            0x03, // size of PCR select
            0x01, // byte 0: bit 0
            0x02, // byte 1: bit 1 (index 9)
            0x80, // byte 2: bit 7 (index 23)
        ]
    );
}

#[test]
fn pcr_mask_collects_all_indices_of_a_byte() {
    let cmd = ReadPcrCommand {
        hash: 0x0004,
        pcr_index: vec![0, 1, 2, 3, 4, 5, 6, 7],
    };
    let bytes = cmd.to_tss_bytes();
    assert_eq!(bytes, vec![0x00u8, 0x04, 0x03, 0xFF, 0x00, 0x00]);
}

#[test]
fn pcr_empty_selection_is_single_zero_count() {
    let cmd = ReadPcrCommand {
        hash: 0x000B,
        pcr_index: vec![],
    };
    assert_eq!(cmd.to_tss_bytes(), vec![0u8, 0, 0, 0]);
}

#[test]
fn pcr_first_out_of_range_finds_bad_index() {
    let good = ReadPcrCommand {
        hash: 0,
        pcr_index: vec![0, 23],
    };
    assert_eq!(good.first_out_of_range(), None);
    let bad = ReadPcrCommand {
        hash: 0,
        pcr_index: vec![1, 24, 2],
    };
    assert_eq!(bad.first_out_of_range(), Some(24));
}
