use std::cell::RefCell;
use std::rc::Rc;
use tss_client::frame::{frame_command, parse_response};
use tss_client::{
    build_command, Capabilities, GetCapabilityCommand, ResponseHeader, StartupCommand,
    TaggedProperty, Transport, TssClient, TssError,
};

#[test]
fn build_command_frames_header_and_body() {
    let bytes = build_command(
        0x17A,
        &GetCapabilityCommand {
            capability: 6,
            property: 0x100,
            property_count: 1,
        },
    );
    assert_eq!(
        bytes,
        vec![
            0x80u8, 0x01, // tag NO_SESSIONS
            0x00, 0x00, 0x00, 0x16, // length: 10 + 12
            0x00, 0x00, 0x01, 0x7A, // GET_CAPABILITY
            0x00, 0x00, 0x00, 0x06, // capability
            0x00, 0x00, 0x01, 0x00, // property
            0x00, 0x00, 0x00, 0x01, // property_count
        ]
    );
    let startup = build_command(0x144, &StartupCommand { startup_type: 0 });
    assert_eq!(
        startup,
        vec![0x80u8, 0x01, 0x00, 0x00, 0x00, 0x0C, 0x00, 0x00, 0x01, 0x44, 0x00, 0x00]
    );
}

/// A transport that records every command it is handed in a shared buffer
/// and answers with a canned header and body.
struct CannedTransport {
    sent: Rc<RefCell<Vec<Vec<u8>>>>,
    header: ResponseHeader,
    body: Vec<u8>,
}

impl CannedTransport {
    fn success(body: Vec<u8>) -> (Self, Rc<RefCell<Vec<Vec<u8>>>>) {
        let sent = Rc::new(RefCell::new(Vec::new()));
        let size = 10 + body.len() as u32;
        let transport = CannedTransport {
            sent: Rc::clone(&sent),
            header: ResponseHeader {
                tag: 0x8001,
                size,
                response_code: 0,
            },
            body,
        };
        (transport, sent)
    }

    fn failing(response_code: u32) -> Self {
        CannedTransport {
            sent: Rc::new(RefCell::new(Vec::new())),
            header: ResponseHeader {
                tag: 0x8001,
                size: 10,
                response_code,
            },
            body: Vec::new(),
        }
    }
}

impl Transport for CannedTransport {
    fn send_command(&mut self, command: &[u8]) -> Result<(ResponseHeader, Vec<u8>), TssError> {
        self.sent.borrow_mut().push(command.to_vec());
        Ok((self.header, self.body.clone()))
    }
}

/// A transport that fails outright, standing in for a broken connection.
struct BrokenTransport;

impl Transport for BrokenTransport {
    fn send_command(&mut self, _command: &[u8]) -> Result<(ResponseHeader, Vec<u8>), TssError> {
        Err(TssError::TransportFailure)
    }
}

#[test]
fn get_capability_command_bytes_on_the_wire() {
    // moreData=false, discriminant 6, one property {0x100, 7}.
    let response_body = vec![
        0x00u8, 0x00, 0x00, 0x00, 0x06, 0x00, 0x00, 0x00, 0x01, 0x00, 0x00, 0x01, 0x00, 0x00,
        0x00, 0x00, 0x07,
    ];
    let (transport, sent) = CannedTransport::success(response_body);
    let mut client = TssClient::new(transport);
    let result = client.get_capabilities(6, 0x100, 1).unwrap();

    assert_eq!(
        sent.borrow()[0],
        vec![
            0x80u8, 0x01, // tag NO_SESSIONS
            0x00, 0x00, 0x00, 0x16, // length: 10 + 12
            0x00, 0x00, 0x01, 0x7A, // GET_CAPABILITY
            0x00, 0x00, 0x00, 0x06, // capability: TPM_PROPERTIES
            0x00, 0x00, 0x01, 0x00, // property
            0x00, 0x00, 0x00, 0x01, // property_count
        ]
    );
    assert_eq!(result.more_data, false);
    assert_eq!(
        result.capabilities,
        Capabilities::TaggedProperties(vec![TaggedProperty {
            tag: 0x100,
            value: 7
        }])
    );
}

#[test]
fn startup_sends_framed_command() {
    let (transport, sent) = CannedTransport::success(Vec::new());
    let mut client = TssClient::new(transport);
    client.startup(0).unwrap();
    assert_eq!(
        sent.borrow()[0],
        vec![
            0x80u8, 0x01, // tag NO_SESSIONS
            0x00, 0x00, 0x00, 0x0C, // length: 10 + 2
            0x00, 0x00, 0x01, 0x44, // STARTUP
            0x00, 0x00, // CLEAR
        ]
    );
}

#[test]
fn nonzero_response_code_is_protocol_failure_without_body_decode() {
    // The canned body is garbage that would fail any decode; the client
    // must return the protocol failure without ever touching it.
    let mut transport = CannedTransport::failing(0x00000922);
    transport.body = vec![0xFFu8, 0xFF];
    let mut client = TssClient::new(transport);
    let result = client.get_capabilities(6, 0x100, 1);
    assert_eq!(result, Err(TssError::ProtocolFailure(0x922)));
}

#[test]
fn transport_failure_aborts_command() {
    let mut client = TssClient::new(BrokenTransport);
    assert_eq!(client.startup(0), Err(TssError::TransportFailure));
}

#[test]
fn response_body_shorter_than_declared_is_insufficient_data() {
    // Tagged-property sequence declaring 5 entries but carrying none.
    let response_body = vec![
        0x00u8, // more_data
        0x00, 0x00, 0x00, 0x06, // discriminant
        0x00, 0x00, 0x00, 0x05, // count 5, no elements follow
    ];
    let (transport, _sent) = CannedTransport::success(response_body);
    let mut client = TssClient::new(transport);
    let result = client.get_capabilities(6, 0x100, 1);
    assert_eq!(result, Err(TssError::InsufficientData));
}

#[test]
fn read_pcr_rejects_out_of_range_index() {
    let (transport, sent) = CannedTransport::success(Vec::new());
    let mut client = TssClient::new(transport);
    let cmd = tss_client::ReadPcrCommand {
        hash: 0x000B,
        pcr_index: vec![3, 24],
    };
    assert_eq!(client.read_pcr(cmd), Err(TssError::RangeError(24)));
    // Nothing was sent: the range check happens before any transport use.
    assert_eq!(sent.borrow().len(), 0);
}

#[test]
fn read_pcr_returns_raw_body() {
    let (transport, sent) = CannedTransport::success(vec![0xDEu8, 0xAD, 0xBE, 0xEF]);
    let mut client = TssClient::new(transport);
    let cmd = tss_client::ReadPcrCommand {
        hash: 0x000B,
        pcr_index: vec![0],
    };
    let raw = client.read_pcr(cmd).unwrap();
    assert_eq!(raw.bytes, vec![0xDEu8, 0xAD, 0xBE, 0xEF]);
    assert_eq!(
        sent.borrow()[0],
        vec![
            0x80u8, 0x01, // tag NO_SESSIONS
            0x00, 0x00, 0x00, 0x10, // length: 10 + 6
            0x00, 0x00, 0x01, 0x7E, // READ_PCR
            0x00, 0x0B, // hash
            0x03, // size of PCR select
            0x01, 0x00, 0x00, // mask: bit 0
        ]
    );
}

#[test]
fn outer_frame_layout() {
    let framed = frame_command(&[0xA0, 0xA1, 0xA2]);
    assert_eq!(
        framed,
        vec![
            0x00u8, 0x00, 0x00, 0x08, // TPM_SEND_COMMAND
            0x00, // locality 0
            0x00, 0x00, 0x00, 0x03, // payload length
            0xA0, 0xA1, 0xA2, // payload
        ]
    );
}

#[test]
fn parse_response_splits_header_and_body() {
    let mut frame = vec![
        0x80u8, 0x01, // tag
        0x00, 0x00, 0x00, 0x0C, // size
        0x00, 0x00, 0x00, 0x00, // response_code
    ];
    frame.extend_from_slice(&[0xAB, 0xCD]);
    let (header, body) = parse_response(&frame).unwrap();
    assert_eq!(header.tag, 0x8001);
    assert_eq!(header.size, 12);
    assert_eq!(header.response_code, 0);
    assert_eq!(body, vec![0xABu8, 0xCD]);
}

#[test]
fn parse_response_short_frame_is_insufficient_data() {
    assert_eq!(
        parse_response(&[0x80, 0x01, 0x00]),
        Err(TssError::InsufficientData)
    );
}

#[test]
fn parse_response_nonzero_code_is_protocol_failure() {
    let frame = vec![
        0x80u8, 0x01, // tag
        0x00, 0x00, 0x00, 0x0A, // size
        0x00, 0x00, 0x09, 0x22, // response_code
    ];
    assert_eq!(
        parse_response(&frame),
        Err(TssError::ProtocolFailure(0x922))
    );
}
