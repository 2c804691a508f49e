use hintsx::consts::{DEFAULT_ALPHABET, SOCKET_MESSAGE_SIZE, UNIX_DOMAIN_SOCKET_FILE};
use hintsx::ipc::{
    decode_frame, encode_frame, ensure_daemon_running, header, payload_len, FrameError, IpcError,
    Request, Response, HEADER_LEN,
};
use std::io::{Read, Write};

/// The fields of a request in the order in which they go on the wire, after
/// the number of the request's kind.
type ClickWire = (u32, i32, i32, u16, Vec<i32>, u32, bool);

fn click_to_wire(request: &Request) -> ClickWire {
    match request {
        Request::Click { x, y, button, button_states, repeat, absolute } => {
            (2, *x, *y, *button, button_states.clone(), *repeat, *absolute)
        }
        _ => panic!("not a click"),
    }
}

fn click_from_wire(wire: ClickWire) -> Request {
    assert_eq!(wire.0, 2);
    Request::Click {
        x: wire.1,
        y: wire.2,
        button: wire.3,
        button_states: wire.4,
        repeat: wire.5,
        absolute: wire.6,
    }
}

/// Writes a frame to a stream and reads it back as the receiving end does:
/// the length field first, then as many bytes as it announces.
fn through_loopback(payload: &[u8]) -> Vec<u8> {
    let mut stream = std::io::Cursor::new(Vec::new());
    stream.write_all(&encode_frame(payload).unwrap()).unwrap();
    stream.flush().unwrap();
    stream.set_position(0);
    let mut head = [0u8; 4];
    stream.read_exact(&mut head).unwrap();
    let mut received = vec![0u8; payload_len(&head) as usize];
    stream.read_exact(&mut received).unwrap();
    received
}

#[test]
fn click_request_round_trips() {
    let request = Request::Click {
        x: 100,
        y: 200,
        button: 0,
        button_states: vec![1, 0],
        repeat: 2,
        absolute: true,
    };
    let payload = bincode::serialize(&click_to_wire(&request)).unwrap();
    let received = through_loopback(&payload);
    let wire: ClickWire = bincode::deserialize(&received).unwrap();
    assert_eq!(click_from_wire(wire), request);
}

#[test]
fn ok_response_round_trips() {
    let response = Response::Done;
    let payload = bincode::serialize(&0u32).unwrap();
    let received = through_loopback(&payload);
    let kind: u32 = bincode::deserialize(&received).unwrap();
    let back = if kind == 0 { Response::Done } else { Response::Error(String::new()) };
    assert_eq!(back, response);
}

#[test]
fn error_response_round_trips() {
    let response = Response::Error("device gone".to_string());
    let payload = bincode::serialize(&(1u32, "device gone")).unwrap();
    let received = through_loopback(&payload);
    let (kind, text): (u32, String) = bincode::deserialize(&received).unwrap();
    assert_eq!(kind, 1);
    assert_eq!(Response::Error(text), response);
}

#[test]
fn header_is_little_endian() {
    assert_eq!(header(0), [0, 0, 0, 0]);
    assert_eq!(header(1), [1, 0, 0, 0]);
    assert_eq!(header(0x0102_0304), [4, 3, 2, 1]);
    assert_eq!(header(u32::MAX), [255, 255, 255, 255]);
    for length in [0u32, 7, 255, 256, 65535, 65536, 16777215, 16777216, u32::MAX] {
        assert_eq!(header(length), length.to_le_bytes());
        assert_eq!(payload_len(&length.to_le_bytes()), length);
    }
}

#[test]
fn frame_is_length_then_payload() {
    assert_eq!(encode_frame(&[]), Ok(vec![0, 0, 0, 0]));
    assert_eq!(encode_frame(&[9, 8, 7]), Ok(vec![3, 0, 0, 0, 9, 8, 7]));
    let long = vec![5u8; 300];
    let frame = encode_frame(&long).unwrap();
    assert_eq!(frame.len(), HEADER_LEN + 300);
    assert_eq!(&frame[..4], &[44, 1, 0, 0]);
    assert_eq!(&frame[4..], &long[..]);
}

#[test]
fn decode_gives_back_what_encode_took() {
    for payload in [vec![], vec![0u8], vec![1, 2, 3, 4, 5], vec![255u8; 1000]] {
        let frame = encode_frame(&payload).unwrap();
        assert_eq!(decode_frame(&frame), Ok(payload.clone()));
        let mut with_more = frame.clone();
        with_more.extend_from_slice(&[42, 42]);
        assert_eq!(decode_frame(&with_more), Ok(payload));
    }
}

#[test]
fn decode_rejects_short_input() {
    assert_eq!(decode_frame(&[]), Err(FrameError::MissingHeader));
    assert_eq!(decode_frame(&[1, 0, 0]), Err(FrameError::MissingHeader));
    assert_eq!(decode_frame(&[1, 0, 0, 0]), Err(FrameError::MissingPayload));
    assert_eq!(decode_frame(&[3, 0, 0, 0, 1, 2]), Err(FrameError::MissingPayload));
    assert_eq!(decode_frame(&[255, 255, 255, 255, 1, 2]), Err(FrameError::MissingPayload));
    assert_eq!(decode_frame(&[2, 0, 0, 0, 1, 2]), Ok(vec![1, 2]));
}

#[test]
fn client_needs_the_endpoint() {
    assert_eq!(ensure_daemon_running(true), Ok(()));
    assert_eq!(ensure_daemon_running(false), Err(IpcError::DaemonNotRunning));
    assert_eq!(
        IpcError::DaemonNotRunning.message(),
        "mouse daemon socket not found at /tmp/hints.socket. Start `hintsd` first."
    );
}

#[test]
fn agreed_values() {
    assert_eq!(UNIX_DOMAIN_SOCKET_FILE, "/tmp/hints.socket");
    assert_eq!(SOCKET_MESSAGE_SIZE, 1024);
    assert_eq!(DEFAULT_ALPHABET, "asdfgqwertzxcvbhjklyuiopnm");
    assert_eq!(DEFAULT_ALPHABET.chars().count(), 26);
}
