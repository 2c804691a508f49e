//! The command channel between a client and the daemon: its messages and the
//! frames that carry them.
//!
//! A frame is the payload's length as four little-endian bytes, then the
//! payload. What the payload holds is the caller's business; this module
//! builds and takes apart the frames around it.

use crate::consts::UNIX_DOMAIN_SOCKET_FILE;
use vstd::prelude::*;
use vstd::string::StringExecFns;

verus! {

/// What the keys of the reserved request would steer.
#[derive(Debug, Clone, Copy, PartialEq, Eq, Structural)]
pub enum MouseMode {
    Move,
    Scroll,
}

/// What a client asks of the daemon. A request stands for itself: the
/// daemon keeps nothing of it for the next.
#[derive(Debug, Clone, PartialEq, Eq)]
pub enum Request {
    Move { x: i32, y: i32, absolute: bool },
    Scroll { x: i32, y: i32 },
    Click { x: i32, y: i32, button: u16, button_states: Vec<i32>, repeat: u32, absolute: bool },
    /// Reserved: the daemon answers it without doing anything.
    DoMouseAction { key: String, mode: MouseMode },
}

/// What the daemon answers.
#[derive(Debug, Clone, PartialEq, Eq)]
pub enum Response {
    /// The request was carried out.
    Done,
    /// The request failed; the text says why.
    Error(String),
}

/// A request as a mathematical value.
pub enum RequestView {
    Move { x: i32, y: i32, absolute: bool },
    Scroll { x: i32, y: i32 },
    Click { x: i32, y: i32, button: u16, button_states: Seq<i32>, repeat: u32, absolute: bool },
    DoMouseAction { key: Seq<char>, mode: MouseMode },
}

impl View for Request {
    type V = RequestView;

    open spec fn view(&self) -> RequestView {
        match self {
            Request::Move { x, y, absolute } => RequestView::Move {
                x: *x,
                y: *y,
                absolute: *absolute,
            },
            Request::Scroll { x, y } => RequestView::Scroll { x: *x, y: *y },
            Request::Click { x, y, button, button_states, repeat, absolute } => RequestView::Click {
                x: *x,
                y: *y,
                button: *button,
                button_states: button_states@,
                repeat: *repeat,
                absolute: *absolute,
            },
            Request::DoMouseAction { key, mode } => RequestView::DoMouseAction {
                key: key@,
                mode: *mode,
            },
        }
    }
}

/// A response counts as what it says: success, or the words of the error.
impl View for Response {
    type V = Result<(), Seq<char>>;

    open spec fn view(&self) -> Result<(), Seq<char>> {
        match self {
            Response::Done => Ok(()),
            Response::Error(text) => Err(text@),
        }
    }
}

/// Why a frame could not be built or taken apart.
#[derive(Debug, Clone, Copy, PartialEq, Eq, Structural)]
pub enum FrameError {
    /// The payload is longer than a frame's length field can say.
    TooLong,
    /// Fewer than the four bytes of the length field are there.
    MissingHeader,
    /// The length field announces more bytes than follow it.
    MissingPayload,
}

/// Why the client cannot talk to the daemon.
#[derive(Debug, Clone, Copy, PartialEq, Eq, Structural)]
pub enum IpcError {
    /// The daemon's endpoint does not exist.
    DaemonNotRunning,
}

/// Length of a frame's length field.
pub const HEADER_LEN: usize = 4;

/// The four bytes of `length`, least significant first.
pub open spec fn spec_header(length: u32) -> Seq<u8> {
    seq![
        (length % 256) as u8,
        (length / 256 % 256) as u8,
        (length / 65536 % 256) as u8,
        (length / 16777216) as u8,
    ]
}

/// The number that four bytes spell, least significant first.
pub open spec fn spec_payload_len(header: Seq<u8>) -> int {
    header[0] + header[1] * 256 + header[2] * 65536 + header[3] * 16777216
}

/// The frame around `payload`.
pub open spec fn spec_encode_frame(payload: Seq<u8>) -> Result<Seq<u8>, FrameError> {
    if payload.len() <= u32::MAX {
        Ok(spec_header(payload.len() as u32) + payload)
    } else {
        Err(FrameError::TooLong)
    }
}

/// The payload of the frame that `bytes` starts with.
pub open spec fn spec_decode_frame(bytes: Seq<u8>) -> Result<Seq<u8>, FrameError> {
    if bytes.len() < HEADER_LEN {
        Err(FrameError::MissingHeader)
    } else if bytes.len() - HEADER_LEN < spec_payload_len(bytes.subrange(0, HEADER_LEN as int)) {
        Err(FrameError::MissingPayload)
    } else {
        Ok(
            bytes.subrange(
                HEADER_LEN as int,
                HEADER_LEN + spec_payload_len(bytes.subrange(0, HEADER_LEN as int)),
            ),
        )
    }
}

/// The length field for a payload of `length` bytes.
pub fn header(length: u32) -> (bytes: [u8; 4])
    ensures
        bytes@ == spec_header(length),
{
    let bytes = [
        (length % 256) as u8,
        (length / 256 % 256) as u8,
        (length / 65536 % 256) as u8,
        (length / 16777216) as u8,
    ];
    assert(bytes@ =~= spec_header(length));
    bytes
}

/// The payload length that a length field announces.
pub fn payload_len(header: &[u8; 4]) -> (length: u32)
    ensures
        length == spec_payload_len(header@),
{
    header[0] as u32 + header[1] as u32 * 256 + header[2] as u32 * 65536 + header[3] as u32
        * 16777216
}

/// Puts `payload` into a frame.
pub fn encode_frame(payload: &[u8]) -> (frame: Result<Vec<u8>, FrameError>)
    ensures
        match spec_encode_frame(payload@) {
            Ok(bytes) => frame matches Ok(made) && made@ == bytes,
            Err(error) => frame == Err::<Vec<u8>, FrameError>(error),
        },
{
    if payload.len() > u32::MAX as usize {
        return Err(FrameError::TooLong);
    }
    let head = header(payload.len() as u32);
    let mut frame: Vec<u8> = Vec::new();
    let mut i: usize = 0;
    while i < 4
        invariant
            i <= 4,
            head@.len() == 4,
            frame@ == head@.subrange(0, i as int),
        decreases 4 - i,
    {
        frame.push(head[i]);
        i = i + 1;
    }
    assert(frame@ == head@);
    let mut k: usize = 0;
    while k < payload.len()
        invariant
            k <= payload@.len(),
            frame@ == head@ + payload@.subrange(0, k as int),
        decreases payload@.len() - k,
    {
        frame.push(payload[k]);
        k = k + 1;
    }
    assert(payload@.subrange(0, k as int) == payload@);
    Ok(frame)
}

/// Takes the payload out of the frame that `bytes` starts with.
pub fn decode_frame(bytes: &[u8]) -> (payload: Result<Vec<u8>, FrameError>)
    ensures
        match spec_decode_frame(bytes@) {
            Ok(inner) => payload matches Ok(taken) && taken@ == inner,
            Err(error) => payload == Err::<Vec<u8>, FrameError>(error),
        },
{
    if bytes.len() < HEADER_LEN {
        return Err(FrameError::MissingHeader);
    }
    let head: [u8; 4] = [bytes[0], bytes[1], bytes[2], bytes[3]];
    assert(head@ =~= bytes@.subrange(0, HEADER_LEN as int));
    let length = payload_len(&head);
    if ((bytes.len() - HEADER_LEN) as u64) < length as u64 {
        return Err(FrameError::MissingPayload);
    }
    let mut payload: Vec<u8> = Vec::new();
    let mut k: usize = 0;
    while k < length as usize
        invariant
            k <= length,
            HEADER_LEN + length <= bytes@.len() <= usize::MAX,
            payload@ == bytes@.subrange(HEADER_LEN as int, HEADER_LEN + k),
        decreases length - k,
    {
        payload.push(bytes[HEADER_LEN + k]);
        k = k + 1;
    }
    Ok(payload)
}

/// A length field says the length it was made from.
pub proof fn lemma_header_round_trip(length: u32)
    ensures
        spec_header(length).len() == HEADER_LEN,
        spec_payload_len(spec_header(length)) == length,
{
}

/// A frame gives back the payload that it was built around, whatever
/// follows the frame.
pub proof fn lemma_frame_round_trip(payload: Seq<u8>, trailing: Seq<u8>)
    requires
        payload.len() <= u32::MAX,
    ensures
        spec_encode_frame(payload) matches Ok(frame) && spec_decode_frame(frame + trailing) == Ok::<
            Seq<u8>,
            FrameError,
        >(payload),
{
    let head = spec_header(payload.len() as u32);
    let bytes = head + payload + trailing;
    lemma_header_round_trip(payload.len() as u32);
    assert(bytes.subrange(0, HEADER_LEN as int) =~= head);
    assert(bytes.subrange(HEADER_LEN as int, HEADER_LEN + payload.len()) =~= payload);
}

impl IpcError {
    /// The error in words.
    pub fn message(&self) -> (text: String)
        ensures
            text@ == "mouse daemon socket not found at "@ + UNIX_DOMAIN_SOCKET_FILE@
                + ". Start `hintsd` first."@,
    {
        let mut text = String::from_str("mouse daemon socket not found at ");
        text.append(UNIX_DOMAIN_SOCKET_FILE);
        text.append(". Start `hintsd` first.");
        text
    }
}

/// Whether a client can go on: it can when the daemon's endpoint exists.
/// The client never starts a daemon itself.
pub fn ensure_daemon_running(endpoint_exists: bool) -> (result: Result<(), IpcError>)
    ensures
        result == if endpoint_exists {
            Ok::<(), IpcError>(())
        } else {
            Err(IpcError::DaemonNotRunning)
        },
{
    if endpoint_exists {
        Ok(())
    } else {
        Err(IpcError::DaemonNotRunning)
    }
}

} // verus!
