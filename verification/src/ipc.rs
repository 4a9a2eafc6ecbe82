//! Control-protocol commands and their wire format.
//!
//! Each message on the control socket is a length-prefixed frame whose
//! payload is a self-describing encoding of one command or one response.
//! The encoding and decoding functions here are total: every byte
//! sequence either decodes to a value or is reported as malformed, and
//! a value that was encoded decodes back to an equal value.

use vstd::prelude::*;

use crate::Direction;
use crate::Modifier;

verus! {

/// A control operation decoded from the wire.
#[derive(Debug, Clone, PartialEq)]
pub enum IpcCommand {
    Ping,
    Show { direction: Option<Direction>, modifiers: Vec<Modifier> },
    Hide,
}

/// The one response written back for each received frame.
#[derive(Debug, Clone, PartialEq)]
pub enum IpcCommandResponse {
    Success,
    Error(String),
}

/// Mathematical model of a command: the modifier list as a sequence.
pub enum IpcCommandView {
    Ping,
    Show { direction: Option<Direction>, modifiers: Seq<Modifier> },
    Hide,
}

/// Mathematical model of a response: the message as a character sequence.
pub enum IpcCommandResponseView {
    Success,
    Error(Seq<char>),
}

impl View for IpcCommand {
    type V = IpcCommandView;

    open spec fn view(&self) -> IpcCommandView {
        match self {
            IpcCommand::Ping => IpcCommandView::Ping,
            IpcCommand::Hide => IpcCommandView::Hide,
            IpcCommand::Show { direction, modifiers } => (IpcCommandView::Show {
                direction: *direction,
                modifiers: modifiers@,
            }),
        }
    }
}

impl View for IpcCommandResponse {
    type V = IpcCommandResponseView;

    open spec fn view(&self) -> IpcCommandResponseView {
        match self {
            IpcCommandResponse::Success => IpcCommandResponseView::Success,
            IpcCommandResponse::Error(msg) => IpcCommandResponseView::Error(msg@),
        }
    }
}

pub const TAG_PING: u8 = 1;
pub const TAG_SHOW: u8 = 2;
pub const TAG_HIDE: u8 = 3;
pub const TAG_SUCCESS: u8 = 16;
pub const TAG_ERROR: u8 = 17;

/// Wire code of an optional direction.
pub open spec fn spec_direction_code(d: Option<Direction>) -> u8 {
    match d {
        None => 0,
        Some(Direction::Next) => 1,
        Some(Direction::Previous) => 2,
    }
}

/// Inverse of `spec_direction_code`; `None` for an unknown code.
pub open spec fn spec_direction_of_code(b: u8) -> Option<Option<Direction>> {
    if b == 0 {
        Some(None)
    } else if b == 1 {
        Some(Some(Direction::Next))
    } else if b == 2 {
        Some(Some(Direction::Previous))
    } else {
        None
    }
}

/// Wire code of a modifier token.
pub open spec fn spec_modifier_code(m: Modifier) -> u8 {
    match m {
        Modifier::Super => 1,
        Modifier::Alt => 2,
        Modifier::Ctrl => 3,
        Modifier::Shift => 4,
    }
}

/// Inverse of `spec_modifier_code`; `None` for an unknown code.
pub open spec fn spec_modifier_of_code(b: u8) -> Option<Modifier> {
    if b == 1 {
        Some(Modifier::Super)
    } else if b == 2 {
        Some(Modifier::Alt)
    } else if b == 3 {
        Some(Modifier::Ctrl)
    } else if b == 4 {
        Some(Modifier::Shift)
    } else {
        None
    }
}

/// A command fits on the wire: the modifier count fits its one-byte field.
/// Modifiers form an ordered set drawn from four tokens, so every command
/// the system produces satisfies this.
pub open spec fn command_wire_ok(c: IpcCommandView) -> bool {
    match c {
        IpcCommandView::Show { modifiers, .. } => modifiers.len() <= 255,
        _ => true,
    }
}

/// The byte encoding of a command.
pub open spec fn spec_encode_command(c: IpcCommandView) -> Seq<u8> {
    match c {
        IpcCommandView::Ping => seq![TAG_PING],
        IpcCommandView::Hide => seq![TAG_HIDE],
        IpcCommandView::Show { direction, modifiers } => seq![
            TAG_SHOW,
            spec_direction_code(direction),
            modifiers.len() as u8,
        ] + modifiers.map_values(|m: Modifier| spec_modifier_code(m)),
    }
}

/// The exact decoding of a command payload: `None` on any malformed input.
pub open spec fn spec_decode_command(bytes: Seq<u8>) -> Option<IpcCommandView> {
    if bytes.len() == 0 {
        None
    } else if bytes[0] == TAG_PING {
        if bytes.len() == 1 {
            Some(IpcCommandView::Ping)
        } else {
            None
        }
    } else if bytes[0] == TAG_HIDE {
        if bytes.len() == 1 {
            Some(IpcCommandView::Hide)
        } else {
            None
        }
    } else if bytes[0] == TAG_SHOW {
        if bytes.len() >= 3 && bytes.len() == 3 + bytes[2] as int
            && spec_direction_of_code(bytes[1]) is Some
            && (forall|i: int| 3 <= i < bytes.len() ==> spec_modifier_of_code(#[trigger] bytes[i]) is Some)
        {
            Some(IpcCommandView::Show {
                direction: spec_direction_of_code(bytes[1]).unwrap(),
                modifiers: Seq::new((bytes.len() - 3) as nat, |i: int| spec_modifier_of_code(bytes[i + 3]).unwrap()),
            })
        } else {
            None
        }
    } else {
        None
    }
}

/// Decoding undoes encoding: every command that fits on the wire survives
/// the round trip unchanged.
pub proof fn lemma_command_round_trip(c: IpcCommandView)
    requires
        command_wire_ok(c),
    ensures
        spec_decode_command(spec_encode_command(c)) == Some(c),
{
    match c {
        IpcCommandView::Ping => {}
        IpcCommandView::Hide => {}
        IpcCommandView::Show { direction, modifiers } => {
            let enc = spec_encode_command(c);
            let codes = modifiers.map_values(|m: Modifier| spec_modifier_code(m));
            assert(enc.len() == 3 + modifiers.len());
            assert(forall|i: int| 3 <= i < enc.len() ==> enc[i] == codes[i - 3]);
            assert(forall|i: int| 3 <= i < enc.len()
                ==> spec_modifier_of_code(#[trigger] enc[i]) == Some(modifiers[i - 3]));
            let dec = spec_decode_command(enc);
            assert(dec is Some);
            let m2 = Seq::new(modifiers.len(), |i: int| spec_modifier_of_code(enc[i + 3]).unwrap());
            assert(m2 =~= modifiers);
            assert(spec_direction_of_code(spec_direction_code(direction)) == Some(direction));
        }
    }
}

/// Encode one command for the wire.
pub fn encode_command(c: &IpcCommand) -> (out: Vec<u8>)
    requires
        command_wire_ok(c@),
    ensures
        out@ == spec_encode_command(c@),
{
    let mut out: Vec<u8> = Vec::new();
    match c {
        IpcCommand::Ping => {
            out.push(TAG_PING);
        }
        IpcCommand::Hide => {
            out.push(TAG_HIDE);
        }
        IpcCommand::Show { direction, modifiers } => {
            out.push(TAG_SHOW);
            let dir_code: u8 = match direction {
                None => 0,
                Some(Direction::Next) => 1,
                Some(Direction::Previous) => 2,
            };
            out.push(dir_code);
            out.push(modifiers.len() as u8);
            let ghost codes = modifiers@.map_values(|m: Modifier| spec_modifier_code(m));
            let mut i: usize = 0;
            while i < modifiers.len()
                invariant
                    i <= modifiers@.len(),
                    codes == modifiers@.map_values(|m: Modifier| spec_modifier_code(m)),
                    out@ == spec_encode_command(c@).take(3 + i as int),
                    c@ matches IpcCommandView::Show { modifiers: sm, .. } && sm == modifiers@,
                    spec_encode_command(c@).len() == 3 + modifiers@.len(),
                decreases modifiers@.len() - i,
            {
                let code: u8 = match modifiers[i] {
                    Modifier::Super => 1,
                    Modifier::Alt => 2,
                    Modifier::Ctrl => 3,
                    Modifier::Shift => 4,
                };
                assert(code == codes[i as int]);
                out.push(code);
                i = i + 1;
                assert(out@ =~= spec_encode_command(c@).take(3 + i as int));
            }
            assert(out@ =~= spec_encode_command(c@));
        }
    }
    out
}

/// Decode one command payload; `None` exactly on malformed input.
pub fn decode_command(bytes: &Vec<u8>) -> (r: Option<IpcCommand>)
    ensures
        match r {
            Some(c) => spec_decode_command(bytes@) == Some(c@),
            None => spec_decode_command(bytes@) is None,
        },
{
    if bytes.len() == 0 {
        return None;
    }
    let tag = bytes[0];
    if tag == TAG_PING {
        if bytes.len() == 1 {
            Some(IpcCommand::Ping)
        } else {
            None
        }
    } else if tag == TAG_HIDE {
        if bytes.len() == 1 {
            Some(IpcCommand::Hide)
        } else {
            None
        }
    } else if tag == TAG_SHOW {
        if bytes.len() < 3 {
            return None;
        }
        let count = bytes[2];
        if bytes.len() - 3 != count as usize {
            return None;
        }
        let direction: Option<Direction> = if bytes[1] == 0 {
            None
        } else if bytes[1] == 1 {
            Some(Direction::Next)
        } else if bytes[1] == 2 {
            Some(Direction::Previous)
        } else {
            return None;
        };
        let mut modifiers: Vec<Modifier> = Vec::new();
        let mut i: usize = 3;
        while i < bytes.len()
            invariant
                3 <= i <= bytes@.len(),
                bytes@.len() == 3 + count as int,
                modifiers@.len() == i - 3,
                forall|j: int| 3 <= j < i ==> spec_modifier_of_code(#[trigger] bytes@[j]) is Some,
                forall|j: int| 0 <= j < modifiers@.len()
                    ==> Some(#[trigger] modifiers@[j]) == spec_modifier_of_code(bytes@[j + 3]),
            decreases bytes@.len() - i,
        {
            let b = bytes[i];
            let m: Modifier = if b == 1 {
                Modifier::Super
            } else if b == 2 {
                Modifier::Alt
            } else if b == 3 {
                Modifier::Ctrl
            } else if b == 4 {
                Modifier::Shift
            } else {
                return None;
            };
            modifiers.push(m);
            i = i + 1;
        }
        proof {
            let dec = spec_decode_command(bytes@);
            assert(dec is Some);
            assert(dec.unwrap() matches IpcCommandView::Show { modifiers: dm, .. }
                && dm =~= modifiers@);
        }
        Some(IpcCommand::Show { direction, modifiers })
    } else {
        None
    }
}

/// The byte encoding of a response. An error carries its message as
/// UTF-8 to the end of the payload; the frame delimits it.
pub open spec fn spec_encode_response(r: IpcCommandResponseView) -> Seq<u8> {
    match r {
        IpcCommandResponseView::Success => seq![TAG_SUCCESS],
        IpcCommandResponseView::Error(msg) => seq![TAG_ERROR] + vstd::utf8::encode_utf8(msg),
    }
}

/// The exact decoding of a response payload: `None` on any malformed input.
pub open spec fn spec_decode_response(bytes: Seq<u8>) -> Option<IpcCommandResponseView> {
    if bytes.len() == 0 {
        None
    } else if bytes[0] == TAG_SUCCESS {
        if bytes.len() == 1 {
            Some(IpcCommandResponseView::Success)
        } else {
            None
        }
    } else if bytes[0] == TAG_ERROR {
        if vstd::utf8::valid_utf8(bytes.skip(1)) {
            Some(IpcCommandResponseView::Error(vstd::utf8::decode_utf8(bytes.skip(1))))
        } else {
            None
        }
    } else {
        None
    }
}

/// Decoding undoes encoding for every response value.
pub proof fn lemma_response_round_trip(r: IpcCommandResponseView)
    ensures
        spec_decode_response(spec_encode_response(r)) == Some(r),
{
    match r {
        IpcCommandResponseView::Success => {}
        IpcCommandResponseView::Error(msg) => {
            let enc = spec_encode_response(r);
            assert(enc.skip(1) =~= vstd::utf8::encode_utf8(msg));
            vstd::utf8::encode_utf8_valid_utf8(msg);
            vstd::utf8::encode_utf8_decode_utf8(msg);
        }
    }
}

/// Relies on `String::from_utf8`: it succeeds exactly on valid UTF-8 and
/// the returned string's bytes are the input bytes.
#[verifier::external_body]
fn string_from_utf8(v: Vec<u8>) -> (r: Option<String>)
    ensures
        r matches Some(s) ==> vstd::utf8::valid_utf8(v@) && vstd::utf8::encode_utf8(s@) == v@,
        r is None ==> !vstd::utf8::valid_utf8(v@),
{
    String::from_utf8(v).ok()
}

/// Encode one response for the wire.
pub fn encode_response(r: &IpcCommandResponse) -> (out: Vec<u8>)
    ensures
        out@ == spec_encode_response(r@),
{
    let mut out: Vec<u8> = Vec::new();
    match r {
        IpcCommandResponse::Success => {
            out.push(TAG_SUCCESS);
        }
        IpcCommandResponse::Error(msg) => {
            out.push(TAG_ERROR);
            let bytes = msg.as_str().as_bytes_vec();
            out.extend_from_slice(bytes.as_slice());
            assert(out@ =~= spec_encode_response(r@));
        }
    }
    out
}

/// Decode one response payload; `None` exactly on malformed input.
pub fn decode_response(bytes: &Vec<u8>) -> (r: Option<IpcCommandResponse>)
    ensures
        match r {
            Some(resp) => spec_decode_response(bytes@) == Some(resp@),
            None => spec_decode_response(bytes@) is None,
        },
{
    if bytes.len() == 0 {
        return None;
    }
    let tag = bytes[0];
    if tag == TAG_SUCCESS {
        if bytes.len() == 1 {
            Some(IpcCommandResponse::Success)
        } else {
            None
        }
    } else if tag == TAG_ERROR {
        let mut rest: Vec<u8> = Vec::new();
        let mut i: usize = 1;
        while i < bytes.len()
            invariant
                1 <= i <= bytes@.len(),
                rest@ == bytes@.subrange(1, i as int),
            decreases bytes@.len() - i,
        {
            rest.push(bytes[i]);
            i = i + 1;
            assert(rest@ =~= bytes@.subrange(1, i as int));
        }
        assert(rest@ =~= bytes@.skip(1));
        match string_from_utf8(rest) {
            Some(s) => {
                proof {
                    vstd::utf8::encode_utf8_decode_utf8(s@);
                }
                Some(IpcCommandResponse::Error(s))
            }
            None => None,
        }
    } else {
        None
    }
}

/// The four-byte little-endian reading of a frame length prefix.
pub open spec fn spec_u32_of_le(b0: u8, b1: u8, b2: u8, b3: u8) -> u32 {
    (b0 as u32) | ((b1 as u32) << 8) | ((b2 as u32) << 16) | ((b3 as u32) << 24)
}

/// The four-byte little-endian writing of a frame length prefix.
pub open spec fn spec_le32(n: u32) -> Seq<u8> {
    seq![
        (n & 0xff) as u8,
        ((n >> 8) & 0xff) as u8,
        ((n >> 16) & 0xff) as u8,
        ((n >> 24) & 0xff) as u8,
    ]
}

/// Reading a written length prefix gives the length back.
pub proof fn lemma_le32_round_trip(n: u32)
    ensures
        spec_u32_of_le(spec_le32(n)[0], spec_le32(n)[1], spec_le32(n)[2], spec_le32(n)[3]) == n,
{
    assert(((n & 0xff) as u8 as u32) | ((((n >> 8) & 0xff) as u8 as u32) << 8)
        | ((((n >> 16) & 0xff) as u8 as u32) << 16) | ((((n >> 24) & 0xff) as u8 as u32) << 24)
        == n) by (bit_vector);
}

/// A whole frame: the payload length, little-endian, then the payload.
pub open spec fn spec_frame(payload: Seq<u8>) -> Seq<u8>
    recommends
        payload.len() <= u32::MAX,
{
    spec_le32(payload.len() as u32) + payload
}

/// A framed message is recovered exactly: its prefix reads back the
/// payload length and the remainder is the payload.
pub proof fn lemma_frame_round_trip(payload: Seq<u8>)
    requires
        payload.len() <= u32::MAX,
    ensures
        spec_frame(payload).len() == 4 + payload.len(),
        spec_u32_of_le(
            spec_frame(payload)[0],
            spec_frame(payload)[1],
            spec_frame(payload)[2],
            spec_frame(payload)[3],
        ) == payload.len(),
        spec_frame(payload).skip(4) == payload,
{
    lemma_le32_round_trip(payload.len() as u32);
    assert(spec_frame(payload).skip(4) =~= payload);
}

/// Prefix a payload with its four-byte little-endian length.
pub fn frame_message(payload: &Vec<u8>) -> (out: Vec<u8>)
    requires
        payload@.len() <= u32::MAX,
    ensures
        out@ == spec_frame(payload@),
{
    let n = payload.len() as u32;
    let mut out: Vec<u8> = Vec::new();
    out.push((n & 0xff) as u8);
    out.push(((n >> 8) & 0xff) as u8);
    out.push(((n >> 16) & 0xff) as u8);
    out.push(((n >> 24) & 0xff) as u8);
    out.extend_from_slice(payload.as_slice());
    assert(out@ =~= spec_frame(payload@));
    out
}

/// Read a length prefix back into the payload length it announces.
pub fn frame_body_len(b0: u8, b1: u8, b2: u8, b3: u8) -> (n: usize)
    ensures
        n == spec_u32_of_le(b0, b1, b2, b3) as usize,
{
    ((b0 as u32) | ((b1 as u32) << 8) | ((b2 as u32) << 16) | ((b3 as u32) << 24)) as usize
}

/// What a daemon that could not recognise a frame reports back.
pub open spec fn spec_malformed_message() -> Seq<char> {
    "unrecognized control command"@
}

/// The decision taken at daemon startup after probing a possibly
/// existing instance over the control socket.
#[derive(Clone, Copy, PartialEq, Eq, Structural, Debug)]
pub enum StartupDecision {
    /// A live instance answered the probe: do not bind, exit.
    Refuse,
    /// Nothing answered: remove any stale socket file and bind fresh.
    BindFresh,
}

/// The control-socket endpoint: framing, dispatch and the
/// single-instance rule, free of any transport.
pub struct AlttabwayIpc {}

impl AlttabwayIpc {
    /// Decode one received frame and produce the command to dispatch,
    /// if any, together with the one response owed to the client.
    /// A malformed frame yields no command and an error response.
    pub fn handle_frame(payload: &Vec<u8>) -> (r: (Option<IpcCommand>, IpcCommandResponse))
        ensures
            spec_decode_command(payload@) matches Some(c) ==> ({
                &&& r.0 matches Some(cmd) && cmd@ == c
                &&& r.1 is Success
            }),
            spec_decode_command(payload@) is None ==> ({
                &&& r.0 is None
                &&& r.1 matches IpcCommandResponse::Error(msg) && msg@ == spec_malformed_message()
            }),
    {
        match decode_command(payload) {
            Some(cmd) => (Some(cmd), IpcCommandResponse::Success),
            None => {
                let msg = "unrecognized control command".to_owned();
                (None, IpcCommandResponse::Error(msg))
            }
        }
    }

    /// The single-instance rule: a daemon refuses to start exactly when
    /// the probe of the existing socket came back with a success reply;
    /// on no reply, or any other reply, it replaces the stale socket.
    pub fn startup_decision(probe: Option<IpcCommandResponse>) -> (d: StartupDecision)
        ensures
            d is Refuse <==> (probe matches Some(resp) && resp@ is Success),
            d is BindFresh <==> !(probe matches Some(resp) && resp@ is Success),
    {
        match probe {
            Some(IpcCommandResponse::Success) => StartupDecision::Refuse,
            _ => StartupDecision::BindFresh,
        }
    }

    /// The bytes a client sends to probe for a live instance.
    pub fn probe_message() -> (out: Vec<u8>)
        ensures
            out@ == spec_frame(spec_encode_command(IpcCommandView::Ping)),
    {
        let payload = encode_command(&IpcCommand::Ping);
        frame_message(&payload)
    }
}

} // verus!
