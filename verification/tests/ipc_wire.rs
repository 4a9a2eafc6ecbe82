use alttabway::Direction;
use alttabway::Modifier;
use alttabway::ipc::AlttabwayIpc;
use alttabway::ipc::IpcCommand;
use alttabway::ipc::IpcCommandResponse;
use alttabway::ipc::StartupDecision;
use alttabway::ipc::decode_command;
use alttabway::ipc::decode_response;
use alttabway::ipc::encode_command;
use alttabway::ipc::encode_response;
use alttabway::ipc::frame_body_len;
use alttabway::ipc::frame_message;

#[test]
fn ping_round_trip() {
    let bytes = encode_command(&IpcCommand::Ping);
    assert_eq!(bytes, vec![1]);
    assert_eq!(decode_command(&bytes), Some(IpcCommand::Ping));
}

#[test]
fn hide_round_trip() {
    let bytes = encode_command(&IpcCommand::Hide);
    assert_eq!(bytes, vec![3]);
    assert_eq!(decode_command(&bytes), Some(IpcCommand::Hide));
}

#[test]
fn show_round_trip_plain() {
    let cmd = IpcCommand::Show { direction: None, modifiers: vec![] };
    let bytes = encode_command(&cmd);
    assert_eq!(bytes, vec![2, 0, 0]);
    assert_eq!(decode_command(&bytes), Some(cmd));
}

#[test]
fn show_round_trip_full() {
    let cmd = IpcCommand::Show {
        direction: Some(Direction::Previous),
        modifiers: vec![Modifier::Alt, Modifier::Shift, Modifier::Super, Modifier::Ctrl],
    };
    let bytes = encode_command(&cmd);
    assert_eq!(bytes, vec![2, 2, 4, 2, 4, 1, 3]);
    assert_eq!(decode_command(&bytes), Some(cmd));
}

#[test]
fn show_round_trip_next() {
    let cmd = IpcCommand::Show {
        direction: Some(Direction::Next),
        modifiers: vec![Modifier::Alt],
    };
    let bytes = encode_command(&cmd);
    assert_eq!(decode_command(&bytes), Some(cmd));
}

#[test]
fn malformed_commands_decode_to_none() {
    assert_eq!(decode_command(&vec![]), None);
    assert_eq!(decode_command(&vec![9]), None);
    assert_eq!(decode_command(&vec![1, 1]), None);
    assert_eq!(decode_command(&vec![3, 0]), None);
    assert_eq!(decode_command(&vec![2]), None);
    assert_eq!(decode_command(&vec![2, 0]), None);
    assert_eq!(decode_command(&vec![2, 3, 0]), None);
    assert_eq!(decode_command(&vec![2, 0, 2, 1]), None);
    assert_eq!(decode_command(&vec![2, 0, 1, 5]), None);
}

#[test]
fn response_round_trip_success() {
    let bytes = encode_response(&IpcCommandResponse::Success);
    assert_eq!(bytes, vec![16]);
    assert_eq!(decode_response(&bytes), Some(IpcCommandResponse::Success));
}

#[test]
fn response_round_trip_error() {
    let resp = IpcCommandResponse::Error("no such command".to_string());
    let bytes = encode_response(&resp);
    assert_eq!(bytes[0], 17);
    assert_eq!(decode_response(&bytes), Some(resp));
}

#[test]
fn response_malformed() {
    assert_eq!(decode_response(&vec![]), None);
    assert_eq!(decode_response(&vec![7]), None);
    assert_eq!(decode_response(&vec![16, 0]), None);
    // invalid UTF-8 in the error message
    assert_eq!(decode_response(&vec![17, 0xff, 0xfe]), None);
}

#[test]
fn framing_prefixes_length() {
    let payload = vec![1u8, 2, 3];
    let framed = frame_message(&payload);
    assert_eq!(framed, vec![3, 0, 0, 0, 1, 2, 3]);
    assert_eq!(frame_body_len(framed[0], framed[1], framed[2], framed[3]), 3);
}

#[test]
fn framing_large_length() {
    let payload = vec![0u8; 300];
    let framed = frame_message(&payload);
    assert_eq!(framed[0], 44);
    assert_eq!(framed[1], 1);
    assert_eq!(frame_body_len(framed[0], framed[1], framed[2], framed[3]), 300);
    assert_eq!(framed.len(), 304);
}

#[test]
fn server_acknowledges_good_frame() {
    let payload = encode_command(&IpcCommand::Hide);
    let (cmd, resp) = AlttabwayIpc::handle_frame(&payload);
    assert_eq!(cmd, Some(IpcCommand::Hide));
    assert_eq!(resp, IpcCommandResponse::Success);
}

#[test]
fn server_rejects_malformed_frame() {
    let (cmd, resp) = AlttabwayIpc::handle_frame(&vec![200, 200]);
    assert_eq!(cmd, None);
    match resp {
        IpcCommandResponse::Error(msg) => {
            assert_eq!(msg, "unrecognized control command");
        }
        IpcCommandResponse::Success => panic!("a malformed frame must not be acknowledged"),
    }
}

#[test]
fn second_instance_refused_when_probe_succeeds() {
    let d = AlttabwayIpc::startup_decision(Some(IpcCommandResponse::Success));
    assert_eq!(d, StartupDecision::Refuse);
}

#[test]
fn stale_socket_replaced_when_probe_fails() {
    assert_eq!(AlttabwayIpc::startup_decision(None), StartupDecision::BindFresh);
    let errish = Some(IpcCommandResponse::Error("odd".to_string()));
    assert_eq!(AlttabwayIpc::startup_decision(errish), StartupDecision::BindFresh);
}

#[test]
fn probe_message_is_a_framed_ping() {
    let probe = AlttabwayIpc::probe_message();
    assert_eq!(probe, vec![1, 0, 0, 0, 1]);
}
