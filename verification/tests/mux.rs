use kexsh::error::KexshError;
use kexsh::ipc::codec::{read_binary_frame, write_binary_frame, write_control_frame};
use kexsh::ipc::message::{BinaryFrame, MuxResponse, Response};
use kexsh::ipc::mux::{
    check_handshake, connect_error, control_result, recv_frame, sort_frame, Arrival, ControlSlot,
    ControlWait,
};
use kexsh::ipc::client;

#[test]
fn send_and_recv_data_frame() {
    let mut stream: Vec<u8> = Vec::new();
    write_binary_frame(&mut stream, "term0001", &BinaryFrame::Data(vec![1, 2, 3]));
    let (_, received) = recv_frame(&mut stream.as_slice());
    let (tid, frame) = received.unwrap();
    assert_eq!(tid, "term0001");
    assert_eq!(frame, BinaryFrame::Data(vec![1, 2, 3]));
}

#[test]
fn send_and_recv_resize_frame() {
    let mut stream: Vec<u8> = Vec::new();
    write_binary_frame(&mut stream, "term0001", &BinaryFrame::Resize { cols: 80, rows: 24 });
    let (_, received) = recv_frame(&mut stream.as_slice());
    let (tid, frame) = received.unwrap();
    assert_eq!(tid, "term0001");
    assert_eq!(frame, BinaryFrame::Resize { cols: 80, rows: 24 });
}

#[test]
fn control_response_routed_to_sender() {
    let mut slot: ControlSlot<&str> = ControlSlot::new();

    // The sender writes its request and waits.
    let mut to_server: Vec<u8> = Vec::new();
    slot.wait("sender");
    write_control_frame(&mut to_server, br#"{"CreateTerminal":{"name":null}}"#.to_vec());

    // The server reads the request.
    let (_tid, req_frame) = read_binary_frame(&mut to_server.as_slice()).unwrap();
    assert!(matches!(req_frame, BinaryFrame::Control(_)));

    // The server sends the answer followed by a data frame.
    let mut to_client: Vec<u8> = Vec::new();
    let payload = br#"{"TerminalCreated":{"id":"new1"}}"#.to_vec();
    write_binary_frame(&mut to_client, "\0\0\0\0\0\0\0\0", &BinaryFrame::Control(payload));
    write_binary_frame(&mut to_client, "term0001", &BinaryFrame::Data(vec![42]));

    // The receiver skips the control frame and returns the data.
    let (controls, received) = recv_frame(&mut to_client.as_slice());
    let (tid, frame) = received.unwrap();
    assert_eq!(tid, "term0001");
    assert_eq!(frame, BinaryFrame::Data(vec![42]));

    // The sender has the answer.
    assert_eq!(controls.len(), 1);
    let value: serde_json::Value = serde_json::from_slice(&controls[0]).unwrap();
    let decoded = MuxResponse::TerminalCreated {
        id: value["TerminalCreated"]["id"].as_str().unwrap().to_string(),
    };
    let (waiter, answer) = slot.answer(Some(decoded)).unwrap();
    assert_eq!(waiter, "sender");
    let resp = control_result(ControlWait::Answered(answer)).unwrap();
    assert!(matches!(resp, MuxResponse::TerminalCreated { id } if id == "new1"));
}

#[test]
fn multi_terminal_routing() {
    let mut stream: Vec<u8> = Vec::new();
    write_binary_frame(&mut stream, "term0001", &BinaryFrame::Data(b"hello".to_vec()));
    write_binary_frame(&mut stream, "term0002", &BinaryFrame::Data(b"world".to_vec()));
    let mut rest: &[u8] = &stream;
    let (t1, f1) = recv_frame(&mut rest).1.unwrap();
    let (t2, f2) = recv_frame(&mut rest).1.unwrap();
    assert_eq!(t1, "term0001");
    assert_eq!(f1, BinaryFrame::Data(b"hello".to_vec()));
    assert_eq!(t2, "term0002");
    assert_eq!(f2, BinaryFrame::Data(b"world".to_vec()));
}

#[test]
fn stream_that_ends_after_control_frames() {
    let mut stream: Vec<u8> = Vec::new();
    write_control_frame(&mut stream, b"1".to_vec());
    write_control_frame(&mut stream, b"2".to_vec());
    let mut rest: &[u8] = &stream;
    let (controls, received) = recv_frame(&mut rest);
    assert_eq!(controls, vec![b"1".to_vec(), b"2".to_vec()]);
    assert_eq!(received, Err(KexshError::Io("early eof".to_string())));
    assert!(rest.is_empty());
}

#[test]
fn frames_are_sorted() {
    assert_eq!(
        sort_frame("t1".to_string(), BinaryFrame::Detach),
        Arrival::Frame("t1".to_string(), BinaryFrame::Detach)
    );
    assert_eq!(
        sort_frame(String::new(), BinaryFrame::Control(vec![1])),
        Arrival::Control(vec![1])
    );
}

#[test]
fn slot_answers_the_latest_request_once() {
    let mut slot: ControlSlot<u8> = ControlSlot::new();
    assert_eq!(slot.answer(Some(MuxResponse::Done)), None);
    slot.wait(1);
    slot.wait(2);
    assert_eq!(slot.answer(None), None);
    assert_eq!(slot.answer(Some(MuxResponse::Done)), Some((2, MuxResponse::Done)));
    assert_eq!(slot.answer(Some(MuxResponse::Done)), None);
}

#[test]
fn control_waits_that_fail() {
    assert_eq!(
        control_result(ControlWait::TimedOut),
        Err(KexshError::Ipc("control response timed out".to_string()))
    );
    assert_eq!(
        control_result(ControlWait::Closed),
        Err(KexshError::Ipc("control response channel closed".to_string()))
    );
}

#[test]
fn handshakes() {
    assert_eq!(check_handshake(Response::MultiplexAttached { terminal_ids: vec![] }), Ok(()));
    assert_eq!(
        check_handshake(Response::Error { message: "no".to_string() }),
        Err(KexshError::Ipc("no".to_string()))
    );
    assert_eq!(
        check_handshake(Response::Done),
        Err(KexshError::Ipc("unexpected handshake response".to_string()))
    );
}

#[test]
fn connection_errors() {
    assert_eq!(connect_error("/s", "refused").message(), "IPC error: connect to /s: refused");
    assert_eq!(
        client::connect_error("/s", "refused").message(),
        "IPC error: failed to connect to /s: refused"
    );
}
