use kexsh::error::KexshError;
use kexsh::ipc::codec::{
    control_frame, decode_binary_frame, encode_binary_frame, frame_len, message_len, read_binary_frame,
    read_control_frame, read_message, write_binary_frame, write_control_frame, write_message,
};
use kexsh::ipc::message::{BinaryFrame, Layout, MuxRequest, MuxResponse, Request, Response};
use serde_json::Value;

const CONTROL_ID: &str = "\0\0\0\0\0\0\0\0";

fn json(text: &str) -> Value {
    serde_json::from_str(text).unwrap()
}

/// Sends a JSON value through the framing and gives what arrives.
fn carried(sent: &Value) -> Value {
    let mut stream: Vec<u8> = Vec::new();
    write_message(&mut stream, &serde_json::to_vec(sent).unwrap());
    let mut rest: &[u8] = &stream;
    let received = read_message(&mut rest).unwrap();
    assert!(rest.is_empty());
    serde_json::from_slice(&received).unwrap()
}

/// Sends a JSON value in a control frame and gives what arrives.
fn carried_in_control(sent: &Value) -> Value {
    let mut stream: Vec<u8> = Vec::new();
    write_control_frame(&mut stream, serde_json::to_vec(sent).unwrap());
    let mut rest: &[u8] = &stream;
    let received = read_control_frame(&mut rest).unwrap();
    assert!(rest.is_empty());
    serde_json::from_slice(&received).unwrap()
}

fn text(value: &Value) -> String {
    value.as_str().unwrap().to_string()
}

fn texts(value: &Value) -> Vec<String> {
    value.as_array().unwrap().iter().map(text).collect()
}

#[test]
fn roundtrip_request() {
    let got = carried(&json(r#"{"TerminalCreate":{"name":"test"}}"#));
    let decoded = Request::TerminalCreate { name: got["TerminalCreate"]["name"].as_str().map(String::from) };
    assert!(matches!(decoded, Request::TerminalCreate { name: Some(n) } if n == "test"));
}

#[test]
fn roundtrip_response() {
    let got = carried(&json(r#"{"TerminalCreated":{"id":"abc123"}}"#));
    let decoded = Response::TerminalCreated { id: text(&got["TerminalCreated"]["id"]) };
    assert!(matches!(decoded, Response::TerminalCreated { id } if id == "abc123"));
}

#[test]
fn roundtrip_view_update_layout() {
    let got = carried(&json(
        r#"{"ViewUpdateLayout":{"view_id":"v1","layout":{"type":"leaf","terminal_id":"t1"},"focused":"t1"}}"#,
    ));
    let fields = &got["ViewUpdateLayout"];
    let decoded = Request::ViewUpdateLayout {
        view_id: text(&fields["view_id"]),
        layout: Layout::Tree(fields["layout"].clone()),
        focused: text(&fields["focused"]),
    };
    assert!(
        matches!(&decoded, Request::ViewUpdateLayout { view_id, focused, .. } if view_id == "v1" && focused == "t1")
    );
    assert!(
        matches!(decoded, Request::ViewUpdateLayout { layout: Layout::Tree(tree), .. } if tree["type"] == "leaf" && tree["terminal_id"] == "t1")
    );
}

#[test]
fn roundtrip_view_remove_terminal() {
    let got = carried(&json(r#"{"ViewRemoveTerminal":{"view_id":"v1","terminal_id":"t1"}}"#));
    let fields = &got["ViewRemoveTerminal"];
    let decoded = Request::ViewRemoveTerminal {
        view_id: text(&fields["view_id"]),
        terminal_id: text(&fields["terminal_id"]),
    };
    assert!(
        matches!(decoded, Request::ViewRemoveTerminal { view_id, terminal_id } if view_id == "v1" && terminal_id == "t1")
    );
}

#[test]
fn roundtrip_view_attach_with_layout() {
    let got = carried(&json(
        r#"{"ViewAttach":{"terminal_ids":["t1","t2"],"layout":{"type":"split"},"focused":"t2"}}"#,
    ));
    let fields = &got["ViewAttach"];
    let decoded = Response::ViewAttach {
        terminal_ids: texts(&fields["terminal_ids"]),
        layout: Some(Layout::Tree(fields["layout"].clone())),
        focused: Some(text(&fields["focused"])),
    };
    assert!(
        matches!(decoded, Response::ViewAttach { terminal_ids, layout: Some(_), focused: Some(f) } if terminal_ids.len() == 2 && f == "t2")
    );
}

#[test]
fn roundtrip_multiplex_attach() {
    let got = carried(&json(r#"{"MultiplexAttach":{"terminal_ids":["t1","t2"],"view_id":"v1"}}"#));
    let fields = &got["MultiplexAttach"];
    let decoded = Request::MultiplexAttach {
        terminal_ids: texts(&fields["terminal_ids"]),
        view_id: fields["view_id"].as_str().map(String::from),
    };
    assert!(
        matches!(decoded, Request::MultiplexAttach { terminal_ids, view_id: Some(v) } if terminal_ids.len() == 2 && v == "v1")
    );
}

#[test]
fn binary_frame_roundtrip_data() {
    let mut stream: Vec<u8> = Vec::new();
    let frame = BinaryFrame::Data(vec![1, 2, 3, 4]);
    write_binary_frame(&mut stream, "abcd1234", &frame);
    let (tid, decoded) = read_binary_frame(&mut stream.as_slice()).unwrap();
    assert_eq!(tid, "abcd1234");
    assert_eq!(decoded, BinaryFrame::Data(vec![1, 2, 3, 4]));
}

#[test]
fn binary_frame_roundtrip_resize() {
    let mut stream: Vec<u8> = Vec::new();
    let frame = BinaryFrame::Resize { cols: 120, rows: 40 };
    write_binary_frame(&mut stream, "term0001", &frame);
    let (tid, decoded) = read_binary_frame(&mut stream.as_slice()).unwrap();
    assert_eq!(tid, "term0001");
    assert_eq!(decoded, BinaryFrame::Resize { cols: 120, rows: 40 });
}

#[test]
fn binary_frame_roundtrip_detach() {
    let mut stream: Vec<u8> = Vec::new();
    write_binary_frame(&mut stream, "t1234567", &BinaryFrame::Detach);
    let (tid, decoded) = read_binary_frame(&mut stream.as_slice()).unwrap();
    assert_eq!(tid, "t1234567");
    assert_eq!(decoded, BinaryFrame::Detach);
}

#[test]
fn binary_frame_empty_data() {
    let mut stream: Vec<u8> = Vec::new();
    write_binary_frame(&mut stream, "abcd1234", &BinaryFrame::Data(vec![]));
    let (_, decoded) = read_binary_frame(&mut stream.as_slice()).unwrap();
    assert_eq!(decoded, BinaryFrame::Data(vec![]));
}

#[test]
fn binary_frame_roundtrip_control() {
    let payload = b"{\"test\":true}".to_vec();
    let mut stream: Vec<u8> = Vec::new();
    write_binary_frame(&mut stream, "\0\0\0\0\0\0\0\0", &BinaryFrame::Control(payload.clone()));
    let (tid, decoded) = read_binary_frame(&mut stream.as_slice()).unwrap();
    assert_eq!(tid, "");
    assert_eq!(decoded, BinaryFrame::Control(payload));
}

#[test]
fn control_frame_mux_request_roundtrip() {
    let got = carried_in_control(&json(r#"{"CreateTerminal":{"name":"dev"}}"#));
    let decoded = MuxRequest::CreateTerminal { name: got["CreateTerminal"]["name"].as_str().map(String::from) };
    assert!(matches!(decoded, MuxRequest::CreateTerminal { name: Some(n) } if n == "dev"));
}

#[test]
fn control_frame_mux_response_roundtrip() {
    let got = carried_in_control(&json(r#"{"TerminalCreated":{"id":"t1"}}"#));
    let decoded = MuxResponse::TerminalCreated { id: text(&got["TerminalCreated"]["id"]) };
    assert!(matches!(decoded, MuxResponse::TerminalCreated { id } if id == "t1"));
}

#[test]
fn control_frame_empty_json() {
    let mut stream: Vec<u8> = Vec::new();
    write_binary_frame(&mut stream, "\0\0\0\0\0\0\0\0", &BinaryFrame::Control(b"{}".to_vec()));
    let (_, decoded) = read_binary_frame(&mut stream.as_slice()).unwrap();
    assert_eq!(decoded, BinaryFrame::Control(b"{}".to_vec()));
}

#[test]
fn message_bytes_are_exact() {
    let mut stream: Vec<u8> = vec![7];
    write_message(&mut stream, b"{}");
    assert_eq!(stream, vec![7, 0, 0, 0, 2, b'{', b'}']);
}

#[test]
fn frame_bytes_are_exact() {
    let mut stream: Vec<u8> = Vec::new();
    write_binary_frame(&mut stream, "ab", &BinaryFrame::Resize { cols: 258, rows: 3 });
    assert_eq!(stream, vec![0, 0, 0, 13, 2, b'a', b'b', 0, 0, 0, 0, 0, 0, 1, 2, 0, 3]);
}

#[test]
fn long_ids_are_cut_to_their_field() {
    let mut stream: Vec<u8> = Vec::new();
    write_binary_frame(&mut stream, "0123456789", &BinaryFrame::Detach);
    let (id, _) = read_binary_frame(&mut stream.as_slice()).unwrap();
    assert_eq!(id, "01234567");
}

#[test]
fn id_that_is_not_text_reads_as_empty() {
    // The field is cut in the middle of the last character, so it is no UTF-8 text.
    let mut stream: Vec<u8> = Vec::new();
    write_binary_frame(&mut stream, "1234567é", &BinaryFrame::Detach);
    let (id, _) = read_binary_frame(&mut stream.as_slice()).unwrap();
    assert_eq!(id, "");
}

#[test]
fn two_messages_are_read_one_by_one() {
    let mut stream: Vec<u8> = Vec::new();
    write_message(&mut stream, b"1");
    write_message(&mut stream, b"22");
    let mut rest: &[u8] = &stream;
    assert_eq!(read_message(&mut rest).unwrap(), b"1");
    assert_eq!(read_message(&mut rest).unwrap(), b"22");
    assert_eq!(read_message(&mut rest), Err(KexshError::Io("early eof".to_string())));
}

#[test]
fn torn_messages_and_frames_are_refused() {
    let mut message: Vec<u8> = Vec::new();
    write_message(&mut message, b"hello");
    let mut frame: Vec<u8> = Vec::new();
    write_binary_frame(&mut frame, "t1", &BinaryFrame::Data(vec![1, 2]));
    for n in 0..message.len() {
        assert!(read_message(&mut &message[..n]).is_err());
    }
    for n in 0..frame.len() {
        assert!(read_binary_frame(&mut &frame[..n]).is_err());
    }
}

#[test]
fn length_limits() {
    assert_eq!(message_len([1, 0, 0, 0]).unwrap(), 16 * 1024 * 1024);
    assert_eq!(
        message_len([1, 0, 0, 1]),
        Err(KexshError::Ipc("message too large: 16777217 bytes".to_string()))
    );
    assert_eq!(frame_len([0, 0, 0, 9]).unwrap(), 9);
    assert!(matches!(frame_len([0, 0, 0, 8]), Err(KexshError::Ipc(_))));
    assert!(matches!(frame_len([1, 0, 0, 1]), Err(KexshError::Ipc(_))));
}

#[test]
fn unknown_frame_type_is_refused() {
    let body = encode_binary_frame("t1", 0x2f, &[]);
    assert_eq!(
        decode_binary_frame(&body),
        Err(KexshError::Ipc("unknown frame type: 0x2f".to_string()))
    );
}

#[test]
fn short_resize_is_refused() {
    let body = encode_binary_frame("t1", 2, &[0, 80, 0]);
    assert!(matches!(decode_binary_frame(&body), Err(KexshError::Ipc(_))));
}

#[test]
fn other_frames_are_no_control_frames() {
    let frames = vec![
        BinaryFrame::Data(vec![]),
        BinaryFrame::Data(vec![7]),
        BinaryFrame::Data(vec![0, 10, 255]),
        BinaryFrame::Resize { cols: 80, rows: 24 },
        BinaryFrame::Detach,
    ];
    for frame in frames {
        let mut stream: Vec<u8> = Vec::new();
        write_binary_frame(&mut stream, "t1", &frame);
        assert_eq!(
            read_control_frame(&mut stream.as_slice()),
            Err(KexshError::Ipc(format!("expected Control frame, got {frame:?}")))
        );
    }
}

#[test]
fn control_frames_carry_the_blank_id() {
    let mut by_hand: Vec<u8> = Vec::new();
    write_binary_frame(&mut by_hand, CONTROL_ID, &BinaryFrame::Control(b"x".to_vec()));
    let mut stream: Vec<u8> = Vec::new();
    write_control_frame(&mut stream, b"x".to_vec());
    assert_eq!(stream, by_hand);
    assert_eq!(
        control_frame(b"x".to_vec()),
        (CONTROL_ID.to_string(), BinaryFrame::Control(b"x".to_vec()))
    );
}
