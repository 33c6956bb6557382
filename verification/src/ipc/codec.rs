//! Framing on the wire.
//!
//! A message is its length as four big-endian bytes, then its JSON text. A binary frame
//! is its length as four big-endian bytes, then one type byte, eight bytes of terminal
//! id padded with zeros, and a payload.

use vstd::prelude::*;
use vstd::slice::*;
use vstd::string::*;
use vstd::utf8::*;

use crate::error::{ErrorView, KexshError, Result};
use crate::ipc::message::{BinaryFrame, FrameView};
use crate::text::{decimal, hexadecimal, push_decimal, push_hexadecimal};

verus! {

/// The longest message or frame body that a reader accepts: 16 MB.
pub const MAX_MESSAGE_SIZE: usize = 16 * 1024 * 1024;

pub const FRAME_TYPE_DATA: u8 = 0x01;

pub const FRAME_TYPE_RESIZE: u8 = 0x02;

pub const FRAME_TYPE_DETACH: u8 = 0x03;

pub const FRAME_TYPE_CONTROL: u8 = 0x10;

/// A number in big-endian order, two bytes wide.
pub open spec fn be16(n: u16) -> Seq<u8> {
    seq![(n / 256) as u8, (n % 256) as u8]
}

/// A number in big-endian order, four bytes wide.
pub open spec fn be32(n: u32) -> Seq<u8> {
    seq![
        (n / 0x100_0000) as u8,
        (n / 0x1_0000 % 0x100) as u8,
        (n / 0x100 % 0x100) as u8,
        (n % 0x100) as u8,
    ]
}

/// The number that two big-endian bytes stand for.
pub open spec fn from_be16(b: Seq<u8>) -> nat {
    (b[0] * 0x100 + b[1]) as nat
}

/// The number that four big-endian bytes stand for.
pub open spec fn from_be32(b: Seq<u8>) -> nat {
    (b[0] * 0x100_0000 + b[1] * 0x1_0000 + b[2] * 0x100 + b[3]) as nat
}

/// The length field for a body of `len` bytes; it wraps around at four bytes.
pub open spec fn length_field(len: nat) -> Seq<u8> {
    be32((len % 0x1_0000_0000) as u32)
}

/// A message as it travels.
pub open spec fn message_bytes(json: Seq<u8>) -> Seq<u8> {
    length_field(json.len()) + json
}

/// The eight bytes that carry a terminal id: its first eight bytes of UTF-8, padded
/// with zeros.
pub open spec fn id_field(id: Seq<char>) -> Seq<u8> {
    let bytes = encode_utf8(id);
    Seq::new(8, |i: int| if i < bytes.len() { bytes[i] } else { 0u8 })
}

/// The type byte of a frame.
pub open spec fn frame_type(frame: FrameView) -> u8 {
    match frame {
        FrameView::Data(_) => FRAME_TYPE_DATA,
        FrameView::Resize { .. } => FRAME_TYPE_RESIZE,
        FrameView::Detach => FRAME_TYPE_DETACH,
        FrameView::Control(_) => FRAME_TYPE_CONTROL,
    }
}

/// The payload bytes of a frame.
pub open spec fn frame_payload(frame: FrameView) -> Seq<u8> {
    match frame {
        FrameView::Data(data) => data,
        FrameView::Resize { cols, rows } => be16(cols) + be16(rows),
        FrameView::Detach => Seq::empty(),
        FrameView::Control(payload) => payload,
    }
}

/// A frame without its length field.
pub open spec fn body_bytes(id: Seq<char>, kind: u8, payload: Seq<u8>) -> Seq<u8> {
    seq![kind] + id_field(id) + payload
}

/// A frame as it travels.
pub open spec fn frame_bytes(id: Seq<char>, frame: FrameView) -> Seq<u8> {
    let body = body_bytes(id, frame_type(frame), frame_payload(frame));
    length_field(body.len()) + body
}

/// A text without the NUL characters at its end.
pub open spec fn trim_nul(s: Seq<char>) -> Seq<char>
    decreases s.len(),
{
    if s.len() > 0 && s.last() == '\0' {
        trim_nul(s.drop_last())
    } else {
        s
    }
}

/// The terminal id that an id field carries; empty where the field is not UTF-8.
pub open spec fn id_text(field: Seq<u8>) -> Seq<char> {
    if valid_utf8(field) {
        trim_nul(decode_utf8(field))
    } else {
        Seq::empty()
    }
}

/// What the body of a frame stands for, or why it stands for nothing.
pub open spec fn decoded_body(body: Seq<u8>) -> std::result::Result<
    (Seq<char>, FrameView),
    ErrorView,
> {
    let id = id_text(body.subrange(1, 9));
    let payload = body.skip(9);
    if body[0] == FRAME_TYPE_DATA {
        Ok((id, FrameView::Data(payload)))
    } else if body[0] == FRAME_TYPE_RESIZE {
        if payload.len() != 4 {
            Err(
                ErrorView::Ipc("resize frame expects 4 bytes, got "@ + decimal(payload.len())),
            )
        } else {
            Ok(
                (
                    id,
                    FrameView::Resize {
                        cols: from_be16(payload) as u16,
                        rows: from_be16(payload.skip(2)) as u16,
                    },
                ),
            )
        }
    } else if body[0] == FRAME_TYPE_DETACH {
        Ok((id, FrameView::Detach))
    } else if body[0] == FRAME_TYPE_CONTROL {
        Ok((id, FrameView::Control(payload)))
    } else {
        Err(ErrorView::Ipc("unknown frame type: 0x"@ + hexadecimal(body[0] as nat)))
    }
}

/// The error of a stream that ends inside a message or frame.
pub open spec fn early_eof() -> ErrorView {
    ErrorView::Io("early eof"@)
}

/// The body length that a message's length field announces, if a reader accepts it.
pub open spec fn accepted_message_len(field: Seq<u8>) -> std::result::Result<nat, ErrorView> {
    let len = from_be32(field);
    if len > MAX_MESSAGE_SIZE {
        Err(ErrorView::Ipc("message too large: "@ + decimal(len) + " bytes"@))
    } else {
        Ok(len)
    }
}

/// The body length that a frame's length field announces, if a reader accepts it.
pub open spec fn accepted_frame_len(field: Seq<u8>) -> std::result::Result<nat, ErrorView> {
    let len = from_be32(field);
    if len < 9 {
        Err(ErrorView::Ipc("frame too short: "@ + decimal(len) + " bytes"@))
    } else if len > MAX_MESSAGE_SIZE {
        Err(ErrorView::Ipc("frame too large: "@ + decimal(len) + " bytes"@))
    } else {
        Ok(len)
    }
}

/// Reading `accepted` bytes after a four-byte length field: the bytes or the error, and
/// what is left of the stream.
pub open spec fn after_length(
    s: Seq<u8>,
    accepted: std::result::Result<nat, ErrorView>,
) -> (std::result::Result<Seq<u8>, ErrorView>, Seq<u8>) {
    if s.len() < 4 {
        (Err(early_eof()), Seq::empty())
    } else {
        match accepted {
            Err(error) => (Err(error), s.skip(4)),
            Ok(len) => if s.len() < 4 + len {
                (Err(early_eof()), Seq::empty())
            } else {
                (Ok(s.subrange(4, 4 + len as int)), s.skip(4 + len as int))
            },
        }
    }
}

/// What a reader makes of the front of a stream of messages, and what is left of it.
pub open spec fn take_message(s: Seq<u8>) -> (
    std::result::Result<Seq<u8>, ErrorView>,
    Seq<u8>,
) {
    after_length(s, accepted_message_len(s.take(4)))
}

/// What a reader makes of the front of a stream of frames, and what is left of it.
pub open spec fn take_frame(s: Seq<u8>) -> (
    std::result::Result<(Seq<char>, FrameView), ErrorView>,
    Seq<u8>,
) {
    match after_length(s, accepted_frame_len(s.take(4))) {
        (Ok(body), rest) => (decoded_body(body), rest),
        (Err(error), rest) => (Err(error), rest),
    }
}

/// A frame that was read off a stream leaves less of the stream.
pub proof fn bytes_taken(s: Seq<u8>)
    ensures
        take_frame(s).0 is Ok ==> take_frame(s).1.len() < s.len(),
{
}

/// The id that control frames carry: eight NUL characters.
pub open spec fn control_id() -> Seq<char> {
    Seq::new(8, |i: int| '\0')
}

/// Numbers in decimal with a comma and a space between them.
pub open spec fn comma_separated(bytes: Seq<u8>) -> Seq<char>
    decreases bytes.len(),
{
    if bytes.len() == 0 {
        Seq::empty()
    } else if bytes.len() == 1 {
        decimal(bytes[0] as nat)
    } else {
        comma_separated(bytes.drop_last()) + ", "@ + decimal(bytes.last() as nat)
    }
}

/// A frame as it is shown in an error.
pub open spec fn frame_text(frame: FrameView) -> Seq<char> {
    match frame {
        FrameView::Data(data) => "Data(["@ + comma_separated(data) + "])"@,
        FrameView::Resize { cols, rows } => "Resize { cols: "@ + decimal(cols as nat)
            + ", rows: "@ + decimal(rows as nat) + " }"@,
        FrameView::Detach => "Detach"@,
        FrameView::Control(payload) => "Control(["@ + comma_separated(payload) + "])"@,
    }
}

/// The payload of a control frame; any other frame is an error.
pub open spec fn control_payload(
    read: std::result::Result<(Seq<char>, FrameView), ErrorView>,
) -> std::result::Result<Seq<u8>, ErrorView> {
    match read {
        Ok((_, FrameView::Control(payload))) => Ok(payload),
        Ok((_, frame)) => Err(
            ErrorView::Ipc("expected Control frame, got "@ + frame_text(frame)),
        ),
        Err(error) => Err(error),
    }
}

/// A result by its content.
pub open spec fn frame_outcome(r: Result<(String, BinaryFrame)>) -> std::result::Result<
    (Seq<char>, FrameView),
    ErrorView,
> {
    match r {
        Ok((id, frame)) => Ok((id@, frame@)),
        Err(error) => Err(error@),
    }
}

/// A result by its content.
pub open spec fn bytes_outcome(r: Result<Vec<u8>>) -> std::result::Result<Seq<u8>, ErrorView> {
    match r {
        Ok(bytes) => Ok(bytes@),
        Err(error) => Err(error@),
    }
}

/// A result by its content.
pub open spec fn len_outcome(r: Result<usize>) -> std::result::Result<nat, ErrorView> {
    match r {
        Ok(len) => Ok(len as nat),
        Err(error) => Err(error@),
    }
}

fn push_be16(out: &mut Vec<u8>, n: u16)
    ensures
        final(out)@ == old(out)@ + be16(n),
{
    out.push((n / 256) as u8);
    out.push((n % 256) as u8);
    proof {
        assert(final(out)@ =~= old(out)@ + be16(n));
    }
}

fn push_be32(out: &mut Vec<u8>, n: u32)
    ensures
        final(out)@ == old(out)@ + be32(n),
{
    out.push((n / 0x100_0000) as u8);
    out.push((n / 0x1_0000 % 0x100) as u8);
    out.push((n / 0x100 % 0x100) as u8);
    out.push((n % 0x100) as u8);
    proof {
        assert(final(out)@ =~= old(out)@ + be32(n));
    }
}

/// Appends every byte of `bytes`.
fn push_bytes(out: &mut Vec<u8>, bytes: &[u8])
    ensures
        final(out)@ == old(out)@ + bytes@,
{
    out.extend_from_slice(bytes);
    proof {
        assert(final(out)@ =~= old(out)@ + bytes@);
    }
}

fn push_length(out: &mut Vec<u8>, len: u64)
    ensures
        final(out)@ == old(out)@ + length_field(len as nat),
{
    push_be32(out, (len % 0x1_0000_0000) as u32);
}

/// Writes a message: the length of its JSON text, then the text.
pub fn write_message(stream: &mut Vec<u8>, json: &[u8])
    ensures
        final(stream)@ == old(stream)@ + message_bytes(json@),
{
    push_length(stream, json.len() as u64);
    push_bytes(stream, json);
    proof {
        assert(final(stream)@ =~= old(stream)@ + message_bytes(json@));
    }
}

/// Appends the eight-byte field for a terminal id.
fn push_id_field(out: &mut Vec<u8>, id: &str)
    ensures
        final(out)@ == old(out)@ + id_field(id@),
{
    let bytes = id.as_bytes();
    let mut i: usize = 0;
    while i < 8
        invariant
            i <= 8,
            bytes@ == encode_utf8(id@),
            out@ == old(out)@ + id_field(id@).take(i as int),
        decreases 8 - i,
    {
        if i < bytes.len() {
            out.push(bytes[i]);
        } else {
            out.push(0);
        }
        i += 1;
        proof {
            assert(out@ =~= old(out)@ + id_field(id@).take(i as int));
        }
    }
    proof {
        assert(id_field(id@).take(8) =~= id_field(id@));
    }
}

/// A frame without its length field, as it is relayed over a transport that keeps
/// message boundaries itself.
pub fn encode_binary_frame(id: &str, kind: u8, payload: &[u8]) -> (body: Vec<u8>)
    ensures
        body@ == body_bytes(id@, kind, payload@),
{
    let mut body: Vec<u8> = Vec::new();
    body.push(kind);
    push_id_field(&mut body, id);
    push_bytes(&mut body, payload);
    proof {
        assert(body@ =~= body_bytes(id@, kind, payload@));
    }
    body
}

/// Writes one frame for a terminal.
pub fn write_binary_frame(stream: &mut Vec<u8>, terminal_id: &str, frame: &BinaryFrame)
    ensures
        final(stream)@ == old(stream)@ + frame_bytes(terminal_id@, frame@),
{
    let body = match frame {
        BinaryFrame::Data(data) => encode_binary_frame(
            terminal_id,
            FRAME_TYPE_DATA,
            data.as_slice(),
        ),
        BinaryFrame::Resize { cols, rows } => {
            let mut size: Vec<u8> = Vec::new();
            push_be16(&mut size, *cols);
            push_be16(&mut size, *rows);
            proof {
                assert(size@ =~= be16(*cols) + be16(*rows));
            }
            encode_binary_frame(terminal_id, FRAME_TYPE_RESIZE, size.as_slice())
        },
        BinaryFrame::Detach => {
            let nothing: Vec<u8> = Vec::new();
            encode_binary_frame(terminal_id, FRAME_TYPE_DETACH, nothing.as_slice())
        },
        BinaryFrame::Control(payload) => encode_binary_frame(
            terminal_id,
            FRAME_TYPE_CONTROL,
            payload.as_slice(),
        ),
    };
    push_length(stream, body.len() as u64);
    push_bytes(stream, body.as_slice());
    proof {
        assert(final(stream)@ =~= old(stream)@ + frame_bytes(terminal_id@, frame@));
    }
}

/// Takes exactly `n` bytes off the front of a stream; where there are fewer, the stream
/// is used up.
fn read_exact<'a>(stream: &mut &'a [u8], n: usize) -> (taken: Option<&'a [u8]>)
    ensures
        old(stream)@.len() >= n ==> taken is Some && taken->0@ == old(stream)@.take(n as int)
            && final(stream)@ == old(stream)@.skip(n as int),
        old(stream)@.len() < n ==> taken is None && final(stream)@ == Seq::<u8>::empty(),
{
    let all: &'a [u8] = *stream;
    let len = all.len();
    if len < n {
        *stream = slice_subrange(all, len, len);
        return None;
    }
    let taken = slice_subrange(all, 0, n);
    *stream = slice_subrange(all, n, len);
    Some(taken)
}

fn be32_value(field: [u8; 4]) -> (n: u32)
    ensures
        n == from_be32(field@),
{
    field[0] as u32 * 0x100_0000 + field[1] as u32 * 0x1_0000 + field[2] as u32 * 0x100
        + field[3] as u32
}

fn be16_value(high: u8, low: u8) -> (n: u16)
    ensures
        n == from_be16(seq![high, low]),
{
    high as u16 * 0x100 + low as u16
}

/// `<before><n><after>` as text.
fn numbered(before: &str, n: u64, after: &str) -> (text: String)
    ensures
        text@ == before@ + decimal(n as nat) + after@,
{
    let mut text = before.to_owned();
    push_decimal(&mut text, n);
    text.append(after);
    text
}

/// How many bytes of JSON text follow a message's length field.
pub fn message_len(field: [u8; 4]) -> (len: Result<usize>)
    ensures
        len_outcome(len) == accepted_message_len(field@),
{
    let len = be32_value(field) as usize;
    if len > MAX_MESSAGE_SIZE {
        return Err(KexshError::Ipc(numbered("message too large: ", len as u64, " bytes")));
    }
    Ok(len)
}

/// How many bytes of body follow a frame's length field.
pub fn frame_len(field: [u8; 4]) -> (len: Result<usize>)
    ensures
        len_outcome(len) == accepted_frame_len(field@),
{
    let len = be32_value(field) as usize;
    if len < 9 {
        return Err(KexshError::Ipc(numbered("frame too short: ", len as u64, " bytes")));
    }
    if len > MAX_MESSAGE_SIZE {
        return Err(KexshError::Ipc(numbered("frame too large: ", len as u64, " bytes")));
    }
    Ok(len)
}

/// `std::str::from_utf8` succeeds exactly on well-formed UTF-8, and then gives the text
/// that the bytes encode.
#[verifier::external_body]
fn utf8_text(bytes: &[u8]) -> (text: Option<&str>)
    ensures
        text is Some <==> valid_utf8(bytes@),
        text matches Some(t) ==> t@ == decode_utf8(bytes@),
{
    std::str::from_utf8(bytes).ok()
}

/// The text up to its last character that is not NUL.
fn without_trailing_nul(s: &str) -> (text: String)
    ensures
        text@ == trim_nul(s@),
{
    let mut end = s.unicode_len();
    proof {
        assert(s@.take(end as int) =~= s@);
    }
    while end > 0 && s.get_char(end - 1) == '\0'
        invariant
            end <= s@.len(),
            trim_nul(s@) == trim_nul(s@.take(end as int)),
        decreases end,
    {
        proof {
            assert(s@.take(end as int).drop_last() =~= s@.take(end - 1));
        }
        end -= 1;
    }
    s.substring_char(0, end).to_owned()
}

/// The terminal id in an id field.
fn field_id(field: &[u8]) -> (id: String)
    ensures
        id@ == id_text(field@),
{
    match utf8_text(field) {
        Some(text) => without_trailing_nul(text),
        None => String::new(),
    }
}

/// Decodes the body of a frame: everything after its length field.
pub fn decode_binary_frame(body: &[u8]) -> (decoded: Result<(String, BinaryFrame)>)
    requires
        body@.len() >= 9,
    ensures
        frame_outcome(decoded) == decoded_body(body@),
{
    let kind = body[0];
    let id = field_id(slice_subrange(body, 1, 9));
    let payload = slice_subrange(body, 9, body.len());
    proof {
        assert(payload@ =~= body@.skip(9));
    }
    if kind == FRAME_TYPE_DATA {
        Ok((id, BinaryFrame::Data(slice_to_vec(payload))))
    } else if kind == FRAME_TYPE_RESIZE {
        if payload.len() != 4 {
            let mut text = "resize frame expects 4 bytes, got ".to_owned();
            push_decimal(&mut text, payload.len() as u64);
            return Err(KexshError::Ipc(text));
        }
        let cols = be16_value(payload[0], payload[1]);
        let rows = be16_value(payload[2], payload[3]);
        Ok((id, BinaryFrame::Resize { cols, rows }))
    } else if kind == FRAME_TYPE_DETACH {
        Ok((id, BinaryFrame::Detach))
    } else if kind == FRAME_TYPE_CONTROL {
        Ok((id, BinaryFrame::Control(slice_to_vec(payload))))
    } else {
        let mut text = "unknown frame type: 0x".to_owned();
        push_hexadecimal(&mut text, kind as u64);
        Err(KexshError::Ipc(text))
    }
}

fn eof_error() -> (error: KexshError)
    ensures
        error@ == early_eof(),
{
    KexshError::Io("early eof".to_owned())
}

/// Takes the four-byte length field off the front of a stream.
fn read_length_field(stream: &mut &[u8]) -> (field: Option<[u8; 4]>)
    ensures
        old(stream)@.len() >= 4 ==> field is Some && field->0@ == old(stream)@.take(4)
            && final(stream)@ == old(stream)@.skip(4),
        old(stream)@.len() < 4 ==> field is None && final(stream)@ == Seq::<u8>::empty(),
{
    match read_exact(stream, 4) {
        Some(b) => {
            let field = [b[0], b[1], b[2], b[3]];
            proof {
                assert(field@ =~= b@);
            }
            Some(field)
        },
        None => None,
    }
}

/// Reads one message off the front of a stream and gives its JSON text.
pub fn read_message(stream: &mut &[u8]) -> (json: Result<Vec<u8>>)
    ensures
        (bytes_outcome(json), final(stream)@) == take_message(old(stream)@),
{
    let field = match read_length_field(stream) {
        Some(field) => field,
        None => return Err(eof_error()),
    };
    let len = message_len(field)?;
    let ghost tail = stream@;
    match read_exact(stream, len) {
        Some(bytes) => {
            proof {
                assert(tail.take(len as int) =~= old(stream)@.subrange(4, 4 + len));
                assert(tail.skip(len as int) =~= old(stream)@.skip(4 + len));
            }
            Ok(slice_to_vec(bytes))
        },
        None => Err(eof_error()),
    }
}

/// Reads one frame off the front of a stream.
pub fn read_binary_frame(stream: &mut &[u8]) -> (frame: Result<(String, BinaryFrame)>)
    ensures
        (frame_outcome(frame), final(stream)@) == take_frame(old(stream)@),
{
    let field = match read_length_field(stream) {
        Some(field) => field,
        None => return Err(eof_error()),
    };
    let len = frame_len(field)?;
    let ghost tail = stream@;
    match read_exact(stream, len) {
        Some(body) => {
            proof {
                assert(tail.take(len as int) =~= old(stream)@.subrange(4, 4 + len));
                assert(tail.skip(len as int) =~= old(stream)@.skip(4 + len));
            }
            decode_binary_frame(body)
        },
        None => Err(eof_error()),
    }
}

/// The id of frames that concern no terminal: eight NUL characters.
pub fn blank_id() -> (id: String)
    ensures
        id@ == control_id(),
{
    proof {
        reveal_strlit("\0\0\0\0\0\0\0\0");
        assert("\0\0\0\0\0\0\0\0"@ =~= control_id());
    }
    "\0\0\0\0\0\0\0\0".to_owned()
}

/// The frame that carries an encoded control message, with its id.
pub fn control_frame(payload: Vec<u8>) -> (frame: (String, BinaryFrame))
    ensures
        frame.0@ == control_id(),
        frame.1 == BinaryFrame::Control(payload),
{
    (blank_id(), BinaryFrame::Control(payload))
}

/// Writes a control frame around an encoded control message.
pub fn write_control_frame(stream: &mut Vec<u8>, payload: Vec<u8>)
    ensures
        final(stream)@ == old(stream)@ + frame_bytes(control_id(), FrameView::Control(payload@)),
{
    let (id, frame) = control_frame(payload);
    write_binary_frame(stream, id.as_str(), &frame);
}

fn push_comma_separated(out: &mut String, bytes: &[u8])
    ensures
        final(out)@ == old(out)@ + comma_separated(bytes@),
{
    let mut i: usize = 0;
    proof {
        assert(out@ =~= out@ + comma_separated(bytes@.take(0)));
    }
    while i < bytes.len()
        invariant
            i <= bytes@.len(),
            out@ == old(out)@ + comma_separated(bytes@.take(i as int)),
        decreases bytes@.len() - i,
    {
        if i > 0 {
            out.append(", ");
        }
        push_decimal(out, bytes[i] as u64);
        i += 1;
        proof {
            assert(bytes@.take(i as int).drop_last() =~= bytes@.take(i - 1));
            assert(out@ =~= old(out)@ + comma_separated(bytes@.take(i as int)));
        }
    }
    proof {
        assert(bytes@.take(i as int) =~= bytes@);
    }
}

/// Renders a frame for an error.
fn show_frame(frame: &BinaryFrame) -> (text: String)
    ensures
        text@ == frame_text(frame@),
{
    match frame {
        BinaryFrame::Data(data) => {
            let mut text = "Data([".to_owned();
            push_comma_separated(&mut text, data.as_slice());
            text.append("])");
            text
        },
        BinaryFrame::Resize { cols, rows } => {
            let mut text = "Resize { cols: ".to_owned();
            push_decimal(&mut text, *cols as u64);
            text.append(", rows: ");
            push_decimal(&mut text, *rows as u64);
            text.append(" }");
            text
        },
        BinaryFrame::Detach => "Detach".to_owned(),
        BinaryFrame::Control(payload) => {
            let mut text = "Control([".to_owned();
            push_comma_separated(&mut text, payload.as_slice());
            text.append("])");
            text
        },
    }
}

/// Reads one frame, which must be a control frame, and gives its payload.
pub fn read_control_frame(stream: &mut &[u8]) -> (payload: Result<Vec<u8>>)
    ensures
        bytes_outcome(payload) == control_payload(take_frame(old(stream)@).0),
        final(stream)@ == take_frame(old(stream)@).1,
{
    let (_id, frame) = read_binary_frame(stream)?;
    match frame {
        BinaryFrame::Control(payload) => Ok(payload),
        other => Err(
            KexshError::Ipc(
                "expected Control frame, got ".to_owned().concat(show_frame(&other).as_str()),
            ),
        ),
    }
}

} // verus!
