//! What holds of framing as a whole: what is written is what is read.

use vstd::prelude::*;
use vstd::utf8::*;

use crate::error::ErrorView;
use crate::ipc::codec::{
    be16, be32, body_bytes, control_id, control_payload, decoded_body, early_eof, frame_bytes,
    frame_payload, frame_type, from_be16, from_be32, id_field, id_text, length_field,
    message_bytes, take_frame, take_message, trim_nul, MAX_MESSAGE_SIZE,
};
use crate::ipc::message::FrameView;
use crate::text::decimal;

verus! {

/// Four big-endian bytes stand for the number they were made from.
pub proof fn be32_round_trip(n: u32)
    ensures
        from_be32(be32(n)) == n,
{
}

/// Two big-endian bytes stand for the number they were made from.
pub proof fn be16_round_trip(n: u16)
    ensures
        from_be16(be16(n)) == n,
{
}

proof fn length_field_front(len: nat, tail: Seq<u8>)
    requires
        len < 0x1_0000_0000,
    ensures
        (length_field(len) + tail).take(4) == length_field(len),
        from_be32((length_field(len) + tail).take(4)) == len,
        (length_field(len) + tail).skip(4) == tail,
{
    assert((length_field(len) + tail).take(4) =~= length_field(len));
    assert((length_field(len) + tail).skip(4) =~= tail);
    be32_round_trip((len % 0x1_0000_0000) as u32);
}

/// A message of at most 16 MB is read back as it was written, and whatever follows it
/// in the stream is left alone.
pub proof fn message_round_trip(json: Seq<u8>, rest: Seq<u8>)
    requires
        json.len() <= MAX_MESSAGE_SIZE,
    ensures
        take_message(message_bytes(json) + rest) == (Ok::<Seq<u8>, ErrorView>(json), rest),
{
    let s = message_bytes(json) + rest;
    assert(s =~= length_field(json.len()) + (json + rest));
    length_field_front(json.len(), json + rest);
    assert(s.subrange(4, 4 + json.len() as int) =~= json);
    assert(s.skip(4 + json.len() as int) =~= rest);
}

/// A message over 16 MB, as long as its length fits the field, is refused by its length
/// alone.
pub proof fn oversized_message_refused(json: Seq<u8>, rest: Seq<u8>)
    requires
        MAX_MESSAGE_SIZE < json.len() < 0x1_0000_0000,
    ensures
        take_message(message_bytes(json) + rest).0 == Err::<Seq<u8>, ErrorView>(
            ErrorView::Ipc("message too large: "@ + decimal(json.len()) + " bytes"@),
        ),
{
    let s = message_bytes(json) + rest;
    assert(s =~= length_field(json.len()) + (json + rest));
    length_field_front(json.len(), json + rest);
}

/// A message cut short anywhere is never taken for a whole one.
pub proof fn torn_message_refused(json: Seq<u8>, n: int)
    requires
        json.len() <= MAX_MESSAGE_SIZE,
        0 <= n < message_bytes(json).len(),
    ensures
        take_message(message_bytes(json).take(n)).0 == Err::<Seq<u8>, ErrorView>(early_eof()),
{
    let s = message_bytes(json).take(n);
    if n >= 4 {
        length_field_front(json.len(), json);
        assert(s.take(4) =~= message_bytes(json).take(4));
    }
}

proof fn trim_nul_padding(s: Seq<char>, n: nat)
    ensures
        trim_nul(s + Seq::new(n, |i: int| '\0')) == trim_nul(s),
    decreases n,
{
    let padded = s + Seq::new(n, |i: int| '\0');
    if n == 0 {
        assert(padded =~= s);
    } else {
        assert(padded.drop_last() =~= s + Seq::new((n - 1) as nat, |i: int| '\0'));
        trim_nul_padding(s, (n - 1) as nat);
    }
}

proof fn encode_concat(a: Seq<char>, b: Seq<char>)
    ensures
        encode_utf8(a + b) == encode_utf8(a) + encode_utf8(b),
    decreases a.len(),
{
    if a.len() == 0 {
        assert(a + b =~= b);
        assert(encode_utf8(a) + encode_utf8(b) =~= encode_utf8(b));
    } else {
        assert((a + b).drop_first() =~= a.drop_first() + b);
        encode_concat(a.drop_first(), b);
        assert(encode_utf8(a + b) =~= encode_utf8(a) + encode_utf8(b));
    }
}

/// A terminal id of at most eight bytes comes out of its field as it went in, without
/// NUL characters at its end.
pub proof fn id_round_trip(id: Seq<char>)
    requires
        encode_utf8(id).len() <= 8,
    ensures
        id_text(id_field(id)) == trim_nul(id),
        id.len() > 0 && id.last() != '\0' ==> id_text(id_field(id)) == id,
        id.len() == 0 ==> id_text(id_field(id)) == id,
{
    let n = (8 - encode_utf8(id).len()) as nat;
    let nuls = Seq::new(n, |i: int| '\0');
    assert(is_ascii_chars(nuls));
    is_ascii_chars_encode_utf8(nuls);
    encode_concat(id, nuls);
    assert(encode_utf8(id + nuls) =~= id_field(id));
    encode_utf8_valid_utf8(id + nuls);
    encode_utf8_decode_utf8(id + nuls);
    trim_nul_padding(id, n);
}

proof fn payload_round_trip(id: Seq<char>, frame: FrameView)
    ensures
        decoded_body(body_bytes(id, frame_type(frame), frame_payload(frame))) == Ok::<
            (Seq<char>, FrameView),
            ErrorView,
        >((id_text(id_field(id)), frame)),
{
    let payload = frame_payload(frame);
    let body = body_bytes(id, frame_type(frame), payload);
    assert(body.subrange(1, 9) =~= id_field(id));
    assert(body.skip(9) =~= payload);
    match frame {
        FrameView::Resize { cols, rows } => {
            be16_round_trip(cols);
            be16_round_trip(rows);
            assert(payload.skip(2) =~= be16(rows));
        },
        _ => {},
    }
}

/// A frame whose body is at most 16 MB is read back as it was written, with the id that
/// its eight-byte field holds, and whatever follows it in the stream is left alone.
pub proof fn frame_round_trip(id: Seq<char>, frame: FrameView, rest: Seq<u8>)
    requires
        9 + frame_payload(frame).len() <= MAX_MESSAGE_SIZE,
    ensures
        take_frame(frame_bytes(id, frame) + rest) == (
            Ok::<(Seq<char>, FrameView), ErrorView>((id_text(id_field(id)), frame)),
            rest,
        ),
{
    let body = body_bytes(id, frame_type(frame), frame_payload(frame));
    let s = frame_bytes(id, frame) + rest;
    assert(s =~= length_field(body.len()) + (body + rest));
    length_field_front(body.len(), body + rest);
    assert(s.subrange(4, 4 + body.len() as int) =~= body);
    assert(s.skip(4 + body.len() as int) =~= rest);
    payload_round_trip(id, frame);
}

/// A frame for a terminal whose id fits its field, such as every id that a registry
/// hands out, arrives with that id.
pub proof fn frame_round_trip_with_id(id: Seq<char>, frame: FrameView, rest: Seq<u8>)
    requires
        9 + frame_payload(frame).len() <= MAX_MESSAGE_SIZE,
        encode_utf8(id).len() <= 8,
        id.len() > 0 ==> id.last() != '\0',
    ensures
        take_frame(frame_bytes(id, frame) + rest) == (
            Ok::<(Seq<char>, FrameView), ErrorView>((id, frame)),
            rest,
        ),
{
    frame_round_trip(id, frame, rest);
    id_round_trip(id);
}

/// A control frame gives its payload back, and its id reads as the empty text.
pub proof fn control_round_trip(payload: Seq<u8>, rest: Seq<u8>)
    requires
        9 + payload.len() <= MAX_MESSAGE_SIZE,
    ensures
        control_payload(
            take_frame(frame_bytes(control_id(), FrameView::Control(payload)) + rest).0,
        ) == Ok::<Seq<u8>, ErrorView>(payload),
        take_frame(frame_bytes(control_id(), FrameView::Control(payload)) + rest) == (
            Ok::<(Seq<char>, FrameView), ErrorView>((Seq::empty(), FrameView::Control(payload))),
            rest,
        ),
{
    frame_round_trip(control_id(), FrameView::Control(payload), rest);
    let nothing = Seq::<char>::empty();
    assert(is_ascii_chars(control_id()));
    is_ascii_chars_encode_utf8(control_id());
    id_round_trip(control_id());
    trim_nul_padding(nothing, 8);
    assert(nothing + Seq::new(8, |i: int| '\0') =~= control_id());
}

/// A frame cut short anywhere is never taken for a whole one.
pub proof fn torn_frame_refused(id: Seq<char>, frame: FrameView, n: int)
    requires
        9 + frame_payload(frame).len() <= MAX_MESSAGE_SIZE,
        0 <= n < frame_bytes(id, frame).len(),
    ensures
        take_frame(frame_bytes(id, frame).take(n)).0 == Err::<(Seq<char>, FrameView), ErrorView>(
            early_eof(),
        ),
{
    let body = body_bytes(id, frame_type(frame), frame_payload(frame));
    let s = frame_bytes(id, frame).take(n);
    if n >= 4 {
        length_field_front(body.len(), body);
        assert(s.take(4) =~= frame_bytes(id, frame).take(4));
    }
}

/// Without its four-byte length field a frame is exactly its relayed form.
pub proof fn relayed_frame_is_the_body(id: Seq<char>, frame: FrameView)
    ensures
        frame_bytes(id, frame).skip(4) == body_bytes(id, frame_type(frame), frame_payload(frame)),
{
    let body = body_bytes(id, frame_type(frame), frame_payload(frame));
    assert(frame_bytes(id, frame).skip(4) =~= body);
}

} // verus!
