//! What stands at each place on the wire, and what a reader makes of it.

use vstd::prelude::*;
use vstd::utf8::*;

use crate::error::{ErrorView, Result};
use crate::ipc::codec::{
    accepted_frame_len, accepted_message_len, body_bytes, bytes_outcome, comma_separated,
    control_id, control_payload, decoded_body, early_eof, frame_bytes, frame_outcome, frame_payload,
    frame_text, id_text, len_outcome, message_bytes, take_frame, take_message, trim_nul,
};
use crate::ipc::message::{BinaryFrame, FrameView};
use crate::ipc::mux::{payloads, received, Received};
use crate::text::{decimal, hexadecimal};

verus! {

/// A message is four bytes that give its length, the highest first, and then its text.
pub proof fn message_layout(json: Seq<u8>)
    ensures
        ({
            let s = message_bytes(json);
            &&& s.len() == 4 + json.len()
            &&& s[0] * 0x100_0000 + s[1] * 0x1_0000 + s[2] * 0x100 + s[3] == json.len()
                % 0x1_0000_0000
            &&& forall|i: int| 0 <= i < json.len() ==> #[trigger] s[4 + i] == json[i]
        }),
{
}

/// A frame is four bytes that give the length of the rest, the highest first; a type byte;
/// eight bytes with the start of the id's UTF-8 form, and zeros behind it; and the payload.
pub proof fn frame_layout(id: Seq<char>, frame: FrameView)
    ensures
        ({
            let s = frame_bytes(id, frame);
            let payload = frame_payload(frame);
            let utf8 = encode_utf8(id);
            &&& s.len() == 13 + payload.len()
            &&& s[0] * 0x100_0000 + s[1] * 0x1_0000 + s[2] * 0x100 + s[3] == (9 + payload.len())
                % 0x1_0000_0000
            &&& s[4] == match frame {
                FrameView::Data(_) => 1u8,
                FrameView::Resize { .. } => 2u8,
                FrameView::Detach => 3u8,
                FrameView::Control(_) => 16u8,
            }
            &&& forall|i: int|
                0 <= i < 8 ==> #[trigger] s[5 + i] == if i < utf8.len() {
                    utf8[i]
                } else {
                    0u8
                }
            &&& forall|i: int| 0 <= i < payload.len() ==> #[trigger] s[13 + i] == payload[i]
        }),
{
}

/// Bytes and control messages are carried as they are, a size as two numbers of two bytes,
/// columns first and the higher byte first, and leaving carries nothing.
pub proof fn payload_layout(frame: FrameView)
    ensures
        match frame {
            FrameView::Data(data) => frame_payload(frame) == data,
            FrameView::Control(payload) => frame_payload(frame) == payload,
            FrameView::Detach => frame_payload(frame).len() == 0,
            FrameView::Resize { cols, rows } => {
                let p = frame_payload(frame);
                &&& p.len() == 4
                &&& p[0] * 0x100 + p[1] == cols
                &&& p[2] * 0x100 + p[3] == rows
            },
        },
{
}

/// The relayed form of a frame is its type byte, its id field and its payload.
pub proof fn body_layout(id: Seq<char>, kind: u8, payload: Seq<u8>)
    ensures
        body_bytes(id, kind, payload).len() == 9 + payload.len(),
        body_bytes(id, kind, payload)[0] == kind,
        forall|i: int|
            0 <= i < 8 ==> #[trigger] body_bytes(id, kind, payload)[1 + i] == if i < encode_utf8(
                id,
            ).len() {
                encode_utf8(id)[i]
            } else {
                0u8
            },
        body_bytes(id, kind, payload).skip(9) == payload,
{
    assert(body_bytes(id, kind, payload).skip(9) =~= payload);
}

/// A reader goes by the number that the four bytes give: a message may have up to 16 MB, a
/// frame as well and at least nine bytes; any other length is refused with its value.
pub proof fn lengths_are_limited(field: Seq<u8>)
    requires
        field.len() == 4,
    ensures
        ({
            let n = (field[0] * 0x100_0000 + field[1] * 0x1_0000 + field[2] * 0x100 + field[3]) as nat;
            &&& accepted_message_len(field) == if n <= 0x100_0000 {
                Ok::<nat, ErrorView>(n)
            } else {
                Err(ErrorView::Ipc("message too large: "@ + decimal(n) + " bytes"@))
            }
            &&& accepted_frame_len(field) == if n < 9 {
                Err(ErrorView::Ipc("frame too short: "@ + decimal(n) + " bytes"@))
            } else if n <= 0x100_0000 {
                Ok::<nat, ErrorView>(n)
            } else {
                Err(ErrorView::Ipc("frame too large: "@ + decimal(n) + " bytes"@))
            }
        }),
{
}

/// A reader of messages takes the four bytes and as many as they announce, gives those out
/// as they are, and leaves the rest; a stream with fewer bytes is at its end.
pub proof fn one_message_is_taken(s: Seq<u8>)
    ensures
        s.len() < 4 ==> take_message(s).0 == Err::<Seq<u8>, ErrorView>(ErrorView::Io("early eof"@)),
        s.len() >= 4 ==> match accepted_message_len(s.take(4)) {
            Err(error) => take_message(s) == (Err::<Seq<u8>, ErrorView>(error), s.skip(4)),
            Ok(n) => if s.len() < 4 + n {
                take_message(s).0 == Err::<Seq<u8>, ErrorView>(ErrorView::Io("early eof"@))
            } else {
                &&& take_message(s).0 matches Ok(json)
                &&& json.len() == n
                &&& forall|i: int| 0 <= i < n ==> #[trigger] json[i] == s[4 + i]
                &&& take_message(s).1 == s.skip(4 + n as int)
            },
        },
{
}

/// A reader of frames takes the four bytes and as many as they announce, reads those as a
/// frame, and leaves the rest; a stream with fewer bytes is at its end.
pub proof fn one_frame_is_taken(s: Seq<u8>)
    ensures
        s.len() < 4 ==> take_frame(s).0 == Err::<(Seq<char>, FrameView), ErrorView>(
            ErrorView::Io("early eof"@),
        ),
        s.len() >= 4 ==> match accepted_frame_len(s.take(4)) {
            Err(error) => take_frame(s) == (
                Err::<(Seq<char>, FrameView), ErrorView>(error),
                s.skip(4),
            ),
            Ok(n) => if s.len() < 4 + n {
                take_frame(s).0 == Err::<(Seq<char>, FrameView), ErrorView>(
                    ErrorView::Io("early eof"@),
                )
            } else {
                take_frame(s) == (decoded_body(s.subrange(4, 4 + n as int)), s.skip(4 + n as int))
            },
        },
{
}

/// The bytes of a frame are read by their type byte: 1 is bytes, 2 a size of exactly four
/// bytes, 3 leaving, 16 a control message; the payload is all behind the first nine bytes.
/// Any other type is refused with its value.
pub proof fn bodies_are_read_by_their_type(body: Seq<u8>)
    requires
        body.len() >= 9,
    ensures
        ({
            let payload = body.skip(9);
            let read = decoded_body(body);
            &&& read matches Ok((id, _)) ==> id == id_text(body.subrange(1, 9))
            &&& body[0] == 1 ==> (read matches Ok((_, FrameView::Data(data))) && data == payload)
            &&& body[0] == 2 && payload.len() == 4 ==> (read matches Ok(
                (_, FrameView::Resize { cols, rows }),
            ) && cols == payload[0] * 0x100 + payload[1] && rows == payload[2] * 0x100
                + payload[3])
            &&& body[0] == 2 && payload.len() != 4 ==> read == Err::<
                (Seq<char>, FrameView),
                ErrorView,
            >(ErrorView::Ipc("resize frame expects 4 bytes, got "@ + decimal(payload.len())))
            &&& body[0] == 3 ==> (read matches Ok((_, FrameView::Detach)))
            &&& body[0] == 16 ==> (read matches Ok((_, FrameView::Control(bytes))) && bytes
                == payload)
            &&& body[0] != 1 && body[0] != 2 && body[0] != 3 && body[0] != 16 ==> read == Err::<
                (Seq<char>, FrameView),
                ErrorView,
            >(ErrorView::Ipc("unknown frame type: 0x"@ + hexadecimal(body[0] as nat)))
        }),
{
}

/// A text loses the NUL characters at its end, all of them and nothing else.
pub proof fn only_trailing_nuls_are_lost(s: Seq<char>)
    ensures
        trim_nul(s).is_prefix_of(s),
        trim_nul(s).len() > 0 ==> trim_nul(s).last() != '\0',
        forall|i: int| trim_nul(s).len() <= i < s.len() ==> #[trigger] s[i] == '\0',
    decreases s.len(),
{
    if s.len() > 0 && s.last() == '\0' {
        let fewer = s.drop_last();
        only_trailing_nuls_are_lost(fewer);
        assert forall|i: int| trim_nul(s).len() <= i < s.len() implies #[trigger] s[i] == '\0' by {
            if i < fewer.len() {
                assert(fewer[i] == s[i]);
            }
        }
    }
}

/// The id in a frame is the text of its field up to the NUL characters at the end, or empty
/// where the field is no UTF-8 text.
pub proof fn ids_are_the_text_of_their_field(field: Seq<u8>)
    ensures
        !valid_utf8(field) ==> id_text(field).len() == 0,
        valid_utf8(field) ==> id_text(field).is_prefix_of(decode_utf8(field)) && (forall|i: int|
            id_text(field).len() <= i < decode_utf8(field).len() ==> #[trigger] decode_utf8(
                field,
            )[i] == '\0') && (id_text(field).len() > 0 ==> id_text(field).last() != '\0'),
{
    only_trailing_nuls_are_lost(decode_utf8(field));
}

/// Control frames carry eight NUL characters as their id.
pub proof fn control_frames_have_a_blank_id()
    ensures
        control_id().len() == 8,
        forall|i: int| 0 <= i < 8 ==> #[trigger] control_id()[i] == '\0',
{
}

/// A reader of control frames gives out the payload of one, whatever its id; any other frame
/// is refused by what it is, and an error stays what it is.
pub proof fn only_control_frames_are_accepted(
    read: std::result::Result<(Seq<char>, FrameView), ErrorView>,
)
    ensures
        match read {
            Ok((_, FrameView::Control(payload))) => control_payload(read) == Ok::<
                Seq<u8>,
                ErrorView,
            >(payload),
            Ok((_, frame)) => control_payload(read) == Err::<Seq<u8>, ErrorView>(
                ErrorView::Ipc("expected Control frame, got "@ + frame_text(frame)),
            ),
            Err(error) => control_payload(read) == Err::<Seq<u8>, ErrorView>(error),
        },
{
}

/// A frame is shown by its kind and all that it carries.
pub proof fn frames_are_shown_whole(bytes: Seq<u8>, next: u8, cols: u16, rows: u16)
    ensures
        frame_text(FrameView::Data(bytes)) == "Data(["@ + comma_separated(bytes) + "])"@,
        frame_text(FrameView::Control(bytes)) == "Control(["@ + comma_separated(bytes) + "])"@,
        frame_text(FrameView::Detach) == "Detach"@,
        frame_text(FrameView::Resize { cols, rows }) == "Resize { cols: "@ + decimal(cols as nat)
            + ", rows: "@ + decimal(rows as nat) + " }"@,
        comma_separated(Seq::empty()).len() == 0,
        comma_separated(seq![next]) == decimal(next as nat),
        bytes.len() > 0 ==> comma_separated(bytes.push(next)) == comma_separated(bytes) + ", "@
            + decimal(next as nat),
{
    assert(bytes.push(next).drop_last() =~= bytes);
}

/// Receiving sets the payload of a control frame aside, whatever its id, and goes on behind
/// it; any other frame, or an error, ends it there.
pub proof fn receiving_goes_on_behind_control_frames(s: Seq<u8>)
    ensures
        match take_frame(s) {
            (Ok((_, FrameView::Control(payload))), rest) => received(s) == (Received {
                controls: seq![payload] + received(rest).controls,
                frame: received(rest).frame,
                rest: received(rest).rest,
            }),
            (frame, rest) => received(s) == (Received { controls: Seq::empty(), frame, rest }),
        },
{
    crate::ipc::codec::bytes_taken(s);
}

/// The end of a stream is told as such.
pub proof fn end_of_stream_is_told()
    ensures
        early_eof() == ErrorView::Io("early eof"@),
{
}

/// The outcome of a read counts by the whole of what was read, or by the error.
pub proof fn outcomes_by_content(
    frame: Result<(String, BinaryFrame)>,
    bytes: Result<Vec<u8>>,
    len: Result<usize>,
    controls: Seq<Vec<u8>>,
)
    ensures
        match frame {
            Ok((id, frame_read)) => frame_outcome(frame) == Ok::<
                (Seq<char>, FrameView),
                ErrorView,
            >((id@, frame_read@)),
            Err(error) => frame_outcome(frame) == Err::<(Seq<char>, FrameView), ErrorView>(error@),
        },
        match bytes {
            Ok(read) => bytes_outcome(bytes) == Ok::<Seq<u8>, ErrorView>(read@),
            Err(error) => bytes_outcome(bytes) == Err::<Seq<u8>, ErrorView>(error@),
        },
        match len {
            Ok(n) => len_outcome(len) == Ok::<nat, ErrorView>(n as nat),
            Err(error) => len_outcome(len) == Err::<nat, ErrorView>(error@),
        },
        payloads(controls).len() == controls.len(),
        forall|i: int| 0 <= i < controls.len() ==> #[trigger] payloads(controls)[i] == controls[i]@,
{
}

} // verus!
