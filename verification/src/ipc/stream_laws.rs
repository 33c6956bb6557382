//! What is written to a stream is what is read off it, one message or frame at a time.

use vstd::prelude::*;
use vstd::utf8::encode_utf8;

use crate::error::Result;
use crate::ipc::codec::{
    self, decode_binary_frame, encode_binary_frame, frame_len, message_len, read_binary_frame,
    read_control_frame, read_message, write_binary_frame, write_control_frame, write_message,
};
use crate::ipc::codec_laws;
use crate::ipc::message::{BinaryFrame, FrameView, MuxResponse};
use crate::ipc::mux::{self, recv_frame, ControlSlot};

verus! {

/// A message that was written to an empty stream is the first that is read off it, whatever
/// was written behind it, and what was written behind it is left.
pub proof fn written_messages_are_read(
    out: &mut Vec<u8>,
    json: &[u8],
    input: &mut &[u8],
    rest: Seq<u8>,
    read: Result<Vec<u8>>,
)
    requires
        call_ensures(write_message, (out, json), ()),
        call_ensures(read_message, (input,), read),
        old(out)@.len() == 0,
        old(input)@ == final(out)@ + rest,
        json@.len() <= 16 * 1024 * 1024,
    ensures
        (read matches Ok(bytes) && bytes@ == json@),
        final(input)@ == rest,
{
    assert(old(out)@ + codec::message_bytes(json@) =~= codec::message_bytes(json@));
    codec_laws::message_round_trip(json@, rest);
}

/// Writing puts the message behind what the stream holds, and every byte of that stays.
pub proof fn writing_goes_to_the_end(out: &mut Vec<u8>, json: &[u8])
    requires
        call_ensures(write_message, (out, json), ()),
    ensures
        old(out)@.is_prefix_of(final(out)@),
        json@.is_suffix_of(final(out)@),
        final(out)@.len() == old(out)@.len() + 4 + json@.len(),
{
    assert(final(out)@ =~= old(out)@ + codec::message_bytes(json@));
    let n = final(out)@.len() as int;
    assert(final(out)@.subrange(n - json@.len(), n) =~= json@);
}

/// A frame that was written for a terminal is read back as that frame for that terminal, and
/// what was written behind it is left.
pub proof fn written_frames_are_read(
    out: &mut Vec<u8>,
    id: &str,
    frame: BinaryFrame,
    input: &mut &[u8],
    rest: Seq<u8>,
    read: Result<(String, BinaryFrame)>,
)
    requires
        call_ensures(write_binary_frame, (out, id, &frame), ()),
        call_ensures(read_binary_frame, (input,), read),
        old(out)@.len() == 0,
        old(input)@ == final(out)@ + rest,
        encode_utf8(id@).len() <= 8,
        id@.len() > 0 ==> id@.last() != '\0',
        match frame {
            BinaryFrame::Data(data) => data@.len() <= 16 * 1024 * 1024 - 9,
            BinaryFrame::Control(payload) => payload@.len() <= 16 * 1024 * 1024 - 9,
            _ => true,
        },
    ensures
        final(input)@ == rest,
        (read matches Ok((to, got)) && to@ == id@ && match frame {
            BinaryFrame::Data(data) => got matches BinaryFrame::Data(bytes) && bytes@ == data@,
            BinaryFrame::Resize { cols, rows } => got matches BinaryFrame::Resize {
                cols: c,
                rows: r,
            } && c == cols && r == rows,
            BinaryFrame::Detach => got is Detach,
            BinaryFrame::Control(payload) => got matches BinaryFrame::Control(bytes) && bytes@
                == payload@,
        }),
{
    let bytes = codec::frame_bytes(id@, frame@);
    assert(old(out)@ + bytes =~= bytes);
    codec_laws::frame_round_trip_with_id(id@, frame@, rest);
}

/// A control frame that was written gives its payload back, and is set aside by a reader that
/// waits for other frames.
pub proof fn written_control_frames_are_read(
    out: &mut Vec<u8>,
    payload: Vec<u8>,
    input: &mut &[u8],
    rest: Seq<u8>,
    read: Result<Vec<u8>>,
)
    requires
        call_ensures(write_control_frame, (out, payload), ()),
        call_ensures(read_control_frame, (input,), read),
        old(out)@.len() == 0,
        old(input)@ == final(out)@ + rest,
        payload@.len() <= 16 * 1024 * 1024 - 9,
    ensures
        (read matches Ok(bytes) && bytes@ == payload@),
        final(input)@ == rest,
{
    let bytes = codec::frame_bytes(codec::control_id(), FrameView::Control(payload@));
    assert(old(out)@ + bytes =~= bytes);
    codec_laws::control_round_trip(payload@, rest);
}

/// A reader that waits for a terminal's frame hands out the payloads of the control frames
/// before it, in order, and never a control frame itself.
pub proof fn control_payloads_are_handed_out(
    out: &mut Vec<u8>,
    first: Vec<u8>,
    later: &mut Vec<u8>,
    id: &str,
    data: Vec<u8>,
    input: &mut &[u8],
    rest: Seq<u8>,
    received: (Vec<Vec<u8>>, Result<(String, BinaryFrame)>),
)
    requires
        call_ensures(write_control_frame, (out, first), ()),
        call_ensures(write_binary_frame, (later, id, &BinaryFrame::Data(data)), ()),
        call_ensures(recv_frame, (input,), received),
        old(out)@.len() == 0,
        old(later)@ == final(out)@,
        old(input)@ == final(later)@ + rest,
        first@.len() <= 16 * 1024 * 1024 - 9,
        data@.len() <= 16 * 1024 * 1024 - 9,
        encode_utf8(id@).len() <= 8,
        id@.len() > 0 ==> id@.last() != '\0',
    ensures
        received.0@.len() == 1,
        received.0@[0]@ == first@,
        (received.1 matches Ok((to, BinaryFrame::Data(bytes))) && to@ == id@ && bytes@ == data@),
        final(input)@ == rest,
{
    let control = codec::frame_bytes(codec::control_id(), FrameView::Control(first@));
    let frame = FrameView::Data(data@);
    let bytes = codec::frame_bytes(id@, frame);
    assert(old(out)@ + control =~= control);
    assert(final(later)@ + rest =~= control + (bytes + rest));
    mux::control_frame_is_set_aside(first@, bytes + rest);
    mux::terminal_frame_is_received(id@, frame, rest);
    assert(mux::payloads(received.0@).len() == received.0@.len());
    assert(mux::payloads(received.0@)[0] == received.0@[0]@);
}

/// A body that was encoded is decoded as what it was encoded from.
pub proof fn encoded_bodies_are_decoded(
    id: &str,
    data: &[u8],
    body: Vec<u8>,
    relayed: &[u8],
    decoded: Result<(String, BinaryFrame)>,
)
    requires
        call_ensures(encode_binary_frame, (id, codec::FRAME_TYPE_DATA, data), body),
        relayed@ == body@,
        call_ensures(decode_binary_frame, (relayed,), decoded),
        encode_utf8(id@).len() <= 8,
        id@.len() > 0 ==> id@.last() != '\0',
        data@.len() <= 16 * 1024 * 1024 - 9,
    ensures
        body@.len() == 9 + data@.len(),
        (decoded matches Ok((to, BinaryFrame::Data(bytes))) && to@ == id@ && bytes@ == data@),
{
    let frame = FrameView::Data(data@);
    let nothing = Seq::<u8>::empty();
    let whole = codec::frame_bytes(id@, frame);
    codec_laws::frame_round_trip_with_id(id@, frame, nothing);
    codec_laws::relayed_frame_is_the_body(id@, frame);
    assert(whole + nothing =~= whole);
    assert(whole.subrange(4, whole.len() as int) =~= body@);
}

/// A length field stands for its four bytes, the highest first; messages are accepted up to
/// 16 MB, frames from nine bytes up to as many.
pub proof fn lengths_are_read_highest_first(
    field: [u8; 4],
    message: Result<usize>,
    frame: Result<usize>,
)
    requires
        call_ensures(message_len, (field,), message),
        call_ensures(frame_len, (field,), frame),
    ensures
        ({
            let len = field@[0] * 0x100_0000 + field@[1] * 0x1_0000 + field@[2] * 0x100 + field@[3];
            &&& message is Ok <==> len <= 16 * 1024 * 1024
            &&& frame is Ok <==> 9 <= len <= 16 * 1024 * 1024
            &&& message matches Ok(n) ==> n == len
            &&& frame matches Ok(n) ==> n == len
        }),
{
}

/// Whoever waited last gets the answer, once, and nobody waits afterwards.
pub proof fn the_last_to_wait_is_answered<T>(
    slot: &mut ControlSlot<T>,
    waiter: T,
    waiting: &mut ControlSlot<T>,
    response: MuxResponse,
    delivery: Option<(T, MuxResponse)>,
    empty: &mut ControlSlot<T>,
    again: Option<MuxResponse>,
    second: Option<(T, MuxResponse)>,
)
    requires
        call_ensures(ControlSlot::<T>::wait, (slot, waiter), ()),
        *old(waiting) == *final(slot),
        call_ensures(ControlSlot::<T>::answer, (waiting, Some(response)), delivery),
        *old(empty) == *final(waiting),
        call_ensures(ControlSlot::<T>::answer, (empty, again), second),
    ensures
        (delivery matches Some((to, answer)) && to == waiter && answer == response),
        second is None,
{
}

} // verus!
