//! The client's end of a session that carries several terminals over one connection.
//!
//! Frames for terminals and answers to control requests arrive on one stream. A control
//! request waits in a slot that both halves of the connection share.

use vstd::prelude::*;
use vstd::string::*;

use crate::error::{ErrorView, KexshError, Result};
use crate::ipc::codec;
use crate::ipc::codec::{bytes_taken, frame_outcome};
use crate::ipc::codec_laws;
use crate::ipc::message::{BinaryFrame, FrameView, MuxResponse, Response};

verus! {

/// How long a control request waits for its answer, in seconds.
pub const CONTROL_TIMEOUT_SECS: u64 = 5;

/// What a reader that sets control frames aside makes of the front of a stream: the
/// payloads set aside, the first other frame or the error, and what is left.
pub struct Received {
    pub controls: Seq<Seq<u8>>,
    pub frame: std::result::Result<(Seq<char>, FrameView), ErrorView>,
    pub rest: Seq<u8>,
}

/// What a reader that sets control frames aside makes of the front of a stream.
pub open spec fn received(s: Seq<u8>) -> Received
    decreases s.len(),
{
    proof {
        bytes_taken(s);
    }
    match codec::take_frame(s) {
        (Ok((_, FrameView::Control(payload))), rest) => {
            let later = received(rest);
            Received { controls: seq![payload] + later.controls, ..later }
        },
        (frame, rest) => Received { controls: Seq::empty(), frame, rest },
    }
}

/// The contents of a list of payloads.
pub open spec fn payloads(controls: Seq<Vec<u8>>) -> Seq<Seq<u8>> {
    controls.map_values(|payload: Vec<u8>| payload@)
}

/// Reads frames off the front of a stream up to the first that is no control frame, and
/// sets the payloads of the control frames before it aside.
pub fn recv_frame(stream: &mut &[u8]) -> (result: (Vec<Vec<u8>>, Result<(String, BinaryFrame)>))
    ensures
        received(old(stream)@) == (Received {
            controls: payloads(result.0@),
            frame: frame_outcome(result.1),
            rest: final(stream)@,
        }),
{
    let ghost all = stream@;
    let mut controls: Vec<Vec<u8>> = Vec::new();
    proof {
        assert(payloads(controls@) + received(stream@).controls =~= received(all).controls);
    }
    loop
        invariant
            all == old(stream)@,
            received(all) == (Received {
                controls: payloads(controls@) + received(stream@).controls,
                ..received(stream@)
            }),
        decreases stream@.len(),
    {
        let ghost before = stream@;
        let ghost earlier = controls@;
        proof {
            bytes_taken(before);
        }
        match codec::read_binary_frame(stream) {
            Ok((_, BinaryFrame::Control(payload))) => {
                controls.push(payload);
                proof {
                    assert(payloads(controls@) =~= payloads(earlier).push(payload@));
                    assert(payloads(controls@) + received(stream@).controls =~= payloads(earlier)
                        + received(before).controls);
                }
            },
            other => {
                proof {
                    assert(payloads(controls@) + Seq::<Seq<u8>>::empty() =~= payloads(controls@));
                }
                return (controls, other);
            },
        }
    }
}

/// What to do with a frame that was read.
#[derive(Debug, PartialEq, Eq)]
pub enum Arrival {
    /// Decode the payload, hand it to [`ControlSlot::answer`], and read on.
    Control(Vec<u8>),
    /// Hand the frame to the session.
    Frame(String, BinaryFrame),
}

/// Tells control frames from the frames that the session gets.
pub fn sort_frame(id: String, frame: BinaryFrame) -> (arrival: Arrival)
    ensures
        match frame {
            BinaryFrame::Control(payload) => arrival == Arrival::Control(payload),
            _ => arrival == Arrival::Frame(id, frame),
        },
{
    match frame {
        BinaryFrame::Control(payload) => Arrival::Control(payload),
        other => Arrival::Frame(id, other),
    }
}

/// Where a control request waits for its answer.
pub struct ControlSlot<T> {
    waiting: Option<T>,
}

impl<T> View for ControlSlot<T> {
    type V = Option<T>;

    closed spec fn view(&self) -> Option<T> {
        self.waiting
    }
}

/// Who gets an answer that arrived, and who waits afterwards. An answer that could not be
/// decoded goes to nobody.
pub open spec fn answered<T>(waiting: Option<T>, decoded: Option<MuxResponse>) -> (
    Option<(T, MuxResponse)>,
    Option<T>,
) {
    match (waiting, decoded) {
        (Some(waiter), Some(response)) => (Some((waiter, response)), None),
        _ => (None, waiting),
    }
}

impl<T> ControlSlot<T> {
    /// A slot in which nobody waits.
    pub fn new() -> (slot: ControlSlot<T>)
        ensures
            slot@ is None,
    {
        ControlSlot { waiting: None }
    }

    /// Lets a request wait; one that waited before is given up.
    pub fn wait(&mut self, waiter: T)
        ensures
            final(self)@ == Some(waiter),
    {
        self.waiting = Some(waiter);
    }

    /// Takes an answer that arrived and says who gets it.
    pub fn answer(&mut self, decoded: Option<MuxResponse>) -> (delivery: Option<(T, MuxResponse)>)
        ensures
            (delivery, final(self)@) == answered(old(self)@, decoded),
    {
        match decoded {
            Some(response) => match self.waiting.take() {
                Some(waiter) => Some((waiter, response)),
                None => None,
            },
            None => None,
        }
    }
}

/// How the wait for an answer ended.
#[derive(Debug, PartialEq, Eq)]
pub enum ControlWait {
    Answered(MuxResponse),
    TimedOut,
    Closed,
}

/// What a control request gives back, by how its wait ended.
pub fn control_result(wait: ControlWait) -> (response: Result<MuxResponse>)
    ensures
        match wait {
            ControlWait::Answered(answer) => response == Ok::<MuxResponse, KexshError>(answer),
            ControlWait::TimedOut => response matches Err(error) && error@ == ErrorView::Ipc(
                "control response timed out"@,
            ),
            ControlWait::Closed => response matches Err(error) && error@ == ErrorView::Ipc(
                "control response channel closed"@,
            ),
        },
{
    match wait {
        ControlWait::Answered(answer) => Ok(answer),
        ControlWait::TimedOut => Err(KexshError::Ipc("control response timed out".to_owned())),
        ControlWait::Closed => Err(
            KexshError::Ipc("control response channel closed".to_owned()),
        ),
    }
}

/// Whether the server's answer to the opening request opens the session.
pub fn check_handshake(response: Response) -> (opened: Result<()>)
    ensures
        match response {
            Response::MultiplexAttached { .. } => opened is Ok,
            Response::Error { message } => opened matches Err(error) && error@ == ErrorView::Ipc(
                message@,
            ),
            _ => opened matches Err(error) && error@ == ErrorView::Ipc(
                "unexpected handshake response"@,
            ),
        },
{
    match response {
        Response::MultiplexAttached { .. } => Ok(()),
        Response::Error { message } => Err(KexshError::Ipc(message)),
        _ => Err(KexshError::Ipc("unexpected handshake response".to_owned())),
    }
}

/// The error for a session whose connection failed.
pub fn connect_error(path: &str, reason: &str) -> (error: KexshError)
    ensures
        error@ == ErrorView::Ipc("connect to "@ + path@ + ": "@ + reason@),
{
    KexshError::Ipc("connect to ".to_owned().concat(path).concat(": ").concat(reason))
}

/// The request that waited last gets the answer, and the slot is empty afterwards.
pub proof fn latest_request_is_answered<T>(waiter: T, response: MuxResponse)
    ensures
        answered(Some(waiter), Some(response)) == (
            Some((waiter, response)),
            Option::<T>::None,
        ),
{
}

/// An answer is given out once: a second one that arrives goes to nobody.
pub proof fn second_answer_goes_to_nobody<T>(
    waiting: Option<T>,
    first: MuxResponse,
    second: Option<MuxResponse>,
)
    ensures
        answered(answered(waiting, Some(first)).1, second).0 is None,
{
}

/// A payload that is no answer leaves whoever waits waiting.
pub proof fn garbled_answer_keeps_waiting<T>(waiting: Option<T>)
    ensures
        answered(waiting, None) == (Option::<(T, MuxResponse)>::None, waiting),
{
}

/// A control frame never surfaces as a frame of the session.
pub proof fn control_frames_stay_inside(s: Seq<u8>)
    ensures
        received(s).frame matches Ok((_, frame)) ==> !(frame is Control),
    decreases s.len(),
{
    bytes_taken(s);
    match codec::take_frame(s) {
        (Ok((_, FrameView::Control(_))), rest) => control_frames_stay_inside(rest),
        _ => {},
    }
}

/// A control frame that was written is set aside, and what follows it is received as if
/// the control frame were not there.
pub proof fn control_frame_is_set_aside(payload: Seq<u8>, rest: Seq<u8>)
    requires
        9 + payload.len() <= codec::MAX_MESSAGE_SIZE,
    ensures
        received(codec::frame_bytes(codec::control_id(), FrameView::Control(payload)) + rest) == (
        Received { controls: seq![payload] + received(rest).controls, ..received(rest) }),
{
    codec_laws::control_round_trip(payload, rest);
}

/// Any other frame that was written for a terminal is the next that is received.
pub proof fn terminal_frame_is_received(id: Seq<char>, frame: FrameView, rest: Seq<u8>)
    requires
        9 + codec::frame_payload(frame).len() <= codec::MAX_MESSAGE_SIZE,
        vstd::utf8::encode_utf8(id).len() <= 8,
        id.len() > 0 ==> id.last() != '\0',
        !(frame is Control),
    ensures
        received(codec::frame_bytes(id, frame) + rest) == (Received {
            controls: Seq::empty(),
            frame: Ok((id, frame)),
            rest,
        }),
{
    codec_laws::frame_round_trip_with_id(id, frame, rest);
}

/// An answer that arrives while nobody waits goes to nobody, and nobody waits afterwards.
pub proof fn unasked_answer_goes_to_nobody<T>(decoded: Option<MuxResponse>)
    ensures
        answered::<T>(None, decoded) == (Option::<(T, MuxResponse)>::None, Option::<T>::None),
{
}

} // verus!
