//! What holds between a client's end of a session and the server's: what one sends is what
//! the other acts on.

use vstd::prelude::*;

use crate::config::Config;
use crate::error::{KexshError, Result};
use crate::ipc::client;
use crate::ipc::message::{BinaryFrame, Layout, MuxRequest, MuxResponse, Request, Response};
use crate::ipc::mux::{self, check_handshake, control_result, sort_frame, Arrival, ControlWait};
use crate::server::connection::{
    attach_step, finish_attach, finish_open, output_frame, Action as Answer, AttachStep,
    CloudCommand, Reply,
};
use crate::server::check_may_start;
use crate::server::multiplex::{MuxSession, MuxStart, Route};
use crate::server::multiplex_laws::attached_in_order;
use crate::terminal::attach::{
    begin_split, close_notice, close_request, cursor_target, farewell, layout_notice, opening,
    resize_frame, session_step, split_added, split_created, split_notice, status_line, window_size,
    Action, Opening, Pane, Rect, SessionEvent, SessionStep, SplitDirection, SplitStep,
};
use crate::terminal::laws;
use crate::terminal::switch::{is_accepted, stale_request};
use crate::text;

verus! {

/// What a terminal put out arrives at the client under the terminal's id, byte for byte, and
/// is drawn there whatever has the focus.
pub proof fn output_reaches_its_screen(
    id: &str,
    buf: &[u8],
    n: usize,
    to: String,
    frame: BinaryFrame,
    arrival: Arrival,
    focused: &str,
    step: SessionStep,
)
    requires
        0 < n <= buf@.len(),
        call_ensures(output_frame, (id, buf, Some(n)), Some((to, frame))),
        call_ensures(sort_frame, (to, frame), arrival),
        call_ensures(
            session_step,
            (
                SessionEvent::Output {
                    id: arrival->Frame_0,
                    data: (arrival->Frame_1)->Data_0,
                },
                focused,
            ),
            step,
        ),
    ensures
        arrival matches Arrival::Frame(_, BinaryFrame::Data(_)),
        (step matches SessionStep::Draw { id: at, data: bytes } && at@ == id@ && bytes@.len() == n
            && forall|i: int| 0 <= i < n ==> bytes@[i] == buf@[i]),
{
}

/// Output that ended, or could not be read, makes no frame.
pub proof fn silence_makes_no_frame(
    id: &str,
    buf: &[u8],
    ended: Option<(String, BinaryFrame)>,
    failed: Option<(String, BinaryFrame)>,
)
    requires
        call_ensures(output_frame, (id, buf, Some(0usize)), ended),
        call_ensures(output_frame, (id, buf, None), failed),
    ensures
        ended is None,
        failed is None,
{
}

/// Keys that are typed while a terminal has the focus are written, byte for byte, by that
/// terminal's handle, or to the one terminal of a connection that has just one.
pub proof fn keys_reach_the_focused_terminal<H>(
    bytes: Vec<u8>,
    focused: &str,
    step: SessionStep,
    session: MuxSession<H>,
    handle: Option<&H>,
    route: Route<H>,
    alone: AttachStep,
)
    requires
        call_ensures(
            session_step,
            (SessionEvent::Input(Action::SendToTerminal(bytes)), focused),
            step,
        ),
        call_ensures(MuxSession::<H>::handle_of, (&session, focused), handle),
        call_ensures(
            MuxSession::<H>::route,
            (&session, Ok((step->Send_id, step->Send_frame))),
            route,
        ),
        call_ensures(attach_step, (Ok((step->Send_id, step->Send_frame)),), alone),
    ensures
        step is Send,
        handle matches Some(handle) ==> (route matches Route::Write { id, to, data } && id@
            == focused@ && to == handle && data@ == bytes@),
        handle is None ==> route is Ignore,
        (alone matches AttachStep::Write(data) && data@ == bytes@),
{
}

/// A terminal is told the width of its pane as its columns and the height as its rows, by its
/// own handle.
pub proof fn panes_set_the_size_of_their_terminal<H>(
    rect: Rect,
    frame: BinaryFrame,
    id: String,
    shown: &str,
    session: MuxSession<H>,
    handle: Option<&H>,
    route: Route<H>,
    alone: AttachStep,
)
    requires
        shown@ == id@,
        call_ensures(resize_frame, (rect,), frame),
        call_ensures(MuxSession::<H>::handle_of, (&session, shown), handle),
        call_ensures(MuxSession::<H>::route, (&session, Ok((id, frame))), route),
        call_ensures(attach_step, (Ok((id, frame)),), alone),
    ensures
        handle matches Some(handle) ==> (route matches Route::Resize { id: at, to, cols, rows }
            && at@ == id@ && to == handle && cols == rect.width && rows == rect.height),
        handle is None ==> route is Ignore,
        (alone matches AttachStep::Resize { cols, rows } && cols == rect.width && rows
            == rect.height),
{
}

/// A client leaves when the user detaches and when nothing can arrive any more, and what it
/// sends then ends the session at the other end too.
pub proof fn leaving_ends_the_session<H>(
    focused: &str,
    detached: SessionStep,
    ended: SessionStep,
    frame: (String, BinaryFrame),
    session: MuxSession<H>,
    route: Route<H>,
    alone: AttachStep,
)
    requires
        call_ensures(session_step, (SessionEvent::Input(Action::Detach), focused), detached),
        call_ensures(session_step, (SessionEvent::Ended, focused), ended),
        call_ensures(farewell, (), frame),
        call_ensures(MuxSession::<H>::route, (&session, Ok(frame)), route),
        call_ensures(attach_step, (Ok(frame),), alone),
    ensures
        detached is Leave,
        ended is Leave,
        route is Leave,
        alone is Leave,
{
}

/// Only detaching, or the end of what can arrive, makes a client leave.
pub proof fn clients_leave_for_no_other_reason(
    event: SessionEvent,
    focused: &str,
    step: SessionStep,
)
    requires
        call_ensures(session_step, (event, focused), step),
        step is Leave,
    ensures
        event is Ended || event == SessionEvent::Input(Action::Detach),
{
}

/// What the user asks of the panes is done in the direction that was asked for, and a new size
/// of the window is taken as it is.
pub proof fn panes_change_as_asked(
    event: SessionEvent,
    focused: &str,
    step: SessionStep,
)
    requires
        call_ensures(session_step, (event, focused), step),
    ensures
        event matches SessionEvent::Resized { cols, rows } ==> (
        step matches SessionStep::TakeSize { rows: r, cols: c } && r == rows && c == cols),
        event matches SessionEvent::Input(Action::PaneNavigate(way)) ==> (
        step matches SessionStep::Navigate(taken) && taken == way),
        event matches SessionEvent::Input(Action::PaneResize(way)) ==> (
        step matches SessionStep::ResizePane(taken) && taken == way),
        event == SessionEvent::Input(Action::PaneSplitHorizontal) ==> (
        step matches SessionStep::Split(way) && way is Horizontal),
        event == SessionEvent::Input(Action::PaneSplitVertical) ==> (
        step matches SessionStep::Split(way) && way is Vertical),
        event matches SessionEvent::Input(Action::ViewSwitch(n)) ==> (
        step matches SessionStep::SwitchView(m) && m == n),
        event == SessionEvent::Input(Action::PaneClose) ==> step is ClosePane,
        event == SessionEvent::Input(Action::ViewList) ==> step is ShowViews,
        event == SessionEvent::Input(Action::ModeChanged) ==> step is DrawStatus,
        event == SessionEvent::Input(Action::Other) ==> step is Wait,
{
}

/// A session that the server starts opens at the client, and one that is refused fails with
/// the server's reason.
pub proof fn started_sessions_open<H>(
    known: Vec<String>,
    opened: Vec<Option<H>>,
    start: MuxStart<H>,
    taken: Result<()>,
    message: String,
    refused: Result<()>,
)
    requires
        known@.len() == opened@.len(),
        call_ensures(MuxSession::<H>::start, (known, opened), start),
        call_ensures(check_handshake, (start.response,), taken),
        call_ensures(check_handshake, (Response::Error { message },), refused),
    ensures
        taken is Ok,
        (refused matches Err(error) && error@.message() == "IPC error: "@ + message@),
        start.serve <==> exists|k: int| 0 <= k < opened@.len() && (#[trigger] opened@[k]) is Some,
{
    let places = attached_in_order(text::contents(known@), opened@);
    if start.serve {
        assert(opened@[places[0]] is Some);
    }
    if exists|k: int| 0 <= k < opened@.len() && (#[trigger] opened@[k]) is Some {
        let k = choose|k: int| 0 <= k < opened@.len() && (#[trigger] opened@[k]) is Some;
        assert(places.contains(k));
    }
}

/// No answer but that of a started session opens one.
pub proof fn nothing_else_opens_a_session(response: Response, opened: Result<()>)
    requires
        call_ensures(check_handshake, (response,), opened),
    ensures
        opened is Ok <==> response is MultiplexAttached,
{
}

/// A split asks for a terminal unless the focused pane has no room for two, then adds that
/// very terminal to the session, and then shows it and tells the view, if any; where adding
/// it failed it is killed, and where none was created nothing is done.
pub proof fn splits_end_with_a_shown_or_a_killed_terminal(
    id: String,
    refused: MuxResponse,
    added: MuxResponse,
    failed: SplitStep,
    asked: SplitStep,
    ended: SplitStep,
    view: &str,
    notice: Option<Request>,
    silence: Option<Request>,
)
    requires
        !(refused is TerminalCreated),
        call_ensures(split_created, (refused,), failed),
        call_ensures(split_created, (MuxResponse::TerminalCreated { id },), asked),
        call_ensures(split_added, (asked->Ask_id, added), ended),
        call_ensures(split_notice, (Some(view), id), notice),
        call_ensures(split_notice, (None, id), silence),
    ensures
        failed is Stop,
        (asked matches SplitStep::Ask { id: new, request: MuxRequest::AddTerminal { id: to } }
            && new@ == id@ && to@ == id@),
        added is Done ==> (ended matches SplitStep::Show { id: new } && new@ == id@),
        !(added is Done) ==> (ended matches SplitStep::Undo {
            request: MuxRequest::KillTerminal { id: to },
        } && to@ == id@),
        (notice matches Some(Request::ViewAddTerminal { view_id, terminal_id }) && view_id@
            == view@ && terminal_id@ == id@),
        silence is None,
{
}

/// A pane is divided where it has at least four columns or rows in the way of the split; a
/// focused terminal that no pane shows is not in the way.
pub proof fn splits_need_room(
    direction: SplitDirection,
    panes: Vec<Pane>,
    focused: &str,
    request: Option<MuxRequest>,
    k: int,
)
    requires
        call_ensures(begin_split, (direction, &panes, focused), request),
        0 <= k <= panes@.len(),
        forall|j: int| 0 <= j < k ==> (#[trigger] panes@[j]).id@ != focused@,
        k < panes@.len() ==> panes@[k].id@ == focused@,
    ensures
        request is None <==> k < panes@.len() && match direction {
            SplitDirection::Vertical => panes@[k].rect.width < 4,
            SplitDirection::Horizontal => panes@[k].rect.height < 4,
        },
        request matches Some(asked) ==> asked == (MuxRequest::CreateTerminal { name: None }),
{
    laws::terminals_are_shown_in_their_first_pane(panes@, focused@);
}

/// A pane that is closed lets go of its own terminal, and the view, if any, loses that one; a
/// terminal that a switch leaves behind is let go of in the same way.
pub proof fn closed_panes_let_go_of_their_terminal(
    closed: &str,
    id: String,
    request: MuxRequest,
    stale: MuxRequest,
    view: &str,
    notice: Option<Request>,
    silence: Option<Request>,
)
    requires
        id@ == closed@,
        call_ensures(close_request, (closed,), request),
        call_ensures(stale_request, (closed,), stale),
        call_ensures(close_notice, (Some(view), id), notice),
        call_ensures(close_notice, (None, id), silence),
    ensures
        (request matches MuxRequest::RemoveTerminal { id: to } && to@ == closed@),
        (stale matches MuxRequest::RemoveTerminal { id: to } && to@ == closed@),
        (notice matches Some(Request::ViewRemoveTerminal { view_id, terminal_id }) && view_id@
            == view@ && terminal_id@ == closed@),
        silence is None,
{
}

/// A view is told the layout and the focus as they are; outside a view nobody is told.
pub proof fn views_are_told_their_layout(
    view: &str,
    layout: Layout,
    focused: &str,
    notice: Option<Request>,
    silence: Option<Request>,
)
    requires
        call_ensures(layout_notice, (Some(view), layout, focused), notice),
        call_ensures(layout_notice, (None, layout, focused), silence),
    ensures
        (notice matches Some(Request::ViewUpdateLayout { view_id, layout: told, focused: focus })
            && view_id@ == view@ && told == layout && focus@ == focused@),
        silence is None,
{
}

/// A session with a saved layout restores it and splits nothing; one without, or with a saved
/// layout that arranges nothing, gives each further terminal a pane. Either way each terminal
/// has a screen, the one the session is named after first.
pub proof fn saved_layouts_are_restored(
    name: &str,
    extra: Vec<String>,
    layout: Layout,
    restored: Opening,
    fresh: Opening,
    k: int,
)
    requires
        call_ensures(opening, (name, &extra, Some(layout)), restored),
        call_ensures(opening, (name, &extra, None), fresh),
    ensures
        !layout.is_blank() ==> restored.restore == Some(layout) && restored.splits@.len() == 0,
        layout.is_blank() ==> restored.restore is None && restored.splits@ == fresh.splits@,
        fresh.restore is None,
        fresh.splits@.len() == extra@.len(),
        fresh.screens@.len() == extra@.len() + 1,
        fresh.screens@[0]@ == name@,
        0 <= k < extra@.len() ==> fresh.splits@[k]@ == extra@[k]@ && fresh.screens@[k + 1]@
            == extra@[k]@,
        text::contents(restored.screens@) == text::contents(fresh.screens@),
{
    let screens = text::contents(fresh.screens@);
    assert(screens.len() == fresh.screens@.len());
    assert(screens[0] == fresh.screens@[0]@);
    if 0 <= k < extra@.len() {
        assert(screens[k + 1] == fresh.screens@[k + 1]@);
        assert(screens[k + 1] == text::contents(extra@)[k]);
    }
}

/// A connection for one terminal, and a request to sync one, go on where the output could be
/// opened; where it could not, the first ends with the error and the second is answered with
/// it, and the cloud is not asked.
pub proof fn output_must_open<P>(
    id: String,
    name: Option<String>,
    opened: Result<()>,
    accepted: Result<Reply>,
    action: Answer<P>,
)
    requires
        call_ensures(finish_attach, (opened,), accepted),
        call_ensures(finish_open::<P>, (id, name, opened), action),
    ensures
        opened is Ok ==> (accepted matches Ok(reply) && reply.response is Done && !reply.notify),
        opened is Ok ==> (action matches Answer::Cloud(CloudCommand::Sync { id: of, name: called })
            && of@ == id@ && text::opt_content(called) == text::opt_content(name)),
        opened matches Err(error) ==> (accepted matches Err(told) && told == error),
        opened matches Err(error) ==> (action matches Answer::Answer(reply) && !reply.notify && (
        reply.response matches Response::Error { message } && message@ == error@.message())),
{
}

/// A request within a session gives back the answer as it came, and a wait that ended without
/// one is an error; a switch goes by plain success alone.
pub proof fn answers_are_given_back(
    answer: MuxResponse,
    given: Result<MuxResponse>,
    late: Result<MuxResponse>,
    lost: Result<MuxResponse>,
    accepted: bool,
)
    requires
        call_ensures(control_result, (ControlWait::Answered(answer),), given),
        call_ensures(control_result, (ControlWait::TimedOut,), late),
        call_ensures(control_result, (ControlWait::Closed,), lost),
        call_ensures(is_accepted, (&given,), accepted),
    ensures
        (given matches Ok(response) && response == answer),
        late is Err,
        lost is Err,
        accepted <==> answer is Done,
{
}

/// The window has the size that the system tells, and else 80 columns and 24 rows; a pane's
/// cursor is as far into the window as it is into the pane and the pane into the window.
pub proof fn positions_add_up(
    told: (u16, u16),
    size: (u16, u16),
    unknown: (u16, u16),
    rect: Rect,
    row: u16,
    col: u16,
    target: (u16, u16),
)
    requires
        call_ensures(window_size, (Some(told),), size),
        call_ensures(window_size, (None,), unknown),
        call_ensures(cursor_target, (rect, row, col), target),
    ensures
        size == told,
        unknown == (80u16, 24u16),
        target.0 - rect.x == col,
        target.1 - rect.y == row,
{
}

/// The status bar says what it is given, and nothing where it is switched off.
pub proof fn status_is_shown_where_wanted(config: Config, status: String, line: Option<String>)
    requires
        call_ensures(status_line, (&config, status), line),
    ensures
        config.status_bar ==> (line matches Some(text) && text@ == status@),
        !config.status_bar ==> line is None,
{
}

/// A server starts exactly where none runs.
pub proof fn one_server_runs(running: bool, checked: Result<()>)
    requires
        call_ensures(check_may_start, (running,), checked),
    ensures
        checked is Ok <==> !running,
{
}

/// A connection that failed is told by the path and the reason.
pub proof fn failed_connections_are_told(
    path: &str,
    reason: &str,
    client: KexshError,
    session: KexshError,
)
    requires
        call_ensures(client::connect_error, (path, reason), client),
        call_ensures(mux::connect_error, (path, reason), session),
    ensures
        client@.message() == "IPC error: "@ + ("failed to connect to "@ + path@ + ": "@ + reason@),
        session@.message() == "IPC error: "@ + ("connect to "@ + path@ + ": "@ + reason@),
{
}

} // verus!
