//! What an attached client shows and asks for.
//!
//! The panes of the layout come in as a list of rectangles, one for each terminal that is
//! shown; a screen stands for the emulated terminal that is drawn into such a rectangle.

use vstd::prelude::*;
use vstd::string::*;

use crate::config::Config;
use crate::error::{ErrorView, KexshError, Result};
use crate::ident;
use crate::ipc::codec;
use crate::ipc::message::{
    BinaryFrame, Layout, MuxRequest, MuxResponse, Request, Response, ViewInfo, ViewInfoView,
    view_listing,
};
use crate::text;

verus! {

/// A part of the window, in character cells.
#[derive(Debug, Clone, Copy, PartialEq, Eq)]
pub struct Rect {
    pub x: u16,
    pub y: u16,
    pub width: u16,
    pub height: u16,
}

/// A pane: a terminal and where it is shown.
#[derive(Debug, Clone, PartialEq, Eq)]
pub struct Pane {
    pub id: String,
    pub rect: Rect,
}

/// The two ways to divide a pane.
#[derive(Debug, Clone, Copy, PartialEq, Eq)]
pub enum SplitDirection {
    /// One above the other.
    Horizontal,
    /// Side by side.
    Vertical,
}

/// The four ways to go from a pane.
#[derive(Debug, Clone, Copy, PartialEq, Eq)]
pub enum Direction {
    Up,
    Down,
    Left,
    Right,
}

/// The terminals of a session without repetition, in the order in which they are first
/// named.
pub open spec fn session_ids(name: Seq<char>, extra: Seq<Seq<char>>) -> Seq<Seq<char>>
    decreases extra.len(),
{
    if extra.len() == 0 {
        seq![name]
    } else {
        let fewer = session_ids(name, extra.drop_last());
        if fewer.contains(extra.last()) {
            fewer
        } else {
            fewer.push(extra.last())
        }
    }
}

/// The terminals that a session asks for: the one it is named after, then the others.
pub fn session_terminals(terminal_name: &str, extra_terminals: &Vec<String>) -> (ids: Vec<String>)
    ensures
        text::contents(ids@) == session_ids(terminal_name@, text::contents(extra_terminals@)),
{
    let ghost all = text::contents(extra_terminals@);
    let mut ids: Vec<String> = Vec::new();
    ids.push(terminal_name.to_owned());
    let mut i: usize = 0;
    proof {
        assert(text::contents(ids@) =~= session_ids(terminal_name@, all.take(0)));
    }
    while i < extra_terminals.len()
        invariant
            i <= extra_terminals@.len(),
            all == text::contents(extra_terminals@),
            text::contents(ids@) == session_ids(terminal_name@, all.take(i as int)),
        decreases extra_terminals@.len() - i,
    {
        let ghost before = text::contents(ids@);
        if !ident::is_taken(&ids, extra_terminals[i].as_str()) {
            ids.push(extra_terminals[i].clone());
            proof {
                assert(text::contents(ids@) =~= before.push(extra_terminals@[i as int]@));
            }
        }
        i += 1;
        proof {
            assert(all.take(i as int).drop_last() =~= all.take(i - 1));
        }
    }
    proof {
        assert(all.take(i as int) =~= all);
    }
    ids
}

/// How a session starts.
pub struct Opening {
    /// The saved arrangement to restore; none where the session starts with one pane.
    pub restore: Option<Layout>,
    /// The terminals to make a screen for.
    pub screens: Vec<String>,
    /// The terminals to split the layout for, side by side.
    pub splits: Vec<String>,
}

/// How a session starts that has this arrangement to restore, if any: without one each
/// further terminal gets a pane of its own.
pub open spec fn opens_with(
    name: Seq<char>,
    extra: Seq<String>,
    restore: Option<Layout>,
    opening: Opening,
) -> bool {
    &&& opening.restore == restore
    &&& text::contents(opening.screens@) == seq![name] + text::contents(extra)
    &&& opening.splits@ == (if restore is Some {
        Seq::empty()
    } else {
        extra
    })
}

/// Decides how a session starts, given the arrangement to restore.
pub fn open_with(terminal_name: &str, extra_terminals: &Vec<String>, restore: Option<Layout>) -> (
    opening: Opening)
    ensures
        opens_with(terminal_name@, extra_terminals@, restore, opening),
{
    let mut screens: Vec<String> = Vec::new();
    screens.push(terminal_name.to_owned());
    let mut others = text::copy_texts(extra_terminals);
    screens.append(&mut others);
    proof {
        assert(text::contents(screens@) =~= seq![terminal_name@] + text::contents(
            extra_terminals@,
        ));
    }
    let splits = if restore.is_some() {
        Vec::new()
    } else {
        text::copy_texts(extra_terminals)
    };
    Opening { restore, screens, splits }
}

/// Decides how a session starts. A saved arrangement is restored unless it is JSON's
/// `null`.
pub fn opening(terminal_name: &str, extra_terminals: &Vec<String>, saved_layout: Option<Layout>) -> (
    opening: Opening)
    ensures
        opens_with(
            terminal_name@,
            extra_terminals@,
            match saved_layout {
                Some(layout) if !layout.is_blank() => Some(layout),
                _ => None,
            },
            opening,
        ),
{
    let restore = match saved_layout {
        Some(layout) => if layout.arranges_nothing() {
            None
        } else {
            Some(layout)
        },
        None => None,
    };
    open_with(terminal_name, extra_terminals, restore)
}

/// The size of the window as columns and rows, where the system does not tell it 80 by 24.
pub fn window_size(told: Option<(u16, u16)>) -> (size: (u16, u16))
    ensures
        size == (match told {
            Some(size) => size,
            None => (80u16, 24u16),
        }),
{
    match told {
        Some(size) => size,
        None => (80, 24),
    }
}

/// The text to draw into the status bar: none where the user has it switched off.
pub fn status_line(config: &Config, status: String) -> (line: Option<String>)
    ensures
        line == (if config.status_bar {
            Some(status)
        } else {
            None
        }),
{
    if config.status_bar {
        Some(status)
    } else {
        None
    }
}

/// The frame, with its id, that a client sends when it leaves a session.
pub fn farewell() -> (frame: (String, BinaryFrame))
    ensures
        frame.0@ == codec::control_id(),
        frame.1 is Detach,
{
    (codec::blank_id(), BinaryFrame::Detach)
}

/// The rectangle of the first pane that shows a terminal.
pub open spec fn first_rect(panes: Seq<Pane>, id: Seq<char>) -> Option<Rect>
    decreases panes.len(),
{
    if panes.len() == 0 {
        None
    } else if panes[0].id@ == id {
        Some(panes[0].rect)
    } else {
        first_rect(panes.skip(1), id)
    }
}

/// Where a terminal is shown.
pub fn rect_of(panes: &Vec<Pane>, id: &str) -> (rect: Option<Rect>)
    ensures
        rect == first_rect(panes@, id@),
{
    let mut i: usize = 0;
    proof {
        assert(panes@.skip(0) =~= panes@);
    }
    while i < panes.len()
        invariant
            i <= panes@.len(),
            first_rect(panes@, id@) == first_rect(panes@.skip(i as int), id@),
        decreases panes@.len() - i,
    {
        if text::same_text(panes[i].id.as_str(), id) {
            return Some(panes[i].rect);
        }
        proof {
            assert(panes@.skip(i as int).skip(1) =~= panes@.skip(i + 1));
        }
        i += 1;
    }
    None
}

/// The panes whose terminal has a screen.
pub open spec fn with_screen(screens: Seq<Seq<char>>) -> spec_fn(Pane) -> bool {
    |pane: Pane| screens.contains(pane.id@)
}

/// The panes to draw: those whose terminal has a screen, in their order.
pub fn panes_to_draw(panes: &Vec<Pane>, screens: &Vec<String>) -> (drawn: Vec<Pane>)
    ensures
        drawn@ == panes@.filter(with_screen(text::contents(screens@))),
{
    let ghost keep = with_screen(text::contents(screens@));
    let mut drawn: Vec<Pane> = Vec::new();
    let mut i: usize = 0;
    proof {
        reveal(Seq::filter);
        assert(drawn@ =~= panes@.take(0).filter(keep));
    }
    while i < panes.len()
        invariant
            i <= panes@.len(),
            keep == with_screen(text::contents(screens@)),
            drawn@ == panes@.take(i as int).filter(keep),
        decreases panes@.len() - i,
    {
        if ident::is_taken(screens, panes[i].id.as_str()) {
            drawn.push(Pane { id: panes[i].id.clone(), rect: panes[i].rect });
        }
        i += 1;
        proof {
            reveal(Seq::filter);
            assert(panes@.take(i as int).drop_last() =~= panes@.take(i - 1));
        }
    }
    proof {
        assert(panes@.take(i as int) =~= panes@);
    }
    drawn
}

/// Where the cursor of a pane is shown in the window, as column and row.
pub fn cursor_target(rect: Rect, cursor_row: u16, cursor_col: u16) -> (target: (u16, u16))
    requires
        rect.x + cursor_col <= u16::MAX,
        rect.y + cursor_row <= u16::MAX,
    ensures
        target.0 == rect.x + cursor_col,
        target.1 == rect.y + cursor_row,
{
    (rect.x + cursor_col, rect.y + cursor_row)
}

/// What to draw when output arrives for a terminal that has a screen.
#[derive(Debug, PartialEq, Eq)]
pub struct OutputPlan {
    /// Where to draw the rows that changed.
    pub rect: Rect,
    /// Whether to move the cursor there.
    pub cursor: bool,
}

/// Decides what to draw when output arrives: nothing where the terminal is not shown.
pub fn output_plan(panes: &Vec<Pane>, id: &str, focused: &str) -> (plan: Option<OutputPlan>)
    ensures
        plan == (match first_rect(panes@, id@) {
            Some(rect) => Some(OutputPlan { rect, cursor: id@ == focused@ }),
            None => None,
        }),
{
    match rect_of(panes, id) {
        Some(rect) => Some(OutputPlan { rect, cursor: text::same_text(id, focused) }),
        None => None,
    }
}

/// The frame that tells a terminal to take the size of a rectangle.
pub fn resize_frame(rect: Rect) -> (frame: BinaryFrame)
    ensures
        frame == (BinaryFrame::Resize { cols: rect.width, rows: rect.height }),
{
    BinaryFrame::Resize { cols: rect.width, rows: rect.height }
}

/// Whether a pane of this size is too small to be divided.
pub open spec fn is_too_small(direction: SplitDirection, rect: Rect) -> bool {
    match direction {
        SplitDirection::Vertical => rect.width < 4,
        SplitDirection::Horizontal => rect.height < 4,
    }
}

/// The first request of a split; none where the focused pane is too small. A focused
/// terminal that is not shown is not in the way.
pub fn begin_split(direction: SplitDirection, panes: &Vec<Pane>, focused: &str) -> (request: Option<
    MuxRequest,
>)
    ensures
        request == (match first_rect(panes@, focused@) {
            Some(rect) if is_too_small(direction, rect) => None,
            _ => Some(MuxRequest::CreateTerminal { name: None }),
        }),
{
    if let Some(rect) = rect_of(panes, focused) {
        let too_small = match direction {
            SplitDirection::Vertical => rect.width < 4,
            SplitDirection::Horizontal => rect.height < 4,
        };
        if too_small {
            return None;
        }
    }
    Some(MuxRequest::CreateTerminal { name: None })
}

/// How a split goes on.
#[derive(Debug, PartialEq, Eq)]
pub enum SplitStep {
    /// Send the request and go on with [`split_added`].
    Ask { id: String, request: MuxRequest },
    /// Make a screen for the terminal, split the layout for it, and tell every terminal
    /// its size.
    Show { id: String },
    /// Send the request, whatever comes of it, and leave everything as it was.
    Undo { request: MuxRequest },
    /// Leave everything as it was.
    Stop,
}

/// How a split goes on once the answer to its first request is there.
pub fn split_created(response: MuxResponse) -> (step: SplitStep)
    ensures
        match response {
            MuxResponse::TerminalCreated { id } => step == (SplitStep::Ask {
                id,
                request: MuxRequest::AddTerminal { id },
            }),
            _ => step is Stop,
        },
{
    match response {
        MuxResponse::TerminalCreated { id } => {
            let request = MuxRequest::AddTerminal { id: id.clone() };
            SplitStep::Ask { id, request }
        },
        _ => SplitStep::Stop,
    }
}

/// How a split ends once the answer to its second request is there.
pub fn split_added(id: String, response: MuxResponse) -> (step: SplitStep)
    ensures
        match response {
            MuxResponse::Done => step == (SplitStep::Show { id }),
            _ => step == (SplitStep::Undo { request: MuxRequest::KillTerminal { id } }),
        },
{
    match response {
        MuxResponse::Done => SplitStep::Show { id },
        _ => SplitStep::Undo { request: MuxRequest::KillTerminal { id } },
    }
}

/// What to tell the server after a split: in a view, that the terminal joins it.
pub fn split_notice(view_id: Option<&str>, id: String) -> (request: Option<Request>)
    ensures
        match view_id {
            Some(view) => request matches Some(Request::ViewAddTerminal { view_id, terminal_id })
                && view_id@ == view@ && terminal_id == id,
            None => request is None,
        },
{
    match view_id {
        Some(view) => Some(
            Request::ViewAddTerminal { view_id: view.to_owned(), terminal_id: id },
        ),
        None => None,
    }
}

/// What to ask of the session when a pane was closed: to let go of its terminal.
pub fn close_request(closed: &str) -> (request: MuxRequest)
    ensures
        request matches MuxRequest::RemoveTerminal { id } && id@ == closed@,
{
    MuxRequest::RemoveTerminal { id: closed.to_owned() }
}

/// What to tell the server when a pane was closed: in a view, that the terminal leaves it.
pub fn close_notice(view_id: Option<&str>, closed: String) -> (request: Option<Request>)
    ensures
        match view_id {
            Some(view) => request matches Some(
                Request::ViewRemoveTerminal { view_id, terminal_id },
            ) && view_id@ == view@ && terminal_id == closed,
            None => request is None,
        },
{
    match view_id {
        Some(view) => Some(
            Request::ViewRemoveTerminal { view_id: view.to_owned(), terminal_id: closed },
        ),
        None => None,
    }
}

/// What to tell the server when the layout changed: in a view, how it is arranged now.
pub fn layout_notice(view_id: Option<&str>, layout: Layout, focused: &str) -> (request: Option<
    Request,
>)
    ensures
        match view_id {
            Some(view) => request matches Some(
                Request::ViewUpdateLayout { view_id, layout: told, focused: focus },
            ) && view_id@ == view@ && told == layout && focus@ == focused@,
            None => request is None,
        },
{
    match view_id {
        Some(view) => Some(
            Request::ViewUpdateLayout {
                view_id: view.to_owned(),
                layout,
                focused: focused.to_owned(),
            },
        ),
        None => None,
    }
}

/// What the keyboard asked for.
#[derive(Debug, PartialEq, Eq)]
pub enum Action {
    SendToTerminal(Vec<u8>),
    ModeChanged,
    PaneSplitHorizontal,
    PaneSplitVertical,
    PaneNavigate(Direction),
    PaneResize(Direction),
    PaneClose,
    ViewList,
    ViewSwitch(usize),
    Detach,
    /// Nothing that concerns the session.
    Other,
}

/// What an attached client waits for.
#[derive(Debug, PartialEq, Eq)]
pub enum SessionEvent {
    /// Output of a terminal arrived.
    Output { id: String, data: Vec<u8> },
    /// The window changed its size.
    Resized { cols: u16, rows: u16 },
    /// A key was pressed.
    Input(Action),
    /// Neither output nor keys can arrive any more.
    Ended,
}

/// What an attached client does next.
#[derive(Debug, PartialEq, Eq)]
pub enum SessionStep {
    /// Feed the output to the terminal's screen and draw what changed.
    Draw { id: String, data: Vec<u8> },
    /// Take the new size, tell every terminal its own, and draw everything.
    TakeSize { rows: u16, cols: u16 },
    /// Send the frame for the terminal; where that fails, leave the session as for
    /// [`SessionStep::Leave`].
    Send { id: String, frame: BinaryFrame },
    /// Draw the status bar.
    DrawStatus,
    /// Divide the focused pane.
    Split(SplitDirection),
    /// Move the focus and draw everything.
    Navigate(Direction),
    /// Move a border of the focused pane.
    ResizePane(Direction),
    /// Close the focused pane.
    ClosePane,
    /// Show the list of views in the status bar.
    ShowViews,
    /// Show the view with this number.
    SwitchView(usize),
    /// Wait for the next event.
    Wait,
    /// Send [`farewell`], whatever comes of it, and leave the session.
    Leave,
}

/// Decides what an attached client does about an event while a terminal has the focus.
pub fn session_step(event: SessionEvent, focused: &str) -> (step: SessionStep)
    ensures
        match event {
            SessionEvent::Output { id, data } => step == (SessionStep::Draw { id, data }),
            SessionEvent::Resized { cols, rows } => step == (SessionStep::TakeSize { rows, cols }),
            SessionEvent::Ended => step is Leave,
            SessionEvent::Input(action) => match action {
                Action::SendToTerminal(bytes) => step matches SessionStep::Send { id, frame }
                    && id@ == focused@ && frame == BinaryFrame::Data(bytes),
                Action::ModeChanged => step is DrawStatus,
                Action::PaneSplitHorizontal => step == SessionStep::Split(
                    SplitDirection::Horizontal,
                ),
                Action::PaneSplitVertical => step == SessionStep::Split(SplitDirection::Vertical),
                Action::PaneNavigate(direction) => step == SessionStep::Navigate(direction),
                Action::PaneResize(direction) => step == SessionStep::ResizePane(direction),
                Action::PaneClose => step is ClosePane,
                Action::ViewList => step is ShowViews,
                Action::ViewSwitch(n) => step == SessionStep::SwitchView(n),
                Action::Detach => step is Leave,
                Action::Other => step is Wait,
            },
        },
{
    match event {
        SessionEvent::Output { id, data } => SessionStep::Draw { id, data },
        SessionEvent::Resized { cols, rows } => SessionStep::TakeSize { rows, cols },
        SessionEvent::Ended => SessionStep::Leave,
        SessionEvent::Input(action) => match action {
            Action::SendToTerminal(bytes) => SessionStep::Send {
                id: focused.to_owned(),
                frame: BinaryFrame::Data(bytes),
            },
            Action::ModeChanged => SessionStep::DrawStatus,
            Action::PaneSplitHorizontal => SessionStep::Split(SplitDirection::Horizontal),
            Action::PaneSplitVertical => SessionStep::Split(SplitDirection::Vertical),
            Action::PaneNavigate(direction) => SessionStep::Navigate(direction),
            Action::PaneResize(direction) => SessionStep::ResizePane(direction),
            Action::PaneClose => SessionStep::ClosePane,
            Action::ViewList => SessionStep::ShowViews,
            Action::ViewSwitch(n) => SessionStep::SwitchView(n),
            Action::Detach => SessionStep::Leave,
            Action::Other => SessionStep::Wait,
        },
    }
}

/// The name that a view goes by: its own, or else its id.
pub open spec fn label(view: ViewInfoView) -> Seq<char> {
    match view.name {
        Some(name) => name,
        None => view.id,
    }
}

/// The views with their numbers, which count from one.
pub open spec fn numbered(views: Seq<ViewInfoView>) -> Seq<char>
    decreases views.len(),
{
    if views.len() == 0 {
        Seq::empty()
    } else {
        let entry = text::decimal(views.len()) + ":"@ + label(views.last());
        if views.len() == 1 {
            entry
        } else {
            numbered(views.drop_last()) + " | "@ + entry
        }
    }
}

/// What the status bar says of the views.
pub fn view_list_text(response: &Response) -> (status: String)
    ensures
        match *response {
            Response::ViewList { views } => status@ == (if views@.len() == 0 {
                " [VIEWS] (none)"@
            } else {
                " [VIEWS] "@ + numbered(view_listing(views@))
            }),
            _ => status@ == " [VIEWS] error"@,
        },
{
    match response {
        Response::ViewList { views } => {
            if views.len() == 0 {
                return " [VIEWS] (none)".to_owned();
            }
            let ghost all = view_listing(views@);
            let ghost head = " [VIEWS] "@;
            let mut status = " [VIEWS] ".to_owned();
            let mut i: usize = 0;
            proof {
                assert(status@ =~= head + numbered(all.take(0)));
            }
            while i < views.len()
                invariant
                    i <= views@.len(),
                    all == view_listing(views@),
                    status@ == head + numbered(all.take(i as int)),
                decreases views@.len() - i,
            {
                let ghost before = status@;
                if i > 0 {
                    status.append(" | ");
                }
                text::push_decimal(&mut status, i as u64 + 1);
                status.append(":");
                match &views[i].name {
                    Some(name) => {
                        status.append(name.as_str());
                    },
                    None => {
                        status.append(views[i].id.as_str());
                    },
                }
                i += 1;
                proof {
                    let now = all.take(i as int);
                    let entry = text::decimal(i as nat) + ":"@ + label(all[i - 1]);
                    assert(now.drop_last() =~= all.take(i - 1));
                    assert(now.last() == all[i - 1]);
                    if i == 1 {
                        assert(numbered(all.take(0)) =~= Seq::empty());
                        assert(status@ =~= head + entry);
                    } else {
                        assert(status@ =~= before + (" | "@ + entry));
                        assert(status@ =~= head + (numbered(all.take(i - 1)) + " | "@ + entry));
                    }
                }
            }
            proof {
                assert(all.take(i as int) =~= all);
            }
            status
        },
        _ => " [VIEWS] error".to_owned(),
    }
}

/// The view with a number, which counts from one, in an answer that lists the views.
pub fn view_by_index(response: Response, n: usize) -> (view: Result<ViewInfo>)
    ensures
        match response {
            Response::ViewList { views } => if 1 <= n <= views@.len() {
                view matches Ok(info) && info@ == views@[n - 1]@
            } else {
                view matches Err(error) && error@ == ErrorView::Server(
                    "view index "@ + text::decimal(n as nat) + " out of range"@,
                )
            },
            _ => view matches Err(error) && error@ == ErrorView::Server("unexpected response"@),
        },
{
    match response {
        Response::ViewList { views } => {
            if n == 0 || n > views.len() {
                let mut message = "view index ".to_owned();
                text::push_decimal(&mut message, n as u64);
                message.append(" out of range");
                return Err(KexshError::Server(message));
            }
            let info = &views[n - 1];
            Ok(
                ViewInfo {
                    id: info.id.clone(),
                    name: text::copy_opt(&info.name),
                    terminal_ids: text::copy_texts(&info.terminal_ids),
                    created_at: info.created_at.clone(),
                },
            )
        },
        _ => Err(KexshError::Server("unexpected response".to_owned())),
    }
}

/// A session asks for no terminal twice, starts with the one it is named after, and asks
/// for that one and the others and nothing else.
pub proof fn session_ids_are_complete(name: Seq<char>, extra: Seq<Seq<char>>)
    ensures
        session_ids(name, extra).no_duplicates(),
        session_ids(name, extra).len() > 0,
        session_ids(name, extra)[0] == name,
        forall|id: Seq<char>| #[trigger]
            session_ids(name, extra).contains(id) <==> id == name || extra.contains(id),
    decreases extra.len(),
{
    if extra.len() == 0 {
        assert(session_ids(name, extra)[0] == name);
    } else {
        let fewer = extra.drop_last();
        let ids = session_ids(name, fewer);
        session_ids_are_complete(name, fewer);
        text::push_members(fewer, extra.last());
        assert(extra =~= fewer.push(extra.last()));
        if !ids.contains(extra.last()) {
            text::push_members(ids, extra.last());
            let more = ids.push(extra.last());
            assert forall|i: int, j: int| 0 <= i < more.len() && 0 <= j < more.len() && i
                != j implies more[i] != more[j] by {
                if i == ids.len() {
                    assert(ids.contains(more[j]));
                }
                if j == ids.len() {
                    assert(ids.contains(more[i]));
                }
            }
        }
    }
}

} // verus!
