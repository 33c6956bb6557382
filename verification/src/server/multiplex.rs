//! Sessions that carry several terminals over one connection.
//!
//! A terminal is wired to a session while its output is read for the session and the
//! session's input reaches it.

use vstd::prelude::*;
use vstd::string::*;

use crate::directory;
use crate::error::Result;
use crate::ident;
use crate::ipc::codec;
use crate::ipc::codec_laws;
use crate::ipc::message::{BinaryFrame, FrameView, MuxRequest, MuxResponse, Response};
use crate::terminal::manager::{self as terminals, TerminalManager, TerminalRecord};
use crate::text;
use crate::view::manager::{self as views, ViewManager, ViewRecord};

verus! {

/// Whether a terminal is there, by id or by name.
pub open spec fn is_there<P>(records: Seq<TerminalRecord<P>>) -> spec_fn(Seq<char>) -> bool {
    |id: Seq<char>| terminals::found(records, id) is Some
}

/// The ids and names, of those asked for, that stand for a terminal.
pub open spec fn known<P>(records: Seq<TerminalRecord<P>>, ids: Seq<Seq<char>>) -> Seq<Seq<char>> {
    ids.filter(is_there(records))
}

/// The ids for which the flag at their place is set.
pub open spec fn flagged(ids: Seq<Seq<char>>, flags: Seq<bool>) -> Seq<Seq<char>>
    decreases ids.len(),
{
    if ids.len() == 0 {
        Seq::empty()
    } else {
        let rest = flagged(ids.drop_last(), flags);
        if flags[ids.len() - 1] {
            rest.push(ids.last())
        } else {
            rest
        }
    }
}

/// The ids and names, of those asked for, that stand for a terminal, in the order and as
/// often as they were asked for.
pub fn known_terminals<P>(mgr: &TerminalManager<P>, terminal_ids: &Vec<String>) -> (ids: Vec<
    String,
>)
    requires
        mgr.well_formed(),
    ensures
        text::contents(ids@) == known(mgr@, text::contents(terminal_ids@)),
{
    let ghost all = text::contents(terminal_ids@);
    let mut ids: Vec<String> = Vec::new();
    let mut i: usize = 0;
    proof {
        reveal(Seq::filter);
        assert(text::contents(ids@) =~= known(mgr@, all.take(0)));
    }
    while i < terminal_ids.len()
        invariant
            mgr.well_formed(),
            i <= terminal_ids@.len(),
            all == text::contents(terminal_ids@),
            text::contents(ids@) == known(mgr@, all.take(i as int)),
        decreases terminal_ids@.len() - i,
    {
        let ghost before = ids@;
        let there = mgr.get(terminal_ids[i].as_str()).is_some();
        if there {
            ids.push(terminal_ids[i].clone());
        }
        i += 1;
        proof {
            reveal(Seq::filter);
            assert(all.take(i as int).drop_last() =~= all.take(i - 1));
            assert(all.take(i as int).last() == terminal_ids@[i - 1]@);
            if there {
                assert(text::contents(ids@) =~= text::contents(before).push(
                    terminal_ids@[i - 1]@,
                ));
            }
        }
    }
    proof {
        assert(all.take(i as int) =~= all);
    }
    ids
}

/// An answer within a session, and whether the state is to be saved.
#[derive(Debug, PartialEq, Eq)]
pub struct MuxReply {
    pub response: MuxResponse,
    pub notify: bool,
}

impl MuxReply {
    /// An error with this text; nothing is saved.
    pub open spec fn is_error(self, text: Seq<char>) -> bool {
        !self.notify && (self.response matches MuxResponse::Error { message } && message@ == text)
    }

    /// Plain success.
    pub open spec fn is_done(self, notify: bool) -> bool {
        self.notify == notify && self.response is Done
    }
}

/// What to do about a request within a session. `P` stands for a pseudo-terminal, `H` for
/// the handle by which a wired terminal is written to, resized and read.
pub enum MuxAction<P, H> {
    /// Send the reply.
    Answer(MuxReply),
    /// Start a pseudo-terminal, and go on with [`finish_spawn`].
    Spawn { name: Option<String> },
    /// Open the output of a terminal that was just created, and go on with
    /// [`MuxSession::finish_create`].
    OpenNew { id: String },
    /// Open the output of a terminal, and go on with [`MuxSession::finish_add`].
    OpenAdded { id: String },
    /// Stop reading by the handle that was cut off, where there is one, then send the reply.
    Unwire { cut: Option<H>, reply: MuxReply },
    /// Stop reading by the handle that was cut off and kill the pseudo-terminal, whatever
    /// comes of it, where there are any, then send the reply.
    Kill { cut: Option<H>, pty: Option<P>, reply: MuxReply },
}

/// Where a frame goes.
#[derive(Debug, PartialEq, Eq)]
pub enum Route<'a, H> {
    /// Write the bytes to the terminal, whatever comes of it.
    Write { id: String, to: &'a H, data: Vec<u8> },
    /// Resize the terminal, whatever comes of it.
    Resize { id: String, to: &'a H, cols: u16, rows: u16 },
    /// Decode the control message and handle it; drop it where it cannot be decoded.
    Control(Vec<u8>),
    /// Drop the frame.
    Ignore,
    /// The session is over.
    Leave,
}

/// Where a frame goes that was read, or could not be, while these terminals are wired.
pub open spec fn routed<H>(
    wired: Map<Seq<char>, H>,
    read: Result<(String, BinaryFrame)>,
    route: Route<H>,
) -> bool {
    match read {
        Ok((id, BinaryFrame::Data(data))) => if wired.contains_key(id@) {
            route matches Route::Write { id: at, to, data: bytes } && at == id && *to
                == wired[id@] && bytes == data
        } else {
            route is Ignore
        },
        Ok((id, BinaryFrame::Resize { cols, rows })) => if wired.contains_key(id@) {
            route matches Route::Resize { id: at, to, cols: c, rows: r } && at == id && *to
                == wired[id@] && c == cols && r == rows
        } else {
            route is Ignore
        },
        Ok((_, BinaryFrame::Control(payload))) => route matches Route::Control(bytes) && bytes
            == payload,
        Ok((_, BinaryFrame::Detach)) => route is Leave,
        Err(_) => route is Leave,
    }
}

/// A terminal that is wired to a session, and its handle.
pub struct Wire<H> {
    pub id: String,
    pub handle: H,
}

/// Whether the wire at a place is the one of a terminal.
pub open spec fn is_at<H>(wires: Seq<Wire<H>>, id: Seq<char>, i: int) -> bool {
    0 <= i < wires.len() && wires[i].id@ == id
}

/// The handle of each terminal that has a wire.
pub open spec fn wiring<H>(wires: Seq<Wire<H>>) -> Map<Seq<char>, H> {
    Map::new(
        |id: Seq<char>| exists|i: int| is_at(wires, id, i),
        |id: Seq<char>| wires[choose|i: int| is_at(wires, id, i)].handle,
    )
}

/// Whether no terminal has two wires.
pub open spec fn one_each<H>(wires: Seq<Wire<H>>) -> bool {
    forall|id: Seq<char>, i: int, j: int|
        #![trigger is_at(wires, id, i), is_at(wires, id, j)]
        is_at(wires, id, i) && is_at(wires, id, j) ==> i == j
}

proof fn pushed_wire<H>(wires: Seq<Wire<H>>, new: Wire<H>)
    requires
        one_each(wires),
        !wiring(wires).contains_key(new.id@),
    ensures
        one_each(wires.push(new)),
        wiring(wires.push(new)) == wiring(wires).insert(new.id@, new.handle),
{
    let more = wires.push(new);
    let last = wires.len() as int;
    assert forall|id: Seq<char>, i: int| #[trigger] is_at(more, id, i) implies (if i == last {
        id == new.id@
    } else {
        is_at(wires, id, i) && id != new.id@
    }) by {
        if i != last {
            assert(is_at(wires, id, i));
        }
    }
    assert(is_at(more, new.id@, last));
    assert forall|id: Seq<char>, i: int| #[trigger] is_at(wires, id, i) implies is_at(
        more,
        id,
        i,
    ) by {}
    assert(wiring(more) =~= wiring(wires).insert(new.id@, new.handle));
}

proof fn removed_wire<H>(wires: Seq<Wire<H>>, i: int)
    requires
        one_each(wires),
        0 <= i < wires.len(),
    ensures
        one_each(wires.remove(i)),
        wiring(wires).contains_key(wires[i].id@),
        wiring(wires)[wires[i].id@] == wires[i].handle,
        wiring(wires.remove(i)) == wiring(wires).remove(wires[i].id@),
{
    let fewer = wires.remove(i);
    let gone = wires[i].id@;
    assert(is_at(wires, gone, i));
    assert forall|id: Seq<char>, j: int| #[trigger] is_at(fewer, id, j) implies is_at(
        wires,
        id,
        if j < i {
            j
        } else {
            j + 1
        },
    ) && id != gone by {
        let k = if j < i {
            j
        } else {
            j + 1
        };
        assert(is_at(wires, id, k));
    }
    assert forall|id: Seq<char>, k: int| #[trigger]
        is_at(wires, id, k) && id != gone implies is_at(
        fewer,
        id,
        if k < i {
            k
        } else {
            k - 1
        },
    ) by {}
    assert(wiring(fewer) =~= wiring(wires).remove(gone));
}

/// The terminals that are wired to a session, each with its handle.
pub struct MuxSession<H> {
    wired: Vec<Wire<H>>,
}

impl<H> View for MuxSession<H> {
    type V = Map<Seq<char>, H>;

    closed spec fn view(&self) -> Map<Seq<char>, H> {
        wiring(self.wired@)
    }
}

/// The start of a session: the terminals that are wired, and what to tell the client.
pub struct MuxStart<H> {
    pub session: MuxSession<H>,
    pub response: Response,
    /// Whether there is anything to serve.
    pub serve: bool,
}

/// An answer to a request that wires a terminal.
#[derive(Debug, PartialEq, Eq)]
pub struct Wired<H> {
    pub reply: MuxReply,
    /// The handle that the terminal had in the session before: stop reading by it.
    pub replaced: Option<H>,
}

/// Which handles could be opened.
pub open spec fn opened_flags<H>(opened: Seq<Option<H>>) -> Seq<bool> {
    opened.map_values(|handle: Option<H>| handle is Some)
}

/// The wiring of terminals whose handles could be opened; of several handles for one
/// terminal the last is kept.
pub open spec fn wired_up<H>(ids: Seq<Seq<char>>, opened: Seq<Option<H>>) -> Map<Seq<char>, H>
    decreases ids.len(),
{
    if ids.len() == 0 {
        Map::empty()
    } else {
        let rest = wired_up(ids.drop_last(), opened);
        match opened[ids.len() - 1] {
            Some(handle) => rest.insert(ids.last(), handle),
            None => rest,
        }
    }
}

impl<H> MuxSession<H> {
    /// No terminal is wired twice.
    pub closed spec fn well_formed(&self) -> bool {
        one_each(self.wired@)
    }

    /// A session without terminals.
    pub fn new() -> (session: MuxSession<H>)
        ensures
            session.well_formed(),
            session@ == Map::<Seq<char>, H>::empty(),
    {
        let session = MuxSession { wired: Vec::new() };
        proof {
            assert(session@ =~= Map::<Seq<char>, H>::empty());
        }
        session
    }

    fn index_of(&self, id: &str) -> (index: Option<usize>)
        requires
            self.well_formed(),
        ensures
            match index {
                Some(i) => {
                    &&& is_at(self.wired@, id@, i as int)
                    &&& self@.contains_key(id@)
                    &&& self@[id@] == self.wired@[i as int].handle
                },
                None => !self@.contains_key(id@),
            },
    {
        let mut i: usize = 0;
        while i < self.wired.len()
            invariant
                i <= self.wired@.len(),
                one_each(self.wired@),
                forall|j: int| 0 <= j < i ==> !#[trigger] is_at(self.wired@, id@, j),
            decreases self.wired@.len() - i,
        {
            if text::same_text(self.wired[i].id.as_str(), id) {
                proof {
                    removed_wire(self.wired@, i as int);
                }
                return Some(i);
            }
            i += 1;
        }
        None
    }

    /// The handle of a terminal, where it is wired.
    pub fn handle_of(&self, id: &str) -> (handle: Option<&H>)
        requires
            self.well_formed(),
        ensures
            match handle {
                Some(handle) => self@.contains_key(id@) && *handle == self@[id@],
                None => !self@.contains_key(id@),
            },
    {
        match self.index_of(id) {
            Some(i) => Some(&self.wired[i].handle),
            None => None,
        }
    }

    /// Whether a terminal is wired.
    pub fn is_wired(&self, id: &str) -> (wired: bool)
        requires
            self.well_formed(),
        ensures
            wired == self@.contains_key(id@),
    {
        self.index_of(id).is_some()
    }

    fn wire(&mut self, id: String, handle: H) -> (replaced: Option<H>)
        requires
            old(self).well_formed(),
        ensures
            final(self).well_formed(),
            final(self)@ == old(self)@.insert(id@, handle),
            replaced == old(self)@.get(id@),
    {
        let replaced = self.unwire(id.as_str());
        let ghost rest = self.wired@;
        self.wired.push(Wire { id, handle });
        proof {
            pushed_wire(rest, self.wired@.last());
            assert(self@ =~= old(self)@.insert(id@, handle));
        }
        replaced
    }

    fn unwire(&mut self, id: &str) -> (cut: Option<H>)
        requires
            old(self).well_formed(),
        ensures
            final(self).well_formed(),
            final(self)@ == old(self)@.remove(id@),
            cut == old(self)@.get(id@),
    {
        match self.index_of(id) {
            Some(i) => {
                proof {
                    removed_wire(self.wired@, i as int);
                }
                Some(self.wired.remove(i).handle)
            },
            None => {
                proof {
                    assert(self@ =~= old(self)@.remove(id@));
                }
                None
            },
        }
    }

    /// Starts a session with the terminals whose output could be opened.
    pub fn start(known: Vec<String>, opened: Vec<Option<H>>) -> (start: MuxStart<H>)
        requires
            known@.len() == opened@.len(),
        ensures
            start.session.well_formed(),
            start.session@ == wired_up(text::contents(known@), opened@),
            ({
                let attached = flagged(text::contents(known@), opened_flags(opened@));
                &&& start.response matches Response::MultiplexAttached { terminal_ids }
                &&& text::contents(terminal_ids@) == attached
                &&& start.serve == (attached.len() > 0)
            }),
    {
        let ghost all = text::contents(known@);
        let ghost handles = opened@;
        let ghost flags = opened_flags(opened@);
        let mut opened = opened;
        let mut session: MuxSession<H> = MuxSession::new();
        let mut terminal_ids: Vec<String> = Vec::new();
        let mut i: usize = 0;
        proof {
            assert(text::contents(terminal_ids@) =~= flagged(all.take(0), flags));
        }
        while i < known.len()
            invariant
                known@.len() == opened@.len(),
                known@.len() == handles.len(),
                all == text::contents(known@),
                flags == opened_flags(handles),
                i <= known@.len(),
                forall|j: int| i <= j < handles.len() ==> opened@[j] == handles[j],
                session.well_formed(),
                session@ == wired_up(all.take(i as int), handles),
                text::contents(terminal_ids@) == flagged(all.take(i as int), flags),
            decreases known@.len() - i,
        {
            let ghost before = text::contents(terminal_ids@);
            let handle = opened[i].take();
            proof {
                assert(handle == handles[i as int]);
                assert(all.take(i + 1).drop_last() =~= all.take(i as int));
                assert(all.take(i + 1).last() == known@[i as int]@);
            }
            if let Some(handle) = handle {
                let _ = session.wire(known[i].clone(), handle);
                terminal_ids.push(known[i].clone());
                proof {
                    assert(text::contents(terminal_ids@) =~= before.push(known@[i as int]@));
                }
            }
            i += 1;
        }
        proof {
            assert(all.take(i as int) =~= all);
        }
        let serve = terminal_ids.len() > 0;
        MuxStart { session, response: Response::MultiplexAttached { terminal_ids }, serve }
    }

    /// Decides where a frame goes that was read, or could not be.
    pub fn route(&self, read: Result<(String, BinaryFrame)>) -> (route: Route<H>)
        requires
            self.well_formed(),
        ensures
            routed(self@, read, route),
    {
        match read {
            Ok((id, BinaryFrame::Data(data))) => match self.handle_of(id.as_str()) {
                Some(to) => Route::Write { id, to, data },
                None => Route::Ignore,
            },
            Ok((id, BinaryFrame::Resize { cols, rows })) => match self.handle_of(id.as_str()) {
                Some(to) => Route::Resize { id, to, cols, rows },
                None => Route::Ignore,
            },
            Ok((_, BinaryFrame::Control(payload))) => Route::Control(payload),
            Ok((_, BinaryFrame::Detach)) => Route::Leave,
            Err(_) => Route::Leave,
        }
    }

    /// Does what a request within the session asks for, as far as the registries and the
    /// wires go.
    pub fn handle<P>(
        &mut self,
        req: MuxRequest,
        mgr: &mut TerminalManager<P>,
        vmgr: &mut ViewManager,
    ) -> (action: MuxAction<P, H>)
        requires
            old(self).well_formed(),
            old(mgr).well_formed(),
            old(vmgr).well_formed(),
        ensures
            final(self).well_formed(),
            final(mgr).well_formed(),
            final(vmgr).well_formed(),
            mux_handled(
                req,
                (MuxState { wired: old(self)@, terminals: old(mgr)@, views: old(vmgr)@ }),
                action,
                (MuxState { wired: final(self)@, terminals: final(mgr)@, views: final(vmgr)@ }),
            ),
    {
        match req {
            MuxRequest::CreateTerminal { name } => MuxAction::Spawn { name },
            MuxRequest::AddTerminal { id } => {
                if mgr.get(id.as_str()).is_none() {
                    MuxAction::Answer(mux_error(terminals::not_found(id.as_str())))
                } else {
                    MuxAction::OpenAdded { id }
                }
            },
            MuxRequest::RemoveTerminal { id } => {
                let cut = self.unwire(id.as_str());
                MuxAction::Unwire { cut, reply: mux_done(false) }
            },
            MuxRequest::KillTerminal { id } => {
                let cut = self.unwire(id.as_str());
                match mgr.kill(id.as_str()) {
                    Ok(terminal) => {
                        vmgr.remove_terminal(id.as_str());
                        MuxAction::Kill { cut, pty: Some(terminal.pty), reply: mux_done(true) }
                    },
                    Err(error) => MuxAction::Kill {
                        cut,
                        pty: None,
                        reply: mux_error(error.message()),
                    },
                }
            },
            MuxRequest::UpdateLayout { view_id, layout, focused } => {
                vmgr.update_layout(view_id.as_str(), layout, focused);
                MuxAction::Answer(mux_done(true))
            },
        }
    }

    /// Wires a terminal that was just created, given what became of opening it.
    pub fn finish_create(&mut self, id: String, opened: Result<H>) -> (wired: Wired<H>)
        requires
            old(self).well_formed(),
        ensures
            final(self).well_formed(),
            wire_finished(id@, opened, old(self)@, wired, final(self)@),
            opened is Ok ==> wired.reply == (MuxReply {
                response: MuxResponse::TerminalCreated { id },
                notify: true,
            }),
    {
        match opened {
            Ok(handle) => {
                let replaced = self.wire(id.clone(), handle);
                let reply = MuxReply { response: MuxResponse::TerminalCreated { id }, notify: true };
                Wired { reply, replaced }
            },
            Err(error) => Wired { reply: mux_error(error.message()), replaced: None },
        }
    }

    /// Wires a terminal, given what became of opening it.
    pub fn finish_add(&mut self, id: String, opened: Result<H>) -> (wired: Wired<H>)
        requires
            old(self).well_formed(),
        ensures
            final(self).well_formed(),
            wire_finished(id@, opened, old(self)@, wired, final(self)@),
            opened is Ok ==> wired.reply.is_done(false),
    {
        match opened {
            Ok(handle) => {
                let replaced = self.wire(id, handle);
                Wired { reply: mux_done(false), replaced }
            },
            Err(error) => Wired { reply: mux_error(error.message()), replaced: None },
        }
    }

    /// Ends the session: gives out every wire, by whose handles reading is to stop.
    pub fn close(&mut self) -> (wires: Vec<Wire<H>>)
        requires
            old(self).well_formed(),
        ensures
            final(self).well_formed(),
            final(self)@ == Map::<Seq<char>, H>::empty(),
            one_each(wires@),
            wiring(wires@) == old(self)@,
    {
        let mut wires: Vec<Wire<H>> = Vec::new();
        wires.append(&mut self.wired);
        proof {
            assert(wires@ =~= old(self).wired@);
            assert(self@ =~= Map::<Seq<char>, H>::empty());
        }
        wires
    }
}

/// What becomes of the wires when a terminal was to be wired, by what became of opening it:
/// the new handle takes the place of one that was there. A terminal that could not be opened
/// keeps the wire that it has.
pub open spec fn wire_finished<H>(
    id: Seq<char>,
    opened: Result<H>,
    before: Map<Seq<char>, H>,
    wired: Wired<H>,
    after: Map<Seq<char>, H>,
) -> bool {
    match opened {
        Ok(handle) => after == before.insert(id, handle) && wired.replaced == before.get(id),
        Err(error) => after == before && wired.replaced is None && wired.reply.is_error(
            error@.message(),
        ),
    }
}

/// The wires of a session and the registries of the server.
pub struct MuxState<P, H> {
    pub wired: Map<Seq<char>, H>,
    pub terminals: Seq<TerminalRecord<P>>,
    pub views: Seq<ViewRecord>,
}

/// What is done about a request within a session, and what becomes of the wires and the
/// registries.
pub open spec fn mux_handled<P, H>(
    req: MuxRequest,
    before: MuxState<P, H>,
    action: MuxAction<P, H>,
    after: MuxState<P, H>,
) -> bool {
    match req {
        MuxRequest::CreateTerminal { name } => action == MuxAction::<P, H>::Spawn { name } && after
            == before,
        MuxRequest::AddTerminal { id } => {
            &&& after == before
            &&& if terminals::found(before.terminals, id@) is None {
                action matches MuxAction::Answer(reply) && reply.is_error(
                    terminals::not_found_text(id@),
                )
            } else {
                action == MuxAction::<P, H>::OpenAdded { id }
            }
        },
        MuxRequest::RemoveTerminal { id } => {
            &&& action matches MuxAction::Unwire { cut, reply }
            &&& cut == before.wired.get(id@)
            &&& reply.is_done(false)
            &&& after == (MuxState { wired: before.wired.remove(id@), ..before })
        },
        MuxRequest::KillTerminal { id } => {
            &&& action matches MuxAction::Kill { cut, pty, reply }
            &&& cut == before.wired.get(id@)
            &&& match terminals::found(before.terminals, id@) {
                Some(i) => {
                    &&& pty == Some(before.terminals[i].pty)
                    &&& reply.is_done(true)
                    &&& after == (MuxState {
                        wired: before.wired.remove(id@),
                        terminals: before.terminals.remove(i),
                        views: views::without_terminal(before.views, id@),
                    })
                },
                None => {
                    &&& pty is None
                    &&& reply.is_error("Server error: "@ + terminals::not_found_text(id@))
                    &&& after == (MuxState { wired: before.wired.remove(id@), ..before })
                },
            }
        },
        MuxRequest::UpdateLayout { view_id, layout, focused } => {
            &&& action matches MuxAction::Answer(reply)
            &&& reply.is_done(true)
            &&& after == (MuxState {
                views: views::with_layout_in(before.views, view_id@, layout, focused@),
                ..before
            })
        },
    }
}

fn mux_error(message: String) -> (reply: MuxReply)
    ensures
        reply.is_error(message@),
{
    MuxReply { response: MuxResponse::Error { message }, notify: false }
}

fn mux_done(notify: bool) -> (reply: MuxReply)
    ensures
        reply.is_done(notify),
{
    MuxReply { response: MuxResponse::Done, notify }
}

/// Adds the terminal that a session asked for, given what became of starting its
/// pseudo-terminal.
pub fn finish_spawn<P, H>(
    name: Option<String>,
    spawned: Result<P>,
    now: String,
    mgr: &mut TerminalManager<P>,
) -> (action: MuxAction<P, H>)
    requires
        old(mgr).well_formed(),
        old(mgr)@.len() < ident::SHORT_IDS,
    ensures
        final(mgr).well_formed(),
        spawned matches Err(error) ==> final(mgr)@ == old(mgr)@ && (action matches
            MuxAction::Answer(reply) && reply.is_error(error@.message())),
        spawned matches Ok(pty) ==> (action matches MuxAction::OpenNew { id }
            && ident::is_short_id(id@) && !directory::has_id(
            terminals::keys(old(mgr)@),
            id@,
        ) && final(mgr)@ == old(mgr)@.push(
            TerminalRecord {
                id: id@,
                name: text::opt_content(name),
                pty,
                created_at: now@,
            },
        )),
{
    match mgr.create(name, spawned, now) {
        Ok(id) => MuxAction::OpenNew { id },
        Err(error) => MuxAction::Answer(mux_error(error.message())),
    }
}

/// Bytes and sizes go to no terminal but one that is wired to the session, by its handle.
pub proof fn only_wired_terminals_are_reached<H>(
    wired: Map<Seq<char>, H>,
    read: Result<(String, BinaryFrame)>,
    route: Route<H>,
)
    requires
        routed(wired, read, route),
    ensures
        route matches Route::Write { id, to, .. } ==> wired.contains_key(id@) && *to == wired[id@],
        route matches Route::Resize { id, to, .. } ==> wired.contains_key(id@) && *to == wired[id@],
{
}

/// Bytes for a terminal that was just wired reach it by its new handle, whether it was wired
/// before or not, and the handle that it had before is given out.
pub proof fn added_terminal_is_reached<H>(
    id: String,
    handle: H,
    before: Map<Seq<char>, H>,
    wired: Wired<H>,
    after: Map<Seq<char>, H>,
    data: Vec<u8>,
    route: Route<H>,
)
    requires
        wire_finished(id@, Ok(handle), before, wired, after),
        routed(after, Ok((id, BinaryFrame::Data(data))), route),
    ensures
        route matches Route::Write { to, data: bytes, .. } && *to == handle && bytes == data,
        before.contains_key(id@) ==> wired.replaced == Some(before[id@]),
        !before.contains_key(id@) ==> wired.replaced is None,
{
}

/// Wiring one terminal leaves the wires of every other as they are.
pub proof fn wiring_keeps_the_others<H>(
    id: Seq<char>,
    opened: Result<H>,
    before: Map<Seq<char>, H>,
    wired: Wired<H>,
    after: Map<Seq<char>, H>,
    other: Seq<char>,
)
    requires
        wire_finished(id, opened, before, wired, after),
        other != id,
    ensures
        after.get(other) == before.get(other),
{
}

/// The frame with which a client takes its leave ends the session.
pub proof fn farewell_ends_the_session<H>(
    wired: Map<Seq<char>, H>,
    rest: Seq<u8>,
    read: Result<(String, BinaryFrame)>,
    route: Route<H>,
)
    requires
        codec::frame_outcome(read) == codec::take_frame(
            codec::frame_bytes(codec::control_id(), FrameView::Detach) + rest,
        ).0,
        routed(wired, read, route),
    ensures
        route is Leave,
{
    codec_laws::frame_round_trip(codec::control_id(), FrameView::Detach, rest);
}

/// Once a terminal was removed from a session or killed in it, frames for it that carry
/// bytes or sizes are dropped.
pub proof fn removed_terminal_is_not_reached<P, H>(
    req: MuxRequest,
    id: String,
    before: MuxState<P, H>,
    action: MuxAction<P, H>,
    after: MuxState<P, H>,
    frame: BinaryFrame,
    route: Route<H>,
)
    requires
        req == (MuxRequest::RemoveTerminal { id }) || req == (MuxRequest::KillTerminal { id }),
        mux_handled(req, before, action, after),
        frame is Data || frame is Resize,
        routed(after.wired, Ok((id, frame)), route),
    ensures
        route is Ignore,
{
}

/// A request about one terminal leaves the wires of every other as they are.
pub proof fn other_wires_stay<P, H>(
    req: MuxRequest,
    before: MuxState<P, H>,
    action: MuxAction<P, H>,
    after: MuxState<P, H>,
    other: Seq<char>,
)
    requires
        mux_handled(req, before, action, after),
        req matches MuxRequest::RemoveTerminal { id } ==> id@ != other,
        req matches MuxRequest::KillTerminal { id } ==> id@ != other,
    ensures
        after.wired.get(other) == before.wired.get(other),
{
}

/// A request that is handled at once and changes a registry asks for the state to be saved.
pub proof fn changes_are_saved<P, H>(
    req: MuxRequest,
    before: MuxState<P, H>,
    action: MuxAction<P, H>,
    after: MuxState<P, H>,
)
    requires
        mux_handled(req, before, action, after),
        after.terminals != before.terminals || after.views != before.views,
    ensures
        match action {
            MuxAction::Answer(reply) => reply.notify,
            MuxAction::Kill { reply, .. } => reply.notify,
            _ => false,
        },
{
}

/// Killing a terminal right after it was created leaves the other terminals as they were
/// before, and the created one without wires.
pub proof fn killing_undoes_creating<P, H>(
    id: String,
    existing: Seq<TerminalRecord<P>>,
    new: TerminalRecord<P>,
    before: MuxState<P, H>,
    action: MuxAction<P, H>,
    after: MuxState<P, H>,
)
    requires
        directory::well_formed(terminals::keys(existing)),
        ident::is_short_id(new.id),
        !directory::has_id(terminals::keys(existing), new.id),
        id@ == new.id,
        before.terminals == existing.push(new),
        mux_handled(MuxRequest::KillTerminal { id }, before, action, after),
    ensures
        after.terminals == existing,
        !after.wired.contains_key(id@),
        action matches MuxAction::Kill { pty, .. } && pty == Some(new.pty),
{
    terminals::created_terminal_is_found(existing, new);
    assert(existing.push(new).remove(existing.len() as int) =~= existing);
}

/// A session starts with terminals that were asked for and are there, and no others.
pub proof fn attached_terminals_are_known<P>(
    records: Seq<TerminalRecord<P>>,
    ids: Seq<Seq<char>>,
    opened: Seq<bool>,
    id: Seq<char>,
)
    requires
        flagged(known(records, ids), opened).contains(id),
    ensures
        ids.contains(id),
        terminals::found(records, id) is Some,
{
    flagged_members(known(records, ids), opened, id);
    let there = is_there(records);
    let chosen = ids.filter(there);
    let i = choose|i: int| 0 <= i < chosen.len() && chosen[i] == id;
    ids.lemma_filter_pred(there, i);
    ids.lemma_filter_contains_rev(there, id);
}

/// A session starts with wires for exactly the terminals that it tells the client of.
pub proof fn attached_terminals_are_wired<H>(ids: Seq<Seq<char>>, opened: Seq<Option<H>>)
    requires
        ids.len() <= opened.len(),
    ensures
        wired_up(ids, opened).dom() == flagged(ids, opened_flags(opened)).to_set(),
    decreases ids.len(),
{
    if ids.len() == 0 {
        assert(wired_up(ids, opened).dom() =~= flagged(ids, opened_flags(opened)).to_set());
    } else {
        let fewer = ids.drop_last();
        attached_terminals_are_wired(fewer, opened);
        text::push_members(flagged(fewer, opened_flags(opened)), ids.last());
        assert(wired_up(ids, opened).dom() =~= flagged(ids, opened_flags(opened)).to_set());
    }
}

/// Where the output of every terminal can be opened, all that were asked for and are there
/// are attached.
pub proof fn openable_terminals_are_attached<P>(
    records: Seq<TerminalRecord<P>>,
    ids: Seq<Seq<char>>,
    opened: Seq<bool>,
)
    requires
        opened.len() == known(records, ids).len(),
        forall|i: int| 0 <= i < opened.len() ==> opened[i],
    ensures
        flagged(known(records, ids), opened) == known(records, ids),
{
    flagged_all(known(records, ids), opened);
}

proof fn flagged_members(ids: Seq<Seq<char>>, flags: Seq<bool>, id: Seq<char>)
    requires
        flagged(ids, flags).contains(id),
    ensures
        ids.contains(id),
    decreases ids.len(),
{
    if ids.len() > 0 {
        let rest = flagged(ids.drop_last(), flags);
        if rest.contains(id) {
            flagged_members(ids.drop_last(), flags, id);
            let i = choose|i: int| 0 <= i < ids.len() - 1 && ids.drop_last()[i] == id;
            assert(ids[i] == id);
        } else {
            let i = choose|i: int|
                0 <= i < flagged(ids, flags).len() && flagged(ids, flags)[i] == id;
            assert(i < rest.len() ==> rest[i] == id);
            assert(ids[ids.len() - 1] == id);
        }
    }
}

proof fn flagged_all(ids: Seq<Seq<char>>, flags: Seq<bool>)
    requires
        ids.len() <= flags.len(),
        forall|i: int| 0 <= i < flags.len() ==> flags[i],
    ensures
        flagged(ids, flags) == ids,
    decreases ids.len(),
{
    if ids.len() > 0 {
        flagged_all(ids.drop_last(), flags);
        assert(ids.drop_last().push(ids.last()) =~= ids);
    }
}

} // verus!
