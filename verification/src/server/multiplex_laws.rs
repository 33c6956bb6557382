//! What each request and each frame does within a session.

use vstd::prelude::*;

use crate::directory;
use crate::error::Result;
use crate::ipc::message::{BinaryFrame, Layout, MuxRequest, MuxResponse, Response};
use crate::selection;
use crate::server::multiplex::{
    flagged, is_at, is_there, known, mux_handled, one_each, opened_flags, routed, wire_finished,
    wired_up, wiring, MuxAction, MuxSession, MuxStart, MuxState, Route, Wire, Wired,
};
use crate::terminal::manager::{self as terminals, TerminalRecord};
use crate::text;
use crate::view::laws;
use crate::view::manager as views;

verus! {

/// Each terminal that a session starts with has the handle that was opened for it: the one
/// at its own place, or, where it is asked for several times, at its last place with a
/// handle.
pub proof fn each_terminal_has_its_own_handle<H>(
    ids: Seq<Seq<char>>,
    opened: Seq<Option<H>>,
    k: int,
    handle: H,
)
    requires
        ids.len() <= opened.len(),
        0 <= k < ids.len(),
        opened[k] == Some(handle),
        forall|j: int| k < j < ids.len() && opened[j] is Some ==> #[trigger] ids[j] != ids[k],
    ensures
        wired_up(ids, opened).contains_key(ids[k]),
        wired_up(ids, opened)[ids[k]] == handle,
    decreases ids.len(),
{
    let last = ids.len() - 1;
    let fewer = ids.drop_last();
    if k < last {
        assert forall|j: int| k < j < fewer.len() && opened[j] is Some implies #[trigger] fewer[j]
            != fewer[k] by {
            assert(fewer[j] == ids[j]);
        }
        each_terminal_has_its_own_handle(fewer, opened, k, handle);
        if opened[last] is Some {
            assert(ids[last] != ids[k]);
        }
    }
}

/// A terminal that is wired when a session starts was asked for, could be opened, and has a
/// handle that was opened for it.
pub proof fn no_handle_is_made_up<H>(
    ids: Seq<Seq<char>>,
    opened: Seq<Option<H>>,
    id: Seq<char>,
) -> (k: int)
    requires
        ids.len() <= opened.len(),
        wired_up(ids, opened).contains_key(id),
    ensures
        0 <= k < ids.len(),
        ids[k] == id,
        opened[k] == Some(wired_up(ids, opened)[id]),
    decreases ids.len(),
{
    let last = ids.len() - 1;
    if opened[last] is Some && ids[last] == id {
        last
    } else {
        no_handle_is_made_up(ids.drop_last(), opened, id)
    }
}

/// The terminals that the client is told of are exactly those that could be opened, as
/// often and in the order in which they were asked for.
pub proof fn attached_in_order<H>(ids: Seq<Seq<char>>, opened: Seq<Option<H>>) -> (places: Seq<
    int,
>)
    requires
        ids.len() <= opened.len(),
    ensures
        ({
            let attached = flagged(ids, opened_flags(opened));
            &&& places.len() == attached.len()
            &&& forall|a: int|
                0 <= a < places.len() ==> 0 <= #[trigger] places[a] < ids.len()
                    && opened[places[a]] is Some && attached[a] == ids[places[a]]
            &&& forall|a: int, b: int| 0 <= a < b < places.len() ==> places[a] < places[b]
            &&& forall|i: int|
                0 <= i < ids.len() && #[trigger] opened[i] is Some ==> places.contains(i)
        }),
    decreases ids.len(),
{
    if ids.len() == 0 {
        Seq::empty()
    } else {
        let last = ids.len() - 1;
        let some = attached_in_order(ids.drop_last(), opened);
        if opened[last] is Some {
            let places = some.push(last);
            assert forall|i: int| 0 <= i < ids.len() && #[trigger] opened[i]
                is Some implies places.contains(i) by {
                if i < last {
                    let a = choose|a: int| 0 <= a < some.len() && some[a] == i;
                    assert(places[a] == i);
                } else {
                    assert(places[some.len() as int] == i);
                }
            }
            places
        } else {
            some
        }
    }
}

/// Of the terminals that were asked for, those are tried whose text some terminal has as its
/// id or its name: all of them, as often and in the order in which they were asked for.
pub proof fn known_in_order<P>(records: Seq<TerminalRecord<P>>, ids: Seq<Seq<char>>) -> (
    places: Seq<int>)
    requires
        directory::well_formed(terminals::keys(records)),
    ensures
        places.len() == known(records, ids).len(),
        forall|a: int|
            0 <= a < places.len() ==> 0 <= #[trigger] places[a] < ids.len() && known(
                records,
                ids,
            )[a] == ids[places[a]] && exists|r: int|
                0 <= r < records.len() && ((#[trigger] records[r]).id == ids[places[a]]
                    || records[r].name == Some(ids[places[a]])),
        forall|a: int, b: int| 0 <= a < b < places.len() ==> places[a] < places[b],
        forall|i: int, r: int|
            #![trigger ids[i], records[r]]
            0 <= i < ids.len() && 0 <= r < records.len() && (records[r].id == ids[i]
                || records[r].name == Some(ids[i])) ==> places.contains(i),
{
    let there = is_there(records);
    let places = selection::kept_in_order(ids, there);
    assert forall|a: int| 0 <= a < places.len() implies exists|r: int|
        0 <= r < records.len() && ((#[trigger] records[r]).id == ids[#[trigger] places[a]]
            || records[r].name == Some(ids[places[a]])) by {
        let asked = ids[places[a]];
        assert(there(asked));
        terminals::what_stands_for_a_terminal(records, asked);
        let r = terminals::found(records, asked)->0;
        assert(records[r].id == asked || records[r].name == Some(asked));
    }
    assert forall|i: int, r: int|
        #![trigger ids[i], records[r]]
        0 <= i < ids.len() && 0 <= r < records.len() && (records[r].id == ids[i] || records[r].name
            == Some(ids[i])) implies places.contains(i) by {
        terminals::what_stands_for_a_terminal(records, ids[i]);
        assert(there(ids[i]));
    }
    places
}

/// Bytes and sizes for a wired terminal go on as they are, by that terminal's handle; those
/// for any other are dropped. Control messages go on as they are, and leaving or a broken
/// connection ends the session.
pub proof fn frames_go_where_they_belong<H>(
    wired: Map<Seq<char>, H>,
    id: String,
    frame: BinaryFrame,
    route: Route<H>,
)
    requires
        routed(wired, Ok((id, frame)), route),
    ensures
        match frame {
            BinaryFrame::Data(data) => if wired.contains_key(id@) {
                route matches Route::Write { to, data: bytes, .. } && *to == wired[id@] && bytes@
                    == data@
            } else {
                route is Ignore
            },
            BinaryFrame::Resize { cols, rows } => if wired.contains_key(id@) {
                route matches Route::Resize { to, cols: c, rows: r, .. } && *to == wired[id@]
                    && c == cols && r == rows
            } else {
                route is Ignore
            },
            BinaryFrame::Control(payload) => route matches Route::Control(bytes) && bytes@
                == payload@,
            BinaryFrame::Detach => route is Leave,
        },
{
}

/// A connection that breaks ends the session.
pub proof fn broken_connection_ends_the_session<H>(
    wired: Map<Seq<char>, H>,
    read: Result<(String, BinaryFrame)>,
    route: Route<H>,
)
    requires
        routed(wired, read, route),
        read is Err,
    ensures
        route is Leave,
{
}

/// A request for a terminal within a session starts one under that name and changes nothing
/// yet; one to add a terminal opens it where it is there, and otherwise says that it is not.
pub proof fn creating_and_adding_change_nothing_yet<P, H>(
    req: MuxRequest,
    before: MuxState<P, H>,
    action: MuxAction<P, H>,
    after: MuxState<P, H>,
)
    requires
        mux_handled(req, before, action, after),
        directory::well_formed(terminals::keys(before.terminals)),
    ensures
        match req {
            MuxRequest::CreateTerminal { name } => after == before && (
            action matches MuxAction::Spawn { name: asked } && asked == name),
            MuxRequest::AddTerminal { id } => after == before && if exists|r: int|
                0 <= r < before.terminals.len() && ((#[trigger] before.terminals[r]).id == id@
                    || before.terminals[r].name == Some(id@)) {
                action matches MuxAction::OpenAdded { id: asked } && asked == id
            } else {
                action matches MuxAction::Answer(reply) && !reply.notify && (
                reply.response matches MuxResponse::Error { message } && message@
                    == "terminal not found: "@ + id@)
            },
            _ => true,
        },
{
    if let MuxRequest::AddTerminal { id } = req {
        terminals::what_stands_for_a_terminal(before.terminals, id@);
        if let Some(r) = terminals::found(before.terminals, id@) {
            assert(before.terminals[r].id == id@ || before.terminals[r].name == Some(id@));
        }
    }
}

/// Removing a terminal from a session cuts its wire, gives out the handle, and leaves every
/// other wire and the registries as they are.
pub proof fn one_wire_is_cut<P, H>(
    id: String,
    before: MuxState<P, H>,
    action: MuxAction<P, H>,
    after: MuxState<P, H>,
    other: Seq<char>,
)
    requires
        mux_handled(MuxRequest::RemoveTerminal { id }, before, action, after),
    ensures
        after.terminals == before.terminals,
        after.views == before.views,
        !after.wired.contains_key(id@),
        other != id@ ==> after.wired.contains_key(other) == before.wired.contains_key(other),
        other != id@ && before.wired.contains_key(other) ==> after.wired[other]
            == before.wired[other],
        (action matches MuxAction::Unwire { cut, reply } && reply.response == MuxResponse::Done
            && !reply.notify && (if before.wired.contains_key(id@) {
            cut == Some(before.wired[id@])
        } else {
            cut is None
        })),
{
}

/// Killing a terminal within a session cuts its wire and gives out the handle. Where the
/// terminal is there it alone leaves the registry, its pseudo-terminal is given out, and the
/// text that was asked for, and nothing else, leaves every view; where it is not, the client
/// is told so and the registries stay.
pub proof fn one_terminal_is_killed<P, H>(
    id: String,
    before: MuxState<P, H>,
    action: MuxAction<P, H>,
    after: MuxState<P, H>,
    other: Seq<char>,
)
    requires
        mux_handled(MuxRequest::KillTerminal { id }, before, action, after),
        directory::well_formed(terminals::keys(before.terminals)),
    ensures
        !after.wired.contains_key(id@),
        other != id@ ==> after.wired.contains_key(other) == before.wired.contains_key(other),
        other != id@ && before.wired.contains_key(other) ==> after.wired[other]
            == before.wired[other],
        (action matches MuxAction::Kill { cut, .. } && (if before.wired.contains_key(id@) {
            cut == Some(before.wired[id@])
        } else {
            cut is None
        })),
        match terminals::found(before.terminals, id@) {
            Some(i) => {
                &&& action matches MuxAction::Kill { pty, reply, .. }
                &&& pty == Some(before.terminals[i].pty)
                &&& reply.response == MuxResponse::Done
                &&& reply.notify
                &&& after.terminals.len() == before.terminals.len() - 1
                &&& forall|j: int| 0 <= j < i ==> after.terminals[j] == before.terminals[j]
                &&& forall|j: int|
                    i < j < before.terminals.len() ==> after.terminals[j - 1]
                        == #[trigger] before.terminals[j]
                &&& after.views == views::without_terminal(before.views, id@)
                &&& after.views.len() == before.views.len()
                &&& forall|v: int, t: Seq<char>|
                    0 <= v < before.views.len() ==> (
                    #[trigger] after.views[v].terminal_ids.contains(t)
                        <==> before.views[v].terminal_ids.contains(t) && t != id@)
                &&& forall|v: int|
                    0 <= v < before.views.len() ==> (#[trigger] after.views[v]).id
                        == before.views[v].id && after.views[v].name == before.views[v].name
                        && after.views[v].layout == before.views[v].layout
                        && after.views[v].focused == before.views[v].focused
                        && after.views[v].created_at == before.views[v].created_at
            },
            None => {
                &&& action matches MuxAction::Kill { pty, reply, .. }
                &&& pty is None
                &&& !reply.notify
                &&& reply.response matches MuxResponse::Error { message }
                &&& message@ == "Server error: "@ + ("terminal not found: "@ + id@)
                &&& after.terminals == before.terminals
                &&& after.views == before.views
            },
        },
{
    terminals::what_stands_for_a_terminal(before.terminals, id@);
    if terminals::found(before.terminals, id@) is Some {
        assert forall|v: int, t: Seq<char>| 0 <= v < before.views.len() implies (
        #[trigger] after.views[v].terminal_ids.contains(t)
            <==> before.views[v].terminal_ids.contains(t) && t != id@) by {
            text::without_members(before.views[v].terminal_ids, id@);
        }
        assert forall|v: int| 0 <= v < before.views.len() implies (#[trigger] after.views[v]).id
            == before.views[v].id && after.views[v].name == before.views[v].name
            && after.views[v].layout == before.views[v].layout && after.views[v].focused
            == before.views[v].focused && after.views[v].created_at
            == before.views[v].created_at by {
            let _ = laws::terminal_is_taken_out_of_every_view(before.views, id@, v);
        }
    }
}

/// Storing an arrangement within a session changes the arrangement and the focus of the view
/// with that id and nothing else, and is answered with plain success.
pub proof fn one_view_is_arranged<P, H>(
    view_id: String,
    layout: Layout,
    focused: String,
    before: MuxState<P, H>,
    action: MuxAction<P, H>,
    after: MuxState<P, H>,
    j: int,
)
    requires
        mux_handled(MuxRequest::UpdateLayout { view_id, layout, focused }, before, action, after),
        views::well_formed(before.views),
    ensures
        (action matches MuxAction::Answer(reply) && reply.response == MuxResponse::Done
            && reply.notify),
        after.terminals == before.terminals,
        after.wired == before.wired,
        after.views.len() == before.views.len(),
        0 <= j < before.views.len() && before.views[j].id != view_id@ ==> after.views[j]
            == before.views[j],
        0 <= j < before.views.len() && before.views[j].id == view_id@ ==> after.views[j].layout == layout
            && after.views[j].focused == focused@ && after.views[j].id == before.views[j].id
            && after.views[j].name == before.views[j].name && after.views[j].terminal_ids
            == before.views[j].terminal_ids && after.views[j].created_at
            == before.views[j].created_at,
{
    laws::layout_is_stored_in_one_view(before.views, view_id@, layout, focused@, j);
}

/// A terminal that could not be opened keeps the wire that it has, nothing is given out, and
/// the client is told why.
pub proof fn unopened_terminal_changes_no_wire<H>(
    id: Seq<char>,
    opened: Result<H>,
    before: Map<Seq<char>, H>,
    wired: Wired<H>,
    after: Map<Seq<char>, H>,
)
    requires
        wire_finished(id, opened, before, wired, after),
        opened is Err,
    ensures
        after == before,
        wired.replaced is None,
        !wired.reply.notify,
        (wired.reply.response matches MuxResponse::Error { message } && message@
            == opened->Err_0@.message()),
{
}

/// The wires of a session say which handle each terminal has, and no more.
pub proof fn wires_say_who_has_which_handle<H>(wires: Seq<Wire<H>>, id: Seq<char>)
    requires
        one_each(wires),
    ensures
        wiring(wires).contains_key(id) <==> exists|i: int|
            0 <= i < wires.len() && (#[trigger] wires[i]).id@ == id,
        forall|i: int|
            0 <= i < wires.len() && (#[trigger] wires[i]).id@ == id ==> wiring(wires)[id]
                == wires[i].handle,
{
    assert forall|i: int| 0 <= i < wires.len() && (#[trigger] wires[i]).id@ == id implies is_at(
        wires,
        id,
        i,
    ) by {}
    if wiring(wires).contains_key(id) {
        let i = choose|i: int| is_at(wires, id, i);
        assert(is_at(wires, id, i));
        assert(wires[i].id@ == id);
    }
    assert forall|i: int| 0 <= i < wires.len() && (#[trigger] wires[i]).id@ == id implies wiring(
        wires,
    ).contains_key(id) && wiring(wires)[id] == wires[i].handle by {
        assert(is_at(wires, id, i));
        let k = choose|k: int| is_at(wires, id, k);
        assert(is_at(wires, id, k));
    }
}

/// A session that is started has each terminal wired to the handle that was opened for it,
/// and none wired that could not be opened; and bytes for a terminal go to that handle.
pub proof fn started_session_reaches_each_terminal<H>(
    known: Vec<String>,
    opened: Vec<Option<H>>,
    start: MuxStart<H>,
    k: int,
    handle: H,
    data: Vec<u8>,
    route: Route<H>,
)
    requires
        known@.len() == opened@.len(),
        call_ensures(MuxSession::<H>::start, (known, opened), start),
        0 <= k < known@.len(),
        opened@[k] == Some(handle),
        forall|j: int|
            k < j < known@.len() && opened@[j] is Some ==> (#[trigger] known@[j])@ != known@[k]@,
        call_ensures(
            MuxSession::<H>::route,
            (&start.session, Ok((known@[k], BinaryFrame::Data(data)))),
            route,
        ),
    ensures
        start.serve,
        (start.response matches Response::MultiplexAttached { terminal_ids } && exists|a: int|
            0 <= a < terminal_ids@.len() && (#[trigger] terminal_ids@[a])@ == known@[k]@),
        (route matches Route::Write { to, data: bytes, .. } && *to == handle && bytes@ == data@),
{
    let ids = text::contents(known@);
    assert forall|j: int| k < j < ids.len() && opened@[j] is Some implies #[trigger] ids[j]
        != ids[k] by {
        assert(ids[j] == known@[j]@);
    }
    each_terminal_has_its_own_handle(ids, opened@, k, handle);
    let places = attached_in_order(ids, opened@);
    let a = choose|a: int| 0 <= a < places.len() && places[a] == k;
    if let Response::MultiplexAttached { terminal_ids } = start.response {
        let attached = flagged(ids, opened_flags(opened@));
        assert(text::contents(terminal_ids@)[a] == attached[a]);
        assert(terminal_ids@[a]@ == known@[k]@);
    }
}

/// A terminal that could not be opened at any of its places is not wired when a session
/// starts, and bytes for it are dropped.
pub proof fn started_session_drops_the_rest<H>(
    known: Vec<String>,
    opened: Vec<Option<H>>,
    start: MuxStart<H>,
    id: String,
    data: Vec<u8>,
    route: Route<H>,
)
    requires
        known@.len() == opened@.len(),
        call_ensures(MuxSession::<H>::start, (known, opened), start),
        forall|j: int|
            0 <= j < known@.len() && (#[trigger] known@[j])@ == id@ ==> opened@[j] is None,
        call_ensures(
            MuxSession::<H>::route,
            (&start.session, Ok((id, BinaryFrame::Data(data)))),
            route,
        ),
    ensures
        route is Ignore,
{
    let ids = text::contents(known@);
    if wired_up(ids, opened@).contains_key(id@) {
        let k = no_handle_is_made_up(ids, opened@, id@);
        assert(known@[k]@ == id@);
    }
}

} // verus!
