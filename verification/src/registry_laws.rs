//! What becomes of the registries of terminals and views, operation by operation: what each
//! takes away, adds and hands out, and that the rest stays as it is.

use vstd::prelude::*;

use crate::error::Result;
use crate::ipc::message::{self, Layout, MuxRequest, MuxResponse, Request, Response, TerminalInfo};
use crate::server::connection::{finish_create, handle_request, Action, Registries, Reply};
use crate::server::connection_laws;
use crate::server::multiplex::{
    finish_spawn, known_terminals, MuxAction, MuxSession, MuxState, Wire, Wired,
};
use crate::server::multiplex_laws;
use crate::terminal::manager::{self as terminals, Terminal, TerminalManager};
use crate::text;
use crate::view::laws;
use crate::view::manager::{self as views, ViewManager};

verus! {

/// A view that is created comes last, under an id that no view had, with its one terminal,
/// which has the focus, and with no arrangement; the other views stay.
pub proof fn created_view_comes_last(
    mgr: &mut ViewManager,
    name: Option<String>,
    terminal_id: String,
    created_at: String,
    id: String,
)
    requires
        call_ensures(ViewManager::create, (mgr, name, terminal_id, created_at), id),
    ensures
        final(mgr)@.len() == old(mgr)@.len() + 1,
        forall|j: int|
            0 <= j < old(mgr)@.len() ==> final(mgr)@[j] == #[trigger] old(mgr)@[j]
                && old(mgr)@[j].id != id@,
        id@.len() == 8,
        final(mgr)@.last().id == id@,
        final(mgr)@.last().name == text::opt_content(name),
        final(mgr)@.last().terminal_ids == seq![terminal_id@],
        final(mgr)@.last().layout is Null,
        final(mgr)@.last().focused == terminal_id@,
        final(mgr)@.last().created_at == created_at@,
{
    let all = views::keys(old(mgr)@);
    assert forall|j: int| 0 <= j < old(mgr)@.len() implies final(mgr)@[j] == #[trigger] old(mgr)@[j]
        && old(mgr)@[j].id != id@ by {
        assert(all[j].id == old(mgr)@[j].id);
    }
}

/// A view that is deleted is the one that the text stands for, and no other goes; a text that
/// stands for none deletes none.
pub proof fn deleting_takes_one_view(
    mgr: &mut ViewManager,
    asked: &str,
    deleted: Result<()>,
    i: int,
)
    requires
        call_ensures(ViewManager::delete, (mgr, asked), deleted),
        0 <= i < old(mgr)@.len(),
        old(mgr)@[i].id == asked@,
        old(mgr).well_formed(),
    ensures
        deleted is Ok,
        final(mgr)@.len() == old(mgr)@.len() - 1,
        forall|j: int| 0 <= j < i ==> final(mgr)@[j] == old(mgr)@[j],
        forall|j: int|
            i < j < old(mgr)@.len() ==> final(mgr)@[j - 1] == #[trigger] old(mgr)@[j],
{
    laws::what_stands_for_a_view(old(mgr)@, asked@);
    let k = views::found(old(mgr)@, asked@)->0;
    laws::ids_tell_views_apart(old(mgr)@, i, k);
}

/// A text that is neither the id nor the name of a view deletes none and finds none.
pub proof fn absent_view_is_not_found(
    mgr: &mut ViewManager,
    asked: &str,
    deleted: Result<()>,
    found: Option<&views::View>,
    id: Option<String>,
)
    requires
        call_ensures(ViewManager::get, (&*old(mgr), asked), found),
        call_ensures(ViewManager::resolve_id, (&*old(mgr), asked), id),
        call_ensures(ViewManager::delete, (mgr, asked), deleted),
        forall|j: int|
            0 <= j < old(mgr)@.len() ==> (#[trigger] old(mgr)@[j]).id != asked@
                && old(mgr)@[j].name != Some(asked@),
    ensures
        found is None,
        id is None,
        final(mgr)@ == old(mgr)@,
        (deleted matches Err(error) && error@.message() == "Server error: "@ + (
        "view not found: "@ + asked@)),
{
    laws::what_stands_for_a_view(old(mgr)@, asked@);
}

/// A view is found by its id as it is stored.
pub proof fn views_are_found_by_id(
    mgr: ViewManager,
    asked: &str,
    found: Option<&views::View>,
    id: Option<String>,
    i: int,
)
    requires
        call_ensures(ViewManager::get, (&mgr, asked), found),
        call_ensures(ViewManager::resolve_id, (&mgr, asked), id),
        mgr.well_formed(),
        0 <= i < mgr@.len(),
        mgr@[i].id == asked@,
    ensures
        (found matches Some(view) && view@ == mgr@[i]),
        (id matches Some(id) && id@ == asked@),
{
    laws::what_stands_for_a_view(mgr@, asked@);
    let k = views::found(mgr@, asked@)->0;
    laws::ids_tell_views_apart(mgr@, i, k);
}

/// The full list of a registry is every view, in order.
pub proof fn full_lists_hold_every_view(mgr: ViewManager, all: Vec<&views::View>)
    requires
        call_ensures(ViewManager::list_full, (&mgr,), all),
    ensures
        all@.len() == mgr@.len(),
        forall|i: int| 0 <= i < mgr@.len() ==> (#[trigger] all@[i])@ == mgr@[i],
{
    let said = all@.map_values(|v: &views::View| v@);
    assert(said.len() == all@.len());
    assert forall|i: int| 0 <= i < mgr@.len() implies (#[trigger] all@[i])@ == mgr@[i] by {
        assert(said[i] == all@[i]@);
    }
}

/// Arranging a view changes the arrangement and the focus of the view with that id; every
/// other view, and all else of that one, stays.
pub proof fn arranging_changes_one_view(
    mgr: &mut ViewManager,
    id: &str,
    layout: Layout,
    focused: String,
    j: int,
)
    requires
        call_ensures(ViewManager::update_layout, (mgr, id, layout, focused), ()),
        old(mgr).well_formed(),
    ensures
        final(mgr)@.len() == old(mgr)@.len(),
        0 <= j < old(mgr)@.len() ==> {
            &&& old(mgr)@[j].id != id@ ==> final(mgr)@[j] == old(mgr)@[j]
            &&& old(mgr)@[j].id == id@ ==> final(mgr)@[j].layout == layout && final(mgr)@[j].focused
                == focused@
            &&& final(mgr)@[j].id == old(mgr)@[j].id
            &&& final(mgr)@[j].name == old(mgr)@[j].name
            &&& final(mgr)@[j].terminal_ids == old(mgr)@[j].terminal_ids
            &&& final(mgr)@[j].created_at == old(mgr)@[j].created_at
        },
{
    laws::layout_is_stored_in_one_view(old(mgr)@, id@, layout, focused@, j);
}

/// A terminal that is added to a view comes last there, unless the view has it already; every
/// other view stays.
pub proof fn adding_changes_one_view(
    mgr: &mut ViewManager,
    id: &str,
    terminal_id: &str,
    j: int,
)
    requires
        call_ensures(ViewManager::add_terminal, (mgr, id, terminal_id), ()),
        old(mgr).well_formed(),
    ensures
        final(mgr)@.len() == old(mgr)@.len(),
        0 <= j < old(mgr)@.len() ==> {
            &&& old(mgr)@[j].id != id@ || old(mgr)@[j].terminal_ids.contains(terminal_id@)
                ==> final(mgr)@[j] == old(mgr)@[j]
            &&& old(mgr)@[j].id == id@ && !old(mgr)@[j].terminal_ids.contains(terminal_id@)
                ==> final(mgr)@[j].terminal_ids == old(mgr)@[j].terminal_ids.push(terminal_id@)
            &&& final(mgr)@[j].id == old(mgr)@[j].id
            &&& final(mgr)@[j].name == old(mgr)@[j].name
            &&& final(mgr)@[j].layout == old(mgr)@[j].layout
            &&& final(mgr)@[j].focused == old(mgr)@[j].focused
            &&& final(mgr)@[j].created_at == old(mgr)@[j].created_at
        },
{
    laws::terminal_is_added_to_one_view(old(mgr)@, id@, terminal_id@, j);
}

/// A terminal that is taken out of one view leaves that view, whose other terminals stay in
/// their order, and every other view stays.
pub proof fn removing_changes_one_view(
    mgr: &mut ViewManager,
    id: &str,
    terminal_id: &str,
    j: int,
) -> (places: Seq<int>)
    requires
        call_ensures(ViewManager::remove_terminal_from_view, (mgr, id, terminal_id), ()),
        old(mgr).well_formed(),
    ensures
        final(mgr)@.len() == old(mgr)@.len(),
        0 <= j < old(mgr)@.len() ==> {
            &&& old(mgr)@[j].id != id@ ==> final(mgr)@[j] == old(mgr)@[j]
            &&& old(mgr)@[j].id == id@ ==> {
                let had = old(mgr)@[j].terminal_ids;
                let has = final(mgr)@[j].terminal_ids;
                &&& places.len() == has.len()
                &&& forall|a: int|
                    0 <= a < places.len() ==> 0 <= #[trigger] places[a] < had.len() && had[places[a]]
                        != terminal_id@ && has[a] == had[places[a]]
                &&& forall|a: int, b: int| 0 <= a < b < places.len() ==> places[a] < places[b]
                &&& forall|i: int|
                    0 <= i < had.len() && #[trigger] had[i] != terminal_id@ ==> places.contains(i)
            }
            &&& final(mgr)@[j].id == old(mgr)@[j].id
            &&& final(mgr)@[j].name == old(mgr)@[j].name
            &&& final(mgr)@[j].layout == old(mgr)@[j].layout
            &&& final(mgr)@[j].focused == old(mgr)@[j].focused
            &&& final(mgr)@[j].created_at == old(mgr)@[j].created_at
        },
{
    laws::terminal_is_taken_out_of_one_view(old(mgr)@, id@, terminal_id@, j)
}

/// A terminal that is taken out of every view leaves each its other terminals, in their order,
/// and changes nothing else.
pub proof fn removing_everywhere_keeps_the_rest(
    mgr: &mut ViewManager,
    terminal_id: &str,
    j: int,
) -> (places: Seq<int>)
    requires
        call_ensures(ViewManager::remove_terminal, (mgr, terminal_id), ()),
    ensures
        final(mgr)@.len() == old(mgr)@.len(),
        0 <= j < old(mgr)@.len() ==> {
            &&& ({
                let had = old(mgr)@[j].terminal_ids;
                let has = final(mgr)@[j].terminal_ids;
                &&& places.len() == has.len()
                &&& forall|a: int|
                    0 <= a < places.len() ==> 0 <= #[trigger] places[a] < had.len() && had[places[a]]
                        != terminal_id@ && has[a] == had[places[a]]
                &&& forall|a: int, b: int| 0 <= a < b < places.len() ==> places[a] < places[b]
                &&& forall|i: int|
                    0 <= i < had.len() && #[trigger] had[i] != terminal_id@ ==> places.contains(i)
            })
            &&& final(mgr)@[j].id == old(mgr)@[j].id
            &&& final(mgr)@[j].name == old(mgr)@[j].name
            &&& final(mgr)@[j].layout == old(mgr)@[j].layout
            &&& final(mgr)@[j].focused == old(mgr)@[j].focused
            &&& final(mgr)@[j].created_at == old(mgr)@[j].created_at
        },
{
    laws::terminal_is_taken_out_of_every_view(old(mgr)@, terminal_id@, j)
}

/// A terminal that was started comes last, under an id that no terminal had; the others stay.
/// One that was not started changes nothing, and the reason is given back.
pub proof fn created_terminal_comes_last<P>(
    mgr: &mut TerminalManager<P>,
    name: Option<String>,
    spawned: Result<P>,
    created_at: String,
    id: Result<String>,
)
    requires
        call_ensures(TerminalManager::<P>::create, (mgr, name, spawned, created_at), id),
    ensures
        forall|j: int|
            0 <= j < old(mgr)@.len() ==> final(mgr)@[j] == #[trigger] old(mgr)@[j] && (
            id matches Ok(new) ==> old(mgr)@[j].id != new@),
        spawned matches Ok(pty) ==> {
            &&& id matches Ok(new)
            &&& new@.len() == 8
            &&& final(mgr)@.len() == old(mgr)@.len() + 1
            &&& final(mgr)@.last().id == new@
            &&& final(mgr)@.last().name == text::opt_content(name)
            &&& final(mgr)@.last().pty == pty
            &&& final(mgr)@.last().created_at == created_at@
        },
        spawned matches Err(error) ==> final(mgr)@ == old(mgr)@ && (id matches Err(told) && told
            == error),
{
    let all = terminals::keys(old(mgr)@);
    assert forall|j: int| 0 <= j < old(mgr)@.len() implies final(mgr)@[j] == #[trigger] old(mgr)@[j]
        && (id matches Ok(new) ==> old(mgr)@[j].id != new@) by {
        assert(all[j].id == old(mgr)@[j].id);
    }
}

/// The terminal with an id is the one that is killed, found and named by it, and killing it
/// leaves the others in their order.
pub proof fn killing_takes_one_terminal<P>(
    mgr: &mut TerminalManager<P>,
    asked: &str,
    found: Option<&Terminal<P>>,
    id: Option<String>,
    killed: Result<Terminal<P>>,
    i: int,
)
    requires
        call_ensures(TerminalManager::<P>::get, (&*old(mgr), asked), found),
        call_ensures(TerminalManager::<P>::resolve_id, (&*old(mgr), asked), id),
        call_ensures(TerminalManager::<P>::kill, (mgr, asked), killed),
        old(mgr).well_formed(),
        0 <= i < old(mgr)@.len(),
        old(mgr)@[i].id == asked@,
    ensures
        (found matches Some(terminal) && terminal@ == old(mgr)@[i]),
        (id matches Some(id) && id@ == asked@),
        (killed matches Ok(terminal) && terminal@ == old(mgr)@[i]),
        final(mgr)@.len() == old(mgr)@.len() - 1,
        forall|j: int| 0 <= j < i ==> final(mgr)@[j] == old(mgr)@[j],
        forall|j: int|
            i < j < old(mgr)@.len() ==> final(mgr)@[j - 1] == #[trigger] old(mgr)@[j],
{
    terminals::what_stands_for_a_terminal(old(mgr)@, asked@);
    let k = terminals::found(old(mgr)@, asked@)->0;
    let all = terminals::keys(old(mgr)@);
    assert(all[k].id == old(mgr)@[k].id && all[i].id == old(mgr)@[i].id);
}

/// A text that is neither the id nor the name of a terminal kills none and finds none.
pub proof fn absent_terminal_is_not_found<P>(
    mgr: &mut TerminalManager<P>,
    asked: &str,
    found: Option<&Terminal<P>>,
    id: Option<String>,
    killed: Result<Terminal<P>>,
)
    requires
        call_ensures(TerminalManager::<P>::get, (&*old(mgr), asked), found),
        call_ensures(TerminalManager::<P>::resolve_id, (&*old(mgr), asked), id),
        call_ensures(TerminalManager::<P>::kill, (mgr, asked), killed),
        forall|j: int|
            0 <= j < old(mgr)@.len() ==> (#[trigger] old(mgr)@[j]).id != asked@
                && old(mgr)@[j].name != Some(asked@),
    ensures
        found is None,
        id is None,
        final(mgr)@ == old(mgr)@,
        (killed matches Err(error) && error@.message() == "Server error: "@ + (
        "terminal not found: "@ + asked@)),
{
    terminals::what_stands_for_a_terminal(old(mgr)@, asked@);
}

/// Killing every terminal hands out each of them, in order, and leaves none.
pub proof fn killing_all_takes_every_terminal<P>(
    mgr: &mut TerminalManager<P>,
    killed: Vec<Terminal<P>>,
    i: int,
)
    requires
        call_ensures(TerminalManager::<P>::kill_all, (mgr,), killed),
    ensures
        final(mgr)@.len() == 0,
        killed@.len() == old(mgr)@.len(),
        0 <= i < old(mgr)@.len() ==> killed@[i]@ == old(mgr)@[i],
{
    terminals::terminals_by_content(killed@, i);
    assert(terminals::records(killed@).len() == killed@.len());
}

/// The list of a registry says of every terminal, in order, its id, its name and when it was
/// created.
pub proof fn terminals_are_listed_whole<P>(
    mgr: TerminalManager<P>,
    infos: Vec<TerminalInfo>,
    i: int,
)
    requires
        call_ensures(TerminalManager::<P>::list, (&mgr,), infos),
    ensures
        infos@.len() == mgr@.len(),
        0 <= i < mgr@.len() ==> infos@[i].id@ == mgr@[i].id && text::opt_content(infos@[i].name)
            == mgr@[i].name && infos@[i].created_at@ == mgr@[i].created_at,
{
    let said = message::terminal_listing(infos@);
    assert(said.len() == infos@.len());
    terminals::listing_says_of_each_terminal(mgr@, i);
    if 0 <= i < mgr@.len() {
        assert(said[i] == infos@[i]@);
    }
}

/// A request to delete a view takes that view and no other, whichever way it is named, and
/// leaves every terminal.
pub proof fn delete_requests_take_one_view<P>(
    id: String,
    now: String,
    mgr: &mut TerminalManager<P>,
    vmgr: &mut ViewManager,
    action: Action<P>,
    i: int,
)
    requires
        call_ensures(handle_request::<P>, (Request::ViewDelete { id }, now, mgr, vmgr), action),
        old(vmgr).well_formed(),
        views::found(old(vmgr)@, id@) == Some(i),
    ensures
        (action matches Action::Answer(reply) && reply.response == Response::Done && reply.notify),
        final(mgr)@ == old(mgr)@,
        final(vmgr)@.len() == old(vmgr)@.len() - 1,
        forall|j: int| 0 <= j < i ==> final(vmgr)@[j] == old(vmgr)@[j],
        forall|j: int|
            i < j < old(vmgr)@.len() ==> final(vmgr)@[j - 1] == #[trigger] old(vmgr)@[j],
{
    connection_laws::one_view_is_deleted(
        id,
        i,
        now@,
        Registries { terminals: old(mgr)@, views: old(vmgr)@ },
        action,
        Registries { terminals: final(mgr)@, views: final(vmgr)@ },
    );
}

/// A request to show a view is answered with all of it, and nothing changes.
pub proof fn show_requests_tell_the_whole_view<P>(
    id: String,
    now: String,
    mgr: &mut TerminalManager<P>,
    vmgr: &mut ViewManager,
    action: Action<P>,
    i: int,
)
    requires
        call_ensures(handle_request::<P>, (Request::ViewShow { id }, now, mgr, vmgr), action),
        views::found(old(vmgr)@, id@) == Some(i),
    ensures
        final(mgr)@ == old(mgr)@,
        final(vmgr)@ == old(vmgr)@,
        (action matches Action::Answer(reply) && !reply.notify && (
        reply.response matches Response::ViewShow { view } && view.id@ == old(vmgr)@[i].id
            && text::opt_content(view.name) == old(vmgr)@[i].name && text::contents(
            view.terminal_ids@,
        ) == old(vmgr)@[i].terminal_ids && view.created_at@ == old(vmgr)@[i].created_at)),
{
    connection_laws::view_is_shown_whole(
        id,
        i,
        now@,
        Registries { terminals: old(mgr)@, views: old(vmgr)@ },
        action,
        Registries { terminals: final(mgr)@, views: final(vmgr)@ },
    );
}

/// A request to kill a terminal gives out that terminal's pseudo-terminal and takes no other
/// terminal away.
pub proof fn kill_requests_take_one_terminal<P>(
    id: String,
    now: String,
    mgr: &mut TerminalManager<P>,
    vmgr: &mut ViewManager,
    action: Action<P>,
    i: int,
)
    requires
        call_ensures(handle_request::<P>, (Request::TerminalKill { id }, now, mgr, vmgr), action),
        old(mgr).well_formed(),
        terminals::found(old(mgr)@, id@) == Some(i),
    ensures
        (action matches Action::Kill { pty, reply } && pty == old(mgr)@[i].pty && reply.response
            == Response::Done && reply.notify),
        final(mgr)@.len() == old(mgr)@.len() - 1,
        forall|j: int| 0 <= j < i ==> final(mgr)@[j] == old(mgr)@[j],
        forall|j: int|
            i < j < old(mgr)@.len() ==> final(mgr)@[j - 1] == #[trigger] old(mgr)@[j],
        final(vmgr)@.len() == old(vmgr)@.len(),
{
    connection_laws::one_terminal_is_killed(
        id,
        i,
        now@,
        Registries { terminals: old(mgr)@, views: old(vmgr)@ },
        action,
        Registries { terminals: final(mgr)@, views: final(vmgr)@ },
    );
}

/// A terminal that a client asked for is answered with the id that it was stored under, or
/// with the reason for which it was not started.
pub proof fn creating_answers_with_the_new_id<P>(
    name: Option<String>,
    spawned: Result<P>,
    now: String,
    mgr: &mut TerminalManager<P>,
    reply: Reply,
)
    requires
        call_ensures(finish_create::<P>, (name, spawned, now, mgr), reply),
    ensures
        reply.notify,
        spawned is Ok ==> (reply.response matches Response::TerminalCreated { id }
            && final(mgr)@.len() == old(mgr)@.len() + 1 && final(mgr)@.last().id == id@
            && final(mgr)@.last().name
            == text::opt_content(name) && final(mgr)@.last().pty == spawned->Ok_0),
        spawned matches Err(error) ==> final(mgr)@ == old(mgr)@ && (
        reply.response matches Response::Error { message } && message@ == error@.message()),
{
}

/// A terminal that a session asked for is opened under the id that it was stored under, or the
/// session is told why it was not started.
pub proof fn spawning_opens_the_new_terminal<P, H>(
    name: Option<String>,
    spawned: Result<P>,
    now: String,
    mgr: &mut TerminalManager<P>,
    action: MuxAction<P, H>,
)
    requires
        call_ensures(finish_spawn::<P, H>, (name, spawned, now, mgr), action),
    ensures
        spawned is Ok ==> (action matches MuxAction::OpenNew { id }
            && final(mgr)@.len() == old(mgr)@.len() + 1 && final(mgr)@.last().id == id@
            && final(mgr)@.last().name
            == text::opt_content(name) && final(mgr)@.last().pty == spawned->Ok_0
                && final(mgr)@.last().created_at == now@),
        spawned matches Err(error) ==> final(mgr)@ == old(mgr)@ && (
        action matches MuxAction::Answer(reply) && !reply.notify && (
        reply.response matches MuxResponse::Error { message } && message@ == error@.message())),
{
}

/// The terminals that a session starts with are those that are there, in the order in which
/// they were asked for.
pub proof fn known_terminals_are_there<P>(
    mgr: TerminalManager<P>,
    asked: Vec<String>,
    known: Vec<String>,
    id: Seq<char>,
)
    requires
        call_ensures(known_terminals::<P>, (&mgr, &asked), known),
        mgr.well_formed(),
    ensures
        text::contents(known@).contains(id) <==> text::contents(asked@).contains(id) && exists|
            r: int,
        |
            0 <= r < mgr@.len() && ((#[trigger] mgr@[r]).id == id || mgr@[r].name == Some(id)),
{
    let ids = text::contents(asked@);
    let got = text::contents(known@);
    let places = multiplex_laws::known_in_order(mgr@, ids);
    terminals::what_stands_for_a_terminal(mgr@, id);
    if let Some(r) = terminals::found(mgr@, id) {
        assert(mgr@[r].id == id || mgr@[r].name == Some(id));
    }
    if got.contains(id) {
        let a = choose|a: int| 0 <= a < got.len() && got[a] == id;
        assert(got[a] == ids[places[a]]);
    }
    if ids.contains(id) && terminals::found(mgr@, id) is Some {
        let i = choose|i: int| 0 <= i < ids.len() && ids[i] == id;
        assert(places.contains(i));
        let a = choose|a: int| 0 <= a < places.len() && places[a] == i;
        assert(got[a] == id);
    }
}

/// A terminal that is removed from a session loses its wire there, its handle is given out,
/// and no other wire changes.
pub proof fn removal_requests_cut_one_wire<P, H>(
    session: &mut MuxSession<H>,
    id: String,
    mgr: &mut TerminalManager<P>,
    vmgr: &mut ViewManager,
    action: MuxAction<P, H>,
    other: Seq<char>,
)
    requires
        call_ensures(
            MuxSession::<H>::handle::<P>,
            (session, MuxRequest::RemoveTerminal { id }, mgr, vmgr),
            action,
        ),
    ensures
        final(mgr)@ == old(mgr)@,
        final(vmgr)@ == old(vmgr)@,
        !final(session)@.contains_key(id@),
        other != id@ ==> final(session)@.get(other) == old(session)@.get(other),
        (action matches MuxAction::Unwire { cut, reply } && cut == old(session)@.get(id@)
            && reply.response is Done && !reply.notify),
{
    multiplex_laws::one_wire_is_cut(
        id,
        MuxState { wired: old(session)@, terminals: old(mgr)@, views: old(vmgr)@ },
        action,
        MuxState { wired: final(session)@, terminals: final(mgr)@, views: final(vmgr)@ },
        other,
    );
}

/// A terminal whose output was opened gets that handle, the one it had before is given out,
/// and no other wire changes; where its output was not opened no wire changes.
pub proof fn opened_terminals_get_their_handle<H>(
    session: &mut MuxSession<H>,
    id: String,
    opened: Result<H>,
    wired: Wired<H>,
    other: Seq<char>,
)
    requires
        call_ensures(MuxSession::<H>::finish_add, (session, id, opened), wired),
    ensures
        other != id@ ==> final(session)@.get(other) == old(session)@.get(other),
        opened matches Ok(handle) ==> final(session)@.get(id@) == Some(handle) && wired.replaced
            == old(session)@.get(id@) && wired.reply.response is Done && !wired.reply.notify,
        opened matches Err(error) ==> final(session)@ == old(session)@ && wired.replaced is None
            && !wired.reply.notify && (wired.reply.response matches MuxResponse::Error { message }
            && message@ == error@.message()),
{
}

/// A terminal that was just created is wired in the same way, and its id is the answer.
pub proof fn created_terminals_get_their_handle<H>(
    session: &mut MuxSession<H>,
    id: String,
    opened: Result<H>,
    wired: Wired<H>,
    other: Seq<char>,
)
    requires
        call_ensures(MuxSession::<H>::finish_create, (session, id, opened), wired),
    ensures
        other != id@ ==> final(session)@.get(other) == old(session)@.get(other),
        opened matches Ok(handle) ==> final(session)@.get(id@) == Some(handle) && wired.replaced
            == old(session)@.get(id@) && wired.reply.notify && (
        wired.reply.response matches MuxResponse::TerminalCreated { id: told } && told@ == id@),
        opened matches Err(error) ==> final(session)@ == old(session)@ && wired.replaced is None
            && !wired.reply.notify && (wired.reply.response matches MuxResponse::Error { message }
            && message@ == error@.message()),
{
}

/// A session that is closed gives out the handle of every wired terminal and keeps none.
pub proof fn closing_gives_out_every_handle<H>(
    session: &mut MuxSession<H>,
    wires: Vec<Wire<H>>,
    id: Seq<char>,
)
    requires
        call_ensures(MuxSession::<H>::close, (session,), wires),
    ensures
        !final(session)@.contains_key(id),
        old(session)@.contains_key(id) <==> exists|i: int|
            0 <= i < wires@.len() && (#[trigger] wires@[i]).id@ == id,
        forall|i: int|
            0 <= i < wires@.len() && (#[trigger] wires@[i]).id@ == id ==> old(session)@.get(id)
                == Some(wires@[i].handle),
{
    multiplex_laws::wires_say_who_has_which_handle(wires@, id);
}

} // verus!
