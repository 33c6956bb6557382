//! What each request does, and what it is answered.
//!
//! Every law takes a request that was handled, and says what became of each terminal and
//! each view and what the client is told.

use vstd::prelude::*;

use crate::directory;
use crate::error::Result;
use crate::ident;
use crate::ipc::message::{self, Layout, Request, Response};
use crate::server::connection::{
    concluded, create_finished, expose_finished, handled, mutates, proxy_list_finished,
    sync_finished, unexpose_finished, unsync_finished, Action, CloudCommand, Outside, Registries,
    Reply,
};
use crate::terminal::manager::{self as terminals, TerminalRecord};
use crate::text;
use crate::view::laws;
use crate::view::manager::{self as views, ViewRecord};

verus! {

/// A request to stop wakes the shutdown and is answered with plain success; nothing changes.
pub proof fn stop_is_acknowledged<P>(
    now: Seq<char>,
    before: Registries<P>,
    action: Action<P>,
    after: Registries<P>,
)
    requires
        handled(Request::ServerStop, now, before, action, after),
    ensures
        action matches Action::Stop(reply) && reply.response == Response::Done && !reply.notify,
        after == before,
{
}

/// A list of terminals names every terminal, in order, by its id, its name and when it was
/// created.
pub proof fn every_terminal_is_listed<P>(
    now: Seq<char>,
    before: Registries<P>,
    action: Action<P>,
    after: Registries<P>,
)
    requires
        handled(Request::TerminalList, now, before, action, after),
    ensures
        action matches Action::Answer(reply) && (reply.response matches Response::TerminalList {
            terminals: listed,
        } && listed@.len() == before.terminals.len() && forall|i: int|
            0 <= i < listed@.len() ==> (#[trigger] listed@[i])@.id == before.terminals[i].id
                && listed@[i]@.name == before.terminals[i].name && listed@[i]@.created_at
                == before.terminals[i].created_at),
        after == before,
{
    if let Action::Answer(reply) = action {
        if let Response::TerminalList { terminals: listed } = reply.response {
            let said = terminals::infos(before.terminals);
            assert(message::terminal_listing(listed@).len() == said.len());
            assert forall|i: int| 0 <= i < listed@.len() implies (#[trigger] listed@[i])@.id
                == before.terminals[i].id && listed@[i]@.name == before.terminals[i].name
                && listed@[i]@.created_at == before.terminals[i].created_at by {
                assert(message::terminal_listing(listed@)[i] == said[i]);
            }
        }
    }
}

/// Killing a terminal, by id or by name, gives out its pseudo-terminal to be killed, takes it
/// and no other out of the registry, and takes the text that was asked for, and nothing else,
/// out of every view. It is answered with plain success.
pub proof fn one_terminal_is_killed<P>(
    id: String,
    i: int,
    now: Seq<char>,
    before: Registries<P>,
    action: Action<P>,
    after: Registries<P>,
)
    requires
        handled(Request::TerminalKill { id }, now, before, action, after),
        directory::well_formed(terminals::keys(before.terminals)),
        terminals::found(before.terminals, id@) == Some(i),
    ensures
        action matches Action::Kill { pty, reply } && pty == before.terminals[i].pty
            && reply.response == Response::Done && reply.notify,
        after.terminals.len() == before.terminals.len() - 1,
        forall|j: int| 0 <= j < i ==> after.terminals[j] == before.terminals[j],
        forall|j: int|
            i < j < before.terminals.len() ==> after.terminals[j - 1]
                == #[trigger] before.terminals[j],
        after.views == views::without_terminal(before.views, id@),
        after.views.len() == before.views.len(),
        forall|v: int, t: Seq<char>|
            0 <= v < before.views.len() ==> (#[trigger] after.views[v].terminal_ids.contains(t)
                <==> before.views[v].terminal_ids.contains(t) && t != id@),
        forall|v: int|
            0 <= v < before.views.len() ==> (#[trigger] after.views[v]).id == before.views[v].id
                && after.views[v].name == before.views[v].name && after.views[v].layout
                == before.views[v].layout && after.views[v].focused == before.views[v].focused
                && after.views[v].created_at == before.views[v].created_at,
{
    terminals::what_stands_for_a_terminal(before.terminals, id@);
    assert forall|v: int, t: Seq<char>| 0 <= v < before.views.len() implies (
    #[trigger] after.views[v].terminal_ids.contains(t) <==> before.views[v].terminal_ids.contains(t)
        && t != id@) by {
        text::without_members(before.views[v].terminal_ids, id@);
    }
    assert forall|v: int| 0 <= v < before.views.len() implies (#[trigger] after.views[v]).id
        == before.views[v].id && after.views[v].name == before.views[v].name
        && after.views[v].layout == before.views[v].layout && after.views[v].focused
        == before.views[v].focused && after.views[v].created_at == before.views[v].created_at by {
        let _ = laws::terminal_is_taken_out_of_every_view(before.views, id@, v);
    }
}

/// What is told of a terminal that is not there: killing says so as an error of the server,
/// attaching, syncing, creating a view and adding to a view say so plainly. Nothing changes.
pub proof fn what_is_said_of_an_absent_terminal<P>(
    req: Request,
    id: String,
    now: Seq<char>,
    before: Registries<P>,
    action: Action<P>,
    after: Registries<P>,
)
    requires
        handled(req, now, before, action, after),
        forall|j: int|
            0 <= j < before.terminals.len() ==> (#[trigger] before.terminals[j]).id != id@
                && before.terminals[j].name != Some(id@),
    ensures
        req == (Request::TerminalKill { id }) ==> (action matches Action::Answer(reply)
            && reply.notify && (reply.response matches Response::Error { message } && message@
            == "Server error: "@ + ("terminal not found: "@ + id@))),
        req == (Request::TerminalAttach { id }) || req == (Request::TerminalSync { id })
            ==> (action matches Action::Answer(reply) && !reply.notify && (
        reply.response matches Response::Error { message } && message@ == "terminal not found: "@
            + id@)),
        (req matches Request::ViewCreate { terminal_id, .. } && terminal_id == id) || (
        req matches Request::ViewAddTerminal { terminal_id, .. } && terminal_id == id)
            ==> (action matches Action::Answer(reply) && reply.notify && (
        reply.response matches Response::Error { message } && message@ == "terminal not found: "@
            + id@)),
        action matches Action::Answer(reply) && reply.response is Error ==> after == before,
{
    let all = terminals::keys(before.terminals);
    assert forall|j: int| 0 <= j < all.len() implies (#[trigger] all[j]).id != id@
        && all[j].name != Some(id@) by {
        assert(all[j].id == before.terminals[j].id && all[j].name == before.terminals[j].name);
    }
    directory::unresolved_is_absent(all, id@);
}

/// A connection for a terminal that is there is handed over to it, by what was asked for; a
/// request to sync it carries its name on.
pub proof fn connections_go_to_the_terminal_asked_for<P>(
    req: Request,
    id: String,
    i: int,
    now: Seq<char>,
    before: Registries<P>,
    action: Action<P>,
    after: Registries<P>,
)
    requires
        handled(req, now, before, action, after),
        terminals::found(before.terminals, id@) == Some(i),
        req == (Request::TerminalAttach { id }) || req == (Request::TerminalSync { id }),
    ensures
        req is TerminalAttach ==> (action matches Action::Attach { id: to } && to == id),
        req is TerminalSync ==> (action matches Action::OpenOutput { id: to, name } && to == id
            && text::opt_content(name) == before.terminals[i].name),
        after == before,
{
}

/// A request to carry several terminals hands on all that were asked for, in their order,
/// and the view.
pub proof fn sessions_are_handed_on_whole<P>(
    terminal_ids: Vec<String>,
    view_id: Option<String>,
    now: Seq<char>,
    before: Registries<P>,
    action: Action<P>,
    after: Registries<P>,
)
    requires
        handled(
            (Request::MultiplexAttach { terminal_ids, view_id }),
            now,
            before,
            action,
            after,
        ),
    ensures
        (action matches Action::Multiplex { terminal_ids: ids, view_id: view } && ids
            == terminal_ids && view == view_id),
        after == before,
{
}

/// What is asked of the cloud is what the client asked for, with the same terminal, port and
/// visibility; nothing changes on that account.
pub proof fn cloud_is_asked_the_same<P>(
    req: Request,
    now: Seq<char>,
    before: Registries<P>,
    action: Action<P>,
    after: Registries<P>,
)
    requires
        handled(req, now, before, action, after),
    ensures
        match req {
            Request::TerminalUnsync { id } => after == before && (
            action matches Action::Cloud(CloudCommand::Unsync { id: to }) && to == id),
            Request::ProxyExpose { port, public } => after == before && (
            action matches Action::Cloud(CloudCommand::ProxyExpose { port: p, public: v }) && p
                == port && v == public),
            Request::ProxyUnexpose { port } => after == before && (
            action matches Action::Cloud(CloudCommand::ProxyUnexpose { port: p }) && p == port),
            Request::ProxyList => after == before && (
            action matches Action::Cloud(command) && command is ProxyList),
            Request::TerminalCreate { name } => after == before && (
            action matches Action::Spawn { name: asked } && asked == name),
            _ => true,
        },
{
}

/// Creating a view adds one, behind those that are there, with a new short id, the name that
/// was asked for, that one terminal, no arrangement, the focus on that terminal and the
/// current time. No other view and no terminal changes, and the client is told the id.
pub proof fn one_view_is_created<P>(
    name: Option<String>,
    terminal_id: String,
    now: Seq<char>,
    before: Registries<P>,
    action: Action<P>,
    after: Registries<P>,
)
    requires
        handled(Request::ViewCreate { name, terminal_id }, now, before, action, after),
        terminals::found(before.terminals, terminal_id@) is Some,
    ensures
        after.terminals == before.terminals,
        after.views.len() == before.views.len() + 1,
        forall|j: int|
            0 <= j < before.views.len() ==> #[trigger] after.views[j] == before.views[j]
                && before.views[j].id != after.views.last().id,
        after.views.last().id.len() == 8,
        ident::is_short_id(after.views.last().id),
        after.views.last().name == text::opt_content(name),
        after.views.last().terminal_ids == seq![terminal_id@],
        after.views.last().layout == Layout::Null,
        after.views.last().focused == terminal_id@,
        after.views.last().created_at == now,
        action matches Action::Answer(reply) && reply.notify && (
        reply.response matches Response::ViewCreated { id } && id@ == after.views.last().id),
{
    let all = views::keys(before.views);
    assert forall|j: int| 0 <= j < before.views.len() implies #[trigger] after.views[j]
        == before.views[j] && before.views[j].id != after.views.last().id by {
        assert(all[j].id == before.views[j].id);
    }
}

/// Deleting a view, by id or by name, takes it and no other away: no view has its id any
/// more, every other view is found by its id as it was, and the order stays. No terminal
/// changes.
pub proof fn one_view_is_deleted<P>(
    id: String,
    i: int,
    now: Seq<char>,
    before: Registries<P>,
    action: Action<P>,
    after: Registries<P>,
)
    requires
        handled(Request::ViewDelete { id }, now, before, action, after),
        views::well_formed(before.views),
        views::found(before.views, id@) == Some(i),
    ensures
        action matches Action::Answer(reply) && reply.response == Response::Done && reply.notify,
        after.terminals == before.terminals,
        after.views.len() == before.views.len() - 1,
        forall|j: int| 0 <= j < i ==> after.views[j] == before.views[j],
        forall|j: int|
            i < j < before.views.len() ==> after.views[j - 1] == #[trigger] before.views[j],
        forall|j: int|
            0 <= j < after.views.len() ==> (#[trigger] after.views[j]).id != before.views[i].id,
        forall|j: int|
            0 <= j < before.views.len() && j != i ==> (views::found(
                after.views,
                (#[trigger] before.views[j]).id,
            ) matches Some(k) && after.views[k] == before.views[j]),
{
    laws::what_stands_for_a_view(before.views, id@);
    views::deleted_view_leaves_the_others(before.views, id@);
    assert forall|j: int| 0 <= j < after.views.len() implies (#[trigger] after.views[j]).id
        != before.views[i].id by {
        let k = if j < i {
            j
        } else {
            j + 1
        };
        assert(after.views[j] == before.views[k]);
        if before.views[k].id == before.views[i].id {
            laws::ids_tell_views_apart(before.views, k, i);
        }
    }
}

/// What is told of a view that is not there: deleting says so as an error of the server,
/// showing, attaching and adding a terminal that is there say so plainly. Nothing changes.
pub proof fn what_is_said_of_an_absent_view<P>(
    req: Request,
    id: String,
    now: Seq<char>,
    before: Registries<P>,
    action: Action<P>,
    after: Registries<P>,
)
    requires
        handled(req, now, before, action, after),
        forall|j: int|
            0 <= j < before.views.len() ==> (#[trigger] before.views[j]).id != id@
                && before.views[j].name != Some(id@),
    ensures
        req == (Request::ViewDelete { id }) ==> after == before && (
        action matches Action::Answer(reply) && reply.notify && (
        reply.response matches Response::Error { message } && message@ == "Server error: "@ + (
        "view not found: "@ + id@))),
        req == (Request::ViewShow { id }) || req == (Request::ViewAttach { id }) ==> after
            == before && (action matches Action::Answer(reply) && !reply.notify && (
        reply.response matches Response::Error { message } && message@ == "view not found: "@
            + id@)),
        (req matches Request::ViewAddTerminal { view_id, terminal_id } && view_id == id
            && terminals::found(before.terminals, terminal_id@) is Some) ==> after == before && (
        action matches Action::Answer(reply) && reply.notify && (
        reply.response matches Response::Error { message } && message@ == "view not found: "@
            + id@)),
{
    let all = views::keys(before.views);
    assert forall|j: int| 0 <= j < all.len() implies (#[trigger] all[j]).id != id@
        && all[j].name != Some(id@) by {
        assert(all[j].id == before.views[j].id && all[j].name == before.views[j].name);
    }
    directory::unresolved_is_absent(all, id@);
}

/// A view is shown by its id, its name, all its terminals in their order, and when it was
/// created.
pub proof fn view_is_shown_whole<P>(
    id: String,
    i: int,
    now: Seq<char>,
    before: Registries<P>,
    action: Action<P>,
    after: Registries<P>,
)
    requires
        handled(Request::ViewShow { id }, now, before, action, after),
        views::found(before.views, id@) == Some(i),
    ensures
        after == before,
        action matches Action::Answer(reply) && !reply.notify && (
        reply.response matches Response::ViewShow { view } && view.id@ == before.views[i].id
            && text::opt_content(view.name) == before.views[i].name && text::contents(
            view.terminal_ids@,
        ) == before.views[i].terminal_ids && view.created_at@ == before.views[i].created_at),
{
}

/// A client that attaches to a view is handed all its terminals in their order, its
/// arrangement and its focus.
pub proof fn view_is_handed_out_whole<P>(
    id: String,
    i: int,
    now: Seq<char>,
    before: Registries<P>,
    action: Action<P>,
    after: Registries<P>,
)
    requires
        handled(Request::ViewAttach { id }, now, before, action, after),
        views::found(before.views, id@) == Some(i),
    ensures
        after == before,
        action matches Action::Answer(reply) && !reply.notify && (
        reply.response matches Response::ViewAttach {
            terminal_ids,
            layout: Some(layout),
            focused: Some(focused),
        } && text::contents(terminal_ids@) == before.views[i].terminal_ids && layout
            == before.views[i].layout && focused@ == before.views[i].focused),
{
}

/// A list of views names every view once, by its id, its name, all its terminals in their
/// order, and when it was created; the older come first.
pub proof fn every_view_is_listed<P>(
    now: Seq<char>,
    before: Registries<P>,
    action: Action<P>,
    after: Registries<P>,
) -> (order: Seq<int>)
    requires
        handled(Request::ViewList, now, before, action, after),
    ensures
        after == before,
        order.len() == before.views.len(),
        order.no_duplicates(),
        forall|i: int| 0 <= i < before.views.len() ==> #[trigger] order.contains(i),
        action matches Action::Answer(reply) && !reply.notify && (
        reply.response matches Response::ViewList { views: listed } && listed@.len()
            == before.views.len() && (forall|a: int|
            0 <= a < listed@.len() ==> {
                let view = before.views[#[trigger] order[a]];
                &&& 0 <= order[a] < before.views.len()
                &&& listed@[a].id@ == view.id
                &&& text::opt_content(listed@[a].name) == view.name
                &&& text::contents(listed@[a].terminal_ids@) == view.terminal_ids
                &&& listed@[a].created_at@ == view.created_at
            }) && (forall|a: int, b: int|
            0 <= a < b < listed@.len() ==> !text::text_before(
                (#[trigger] listed@[b]).created_at@,
                (#[trigger] listed@[a]).created_at@,
            ))),
{
    if let Action::Answer(reply) = action {
        if let Response::ViewList { views: listed } = reply.response {
            let said = message::view_listing(listed@);
            let order = laws::listing_says_of_every_view(before.views, said);
            assert(said.len() == listed@.len());
            assert forall|a: int| 0 <= a < listed@.len() implies ({
                let view = before.views[#[trigger] order[a]];
                &&& 0 <= order[a] < before.views.len()
                &&& listed@[a].id@ == view.id
                &&& text::opt_content(listed@[a].name) == view.name
                &&& text::contents(listed@[a].terminal_ids@) == view.terminal_ids
                &&& listed@[a].created_at@ == view.created_at
            }) by {
                assert(said[a] == listed@[a]@);
            }
            assert forall|a: int, b: int| 0 <= a < b < listed@.len() implies !text::text_before(
                (#[trigger] listed@[b]).created_at@,
                (#[trigger] listed@[a]).created_at@,
            ) by {
                assert(said[a] == listed@[a]@ && said[b] == listed@[b]@);
                text::texts_are_ordered(said[a].created_at, said[b].created_at, said[a].created_at);
            }
            order
        } else {
            Seq::empty()
        }
    } else {
        Seq::empty()
    }
}

/// Adding a terminal to a view, by the view's id or name, puts it behind the terminals that
/// the view has, unless it has it already; nothing else of any view changes, and no terminal.
pub proof fn one_view_gets_the_terminal<P>(
    view_id: String,
    terminal_id: String,
    i: int,
    now: Seq<char>,
    before: Registries<P>,
    action: Action<P>,
    after: Registries<P>,
)
    requires
        handled(Request::ViewAddTerminal { view_id, terminal_id }, now, before, action, after),
        terminals::found(before.terminals, terminal_id@) is Some,
        views::found(before.views, view_id@) == Some(i),
    ensures
        action matches Action::Answer(reply) && reply.response == Response::Done && reply.notify,
        after.terminals == before.terminals,
        after.views.len() == before.views.len(),
        forall|j: int|
            0 <= j < before.views.len() && j != i ==> #[trigger] after.views[j] == before.views[j],
        before.views[i].terminal_ids.contains(terminal_id@) ==> after.views == before.views,
        !before.views[i].terminal_ids.contains(terminal_id@) ==> after.views[i].terminal_ids
            == before.views[i].terminal_ids.push(terminal_id@),
        after.views[i].id == before.views[i].id,
        after.views[i].name == before.views[i].name,
        after.views[i].layout == before.views[i].layout,
        after.views[i].focused == before.views[i].focused,
        after.views[i].created_at == before.views[i].created_at,
{
    laws::what_stands_for_a_view(before.views, view_id@);
    if before.views[i].terminal_ids.contains(terminal_id@) {
        assert(after.views =~= before.views);
    }
}

/// A view that was created for one terminal and got another is shown with both, in that
/// order.
pub proof fn grown_view_is_shown_with_both<P>(
    id: String,
    name: Option<String>,
    first: String,
    second: String,
    now: Seq<char>,
    before: Registries<P>,
    created: Action<P>,
    between: Registries<P>,
    added: Action<P>,
    grown: Registries<P>,
    shown: Action<P>,
    after: Registries<P>,
)
    requires
        views::well_formed(before.views),
        terminals::found(before.terminals, first@) is Some,
        terminals::found(before.terminals, second@) is Some,
        first@ != second@,
        handled(Request::ViewCreate { name, terminal_id: first }, now, before, created, between),
        created matches Action::Answer(reply) && (reply.response matches Response::ViewCreated {
            id: new,
        } && new@ == id@),
        handled(
            Request::ViewAddTerminal { view_id: id, terminal_id: second },
            now,
            between,
            added,
            grown,
        ),
        handled(Request::ViewShow { id }, now, grown, shown, after),
    ensures
        shown matches Action::Answer(reply) && (reply.response matches Response::ViewShow { view }
            && view.id@ == id@ && text::contents(view.terminal_ids@) == seq![first@, second@]),
{
    one_view_is_created(name, first, now, before, created, between);
    views::created_view_is_found(before.views, between.views.last());
    assert(between.views =~= before.views.push(between.views.last()));
    let i = before.views.len() as int;
    one_view_gets_the_terminal(id, second, i, now, between, added, grown);
    assert(between.views[i].terminal_ids =~= seq![first@]);
    assert(!seq![first@].contains(second@));
    assert(views::keys(grown.views) =~= views::keys(between.views)) by {
        assert forall|j: int| 0 <= j < grown.views.len() implies views::keys(grown.views)[j]
            == views::keys(between.views)[j] by {
            assert(grown.views[j].id == between.views[j].id && grown.views[j].name
                == between.views[j].name);
        }
    }
    view_is_shown_whole(id, i, now, grown, shown, after);
    assert(seq![first@].push(second@) =~= seq![first@, second@]);
}

/// Storing an arrangement, by the view's id, changes the arrangement and the focus of that
/// view and nothing else; a text that is no view's id changes nothing. The answer is plain
/// success either way.
pub proof fn one_view_is_arranged<P>(
    view_id: String,
    layout: Layout,
    focused: String,
    j: int,
    now: Seq<char>,
    before: Registries<P>,
    action: Action<P>,
    after: Registries<P>,
)
    requires
        handled(
            Request::ViewUpdateLayout { view_id, layout, focused },
            now,
            before,
            action,
            after,
        ),
        views::well_formed(before.views),
    ensures
        action matches Action::Answer(reply) && reply.response == Response::Done && reply.notify,
        after.terminals == before.terminals,
        after.views.len() == before.views.len(),
        0 <= j < before.views.len() && before.views[j].id != view_id@ ==> after.views[j]
            == before.views[j],
        0 <= j < before.views.len() && before.views[j].id == view_id@ ==> after.views[j].layout == layout
            && after.views[j].focused == focused@ && after.views[j].id == before.views[j].id
            && after.views[j].name == before.views[j].name && after.views[j].terminal_ids
            == before.views[j].terminal_ids && after.views[j].created_at
            == before.views[j].created_at,
{
    laws::layout_is_stored_in_one_view(before.views, view_id@, layout, focused@, j);
}

/// Taking a terminal out of a view, by the view's id, takes that terminal and nothing else
/// out of that view and no other; a text that is no view's id changes nothing. The answer is
/// plain success either way.
pub proof fn one_view_loses_the_terminal<P>(
    view_id: String,
    terminal_id: String,
    j: int,
    now: Seq<char>,
    before: Registries<P>,
    action: Action<P>,
    after: Registries<P>,
) -> (places: Seq<int>)
    requires
        handled(
            Request::ViewRemoveTerminal { view_id, terminal_id },
            now,
            before,
            action,
            after,
        ),
        views::well_formed(before.views),
    ensures
        action matches Action::Answer(reply) && reply.response == Response::Done && reply.notify,
        after.terminals == before.terminals,
        after.views.len() == before.views.len(),
        0 <= j < before.views.len() && before.views[j].id != view_id@ ==> after.views[j]
            == before.views[j],
        0 <= j < before.views.len() && before.views[j].id == view_id@ ==> ({
            let had = before.views[j].terminal_ids;
            let has = after.views[j].terminal_ids;
            &&& after.views[j].id == before.views[j].id
            &&& after.views[j].name == before.views[j].name
            &&& after.views[j].layout == before.views[j].layout
            &&& after.views[j].focused == before.views[j].focused
            &&& after.views[j].created_at == before.views[j].created_at
            &&& places.len() == has.len()
            &&& forall|a: int|
                0 <= a < places.len() ==> 0 <= #[trigger] places[a] < had.len() && had[places[a]]
                    != terminal_id@ && has[a] == had[places[a]]
            &&& forall|a: int, b: int| 0 <= a < b < places.len() ==> places[a] < places[b]
            &&& forall|i: int|
                0 <= i < had.len() && #[trigger] had[i] != terminal_id@ ==> places.contains(i)
        }),
{
    laws::terminal_is_taken_out_of_one_view(before.views, view_id@, terminal_id@, j)
}

/// A terminal whose pseudo-terminal was started is added behind those that are there, with
/// a new short id, the name that was asked for and the current time, and the client is told
/// the id. Where starting failed the client is told why, and nothing changes. Either way the
/// state is saved.
pub proof fn one_terminal_is_created<P>(
    name: Option<Seq<char>>,
    spawned: Result<P>,
    now: Seq<char>,
    before: Seq<TerminalRecord<P>>,
    reply: Reply,
    after: Seq<TerminalRecord<P>>,
)
    requires
        create_finished(name, spawned, now, before, reply, after),
    ensures
        reply.notify,
        spawned matches Err(error) ==> after == before && (
        reply.response matches Response::Error { message } && message@ == error@.message()),
        spawned matches Ok(pty) ==> {
            &&& after.len() == before.len() + 1
            &&& forall|j: int|
                0 <= j < before.len() ==> #[trigger] after[j] == before[j] && before[j].id
                    != after.last().id
            &&& ident::is_short_id(after.last().id)
            &&& after.last().name == name
            &&& after.last().pty == pty
            &&& after.last().created_at == now
            &&& reply.response matches Response::TerminalCreated { id }
            &&& id@ == after.last().id
        },
{
    if spawned is Ok {
        assert forall|j: int| 0 <= j < before.len() implies #[trigger] after[j] == before[j]
            && before[j].id != after.last().id by {
            assert(terminals::keys(before)[j].id == before[j].id);
        }
    }
}

/// What the cloud answers is what the client is told: success as such, a refusal by its
/// reason, and that the cloud is gone where no answer comes.
pub proof fn cloud_answers_are_passed_on(
    done: Option<std::result::Result<(), String>>,
    port: u16,
    exposed: Option<std::result::Result<String, String>>,
    ports: Option<Vec<u16>>,
    reply: Reply,
)
    ensures
        sync_finished(done, reply) ==> reply.notify && match done {
            Some(Ok(())) => reply.response == (Response::SyncStatus { synced: true }),
            Some(Err(reason)) => reply.response matches Response::Error { message } && message@
                == reason@,
            None => reply.response matches Response::Error { message } && message@
                == "cloud manager unavailable"@,
        },
        unsync_finished(done, reply) ==> reply.notify && match done {
            Some(Ok(())) => reply.response == (Response::SyncStatus { synced: false }),
            Some(Err(reason)) => reply.response matches Response::Error { message } && message@
                == reason@,
            None => reply.response matches Response::Error { message } && message@
                == "cloud manager unavailable"@,
        },
        expose_finished(port, exposed, reply) ==> reply.notify && match exposed {
            Some(Ok(url)) => reply.response == (Response::ProxyExposed { port, url }),
            Some(Err(reason)) => reply.response matches Response::Error { message } && message@
                == reason@,
            None => reply.response matches Response::Error { message } && message@
                == "cloud manager unavailable"@,
        },
        unexpose_finished(done, reply) ==> reply.notify && match done {
            Some(Ok(())) => reply.response == Response::Done,
            Some(Err(reason)) => reply.response matches Response::Error { message } && message@
                == reason@,
            None => reply.response matches Response::Error { message } && message@
                == "cloud manager unavailable"@,
        },
        proxy_list_finished(ports, reply) ==> !reply.notify && (
        reply.response matches Response::ProxyList { ports: listed } && match ports {
            Some(ports) => listed == ports,
            None => listed@.len() == 0,
        }),
{
}

/// A request to sync a terminal whose output was opened is answered by what the cloud said;
/// one whose output could not be opened by the reason.
pub proof fn syncing_is_answered<P>(
    id: String,
    now: Seq<char>,
    before: Registries<P>,
    action: Action<P>,
    between: Registries<P>,
    outside: Outside<P>,
    reply: Reply,
    after: Registries<P>,
)
    requires
        handled(Request::TerminalSync { id }, now, before, action, between),
        concluded(action, outside, between, reply, after),
        terminals::found(before.terminals, id@) is Some,
    ensures
        outside.opened matches Err(error) ==> !reply.notify && (
        reply.response matches Response::Error { message } && message@ == error@.message()),
        outside.opened is Ok && outside.synced == Some(Ok::<(), String>(())) ==> reply.response
            == (Response::SyncStatus { synced: true }),
        outside.opened is Ok && outside.synced is None ==> reply.response is Error,
        after == before,
{
}

/// The requests that have the state saved: those that create, kill, sync or unsync a
/// terminal, create, delete, fill, empty or arrange a view, or expose a port or stop it.
pub proof fn which_requests_mutate(req: Request)
    ensures
        mutates(req) <==> req is TerminalCreate || req is TerminalKill || req is TerminalSync
            || req is TerminalUnsync || req is ViewCreate || req is ViewDelete
            || req is ViewAddTerminal || req is ViewUpdateLayout || req is ViewRemoveTerminal
            || req is ProxyExpose || req is ProxyUnexpose,
{
}

/// What the cloud says concludes the command that it was given: an exposed port is answered
/// with that port and the address, a list with the ports, and what failed with the reason.
pub proof fn commands_are_concluded<P>(
    command: CloudCommand,
    outside: Outside<P>,
    before: Registries<P>,
    reply: Reply,
    after: Registries<P>,
)
    requires
        concluded(Action::<P>::Cloud(command), outside, before, reply, after),
    ensures
        after == before,
        match command {
            CloudCommand::Sync { .. } => match outside.synced {
                Some(Ok(())) => reply.notify && reply.response == (Response::SyncStatus {
                    synced: true,
                }),
                Some(Err(reason)) => reply.notify && (reply.response matches Response::Error {
                    message,
                } && message@ == reason@),
                None => reply.notify && reply.response is Error,
            },
            CloudCommand::Unsync { .. } => match outside.unsynced {
                Some(Ok(())) => reply.notify && reply.response == (Response::SyncStatus {
                    synced: false,
                }),
                Some(Err(reason)) => reply.notify && (reply.response matches Response::Error {
                    message,
                } && message@ == reason@),
                None => reply.notify && reply.response is Error,
            },
            CloudCommand::ProxyExpose { port, .. } => match outside.exposed {
                Some(Ok(url)) => reply.notify && (reply.response matches Response::ProxyExposed {
                    port: at,
                    url: address,
                } && at == port && address@ == url@),
                Some(Err(reason)) => reply.notify && (reply.response matches Response::Error {
                    message,
                } && message@ == reason@),
                None => reply.notify && reply.response is Error,
            },
            CloudCommand::ProxyUnexpose { .. } => match outside.unexposed {
                Some(Ok(())) => reply.notify && reply.response is Done,
                Some(Err(reason)) => reply.notify && (reply.response matches Response::Error {
                    message,
                } && message@ == reason@),
                None => reply.notify && reply.response is Error,
            },
            CloudCommand::ProxyList => !reply.notify && (
            reply.response matches Response::ProxyList { ports } && match outside.ports {
                Some(exposed) => ports@ == exposed@,
                None => ports@.len() == 0,
            }),
        },
{
}

/// An answer that is given at once is the reply, as it is, and nothing changes any more.
pub proof fn answers_are_replies<P>(
    answer: Reply,
    pty: P,
    action: Action<P>,
    outside: Outside<P>,
    before: Registries<P>,
    reply: Reply,
    after: Registries<P>,
)
    requires
        concluded(action, outside, before, reply, after),
        action == Action::<P>::Answer(answer) || action == Action::<P>::Stop(answer) || action == (
        Action::<P>::Kill { pty, reply: answer }),
    ensures
        reply == answer,
        after == before,
{
}

} // verus!
