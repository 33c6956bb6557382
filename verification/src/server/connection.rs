//! What the server does with a client's request.
//!
//! [`handle_request`] does all that needs only the registries, and says what else has to
//! be done: start a pseudo-terminal, ask the cloud, hand the connection over. The
//! `finish_...` functions take the outcome of that work and give the reply.

use vstd::prelude::*;
use vstd::string::*;

use crate::directory;
use crate::error::{KexshError, Result};
use crate::ident;
use crate::ipc::message::{self, BinaryFrame, Request, Response};
use crate::terminal::manager::{self as terminals, TerminalManager, TerminalRecord};
use crate::text;
use crate::view::manager::{self as views, ViewManager, ViewRecord};

verus! {

/// An answer, and whether the state is to be saved once it is on its way.
#[derive(Debug, PartialEq, Eq)]
pub struct Reply {
    pub response: Response,
    pub notify: bool,
}

/// What the server asks of the cloud.
#[derive(Debug, PartialEq, Eq)]
pub enum CloudCommand {
    Sync { id: String, name: Option<String> },
    Unsync { id: String },
    ProxyExpose { port: u16, public: bool },
    ProxyUnexpose { port: u16 },
    ProxyList,
}

/// What to do about a request.
pub enum Action<P> {
    /// Send the reply.
    Answer(Reply),
    /// Wake the shutdown, then send the reply.
    Stop(Reply),
    /// Kill the pseudo-terminal, whatever comes of it, then send the reply.
    Kill { pty: P, reply: Reply },
    /// Start a pseudo-terminal, and go on with [`finish_create`].
    Spawn { name: Option<String> },
    /// Open the terminal's output for reading, and go on with [`finish_attach`].
    Attach { id: String },
    /// Hand the connection to a multiplexed session.
    Multiplex { terminal_ids: Vec<String>, view_id: Option<String> },
    /// Open the terminal's output for reading, and go on with [`finish_open`].
    OpenOutput { id: String, name: Option<String> },
    /// Send the command to the cloud, and go on with the `finish_...` function for it.
    Cloud(CloudCommand),
}

impl Reply {
    /// An error with this text.
    pub open spec fn is_error(self, text: Seq<char>, notify: bool) -> bool {
        self.notify == notify && (self.response matches Response::Error { message } && message@
            == text)
    }

    /// Plain success.
    pub open spec fn is_done(self, notify: bool) -> bool {
        self.notify == notify && self.response is Done
    }
}

impl<P> Action<P> {
    /// An error with this text, and nothing else to do.
    pub open spec fn is_error(self, text: Seq<char>, notify: bool) -> bool {
        self matches Action::Answer(reply) && reply.is_error(text, notify)
    }

    /// Plain success, and nothing else to do.
    pub open spec fn is_done(self, notify: bool) -> bool {
        self matches Action::Answer(reply) && reply.is_done(notify)
    }
}

/// Whether a request may change what is saved.
pub open spec fn mutates(req: Request) -> bool {
    match req {
        Request::TerminalCreate { .. } => true,
        Request::TerminalKill { .. } => true,
        Request::TerminalSync { .. } => true,
        Request::TerminalUnsync { .. } => true,
        Request::ViewCreate { .. } => true,
        Request::ViewDelete { .. } => true,
        Request::ViewAddTerminal { .. } => true,
        Request::ViewUpdateLayout { .. } => true,
        Request::ViewRemoveTerminal { .. } => true,
        Request::ProxyExpose { .. } => true,
        Request::ProxyUnexpose { .. } => true,
        _ => false,
    }
}

/// The registries of the server.
pub struct Registries<P> {
    pub terminals: Seq<TerminalRecord<P>>,
    pub views: Seq<ViewRecord>,
}

/// Killing a terminal. The text that was asked for, be it an id or a name, leaves every
/// view.
pub open spec fn kill_handled<P>(
    id: Seq<char>,
    before: Registries<P>,
    action: Action<P>,
    after: Registries<P>,
) -> bool {
    match terminals::found(before.terminals, id) {
        Some(i) => {
            &&& action matches Action::Kill { pty, reply }
            &&& pty == before.terminals[i].pty
            &&& reply.is_done(true)
            &&& after.terminals == before.terminals.remove(i)
            &&& after.views == views::without_terminal(before.views, id)
        },
        None => {
            &&& action.is_error("Server error: "@ + terminals::not_found_text(id), true)
            &&& after == before
        },
    }
}

/// Creating a view of a terminal that must be there.
pub open spec fn view_create_handled<P>(
    name: Option<Seq<char>>,
    terminal_id: Seq<char>,
    now: Seq<char>,
    before: Registries<P>,
    action: Action<P>,
    after: Registries<P>,
) -> bool {
    if terminals::found(before.terminals, terminal_id) is None {
        &&& action.is_error(terminals::not_found_text(terminal_id), true)
        &&& after == before
    } else {
        &&& action matches Action::Answer(reply)
        &&& reply.notify
        &&& reply.response matches Response::ViewCreated { id }
        &&& ident::is_short_id(id@)
        &&& !directory::has_id(views::keys(before.views), id@)
        &&& after.terminals == before.terminals
        &&& after.views == before.views.push(
            ViewRecord {
                id: id@,
                name,
                terminal_ids: seq![terminal_id],
                layout: message::Layout::Null,
                focused: terminal_id,
                created_at: now,
            },
        )
    }
}

/// Adding a terminal that must be there to a view that must be there.
pub open spec fn view_add_handled<P>(
    view_id: Seq<char>,
    terminal_id: Seq<char>,
    before: Registries<P>,
    action: Action<P>,
    after: Registries<P>,
) -> bool {
    if terminals::found(before.terminals, terminal_id) is None {
        &&& action.is_error(terminals::not_found_text(terminal_id), true)
        &&& after == before
    } else {
        match views::found(before.views, view_id) {
            Some(i) => {
                &&& action.is_done(true)
                &&& after.terminals == before.terminals
                &&& after.views == before.views.update(
                    i,
                    before.views[i].with_terminal(terminal_id),
                )
            },
            None => {
                &&& action.is_error(views::not_found_text(view_id), true)
                &&& after == before
            },
        }
    }
}

/// What is done about a request, and what becomes of the registries.
pub open spec fn handled<P>(
    req: Request,
    now: Seq<char>,
    before: Registries<P>,
    action: Action<P>,
    after: Registries<P>,
) -> bool {
    match req {
        Request::ServerStop => {
            &&& action matches Action::Stop(reply)
            &&& reply.is_done(false)
            &&& after == before
        },
        Request::TerminalCreate { name } => action == Action::<P>::Spawn { name } && after
            == before,
        Request::TerminalList => {
            &&& action matches Action::Answer(reply)
            &&& !reply.notify
            &&& reply.response matches Response::TerminalList { terminals: listed }
            &&& message::terminal_listing(listed@) == terminals::infos(before.terminals)
            &&& after == before
        },
        Request::TerminalKill { id } => kill_handled(id@, before, action, after),
        Request::TerminalAttach { id } => {
            &&& after == before
            &&& if terminals::found(before.terminals, id@) is None {
                action.is_error(terminals::not_found_text(id@), false)
            } else {
                action == Action::<P>::Attach { id }
            }
        },
        Request::TerminalSync { id } => {
            &&& after == before
            &&& match terminals::found(before.terminals, id@) {
                None => action.is_error(terminals::not_found_text(id@), false),
                Some(i) => {
                    &&& action matches Action::OpenOutput { id: asked, name }
                    &&& asked == id
                    &&& text::opt_content(name) == before.terminals[i].name
                },
            }
        },
        Request::TerminalUnsync { id } => action == Action::<P>::Cloud(
            CloudCommand::Unsync { id },
        ) && after == before,
        Request::ViewCreate { name, terminal_id } => view_create_handled(
            text::opt_content(name),
            terminal_id@,
            now,
            before,
            action,
            after,
        ),
        Request::ViewList => {
            &&& action matches Action::Answer(reply)
            &&& !reply.notify
            &&& reply.response matches Response::ViewList { views: listed }
            &&& views::is_listing(before.views, message::view_listing(listed@))
            &&& after == before
        },
        Request::ViewDelete { id } => match views::found(before.views, id@) {
            Some(i) => {
                &&& action.is_done(true)
                &&& after.terminals == before.terminals
                &&& after.views == before.views.remove(i)
            },
            None => {
                &&& action.is_error("Server error: "@ + views::not_found_text(id@), true)
                &&& after == before
            },
        },
        Request::ViewShow { id } => {
            &&& after == before
            &&& match views::found(before.views, id@) {
                Some(i) => {
                    &&& action matches Action::Answer(reply)
                    &&& !reply.notify
                    &&& reply.response matches Response::ViewShow { view }
                    &&& view@ == before.views[i].info()
                },
                None => action.is_error(views::not_found_text(id@), false),
            }
        },
        Request::ViewAddTerminal { view_id, terminal_id } => view_add_handled(
            view_id@,
            terminal_id@,
            before,
            action,
            after,
        ),
        Request::ViewAttach { id } => {
            &&& after == before
            &&& match views::found(before.views, id@) {
                Some(i) => {
                    &&& action matches Action::Answer(reply)
                    &&& !reply.notify
                    &&& reply.response matches Response::ViewAttach {
                        terminal_ids,
                        layout: Some(layout),
                        focused: Some(focused),
                    }
                    &&& text::contents(terminal_ids@) == before.views[i].terminal_ids
                    &&& layout == before.views[i].layout
                    &&& focused@ == before.views[i].focused
                },
                None => action.is_error(views::not_found_text(id@), false),
            }
        },
        Request::ViewUpdateLayout { view_id, layout, focused } => {
            &&& action.is_done(true)
            &&& after.terminals == before.terminals
            &&& after.views == views::with_layout_in(before.views, view_id@, layout, focused@)
        },
        Request::ViewRemoveTerminal { view_id, terminal_id } => {
            &&& action.is_done(true)
            &&& after.terminals == before.terminals
            &&& after.views == views::without_terminal_in(before.views, view_id@, terminal_id@)
        },
        Request::MultiplexAttach { terminal_ids, view_id } => action == Action::<P>::Multiplex {
            terminal_ids,
            view_id,
        } && after == before,
        Request::ProxyExpose { port, public } => action == Action::<P>::Cloud(
            CloudCommand::ProxyExpose { port, public },
        ) && after == before,
        Request::ProxyUnexpose { port } => action == Action::<P>::Cloud(
            CloudCommand::ProxyUnexpose { port },
        ) && after == before,
        Request::ProxyList => action == Action::<P>::Cloud(CloudCommand::ProxyList) && after
            == before,
    }
}

fn error_reply(message: String, notify: bool) -> (reply: Reply)
    ensures
        reply.is_error(message@, notify),
{
    Reply { response: Response::Error { message }, notify }
}

fn done_reply(notify: bool) -> (reply: Reply)
    ensures
        reply.is_done(notify),
{
    Reply { response: Response::Done, notify }
}

fn kill_terminal<P>(id: &str, mgr: &mut TerminalManager<P>, vmgr: &mut ViewManager) -> (action:
    Action<P>)
    requires
        old(mgr).well_formed(),
        old(vmgr).well_formed(),
    ensures
        final(mgr).well_formed(),
        final(vmgr).well_formed(),
        kill_handled(
            id@,
            (Registries { terminals: old(mgr)@, views: old(vmgr)@ }),
            action,
            (Registries { terminals: final(mgr)@, views: final(vmgr)@ }),
        ),
{
    match mgr.kill(id) {
        Ok(terminal) => {
            vmgr.remove_terminal(id);
            Action::Kill { pty: terminal.pty, reply: done_reply(true) }
        },
        Err(error) => Action::Answer(error_reply(error.message(), true)),
    }
}

fn create_view<P>(
    name: Option<String>,
    terminal_id: String,
    now: String,
    mgr: &TerminalManager<P>,
    vmgr: &mut ViewManager,
) -> (action: Action<P>)
    requires
        mgr.well_formed(),
        old(vmgr).well_formed(),
        terminals::found(mgr@, terminal_id@) is Some ==> old(vmgr)@.len() < ident::SHORT_IDS,
    ensures
        final(vmgr).well_formed(),
        view_create_handled(
            text::opt_content(name),
            terminal_id@,
            now@,
            (Registries { terminals: mgr@, views: old(vmgr)@ }),
            action,
            (Registries { terminals: mgr@, views: final(vmgr)@ }),
        ),
{
    if mgr.get(terminal_id.as_str()).is_none() {
        return Action::Answer(error_reply(terminals::not_found(terminal_id.as_str()), true));
    }
    let id = vmgr.create(name, terminal_id, now);
    Action::Answer(Reply { response: Response::ViewCreated { id }, notify: true })
}

fn add_to_view<P>(
    view_id: &str,
    terminal_id: &str,
    mgr: &TerminalManager<P>,
    vmgr: &mut ViewManager,
) -> (action: Action<P>)
    requires
        mgr.well_formed(),
        old(vmgr).well_formed(),
    ensures
        final(vmgr).well_formed(),
        view_add_handled(
            view_id@,
            terminal_id@,
            (Registries { terminals: mgr@, views: old(vmgr)@ }),
            action,
            (Registries { terminals: mgr@, views: final(vmgr)@ }),
        ),
{
    if mgr.get(terminal_id).is_none() {
        return Action::Answer(error_reply(terminals::not_found(terminal_id), true));
    }
    match vmgr.resolve_id(view_id) {
        Some(resolved) => {
            proof {
                let all = views::keys(vmgr@);
                let i = views::found(vmgr@, view_id@)->0;
                directory::resolved_is_there(all, view_id@);
                assert(all[i].id == resolved@);
                directory::id_index_is(all, i);
            }
            vmgr.add_terminal(resolved.as_str(), terminal_id);
            Action::Answer(done_reply(true))
        },
        None => Action::Answer(error_reply(views::not_found(view_id), true)),
    }
}

/// Does what a request asks for, as far as the registries go. `now` is the time as it is
/// shown.
pub fn handle_request<P>(
    req: Request,
    now: String,
    mgr: &mut TerminalManager<P>,
    vmgr: &mut ViewManager,
) -> (action: Action<P>)
    requires
        old(mgr).well_formed(),
        old(vmgr).well_formed(),
        req matches Request::ViewCreate { terminal_id, .. } ==> terminals::found(
            old(mgr)@,
            terminal_id@,
        ) is Some ==> old(vmgr)@.len() < ident::SHORT_IDS,
    ensures
        final(mgr).well_formed(),
        final(vmgr).well_formed(),
        handled(
            req,
            now@,
            (Registries { terminals: old(mgr)@, views: old(vmgr)@ }),
            action,
            (Registries { terminals: final(mgr)@, views: final(vmgr)@ }),
        ),
{
    match req {
        Request::ServerStop => Action::Stop(done_reply(false)),
        Request::TerminalCreate { name } => Action::Spawn { name },
        Request::TerminalList => Action::Answer(
            Reply { response: Response::TerminalList { terminals: mgr.list() }, notify: false },
        ),
        Request::TerminalKill { id } => kill_terminal(id.as_str(), mgr, vmgr),
        Request::TerminalAttach { id } => {
            if mgr.get(id.as_str()).is_none() {
                Action::Answer(error_reply(terminals::not_found(id.as_str()), false))
            } else {
                Action::Attach { id }
            }
        },
        Request::TerminalSync { id } => {
            let name = match mgr.get(id.as_str()) {
                Some(terminal) => text::copy_opt(&terminal.name),
                None => {
                    return Action::Answer(error_reply(terminals::not_found(id.as_str()), false));
                },
            };
            Action::OpenOutput { id, name }
        },
        Request::TerminalUnsync { id } => Action::Cloud(CloudCommand::Unsync { id }),
        Request::ViewCreate { name, terminal_id } => create_view(
            name,
            terminal_id,
            now,
            mgr,
            vmgr,
        ),
        Request::ViewList => Action::Answer(
            Reply { response: Response::ViewList { views: vmgr.list() }, notify: false },
        ),
        Request::ViewDelete { id } => match vmgr.delete(id.as_str()) {
            Ok(()) => Action::Answer(done_reply(true)),
            Err(error) => Action::Answer(error_reply(error.message(), true)),
        },
        Request::ViewShow { id } => match vmgr.get(id.as_str()) {
            Some(view) => Action::Answer(
                Reply {
                    response: Response::ViewShow { view: views::view_info(view) },
                    notify: false,
                },
            ),
            None => Action::Answer(error_reply(views::not_found(id.as_str()), false)),
        },
        Request::ViewAddTerminal { view_id, terminal_id } => add_to_view(
            view_id.as_str(),
            terminal_id.as_str(),
            mgr,
            vmgr,
        ),
        Request::ViewAttach { id } => match vmgr.get(id.as_str()) {
            Some(view) => Action::Answer(
                Reply {
                    response: Response::ViewAttach {
                        terminal_ids: text::copy_texts(&view.terminal_ids),
                        layout: Some(view.layout.clone()),
                        focused: Some(view.focused.clone()),
                    },
                    notify: false,
                },
            ),
            None => Action::Answer(error_reply(views::not_found(id.as_str()), false)),
        },
        Request::ViewUpdateLayout { view_id, layout, focused } => {
            vmgr.update_layout(view_id.as_str(), layout, focused);
            Action::Answer(done_reply(true))
        },
        Request::ViewRemoveTerminal { view_id, terminal_id } => {
            vmgr.remove_terminal_from_view(view_id.as_str(), terminal_id.as_str());
            Action::Answer(done_reply(true))
        },
        Request::MultiplexAttach { terminal_ids, view_id } => Action::Multiplex {
            terminal_ids,
            view_id,
        },
        Request::ProxyExpose { port, public } => Action::Cloud(
            CloudCommand::ProxyExpose { port, public },
        ),
        Request::ProxyUnexpose { port } => Action::Cloud(CloudCommand::ProxyUnexpose { port }),
        Request::ProxyList => Action::Cloud(CloudCommand::ProxyList),
    }
}

/// The reply to a request for a terminal, and what becomes of the terminals, by what became
/// of starting its pseudo-terminal.
pub open spec fn create_finished<P>(
    name: Option<Seq<char>>,
    spawned: Result<P>,
    now: Seq<char>,
    before: Seq<TerminalRecord<P>>,
    reply: Reply,
    after: Seq<TerminalRecord<P>>,
) -> bool {
    match spawned {
        Err(error) => reply.is_error(error@.message(), true) && after == before,
        Ok(pty) => {
            &&& reply.notify
            &&& reply.response matches Response::TerminalCreated { id }
            &&& ident::is_short_id(id@)
            &&& !directory::has_id(terminals::keys(before), id@)
            &&& after == before.push(TerminalRecord { id: id@, name, pty, created_at: now })
        },
    }
}

/// Replies to a request for a terminal, given what became of starting its
/// pseudo-terminal.
pub fn finish_create<P>(
    name: Option<String>,
    spawned: Result<P>,
    now: String,
    mgr: &mut TerminalManager<P>,
) -> (reply: Reply)
    requires
        old(mgr).well_formed(),
        old(mgr)@.len() < ident::SHORT_IDS,
    ensures
        final(mgr).well_formed(),
        create_finished(text::opt_content(name), spawned, now@, old(mgr)@, reply, final(mgr)@),
{
    match mgr.create(name, spawned, now) {
        Ok(id) => Reply { response: Response::TerminalCreated { id }, notify: true },
        Err(error) => error_reply(error.message(), true),
    }
}

/// Accepts a connection for a terminal, given what became of opening its output. Where that
/// failed the connection ends with the error, and nothing is answered.
pub fn finish_attach(opened: Result<()>) -> (accepted: Result<Reply>)
    ensures
        opened is Ok ==> (accepted matches Ok(reply) && reply.is_done(false)),
        opened matches Err(error) ==> accepted == Err::<Reply, KexshError>(error),
{
    match opened {
        Ok(()) => Ok(done_reply(false)),
        Err(error) => Err(error),
    }
}

/// Goes on with syncing a terminal, given what became of opening its output. Where that
/// failed the error is the answer, and nothing is saved.
pub fn finish_open<P>(id: String, name: Option<String>, opened: Result<()>) -> (action: Action<P>)
    ensures
        opened is Ok ==> action == Action::<P>::Cloud(CloudCommand::Sync { id, name }),
        opened matches Err(error) ==> action.is_error(error@.message(), false),
{
    match opened {
        Ok(()) => Action::Cloud(CloudCommand::Sync { id, name }),
        Err(error) => Action::Answer(error_reply(error.message(), false)),
    }
}

fn unavailable() -> (reply: Reply)
    ensures
        reply.is_error("cloud manager unavailable"@, true),
{
    error_reply("cloud manager unavailable".to_owned(), true)
}

/// The reply to a request to sync a terminal, by the cloud's answer.
pub open spec fn sync_finished(
    outcome: Option<std::result::Result<(), String>>,
    reply: Reply,
) -> bool {
    match outcome {
        Some(Ok(())) => reply == (Reply {
            response: Response::SyncStatus { synced: true },
            notify: true,
        }),
        Some(Err(reason)) => reply.is_error(reason@, true),
        None => reply.is_error("cloud manager unavailable"@, true),
    }
}

/// Replies to a request to sync a terminal; no answer means that the cloud is gone.
pub fn finish_sync(outcome: Option<std::result::Result<(), String>>) -> (reply: Reply)
    ensures
        sync_finished(outcome, reply),
{
    match outcome {
        Some(Ok(())) => Reply { response: Response::SyncStatus { synced: true }, notify: true },
        Some(Err(reason)) => error_reply(reason, true),
        None => unavailable(),
    }
}

/// The reply to a request to stop syncing a terminal, by the cloud's answer.
pub open spec fn unsync_finished(
    outcome: Option<std::result::Result<(), String>>,
    reply: Reply,
) -> bool {
    match outcome {
        Some(Ok(())) => reply == (Reply {
            response: Response::SyncStatus { synced: false },
            notify: true,
        }),
        Some(Err(reason)) => reply.is_error(reason@, true),
        None => reply.is_error("cloud manager unavailable"@, true),
    }
}

/// Replies to a request to stop syncing a terminal.
pub fn finish_unsync(outcome: Option<std::result::Result<(), String>>) -> (reply: Reply)
    ensures
        unsync_finished(outcome, reply),
{
    match outcome {
        Some(Ok(())) => Reply { response: Response::SyncStatus { synced: false }, notify: true },
        Some(Err(reason)) => error_reply(reason, true),
        None => unavailable(),
    }
}

/// The reply to a request to expose a port, by the cloud's answer.
pub open spec fn expose_finished(
    port: u16,
    outcome: Option<std::result::Result<String, String>>,
    reply: Reply,
) -> bool {
    match outcome {
        Some(Ok(url)) => reply == (Reply {
            response: Response::ProxyExposed { port, url },
            notify: true,
        }),
        Some(Err(reason)) => reply.is_error(reason@, true),
        None => reply.is_error("cloud manager unavailable"@, true),
    }
}

/// Replies to a request to expose a port, given the address it was exposed at.
pub fn finish_expose(
    port: u16,
    outcome: Option<std::result::Result<String, String>>,
) -> (reply: Reply)
    ensures
        expose_finished(port, outcome, reply),
{
    match outcome {
        Some(Ok(url)) => Reply { response: Response::ProxyExposed { port, url }, notify: true },
        Some(Err(reason)) => error_reply(reason, true),
        None => unavailable(),
    }
}

/// The reply to a request to stop exposing a port, by the cloud's answer.
pub open spec fn unexpose_finished(
    outcome: Option<std::result::Result<(), String>>,
    reply: Reply,
) -> bool {
    match outcome {
        Some(Ok(())) => reply.is_done(true),
        Some(Err(reason)) => reply.is_error(reason@, true),
        None => reply.is_error("cloud manager unavailable"@, true),
    }
}

/// Replies to a request to stop exposing a port.
pub fn finish_unexpose(outcome: Option<std::result::Result<(), String>>) -> (reply: Reply)
    ensures
        unexpose_finished(outcome, reply),
{
    match outcome {
        Some(Ok(())) => done_reply(true),
        Some(Err(reason)) => error_reply(reason, true),
        None => unavailable(),
    }
}

/// The reply to a request for the exposed ports, by the cloud's answer.
pub open spec fn proxy_list_finished(ports: Option<Vec<u16>>, reply: Reply) -> bool {
    &&& !reply.notify
    &&& reply.response matches Response::ProxyList { ports: listed }
    &&& match ports {
        Some(ports) => listed == ports,
        None => listed@ == Seq::<u16>::empty(),
    }
}

/// Replies to a request for the exposed ports; a cloud that is gone exposes none.
pub fn finish_proxy_list(ports: Option<Vec<u16>>) -> (reply: Reply)
    ensures
        proxy_list_finished(ports, reply),
{
    let ports = match ports {
        Some(ports) => ports,
        None => Vec::new(),
    };
    Reply { response: Response::ProxyList { ports }, notify: false }
}

/// What was read of a terminal's output, given how many bytes arrived in the buffer: none
/// where reading failed or the output ended.
fn output_chunk(buf: &[u8], read: Option<usize>) -> (chunk: Option<Vec<u8>>)
    requires
        read matches Some(n) ==> n <= buf@.len(),
    ensures
        match read {
            Some(n) if n > 0 => chunk matches Some(data) && data@ == buf@.take(n as int),
            _ => chunk is None,
        },
{
    match read {
        Some(n) => {
            if n == 0 {
                return None;
            }
            let mut data: Vec<u8> = Vec::new();
            let mut i: usize = 0;
            while i < n
                invariant
                    i <= n <= buf@.len(),
                    data@ == buf@.take(i as int),
                decreases n - i,
            {
                data.push(buf[i]);
                i += 1;
                proof {
                    assert(data@ =~= buf@.take(i as int));
                }
            }
            Some(data)
        },
        None => None,
    }
}

/// The frame, with its id, that carries what was read of a terminal's output to clients;
/// none where reading failed or the output ended.
pub fn output_frame(id: &str, buf: &[u8], read: Option<usize>) -> (frame: Option<
    (String, BinaryFrame),
>)
    requires
        read matches Some(n) ==> n <= buf@.len(),
    ensures
        match read {
            Some(n) if n > 0 => frame matches Some((to, BinaryFrame::Data(data))) && to@ == id@
                && data@ == buf@.take(n as int),
            _ => frame is None,
        },
{
    match output_chunk(buf, read) {
        Some(data) => Some((id.to_owned(), BinaryFrame::Data(data))),
        None => None,
    }
}

/// What to do about a frame on a connection that is attached to one terminal.
#[derive(Debug, PartialEq, Eq)]
pub enum AttachStep {
    /// Write the bytes to the terminal.
    Write(Vec<u8>),
    /// Resize the terminal, whatever comes of it.
    Resize { cols: u16, rows: u16 },
    /// The session is over.
    Leave,
}

/// Decides what to do about a frame that was read, or could not be, on a connection that
/// is attached to one terminal.
pub fn attach_step(read: Result<(String, BinaryFrame)>) -> (step: AttachStep)
    ensures
        match read {
            Ok((_, BinaryFrame::Data(data))) => step == AttachStep::Write(data),
            Ok((_, BinaryFrame::Resize { cols, rows })) => step == (AttachStep::Resize {
                cols,
                rows,
            }),
            Ok((_, BinaryFrame::Detach)) => step is Leave,
            Ok((_, BinaryFrame::Control(_))) => step is Leave,
            Err(_) => step is Leave,
        },
{
    match read {
        Ok((_, BinaryFrame::Data(data))) => AttachStep::Write(data),
        Ok((_, BinaryFrame::Resize { cols, rows })) => AttachStep::Resize { cols, rows },
        Ok((_, BinaryFrame::Detach)) => AttachStep::Leave,
        Ok((_, BinaryFrame::Control(_))) => AttachStep::Leave,
        Err(_) => AttachStep::Leave,
    }
}

impl<P> Action<P> {
    /// Whether the request is refused: the answer is an error.
    pub open spec fn refuses(self) -> bool {
        self matches Action::Answer(reply) && reply.response is Error
    }
}

/// A request that does not mutate leaves the registries as they are, and its answer, if
/// it is given at once, does not have the state saved.
pub proof fn reading_changes_nothing<P>(
    req: Request,
    now: Seq<char>,
    before: Registries<P>,
    action: Action<P>,
    after: Registries<P>,
)
    requires
        handled(req, now, before, action, after),
        !mutates(req),
    ensures
        after == before,
        action matches Action::Answer(reply) ==> !reply.notify,
        action matches Action::Stop(reply) ==> !reply.notify,
        !(action is Kill),
{
}

/// A refused request leaves the registries as they are.
pub proof fn refusal_changes_nothing<P>(
    req: Request,
    now: Seq<char>,
    before: Registries<P>,
    action: Action<P>,
    after: Registries<P>,
)
    requires
        handled(req, now, before, action, after),
        action.refuses(),
    ensures
        after == before,
{
}

/// An answer to a mutating request has the state saved, with one exception: a request to
/// sync a terminal that is not there.
pub proof fn mutations_are_saved<P>(
    req: Request,
    now: Seq<char>,
    before: Registries<P>,
    action: Action<P>,
    after: Registries<P>,
)
    requires
        handled(req, now, before, action, after),
        mutates(req),
        !(req is TerminalSync),
    ensures
        action matches Action::Answer(reply) ==> reply.notify,
        action matches Action::Kill { reply, .. } ==> reply.notify,
        !(action is Stop),
{
}

/// Every request that names a terminal is refused, with the terminal's absence as the
/// reason, where no terminal has that id or name.
pub proof fn absent_terminal_is_refused<P>(
    req: Request,
    id: String,
    now: Seq<char>,
    before: Registries<P>,
    action: Action<P>,
    after: Registries<P>,
)
    requires
        handled(req, now, before, action, after),
        terminals::found(before.terminals, id@) is None,
        req == (Request::TerminalKill { id }) || req == (Request::TerminalAttach { id }) || req
            == (Request::TerminalSync { id }) || (req matches Request::ViewCreate {
            terminal_id,
            ..
        } && terminal_id == id) || (req matches Request::ViewAddTerminal { terminal_id, .. }
            && terminal_id == id),
    ensures
        action.refuses(),
        action matches Action::Answer(reply) && reply.response matches Response::Error { message }
            && (message@ == terminals::not_found_text(id@) || message@ == "Server error: "@
            + terminals::not_found_text(id@)),
{
}

/// Killing a terminal by its id leaves no terminal with that id, leaves it in no view,
/// and leaves every other terminal as it was.
pub proof fn killed_terminal_is_gone_everywhere<P>(
    id: String,
    now: Seq<char>,
    before: Registries<P>,
    action: Action<P>,
    after: Registries<P>,
)
    requires
        handled(Request::TerminalKill { id }, now, before, action, after),
        directory::well_formed(terminals::keys(before.terminals)),
        directory::has_id(terminals::keys(before.terminals), id@),
    ensures
        action is Kill,
        !directory::has_id(terminals::keys(after.terminals), id@),
        forall|v: int|
            0 <= v < after.views.len() ==> !(#[trigger] after.views[v]).terminal_ids.contains(id@),
        forall|j: int|
            0 <= j < before.terminals.len() && (#[trigger] before.terminals[j]).id != id@ ==> (
            terminals::found(after.terminals, before.terminals[j].id) matches Some(k)
                && after.terminals[k] == before.terminals[j]),
{
    let all = terminals::keys(before.terminals);
    let i = choose|i: int| 0 <= i < all.len() && (#[trigger] all[i]).id == id@;
    directory::id_index_is(all, i);
    assert(before.terminals[i].id == id@);
    terminals::killed_terminal_is_gone(before.terminals, id@);
    views::removed_terminal_is_in_no_view(before.views, id@);
    assert forall|v: int| 0 <= v < after.views.len() implies !(
    #[trigger] after.views[v]).terminal_ids.contains(id@) by {
        assert(after.views[v] == views::without_terminal(before.views, id@)[v]);
    }
}

/// The arrangement that was saved for a view is what a client that attaches to the view
/// by its id is handed.
pub proof fn saved_layout_is_handed_out<P>(
    id: String,
    layout: message::Layout,
    focused: String,
    now: Seq<char>,
    before: Registries<P>,
    saved: Action<P>,
    between: Registries<P>,
    later: Seq<char>,
    attached: Action<P>,
    after: Registries<P>,
)
    requires
        views::well_formed(before.views),
        views::found_by_id(before.views, id@) is Some,
        handled(
            Request::ViewUpdateLayout { view_id: id, layout, focused },
            now,
            before,
            saved,
            between,
        ),
        handled(Request::ViewAttach { id }, later, between, attached, after),
    ensures
        attached matches Action::Answer(reply) && (reply.response matches Response::ViewAttach {
            layout: Some(handed),
            focused: Some(focus),
            ..
        } && handed == layout && focus@ == focused@),
{
    views::stored_layout_is_found(before.views, id@, layout, focused@);
}

/// A view that was just created is shown with the terminal it was created for.
pub proof fn created_view_is_shown<P>(
    id: String,
    name: Option<String>,
    terminal_id: String,
    now: Seq<char>,
    before: Registries<P>,
    created: Action<P>,
    between: Registries<P>,
    later: Seq<char>,
    shown: Action<P>,
    after: Registries<P>,
)
    requires
        views::well_formed(before.views),
        terminals::found(before.terminals, terminal_id@) is Some,
        handled(Request::ViewCreate { name, terminal_id }, now, before, created, between),
        created matches Action::Answer(reply) && (reply.response matches Response::ViewCreated {
            id: new,
        } && new@ == id@),
        handled(Request::ViewShow { id }, later, between, shown, after),
    ensures
        shown matches Action::Answer(reply) && (reply.response matches Response::ViewShow { view }
            && view@.id == id@ && view@.name == text::opt_content(name) && view@.terminal_ids
            == seq![terminal_id@] && view@.created_at == now),
{
    views::created_view_is_found(before.views, between.views.last());
}

/// A terminal that was just created is at the end of the list that clients get.
pub proof fn created_terminal_is_listed<P>(
    new: TerminalRecord<P>,
    before: Seq<TerminalRecord<P>>,
    views: Seq<ViewRecord>,
    now: Seq<char>,
    listed: Action<P>,
    after: Registries<P>,
)
    requires
        handled(
            Request::TerminalList,
            now,
            (Registries { terminals: before.push(new), views }),
            listed,
            after,
        ),
    ensures
        listed matches Action::Answer(reply) && (reply.response matches Response::TerminalList {
            terminals: infos,
        } && infos@.len() == before.len() + 1 && infos@.last()@.id == new.id && infos@.last()@.name
            == new.name),
{
    if let Action::Answer(reply) = listed {
        if let Response::TerminalList { terminals: infos } = reply.response {
            let all = terminals::infos(before.push(new));
            assert(message::terminal_listing(infos@).len() == all.len());
            assert(message::terminal_listing(infos@).last() == all.last());
        }
    }
}

/// What the work outside the registries gave that a request asked for.
pub struct Outside<P> {
    pub now: Seq<char>,
    pub spawned: Result<P>,
    pub opened: Result<()>,
    pub synced: Option<std::result::Result<(), String>>,
    pub unsynced: Option<std::result::Result<(), String>>,
    pub exposed: Option<std::result::Result<String, String>>,
    pub unexposed: Option<std::result::Result<(), String>>,
    pub ports: Option<Vec<u16>>,
}

/// The one reply that a connection gets after an action, and what becomes of the
/// registries. A connection that is handed over gets none here.
pub open spec fn concluded<P>(
    action: Action<P>,
    outside: Outside<P>,
    before: Registries<P>,
    reply: Reply,
    after: Registries<P>,
) -> bool {
    match action {
        Action::Answer(answer) => reply == answer && after == before,
        Action::Stop(answer) => reply == answer && after == before,
        Action::Kill { reply: answer, .. } => reply == answer && after == before,
        Action::Spawn { name } => {
            &&& create_finished(
                text::opt_content(name),
                outside.spawned,
                outside.now,
                before.terminals,
                reply,
                after.terminals,
            )
            &&& after.views == before.views
        },
        Action::OpenOutput { .. } => {
            &&& match outside.opened {
                Ok(()) => sync_finished(outside.synced, reply),
                Err(error) => reply.is_error(error@.message(), false),
            }
            &&& after == before
        },
        Action::Cloud(command) => {
            &&& match command {
                CloudCommand::Sync { .. } => sync_finished(outside.synced, reply),
                CloudCommand::Unsync { .. } => unsync_finished(outside.unsynced, reply),
                CloudCommand::ProxyExpose { port, .. } => expose_finished(
                    port,
                    outside.exposed,
                    reply,
                ),
                CloudCommand::ProxyUnexpose { .. } => unexpose_finished(outside.unexposed, reply),
                CloudCommand::ProxyList => proxy_list_finished(outside.ports, reply),
            }
            &&& after == before
        },
        Action::Attach { .. } => false,
        Action::Multiplex { .. } => false,
    }
}

/// From a request to its reply, whatever the work outside gave: the state is saved exactly
/// where the request mutates, be the reply an error or not, and a request that does not
/// mutate leaves the registries as they are. The one exception is a request to sync a
/// terminal that is refused before the cloud is asked.
pub proof fn exactly_mutations_are_saved<P>(
    req: Request,
    now: Seq<char>,
    before: Registries<P>,
    action: Action<P>,
    between: Registries<P>,
    outside: Outside<P>,
    reply: Reply,
    after: Registries<P>,
)
    requires
        handled(req, now, before, action, between),
        concluded(action, outside, between, reply, after),
        req matches Request::TerminalSync { id } ==> terminals::found(before.terminals, id@)
            is Some && outside.opened is Ok,
    ensures
        reply.notify <==> mutates(req),
        !mutates(req) ==> after == before,
{
}

/// A request to sync a terminal that is refused before the cloud is asked is answered with
/// an error; nothing is saved and nothing changes.
pub proof fn refused_sync_is_not_saved<P>(
    id: String,
    now: Seq<char>,
    before: Registries<P>,
    action: Action<P>,
    between: Registries<P>,
    outside: Outside<P>,
    reply: Reply,
    after: Registries<P>,
)
    requires
        handled(Request::TerminalSync { id }, now, before, action, between),
        concluded(action, outside, between, reply, after),
        terminals::found(before.terminals, id@) is None || outside.opened is Err,
    ensures
        reply.response is Error,
        !reply.notify,
        after == before,
{
}

} // verus!
