use kexsh::error::KexshError;
use kexsh::ipc::codec::{read_binary_frame, write_binary_frame};
use kexsh::ipc::message::{BinaryFrame, Layout, MuxRequest, MuxResponse, Request, Response};
use kexsh::server::check_may_start;
use kexsh::server::connection::{
    attach_step, finish_attach, finish_create, finish_expose, finish_open, finish_proxy_list, finish_sync,
    finish_unexpose, finish_unsync, handle_request, output_frame, Action, AttachStep,
    CloudCommand, Reply,
};
use kexsh::server::multiplex::{
    finish_spawn, known_terminals, MuxAction, MuxReply, MuxSession, MuxStart, Route, Wired,
};
use kexsh::terminal::manager::TerminalManager;
use kexsh::view::manager::ViewManager;
use serde_json::Value;

const NOW: &str = "2024-03-09 17:05";

fn test_managers() -> (TerminalManager<u32>, ViewManager) {
    (TerminalManager::new(), ViewManager::new())
}

fn create(mgr: &mut TerminalManager<u32>, name: Option<&str>) -> String {
    mgr.create(name.map(String::from), Ok(7), NOW.to_string()).unwrap()
}

/// Starts a session in which every terminal can be opened, with handles that count from 0.
fn multiplex_attach(mgr: &TerminalManager<u32>, ids: Vec<String>) -> MuxStart<usize> {
    let known = known_terminals(mgr, &ids);
    let opened = (0..known.len()).map(Some).collect();
    MuxSession::start(known, opened)
}

fn text(value: &Value) -> String {
    value.as_str().unwrap().to_string()
}

fn decoded(payload: &[u8]) -> MuxRequest {
    let value: Value = serde_json::from_slice(payload).unwrap();
    let (kind, fields) = value.as_object().unwrap().iter().next().unwrap();
    match kind.as_str() {
        "CreateTerminal" => {
            MuxRequest::CreateTerminal { name: fields["name"].as_str().map(String::from) }
        }
        "AddTerminal" => MuxRequest::AddTerminal { id: text(&fields["id"]) },
        "RemoveTerminal" => MuxRequest::RemoveTerminal { id: text(&fields["id"]) },
        "KillTerminal" => MuxRequest::KillTerminal { id: text(&fields["id"]) },
        "UpdateLayout" => MuxRequest::UpdateLayout {
            view_id: text(&fields["view_id"]),
            layout: Layout::Tree(fields["layout"].clone()),
            focused: text(&fields["focused"]),
        },
        other => panic!("no request {other}"),
    }
}

/// Carries an encoded control request to the session and has it handled.
fn control(
    session: &mut MuxSession<usize>,
    json: String,
    mgr: &mut TerminalManager<u32>,
    vmgr: &mut ViewManager,
) -> MuxAction<u32, usize> {
    let mut stream: Vec<u8> = Vec::new();
    let frame = BinaryFrame::Control(json.into_bytes());
    write_binary_frame(&mut stream, "\0\0\0\0\0\0\0\0", &frame);
    let req = match session.route(read_binary_frame(&mut stream.as_slice())) {
        Route::Control(payload) => decoded(&payload),
        other => panic!("expected Control, got {other:?}"),
    };
    session.handle(req, mgr, vmgr)
}

fn leaf(id: &str) -> Layout {
    let text = format!(r#"{{"type": "leaf", "terminal_id": "{id}"}}"#);
    Layout::Tree(serde_json::from_str(&text).unwrap())
}

fn ask(
    req: Request,
    mgr: &mut TerminalManager<u32>,
    vmgr: &mut ViewManager,
) -> Reply {
    match handle_request(req, NOW.to_string(), mgr, vmgr) {
        Action::Answer(reply) => reply,
        Action::Kill { reply, .. } => reply,
        Action::Stop(reply) => reply,
        _ => panic!("expected an answer"),
    }
}

fn message(reply: Reply) -> String {
    match reply.response {
        Response::Error { message } => message,
        other => panic!("expected Error, got {other:?}"),
    }
}

#[test]
fn multiplex_attach_filters_invalid_terminals() {
    let (mut mgr, _) = test_managers();
    let real_id = create(&mut mgr, None);

    let start = multiplex_attach(&mgr, vec![real_id.clone(), "nonexist".into()]);
    match start.response {
        Response::MultiplexAttached { terminal_ids } => {
            assert_eq!(terminal_ids, vec![real_id.clone()]);
        }
        other => panic!("expected MultiplexAttached, got {other:?}"),
    }

    let mut stream: Vec<u8> = Vec::new();
    write_binary_frame(&mut stream, &real_id, &BinaryFrame::Detach);
    assert_eq!(start.session.route(read_binary_frame(&mut stream.as_slice())), Route::Leave);
}

#[test]
fn multiplex_attach_empty_returns_immediately() {
    let (mgr, _) = test_managers();
    let start = multiplex_attach(&mgr, vec!["nonexist".into()]);
    match start.response {
        Response::MultiplexAttached { terminal_ids } => {
            assert!(terminal_ids.is_empty());
        }
        other => panic!("expected MultiplexAttached, got {other:?}"),
    }
    assert!(!start.serve);
}

#[test]
fn multiplex_control_create_terminal() {
    let (mut mgr, mut vmgr) = test_managers();
    let tid = create(&mut mgr, None);
    let mut session = multiplex_attach(&mgr, vec![tid]).session;

    let req = r#"{"CreateTerminal":{"name":"new-term"}}"#.to_string();
    let name = match control(&mut session, req, &mut mgr, &mut vmgr) {
        MuxAction::Spawn { name } => name,
        _ => panic!("expected Spawn"),
    };
    let id = match finish_spawn::<u32, usize>(name, Ok(8), NOW.to_string(), &mut mgr) {
        MuxAction::OpenNew { id } => id,
        _ => panic!("expected OpenNew"),
    };
    let wired = session.finish_create(id, Ok(8));
    assert_eq!(wired.replaced, None);
    let reply = wired.reply;
    assert!(reply.notify);
    match reply.response {
        MuxResponse::TerminalCreated { id } => {
            assert!(mgr.get(&id).is_some());
            assert_eq!(session.handle_of(&id), Some(&8));
            assert_eq!(mgr.resolve_id("new-term"), Some(id));
        }
        other => panic!("expected TerminalCreated, got {other:?}"),
    }
}

#[test]
fn multiplex_control_remove_terminal() {
    let (mut mgr, mut vmgr) = test_managers();
    let t1 = create(&mut mgr, None);
    let t2 = create(&mut mgr, None);
    let mut session = multiplex_attach(&mgr, vec![t1.clone(), t2.clone()]).session;

    let req = format!(r#"{{"RemoveTerminal":{{"id":"{t2}"}}}}"#);
    let resp = match control(&mut session, req, &mut mgr, &mut vmgr) {
        MuxAction::Unwire { cut, reply } => {
            assert_eq!(cut, Some(1));
            reply.response
        }
        _ => panic!("expected Unwire"),
    };
    assert!(matches!(resp, MuxResponse::Done));
    assert!(session.is_wired(&t1));
    assert!(mgr.get(&t2).is_some());
    let read = Ok((t2, BinaryFrame::Data(vec![1])));
    assert_eq!(session.route(read), Route::Ignore);
}

#[test]
fn multiplex_control_kill_terminal() {
    let (mut mgr, mut vmgr) = test_managers();
    let t1 = create(&mut mgr, None);
    let t2 = create(&mut mgr, None);
    let view = vmgr.create(None, t2.clone(), NOW.to_string());
    let mut session = multiplex_attach(&mgr, vec![t1.clone(), t2.clone()]).session;

    let req = format!(r#"{{"KillTerminal":{{"id":"{t2}"}}}}"#);
    let reply = match control(&mut session, req, &mut mgr, &mut vmgr) {
        MuxAction::Kill { cut, pty, reply } => {
            assert_eq!(cut, Some(1));
            assert_eq!(pty, Some(7));
            reply
        }
        _ => panic!("expected Kill"),
    };
    assert!(matches!(reply.response, MuxResponse::Done));
    assert!(reply.notify);
    assert!(mgr.get(&t2).is_none());
    assert!(vmgr.get(&view).unwrap().terminal_ids.is_empty());
    assert!(session.is_wired(&t1));
    assert!(!session.is_wired(&t2));
}

#[test]
fn multiplex_control_update_layout() {
    let (mut mgr, mut vmgr) = test_managers();
    let tid = create(&mut mgr, None);
    let view_id = vmgr.create(None, tid.clone(), NOW.to_string());
    let mut session = multiplex_attach(&mgr, vec![tid.clone()]).session;

    let layout = format!(r#"{{"type":"leaf","terminal_id":"{tid}"}}"#);
    let req = format!(
        r#"{{"UpdateLayout":{{"view_id":"{view_id}","layout":{layout},"focused":"{tid}"}}}}"#
    );
    let resp = match control(&mut session, req, &mut mgr, &mut vmgr) {
        MuxAction::Answer(reply) => reply,
        _ => panic!("expected Answer"),
    };
    assert!(matches!(resp.response, MuxResponse::Done));
    assert!(resp.notify);
    let view = vmgr.get(&view_id).unwrap();
    assert_eq!(view.focused, tid);
    assert_eq!(view.layout, leaf(&tid));
}

#[test]
fn sync_nonexistent_terminal_returns_error() {
    let (mut mgr, mut vmgr) = test_managers();
    let reply = ask(Request::TerminalSync { id: "nope".into() }, &mut mgr, &mut vmgr);
    match reply.response {
        Response::Error { message } => assert!(message.contains("not found")),
        other => panic!("expected Error, got {other:?}"),
    }
}

#[test]
fn sync_without_credentials_returns_error() {
    let (mut mgr, mut vmgr) = test_managers();
    let tid = create(&mut mgr, None);
    let (id, name) =
        match handle_request(Request::TerminalSync { id: tid.clone() }, NOW.to_string(), &mut mgr, &mut vmgr) {
            Action::OpenOutput { id, name } => (id, name),
            _ => panic!("expected OpenOutput"),
        };
    let action: Action<u32> = finish_open(id, name, Ok(()));
    match action {
        Action::Cloud(CloudCommand::Sync { id, name }) => {
            assert_eq!(id, tid);
            assert_eq!(name, None);
        }
        _ => panic!("expected Sync"),
    }
    // The cloud looks for credentials, finds none, and reports that.
    let missing = kexsh::credential::load(kexsh::credential::CredentialFile::Unreadable);
    let reply = finish_sync(Some(Err(missing.unwrap_err().message())));
    match reply.response {
        Response::Error { message } => assert!(message.contains("login")),
        other => panic!("expected Error, got {other:?}"),
    }
}

#[test]
fn frames_go_to_wired_terminals_only() {
    let (mut mgr, _) = test_managers();
    let t1 = create(&mut mgr, Some("dev"));
    let start = multiplex_attach(&mgr, vec!["dev".into(), "dev".into()]);
    assert!(start.serve);
    assert_eq!(
        start.response,
        Response::MultiplexAttached { terminal_ids: vec!["dev".into(), "dev".into()] }
    );
    let session = start.session;
    assert_eq!(
        session.route(Ok(("dev".into(), BinaryFrame::Data(vec![9])))),
        Route::Write { id: "dev".into(), to: &1, data: vec![9] }
    );
    assert_eq!(
        session.route(Ok(("dev".into(), BinaryFrame::Resize { cols: 1, rows: 2 }))),
        Route::Resize { id: "dev".into(), to: &1, cols: 1, rows: 2 }
    );
    assert_eq!(session.route(Ok((t1.clone(), BinaryFrame::Data(vec![9])))), Route::Ignore);
    assert_eq!(
        session.route(Ok((t1, BinaryFrame::Resize { cols: 1, rows: 2 }))),
        Route::Ignore
    );
    assert_eq!(session.route(Err(KexshError::Io("early eof".into()))), Route::Leave);
}

#[test]
fn terminals_whose_output_cannot_be_opened_are_left_out() {
    let known = vec!["a".into(), "b".into(), "c".into(), "a".into()];
    let start = MuxSession::start(known, vec![Some(1), None, Some(3), Some(4)]);
    assert_eq!(
        start.response,
        Response::MultiplexAttached { terminal_ids: vec!["a".into(), "c".into(), "a".into()] }
    );
    assert_eq!(start.session.handle_of("a"), Some(&4));
    assert_eq!(start.session.handle_of("b"), None);
    assert_eq!(start.session.handle_of("c"), Some(&3));
}

#[test]
fn adding_terminals_to_a_session() {
    let (mut mgr, mut vmgr) = test_managers();
    let t1 = create(&mut mgr, None);
    let mut session: MuxSession<usize> = MuxSession::new();
    let gone = r#"{"AddTerminal":{"id":"nope"}}"#.to_string();
    match control(&mut session, gone, &mut mgr, &mut vmgr) {
        MuxAction::Answer(reply) => assert_eq!(
            reply,
            MuxReply {
                response: MuxResponse::Error { message: "terminal not found: nope".into() },
                notify: false,
            }
        ),
        _ => panic!("expected Answer"),
    }
    let add = format!(r#"{{"AddTerminal":{{"id":"{t1}"}}}}"#);
    match control(&mut session, add, &mut mgr, &mut vmgr) {
        MuxAction::OpenAdded { id } => assert_eq!(id, t1),
        _ => panic!("expected OpenAdded"),
    }
    let failure = || Err(KexshError::Server("no reader".into()));
    let error = MuxResponse::Error { message: "Server error: no reader".into() };
    let failed = session.finish_add(t1.clone(), failure());
    assert_eq!(failed.reply, MuxReply { response: error, notify: false });
    assert_eq!(failed.replaced, None);
    assert!(!session.is_wired(&t1));
    let done = || MuxReply { response: MuxResponse::Done, notify: false };
    let added = session.finish_add(t1.clone(), Ok(5));
    assert_eq!(added, Wired { reply: done(), replaced: None });
    assert_eq!(session.handle_of(&t1), Some(&5));
    // Adding it again takes the place of the reader that was there.
    let again = session.finish_add(t1.clone(), Ok(6));
    assert_eq!(again, Wired { reply: done(), replaced: Some(5) });
    assert_eq!(session.handle_of(&t1), Some(&6));
    // A terminal that cannot be opened again keeps its wire.
    assert_eq!(session.finish_add(t1.clone(), failure()).replaced, None);
    assert_eq!(session.handle_of(&t1), Some(&6));
}

#[test]
fn closing_a_session_gives_out_its_wires() {
    let known = vec!["a".into(), "b".into(), "a".into()];
    let mut session = MuxSession::start(known, vec![Some(1), Some(2), Some(3)]).session;
    let mut handles: Vec<i32> = session.close().into_iter().map(|wire| wire.handle).collect();
    handles.sort();
    assert_eq!(handles, vec![2, 3]);
    assert!(!session.is_wired("a"));
    assert!(session.close().is_empty());
}

#[test]
fn session_requests_that_fail() {
    let (mut mgr, mut vmgr) = test_managers();
    let mut session: MuxSession<usize> = MuxSession::new();
    let kill = r#"{"KillTerminal":{"id":"nope"}}"#.to_string();
    match control(&mut session, kill, &mut mgr, &mut vmgr) {
        MuxAction::Kill { cut, pty, reply } => {
            assert_eq!(cut, None);
            assert_eq!(pty, None);
            assert_eq!(
                reply,
                MuxReply {
                    response: MuxResponse::Error {
                        message: "Server error: terminal not found: nope".into(),
                    },
                    notify: false,
                }
            );
        }
        _ => panic!("expected Kill"),
    }
    let failure = Err(KexshError::Server("no pty".into()));
    match finish_spawn::<u32, usize>(None, failure, NOW.to_string(), &mut mgr) {
        MuxAction::Answer(reply) => {
            assert_eq!(reply.response, MuxResponse::Error { message: "Server error: no pty".into() })
        }
        _ => panic!("expected Answer"),
    }
    assert_eq!(mgr.len(), 0);
    let reply = session.finish_create("t1".into(), Err(KexshError::Io("x".into()))).reply;
    assert_eq!(reply.response, MuxResponse::Error { message: "IO error: x".into() });
    assert!(!reply.notify);
}

#[test]
fn killing_undoes_creating() {
    let (mut mgr, mut vmgr) = test_managers();
    create(&mut mgr, Some("old"));
    let before = mgr.list();
    let mut session: MuxSession<usize> = MuxSession::new();
    let id = match finish_spawn::<u32, usize>(None, Ok(1), NOW.to_string(), &mut mgr) {
        MuxAction::OpenNew { id } => id,
        _ => panic!("expected OpenNew"),
    };
    session.finish_create(id.clone(), Ok(9));
    session.handle(MuxRequest::KillTerminal { id: id.clone() }, &mut mgr, &mut vmgr);
    assert_eq!(mgr.list(), before);
    assert!(!session.is_wired(&id));
}

#[test]
fn creating_terminals() {
    let (mut mgr, mut vmgr) = test_managers();
    let req = Request::TerminalCreate { name: Some("dev".into()) };
    let name = match handle_request(req, NOW.to_string(), &mut mgr, &mut vmgr) {
        Action::Spawn { name } => name,
        _ => panic!("expected Spawn"),
    };
    let reply = finish_create(name, Ok(3), NOW.to_string(), &mut mgr);
    let id = match reply.response {
        Response::TerminalCreated { id } => id,
        other => panic!("expected TerminalCreated, got {other:?}"),
    };
    assert!(reply.notify);
    let listed = match ask(Request::TerminalList, &mut mgr, &mut vmgr).response {
        Response::TerminalList { terminals } => terminals,
        other => panic!("expected TerminalList, got {other:?}"),
    };
    assert_eq!(listed.len(), 1);
    assert_eq!(listed[0].id, id);
    assert_eq!(listed[0].name, Some("dev".into()));
    assert_eq!(listed[0].created_at, NOW);

    let failed = finish_create(None, Err(KexshError::Server("no pty".into())), NOW.to_string(), &mut mgr);
    assert!(failed.notify);
    assert_eq!(message(failed), "Server error: no pty");
    assert_eq!(mgr.len(), 1);
}

#[test]
fn killed_terminal_leaves_every_view() {
    let (mut mgr, mut vmgr) = test_managers();
    let id = create(&mut mgr, Some("dev"));
    let view = vmgr.create(None, id.clone(), NOW.to_string());
    vmgr.add_terminal(&view, "other");
    let reply = ask(Request::TerminalKill { id: id.clone() }, &mut mgr, &mut vmgr);
    assert_eq!(reply, Reply { response: Response::Done, notify: true });
    assert!(mgr.get("dev").is_none());
    assert_eq!(vmgr.get(&view).unwrap().terminal_ids, vec!["other"]);
    let again = ask(Request::TerminalKill { id }, &mut mgr, &mut vmgr);
    assert!(again.notify);
    assert!(message(again).starts_with("Server error: terminal not found: "));
}

#[test]
fn terminal_killed_by_name_stays_in_views_under_its_id() {
    let (mut mgr, mut vmgr) = test_managers();
    let id = create(&mut mgr, Some("dev"));
    let view = vmgr.create(None, id.clone(), NOW.to_string());
    ask(Request::TerminalKill { id: "dev".into() }, &mut mgr, &mut vmgr);
    assert!(mgr.get(&id).is_none());
    assert_eq!(vmgr.get(&view).unwrap().terminal_ids, vec![id]);
}

#[test]
fn views_over_requests() {
    let (mut mgr, mut vmgr) = test_managers();
    let t1 = create(&mut mgr, None);
    let t2 = create(&mut mgr, None);
    let refused = ask(
        Request::ViewCreate { name: None, terminal_id: "nope".into() },
        &mut mgr,
        &mut vmgr,
    );
    assert_eq!(message(refused), "terminal not found: nope");
    let created = ask(
        Request::ViewCreate { name: Some("work".into()), terminal_id: t1.clone() },
        &mut mgr,
        &mut vmgr,
    );
    let id = match created.response {
        Response::ViewCreated { id } => id,
        other => panic!("expected ViewCreated, got {other:?}"),
    };
    let added = ask(
        Request::ViewAddTerminal { view_id: "work".into(), terminal_id: t2.clone() },
        &mut mgr,
        &mut vmgr,
    );
    assert_eq!(added, Reply { response: Response::Done, notify: true });
    let absent = ask(
        Request::ViewAddTerminal { view_id: "none".into(), terminal_id: t2.clone() },
        &mut mgr,
        &mut vmgr,
    );
    assert_eq!(message(absent), "view not found: none");
    let update = Request::ViewUpdateLayout {
        view_id: id.clone(),
        layout: leaf(&t2),
        focused: t2.clone(),
    };
    assert_eq!(ask(update, &mut mgr, &mut vmgr).response, Response::Done);
    let attach = ask(Request::ViewAttach { id: "work".into() }, &mut mgr, &mut vmgr);
    assert!(!attach.notify);
    assert_eq!(
        attach.response,
        Response::ViewAttach {
            terminal_ids: vec![t1.clone(), t2.clone()],
            layout: Some(leaf(&t2)),
            focused: Some(t2.clone()),
        }
    );
    let removal = Request::ViewRemoveTerminal { view_id: id.clone(), terminal_id: t1 };
    assert_eq!(ask(removal, &mut mgr, &mut vmgr).response, Response::Done);
    match ask(Request::ViewShow { id: id.clone() }, &mut mgr, &mut vmgr).response {
        Response::ViewShow { view } => {
            assert_eq!(view.terminal_ids, vec![t2]);
            assert_eq!(view.name, Some("work".into()));
            assert_eq!(view.created_at, NOW);
        }
        other => panic!("expected ViewShow, got {other:?}"),
    }
    match ask(Request::ViewList, &mut mgr, &mut vmgr).response {
        Response::ViewList { views } => assert_eq!(views.len(), 1),
        other => panic!("expected ViewList, got {other:?}"),
    }
    assert_eq!(ask(Request::ViewDelete { id }, &mut mgr, &mut vmgr).response, Response::Done);
    assert_eq!(
        message(ask(Request::ViewDelete { id: "work".into() }, &mut mgr, &mut vmgr)),
        "Server error: view not found: work"
    );
    assert_eq!(
        message(ask(Request::ViewShow { id: "work".into() }, &mut mgr, &mut vmgr)),
        "view not found: work"
    );
    assert_eq!(
        message(ask(Request::ViewAttach { id: "work".into() }, &mut mgr, &mut vmgr)),
        "view not found: work"
    );
}

#[test]
fn connections_that_are_handed_over() {
    let (mut mgr, mut vmgr) = test_managers();
    let id = create(&mut mgr, None);
    let attach = Request::TerminalAttach { id: id.clone() };
    assert!(matches!(
        handle_request(attach, NOW.to_string(), &mut mgr, &mut vmgr),
        Action::Attach { id: asked } if asked == id
    ));
    let refused = ask(Request::TerminalAttach { id: "nope".into() }, &mut mgr, &mut vmgr);
    assert_eq!(message(refused), "terminal not found: nope");
    let multiplex = Request::MultiplexAttach { terminal_ids: vec![id.clone()], view_id: None };
    assert!(matches!(
        handle_request(multiplex, NOW.to_string(), &mut mgr, &mut vmgr),
        Action::Multiplex { terminal_ids, view_id: None } if terminal_ids == vec![id]
    ));
    let stop = ask(Request::ServerStop, &mut mgr, &mut vmgr);
    assert_eq!(stop, Reply { response: Response::Done, notify: false });
}

#[test]
fn cloud_requests() {
    let (mut mgr, mut vmgr) = test_managers();
    let mut command = |req| match handle_request(req, NOW.to_string(), &mut mgr, &mut vmgr) {
        Action::Cloud(command) => command,
        _ => panic!("expected Cloud"),
    };
    assert_eq!(
        command(Request::TerminalUnsync { id: "t1".into() }),
        CloudCommand::Unsync { id: "t1".into() }
    );
    assert_eq!(
        command(Request::ProxyExpose { port: 80, public: true }),
        CloudCommand::ProxyExpose { port: 80, public: true }
    );
    assert_eq!(command(Request::ProxyUnexpose { port: 80 }), CloudCommand::ProxyUnexpose { port: 80 });
    assert_eq!(command(Request::ProxyList), CloudCommand::ProxyList);
}

#[test]
fn cloud_outcomes() {
    let reason = || "quota".to_string();
    assert_eq!(
        finish_sync(Some(Ok(()))),
        Reply { response: Response::SyncStatus { synced: true }, notify: true }
    );
    assert_eq!(
        finish_unsync(Some(Ok(()))),
        Reply { response: Response::SyncStatus { synced: false }, notify: true }
    );
    assert_eq!(
        finish_expose(80, Some(Ok("https://x".into()))),
        Reply { response: Response::ProxyExposed { port: 80, url: "https://x".into() }, notify: true }
    );
    assert_eq!(finish_unexpose(Some(Ok(()))), Reply { response: Response::Done, notify: true });
    assert_eq!(message(finish_sync(None)), "cloud manager unavailable");
    assert_eq!(message(finish_unsync(Some(Err(reason())))), "quota");
    assert_eq!(message(finish_unsync(None)), "cloud manager unavailable");
    assert_eq!(message(finish_expose(80, Some(Err(reason())))), "quota");
    assert_eq!(message(finish_expose(80, None)), "cloud manager unavailable");
    assert_eq!(message(finish_unexpose(Some(Err(reason())))), "quota");
    assert_eq!(message(finish_unexpose(None)), "cloud manager unavailable");
    assert_eq!(
        finish_proxy_list(Some(vec![80, 443])),
        Reply { response: Response::ProxyList { ports: vec![80, 443] }, notify: false }
    );
    assert_eq!(finish_proxy_list(None).response, Response::ProxyList { ports: vec![] });
}

#[test]
fn output_that_cannot_be_opened_is_not_synced() {
    let action: Action<u32> = finish_open("t1".into(), None, Err(KexshError::Server("busy".into())));
    match action {
        Action::Answer(reply) => {
            assert!(!reply.notify);
            assert_eq!(message(reply), "Server error: busy");
        }
        _ => panic!("expected Answer"),
    }
}

#[test]
fn attached_frames() {
    let id = || "t1".to_string();
    assert_eq!(attach_step(Ok((id(), BinaryFrame::Data(vec![1])))), AttachStep::Write(vec![1]));
    assert_eq!(
        attach_step(Ok((id(), BinaryFrame::Resize { cols: 80, rows: 24 }))),
        AttachStep::Resize { cols: 80, rows: 24 }
    );
    assert_eq!(attach_step(Ok((id(), BinaryFrame::Detach))), AttachStep::Leave);
    assert_eq!(attach_step(Ok((id(), BinaryFrame::Control(vec![])))), AttachStep::Leave);
    assert_eq!(attach_step(Err(KexshError::Io("x".into()))), AttachStep::Leave);
}

#[test]
fn frames_of_output() {
    let buf = [1u8, 2, 3, 4];
    let frame = |data: Vec<u8>| Some(("t1".to_string(), BinaryFrame::Data(data)));
    assert_eq!(output_frame("t1", &buf, Some(2)), frame(vec![1, 2]));
    assert_eq!(output_frame("t1", &buf, Some(4)), frame(vec![1, 2, 3, 4]));
    assert_eq!(output_frame("t1", &buf, Some(0)), None);
    assert_eq!(output_frame("t1", &buf, None), None);
}

#[test]
fn attaching_to_a_terminal() {
    assert_eq!(finish_attach(Ok(())), Ok(Reply { response: Response::Done, notify: false }));
    let failure = KexshError::Server("clone reader: x".into());
    assert_eq!(finish_attach(Err(failure.clone())), Err(failure));
}

#[test]
fn farewell_ends_the_session() {
    let (mut mgr, _) = test_managers();
    let tid = create(&mut mgr, None);
    let session = multiplex_attach(&mgr, vec![tid]).session;
    let (id, frame) = kexsh::terminal::attach::farewell();
    assert_eq!(id, "\0\0\0\0\0\0\0\0");
    assert_eq!(frame, BinaryFrame::Detach);
    let mut stream: Vec<u8> = Vec::new();
    write_binary_frame(&mut stream, &id, &frame);
    assert_eq!(session.route(read_binary_frame(&mut stream.as_slice())), Route::Leave);
}

#[test]
fn one_server_at_a_time() {
    assert_eq!(check_may_start(false), Ok(()));
    assert_eq!(
        check_may_start(true),
        Err(KexshError::Server("server is already running".into()))
    );
}
