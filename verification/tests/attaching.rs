use kexsh::error::KexshError;
use kexsh::ipc::message::{
    BinaryFrame, Layout, MuxRequest, MuxResponse, Request, Response, ViewInfo,
};
use kexsh::terminal::attach::{
    begin_split, close_notice, close_request, cursor_target, layout_notice, open_with, opening, output_plan,
    panes_to_draw, rect_of, resize_frame, session_step, session_terminals, split_added, status_line,
    split_created, split_notice, view_by_index, view_list_text, window_size, Action, Direction, OutputPlan,
    Pane, Rect, SessionEvent, SessionStep, SplitDirection, SplitStep,
};
use kexsh::terminal::switch::{is_accepted, stale_request, Placement, ViewSwitch};

fn texts(list: &[&str]) -> Vec<String> {
    list.iter().map(|s| s.to_string()).collect()
}

fn rect(x: u16, y: u16, width: u16, height: u16) -> Rect {
    Rect { x, y, width, height }
}

fn pane(id: &str, rect: Rect) -> Pane {
    Pane { id: id.to_string(), rect }
}

fn view(id: &str, name: Option<&str>) -> ViewInfo {
    ViewInfo {
        id: id.to_string(),
        name: name.map(String::from),
        terminal_ids: texts(&["t1"]),
        created_at: "2024-03-09 17:05".to_string(),
    }
}

#[test]
fn session_asks_for_each_terminal_once() {
    assert_eq!(session_terminals("a", &texts(&["b", "a", "c", "b"])), texts(&["a", "b", "c"]));
    assert_eq!(session_terminals("a", &vec![]), texts(&["a"]));
}

#[test]
fn sessions_open_with_or_without_a_layout() {
    let tree = || Layout::Tree(serde_json::from_str(r#"{"type": "split"}"#).unwrap());
    let restored = opening("a", &texts(&["b"]), Some(tree()));
    assert_eq!(restored.restore, Some(tree()));
    assert_eq!(restored.screens, texts(&["a", "b"]));
    assert!(restored.splits.is_empty());
    let null = Layout::Tree(serde_json::Value::Null);
    assert!(null.arranges_nothing());
    assert!(!tree().arranges_nothing());
    for saved in [None, Some(Layout::Null), Some(null)] {
        let fresh = opening("a", &texts(&["b", "c"]), saved);
        assert_eq!(fresh.restore, None);
        assert_eq!(fresh.screens, texts(&["a", "b", "c"]));
        assert_eq!(fresh.splits, texts(&["b", "c"]));
    }
}

#[test]
fn sessions_open_with_what_is_to_be_restored() {
    let fresh = open_with("a", &texts(&["b"]), None);
    assert_eq!(fresh.splits, texts(&["b"]));
    let restored = open_with("a", &texts(&["b"]), Some(Layout::Null));
    assert_eq!(restored.restore, Some(Layout::Null));
    assert!(restored.splits.is_empty());
}

#[test]
fn window_and_status_bar() {
    assert_eq!(window_size(Some((120, 40))), (120, 40));
    assert_eq!(window_size(None), (80, 24));
    let mut config = kexsh::config::Config::default();
    assert_eq!(status_line(&config, "x".into()), Some("x".to_string()));
    config.status_bar = false;
    assert_eq!(status_line(&config, "x".into()), None);
}

#[test]
fn panes_and_cursors() {
    let left = rect(0, 0, 40, 24);
    let right = rect(41, 0, 39, 24);
    let panes = vec![pane("a", left), pane("b", right), pane("a", right)];
    assert_eq!(rect_of(&panes, "a"), Some(left));
    assert_eq!(rect_of(&panes, "c"), None);
    assert_eq!(panes_to_draw(&panes, &texts(&["b"])), vec![pane("b", right)]);
    assert_eq!(cursor_target(right, 3, 5), (46, 3));
    assert_eq!(output_plan(&panes, "b", "b"), Some(OutputPlan { rect: right, cursor: true }));
    assert_eq!(output_plan(&panes, "b", "a"), Some(OutputPlan { rect: right, cursor: false }));
    assert_eq!(output_plan(&panes, "c", "c"), None);
    assert_eq!(resize_frame(right), BinaryFrame::Resize { cols: 39, rows: 24 });
}

#[test]
fn panes_too_small_are_not_split() {
    let create = Some(MuxRequest::CreateTerminal { name: None });
    let narrow = vec![pane("a", rect(0, 0, 3, 24))];
    assert_eq!(begin_split(SplitDirection::Vertical, &narrow, "a"), None);
    assert_eq!(begin_split(SplitDirection::Horizontal, &narrow, "a"), create);
    let flat = vec![pane("a", rect(0, 0, 80, 3))];
    assert_eq!(begin_split(SplitDirection::Horizontal, &flat, "a"), None);
    assert_eq!(begin_split(SplitDirection::Vertical, &flat, "a"), create);
    let enough = vec![pane("a", rect(0, 0, 4, 4))];
    assert_eq!(begin_split(SplitDirection::Vertical, &enough, "a"), create);
    assert_eq!(begin_split(SplitDirection::Vertical, &vec![], "a"), create);
}

#[test]
fn splits_step_by_step() {
    let id = || "new1".to_string();
    assert_eq!(
        split_created(MuxResponse::TerminalCreated { id: id() }),
        SplitStep::Ask { id: id(), request: MuxRequest::AddTerminal { id: id() } }
    );
    assert_eq!(split_created(MuxResponse::Done), SplitStep::Stop);
    assert_eq!(split_created(MuxResponse::Error { message: id() }), SplitStep::Stop);
    assert_eq!(split_added(id(), MuxResponse::Done), SplitStep::Show { id: id() });
    assert_eq!(
        split_added(id(), MuxResponse::Error { message: String::new() }),
        SplitStep::Undo { request: MuxRequest::KillTerminal { id: id() } }
    );
    assert_eq!(split_notice(None, id()), None);
    assert_eq!(
        split_notice(Some("v1"), id()),
        Some(Request::ViewAddTerminal { view_id: "v1".into(), terminal_id: id() })
    );
}

#[test]
fn closing_and_layout_changes_are_told() {
    assert_eq!(close_request("t1"), MuxRequest::RemoveTerminal { id: "t1".into() });
    assert_eq!(close_notice(None, "t1".into()), None);
    assert_eq!(
        close_notice(Some("v1"), "t1".into()),
        Some(Request::ViewRemoveTerminal { view_id: "v1".into(), terminal_id: "t1".into() })
    );
    assert_eq!(layout_notice(None, Layout::Null, "t1"), None);
    assert_eq!(
        layout_notice(Some("v1"), Layout::Null, "t1"),
        Some(Request::ViewUpdateLayout {
            view_id: "v1".into(),
            layout: Layout::Null,
            focused: "t1".into(),
        })
    );
}

#[test]
fn session_steps() {
    let key = |action| session_step(SessionEvent::Input(action), "t1");
    assert_eq!(
        key(Action::SendToTerminal(vec![3])),
        SessionStep::Send { id: "t1".into(), frame: BinaryFrame::Data(vec![3]) }
    );
    assert_eq!(key(Action::ModeChanged), SessionStep::DrawStatus);
    assert_eq!(key(Action::PaneSplitHorizontal), SessionStep::Split(SplitDirection::Horizontal));
    assert_eq!(key(Action::PaneSplitVertical), SessionStep::Split(SplitDirection::Vertical));
    assert_eq!(key(Action::PaneNavigate(Direction::Up)), SessionStep::Navigate(Direction::Up));
    assert_eq!(key(Action::PaneResize(Direction::Left)), SessionStep::ResizePane(Direction::Left));
    assert_eq!(key(Action::PaneClose), SessionStep::ClosePane);
    assert_eq!(key(Action::ViewList), SessionStep::ShowViews);
    assert_eq!(key(Action::ViewSwitch(2)), SessionStep::SwitchView(2));
    assert_eq!(key(Action::Detach), SessionStep::Leave);
    assert_eq!(key(Action::Other), SessionStep::Wait);
    assert_eq!(
        session_step(SessionEvent::Resized { cols: 80, rows: 24 }, "t1"),
        SessionStep::TakeSize { rows: 24, cols: 80 }
    );
    assert_eq!(
        session_step(SessionEvent::Output { id: "t2".into(), data: vec![1] }, "t1"),
        SessionStep::Draw { id: "t2".into(), data: vec![1] }
    );
    assert_eq!(session_step(SessionEvent::Ended, "t1"), SessionStep::Leave);
}

#[test]
fn view_lists_as_text() {
    assert_eq!(view_list_text(&Response::ViewList { views: vec![] }), " [VIEWS] (none)");
    let views = vec![view("aaaa0001", Some("dev")), view("aaaa0002", None), view("x", Some("ops"))];
    assert_eq!(
        view_list_text(&Response::ViewList { views }),
        " [VIEWS] 1:dev | 2:aaaa0002 | 3:ops"
    );
    assert_eq!(view_list_text(&Response::Done), " [VIEWS] error");
}

#[test]
fn views_by_number() {
    let listed = || Response::ViewList { views: vec![view("a", None), view("b", Some("dev"))] };
    assert_eq!(view_by_index(listed(), 2).unwrap(), view("b", Some("dev")));
    assert_eq!(view_by_index(listed(), 1).unwrap(), view("a", None));
    for n in [0, 3] {
        assert_eq!(
            view_by_index(listed(), n),
            Err(KexshError::Server(format!("view index {n} out of range")))
        );
    }
    assert_eq!(
        view_by_index(Response::Done, 1),
        Err(KexshError::Server("unexpected response".into()))
    );
}

#[test]
fn switching_views() {
    assert!(ViewSwitch::begin(vec![], texts(&["a"])).is_none());

    let start = ViewSwitch::begin(texts(&["b", "c", "b", "d"]), texts(&["a", "b"])).unwrap();
    assert_eq!(start.stale, texts(&["a"]));
    assert_eq!(stale_request("a"), MuxRequest::RemoveTerminal { id: "a".into() });
    assert_eq!(start.first, "b");
    let mut switch = start.switch;
    let mut shown = texts(&["b"]);
    let mut screens: Vec<String> = Vec::new();
    while !switch.is_finished() {
        let accepted = match switch.request() {
            Some(MuxRequest::AddTerminal { id }) => id != "d",
            Some(_) => panic!("expected AddTerminal"),
            None => false,
        };
        let placement = switch.place(accepted, &shown);
        if placement.screen {
            screens.push(placement.id.clone());
        }
        if placement.split {
            shown.push(placement.id.clone());
        }
    }
    assert_eq!(switch.request(), None);
    assert_eq!(shown, texts(&["b", "c"]));
    assert_eq!(screens, texts(&["c"]));
}

#[test]
fn first_terminal_of_a_view_has_its_pane_already() {
    let mut switch = ViewSwitch::begin(texts(&["a"]), vec![]).unwrap().switch;
    assert_eq!(switch.request(), Some(MuxRequest::AddTerminal { id: "a".into() }));
    assert_eq!(
        switch.place(true, &vec![]),
        Placement { id: "a".into(), screen: true, split: false }
    );
    assert!(switch.is_finished());
}

#[test]
fn answers_that_accept() {
    assert!(is_accepted(&Ok(MuxResponse::Done)));
    assert!(!is_accepted(&Ok(MuxResponse::TerminalCreated { id: "t1".into() })));
    assert!(!is_accepted(&Ok(MuxResponse::Error { message: "x".into() })));
    assert!(!is_accepted(&Err(KexshError::Ipc("x".into()))));
}
