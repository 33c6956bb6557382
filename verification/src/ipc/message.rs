//! What clients and the server say to each other.

use vstd::prelude::*;

use crate::text;

verus! {

/// `serde_json::Value`, carried along unread.
#[verifier::external_type_specification]
#[verifier::external_body]
pub struct ExJsonValue(serde_json::Value);

/// How the panes of a view are arranged, as clients save it. The server keeps it and
/// hands it out without looking inside.
#[derive(Debug, PartialEq, Eq)]
pub enum Layout {
    /// No arrangement was saved: JSON's `null`.
    Null,
    /// Any other JSON value.
    Tree(serde_json::Value),
}

/// `Value::clone` of serde_json gives an equal value.
#[verifier::external_body]
fn copy_value(value: &serde_json::Value) -> (copy: serde_json::Value)
    ensures
        copy == *value,
{
    value.clone()
}

/// Whether a JSON value is `null`.
pub uninterp spec fn json_null(value: serde_json::Value) -> bool;

/// `Value::is_null` of serde_json tells whether a value is JSON's `null`; which values are,
/// has a name.
#[verifier::external_body]
fn is_null(value: &serde_json::Value) -> (null: bool)
    ensures
        null == json_null(*value),
{
    value.is_null()
}

impl Clone for Layout {
    fn clone(&self) -> (copy: Layout)
        ensures
            copy == *self,
    {
        match self {
            Layout::Null => Layout::Null,
            Layout::Tree(value) => Layout::Tree(copy_value(value)),
        }
    }
}

impl Layout {
    /// Whether nothing is arranged: the layout stands for JSON's `null`.
    pub open spec fn is_blank(self) -> bool {
        match self {
            Layout::Null => true,
            Layout::Tree(value) => json_null(value),
        }
    }

    /// Tells whether nothing is arranged.
    pub fn arranges_nothing(&self) -> (blank: bool)
        ensures
            blank == self.is_blank(),
    {
        match self {
            Layout::Null => true,
            Layout::Tree(value) => is_null(value),
        }
    }
}

/// One frame of an attached session.
#[derive(Debug, Clone, PartialEq, Eq)]
pub enum BinaryFrame {
    /// Bytes to or from a terminal.
    Data(Vec<u8>),
    /// The size that a terminal should take.
    Resize { cols: u16, rows: u16 },
    /// The sender leaves the session.
    Detach,
    /// An encoded control message.
    Control(Vec<u8>),
}

/// The mathematical content of a [`BinaryFrame`].
pub enum FrameView {
    Data(Seq<u8>),
    Resize { cols: u16, rows: u16 },
    Detach,
    Control(Seq<u8>),
}

impl View for BinaryFrame {
    type V = FrameView;

    open spec fn view(&self) -> FrameView {
        match *self {
            BinaryFrame::Data(data) => FrameView::Data(data@),
            BinaryFrame::Resize { cols, rows } => FrameView::Resize { cols, rows },
            BinaryFrame::Detach => FrameView::Detach,
            BinaryFrame::Control(payload) => FrameView::Control(payload@),
        }
    }
}

/// What a listing says of a terminal.
#[derive(Debug, Clone, PartialEq, Eq)]
pub struct TerminalInfo {
    pub id: String,
    pub name: Option<String>,
    pub created_at: String,
}

/// The mathematical content of a [`TerminalInfo`].
pub struct TerminalInfoView {
    pub id: Seq<char>,
    pub name: Option<Seq<char>>,
    pub created_at: Seq<char>,
}

impl View for TerminalInfo {
    type V = TerminalInfoView;

    open spec fn view(&self) -> TerminalInfoView {
        TerminalInfoView {
            id: self.id@,
            name: text::opt_content(self.name),
            created_at: self.created_at@,
        }
    }
}

/// The contents of a listing of terminals.
pub open spec fn terminal_listing(infos: Seq<TerminalInfo>) -> Seq<TerminalInfoView> {
    infos.map_values(|t: TerminalInfo| t@)
}

/// What a listing says of a view.
#[derive(Debug, Clone, PartialEq, Eq)]
pub struct ViewInfo {
    pub id: String,
    pub name: Option<String>,
    pub terminal_ids: Vec<String>,
    pub created_at: String,
}

/// The mathematical content of a [`ViewInfo`].
pub struct ViewInfoView {
    pub id: Seq<char>,
    pub name: Option<Seq<char>>,
    pub terminal_ids: Seq<Seq<char>>,
    pub created_at: Seq<char>,
}

impl View for ViewInfo {
    type V = ViewInfoView;

    open spec fn view(&self) -> ViewInfoView {
        ViewInfoView {
            id: self.id@,
            name: text::opt_content(self.name),
            terminal_ids: text::contents(self.terminal_ids@),
            created_at: self.created_at@,
        }
    }
}

/// The contents of a listing of views.
pub open spec fn view_listing(infos: Seq<ViewInfo>) -> Seq<ViewInfoView> {
    infos.map_values(|v: ViewInfo| v@)
}

/// What a client asks of the server.
#[allow(inconsistent_fields)]
#[derive(Debug, PartialEq, Eq)]
pub enum Request {
    ServerStop,
    TerminalCreate { name: Option<String> },
    TerminalList,
    TerminalKill { id: String },
    TerminalAttach { id: String },
    TerminalSync { id: String },
    TerminalUnsync { id: String },
    ViewCreate { name: Option<String>, terminal_id: String },
    ViewList,
    ViewDelete { id: String },
    ViewShow { id: String },
    ViewAddTerminal { view_id: String, terminal_id: String },
    ViewAttach { id: String },
    ViewUpdateLayout { view_id: String, layout: Layout, focused: String },
    ViewRemoveTerminal { view_id: String, terminal_id: String },
    MultiplexAttach { terminal_ids: Vec<String>, view_id: Option<String> },
    ProxyExpose { port: u16, public: bool },
    ProxyUnexpose { port: u16 },
    ProxyList,
}

/// What the server answers.
#[derive(Debug, PartialEq, Eq)]
pub enum Response {
    Done,
    Error { message: String },
    TerminalCreated { id: String },
    TerminalList { terminals: Vec<TerminalInfo> },
    ViewCreated { id: String },
    ViewList { views: Vec<ViewInfo> },
    ViewShow { view: ViewInfo },
    ViewAttach { terminal_ids: Vec<String>, layout: Option<Layout>, focused: Option<String> },
    MultiplexAttached { terminal_ids: Vec<String> },
    SyncStatus { synced: bool },
    ProxyExposed { port: u16, url: String },
    ProxyList { ports: Vec<u16> },
}

/// What a client asks within a multiplexed session.
#[derive(Debug, PartialEq, Eq)]
pub enum MuxRequest {
    CreateTerminal { name: Option<String> },
    AddTerminal { id: String },
    RemoveTerminal { id: String },
    KillTerminal { id: String },
    UpdateLayout { view_id: String, layout: Layout, focused: String },
}

/// What the server answers within a multiplexed session.
#[derive(Debug, PartialEq, Eq)]
pub enum MuxResponse {
    Done,
    Error { message: String },
    TerminalCreated { id: String },
}

/// What is said of a terminal counts by its id, its name and its time of creation.
pub proof fn terminal_info_by_content(info: TerminalInfo)
    ensures
        info@.id == info.id@,
        info.name matches Some(name) ==> info@.name == Some(name@),
        info.name is None ==> info@.name is None,
        info@.created_at == info.created_at@,
{
}

/// What is said of a view counts by its id, its name, all its terminals in their order, and
/// its time of creation.
pub proof fn view_info_by_content(info: ViewInfo)
    ensures
        info@.id == info.id@,
        info.name matches Some(name) ==> info@.name == Some(name@),
        info.name is None ==> info@.name is None,
        info@.terminal_ids.len() == info.terminal_ids@.len(),
        forall|i: int|
            0 <= i < info.terminal_ids@.len() ==> #[trigger] info@.terminal_ids[i]
                == info.terminal_ids@[i]@,
        info@.created_at == info.created_at@,
{
}

/// A list of terminals or views counts by its entries, one by one.
pub proof fn listings_by_content(terminals: Seq<TerminalInfo>, views: Seq<ViewInfo>)
    ensures
        terminal_listing(terminals).len() == terminals.len(),
        view_listing(views).len() == views.len(),
        forall|i: int|
            0 <= i < terminals.len() ==> #[trigger] terminal_listing(terminals)[i] == terminals[i]@,
        forall|i: int| 0 <= i < views.len() ==> #[trigger] view_listing(views)[i] == views[i]@,
{
}

/// A frame counts by its kind and by what it carries.
pub proof fn frame_by_content(frame: BinaryFrame)
    ensures
        match frame {
            BinaryFrame::Data(data) => frame@ == FrameView::Data(data@),
            BinaryFrame::Resize { cols, rows } => frame@ == (FrameView::Resize { cols, rows }),
            BinaryFrame::Detach => frame@ == FrameView::Detach,
            BinaryFrame::Control(payload) => frame@ == FrameView::Control(payload@),
        },
{
}

/// A layout arranges nothing where it is no value at all or the JSON value `null`, and in no
/// other case.
pub proof fn layouts_that_arrange_nothing(layout: Layout)
    ensures
        layout.is_blank() <==> (layout matches Layout::Tree(value) ==> json_null(value)),
{
}

} // verus!
