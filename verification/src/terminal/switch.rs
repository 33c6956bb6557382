//! Going from one view to another within an attached session.
//!
//! Terminals that the new view lacks are let go of. The layout starts over with the first
//! terminal of the new view; then each terminal in turn is asked for where it is not open
//! yet, and gets a pane where it has none.

use vstd::prelude::*;
use vstd::string::*;

use crate::error::{KexshError, Result};
use crate::ident;
use crate::ipc::message::{MuxRequest, MuxResponse};
use crate::text;

verus! {

/// A switch under way.
pub struct ViewSwitch {
    ids: Vec<String>,
    next: usize,
    open: Vec<String>,
}

/// The mathematical content of a [`ViewSwitch`].
#[verifier::ext_equal]
pub struct SwitchState {
    /// The terminals of the new view.
    pub ids: Seq<Seq<char>>,
    /// The place of the terminal whose turn it is.
    pub next: int,
    /// The terminals that have a screen.
    pub open: Set<Seq<char>>,
}

impl View for ViewSwitch {
    type V = SwitchState;

    closed spec fn view(&self) -> SwitchState {
        SwitchState {
            ids: text::contents(self.ids@),
            next: self.next as int,
            open: text::contents(self.open@).to_set(),
        }
    }
}

/// How a switch starts.
pub struct SwitchStart {
    /// The terminals to let go of: send [`stale_request`] for each, whatever
    /// comes of it, and drop its screen.
    pub stale: Vec<String>,
    /// The terminal to start the new layout with.
    pub first: String,
    pub switch: ViewSwitch,
}

/// What to do for the terminal whose turn it was.
#[derive(Debug, PartialEq, Eq)]
pub struct Placement {
    pub id: String,
    /// Make a screen for it.
    pub screen: bool,
    /// Split the layout for it, side by side.
    pub split: bool,
}

/// Whether a terminal is not among those of the new view.
pub open spec fn not_among(ids: Seq<Seq<char>>) -> spec_fn(Seq<char>) -> bool {
    |id: Seq<char>| !ids.contains(id)
}

/// The start of a switch to these terminals while these are open.
pub open spec fn begun(ids: Seq<Seq<char>>, open: Set<Seq<char>>) -> SwitchState {
    SwitchState { ids, next: 0, open: open.intersect(ids.to_set()) }
}

/// Whether the terminal whose turn it is gets a screen or has one.
pub open spec fn is_open_after(state: SwitchState, accepted: bool) -> bool {
    state.open.contains(state.ids[state.next]) || accepted
}

/// The switch after one more turn, given whether the server accepted the terminal where it
/// was asked.
pub open spec fn after_turn(state: SwitchState, accepted: bool) -> SwitchState {
    SwitchState {
        next: state.next + 1,
        open: if is_open_after(state, accepted) {
            state.open.insert(state.ids[state.next])
        } else {
            state.open
        },
        ..state
    }
}

/// Whether the terminal whose turn it is gets a pane, given the terminals that are shown.
pub open spec fn gets_pane(state: SwitchState, accepted: bool, shown: Seq<Seq<char>>) -> bool {
    let id = state.ids[state.next];
    is_open_after(state, accepted) && id != state.ids[0] && !shown.contains(id)
}

fn partition(screens: Vec<String>, ids: &Vec<String>) -> (parts: (Vec<String>, Vec<String>))
    ensures
        text::contents(parts.0@) == text::contents(screens@).filter(
            not_among(text::contents(ids@)),
        ),
        text::contents(parts.1@).to_set() == text::contents(screens@).to_set().intersect(
            text::contents(ids@).to_set(),
        ),
{
    let ghost all = text::contents(screens@);
    let ghost wanted = text::contents(ids@);
    let mut stale: Vec<String> = Vec::new();
    let mut kept: Vec<String> = Vec::new();
    let mut i: usize = 0;
    proof {
        reveal(Seq::filter);
        assert(text::contents(stale@) =~= all.take(0).filter(not_among(wanted)));
    }
    while i < screens.len()
        invariant
            i <= screens@.len(),
            all == text::contents(screens@),
            wanted == text::contents(ids@),
            text::contents(stale@) == all.take(i as int).filter(not_among(wanted)),
            forall|s: Seq<char>| #[trigger]
                text::contents(kept@).contains(s) <==> all.take(i as int).contains(s)
                    && wanted.contains(s),
        decreases screens@.len() - i,
    {
        let ghost before = text::contents(stale@);
        let ghost kept_before = text::contents(kept@);
        let known = ident::is_taken(ids, screens[i].as_str());
        if known {
            kept.push(screens[i].clone());
        } else {
            stale.push(screens[i].clone());
        }
        i += 1;
        proof {
            reveal(Seq::filter);
            let id = all[i - 1];
            let now = all.take(i as int);
            assert(now.drop_last() =~= all.take(i - 1));
            assert(now =~= all.take(i - 1).push(id));
            assert(now.last() == id);
            text::push_members(all.take(i - 1), id);
            if known {
                assert(text::contents(kept@) =~= kept_before.push(id));
                text::push_members(kept_before, id);
            } else {
                assert(text::contents(stale@) =~= before.push(id));
            }
        }
    }
    proof {
        assert(all.take(i as int) =~= all);
        assert(text::contents(kept@).to_set() =~= all.to_set().intersect(wanted.to_set()));
    }
    (stale, kept)
}

impl ViewSwitch {
    /// Whether the switch is to some terminal and its turn counter is in range.
    pub closed spec fn well_formed(self) -> bool {
        self.ids@.len() > 0 && self.next <= self.ids@.len()
    }

    /// Starts a switch to the terminals of a view, given those that have a screen. A view
    /// without terminals is not switched to.
    pub fn begin(terminal_ids: Vec<String>, screens: Vec<String>) -> (start: Option<SwitchStart>)
        ensures
            match start {
                None => terminal_ids@.len() == 0,
                Some(start) => {
                    &&& terminal_ids@.len() > 0
                    &&& start.switch.well_formed()
                    &&& start.switch@ == begun(
                        text::contents(terminal_ids@),
                        text::contents(screens@).to_set(),
                    )
                    &&& start.first == terminal_ids@[0]
                    &&& text::contents(start.stale@) == text::contents(screens@).filter(
                        not_among(text::contents(terminal_ids@)),
                    )
                },
            },
    {
        if terminal_ids.len() == 0 {
            return None;
        }
        let first = terminal_ids[0].clone();
        let (stale, open) = partition(screens, &terminal_ids);
        Some(SwitchStart { stale, first, switch: ViewSwitch { ids: terminal_ids, next: 0, open } })
    }

    /// Whether every terminal had its turn.
    pub fn is_finished(&self) -> (finished: bool)
        requires
            self.well_formed(),
        ensures
            finished == (self@.next >= self@.ids.len()),
    {
        self.next == self.ids.len()
    }

    /// What to ask the server about the terminal whose turn it is: nothing where it is open,
    /// or where none is left.
    pub fn request(&self) -> (request: Option<MuxRequest>)
        requires
            self.well_formed(),
        ensures
            if self@.next < self@.ids.len() && !self@.open.contains(self@.ids[self@.next]) {
                request matches Some(MuxRequest::AddTerminal { id }) && id@
                    == self@.ids[self@.next]
            } else {
                request is None
            },
    {
        if self.next == self.ids.len() || ident::is_taken(
            &self.open,
            self.ids[self.next].as_str(),
        ) {
            None
        } else {
            Some(MuxRequest::AddTerminal { id: self.ids[self.next].clone() })
        }
    }

    /// Ends the turn of a terminal, given whether the server accepted it where it was asked,
    /// and the terminals that the layout shows.
    pub fn place(&mut self, accepted: bool, shown: &Vec<String>) -> (placement: Placement)
        requires
            old(self).well_formed(),
            old(self)@.next < old(self)@.ids.len(),
        ensures
            final(self).well_formed(),
            final(self)@ == after_turn(old(self)@, accepted),
            placement.id@ == old(self)@.ids[old(self)@.next],
            placement.screen == (accepted && !old(self)@.open.contains(placement.id@)),
            placement.split == gets_pane(old(self)@, accepted, text::contents(shown@)),
    {
        let ghost before = text::contents(self.open@);
        let id = self.ids[self.next].clone();
        let open = ident::is_taken(&self.open, id.as_str());
        if !open && accepted {
            self.open.push(id.clone());
        }
        let split = (open || accepted) && !text::same_text(id.as_str(), self.ids[0].as_str())
            && !ident::is_taken(shown, id.as_str());
        proof {
            assert(self.next < self.ids.len());
        }
        self.next = self.next + 1;
        proof {
            if !open && accepted {
                assert(text::contents(self.open@) =~= before.push(id@));
                text::push_members(before, id@);
            }
            assert(self@.open =~= after_turn(old(self)@, accepted).open);
        }
        Placement { id, screen: !open && accepted, split }
    }
}

/// The request that lets go of a terminal.
pub fn stale_request(stale: &str) -> (request: MuxRequest)
    ensures
        request matches MuxRequest::RemoveTerminal { id } && id@ == stale@,
{
    MuxRequest::RemoveTerminal { id: stale.to_owned() }
}

/// Whether the server accepted a terminal.
pub fn is_accepted(outcome: &Result<MuxResponse>) -> (accepted: bool)
    ensures
        accepted == (*outcome == Ok::<MuxResponse, KexshError>(MuxResponse::Done)),
{
    match outcome {
        Ok(MuxResponse::Done) => true,
        _ => false,
    }
}

/// The switch after some turns, and the terminals that a layout shows which shows every
/// terminal that it was split for.
pub open spec fn after_turns(
    ids: Seq<Seq<char>>,
    open: Set<Seq<char>>,
    accepted: Seq<bool>,
    turns: nat,
) -> (SwitchState, Seq<Seq<char>>)
    decreases turns,
{
    if turns == 0 {
        (begun(ids, open), seq![ids[0]])
    } else {
        let (state, shown) = after_turns(ids, open, accepted, (turns - 1) as nat);
        let now = accepted[turns - 1];
        (
            after_turn(state, now),
            if gets_pane(state, now, shown) {
                shown.push(ids[turns - 1])
            } else {
                shown
            },
        )
    }
}

/// However the server answers, the layout shows each terminal once, starting with the
/// first of the view, and shows and opens none that the view lacks; and every terminal that
/// is shown beside the first has a screen.
pub proof fn switch_stays_in_the_view(
    ids: Seq<Seq<char>>,
    open: Set<Seq<char>>,
    accepted: Seq<bool>,
    turns: nat,
)
    requires
        ids.len() > 0,
        turns <= ids.len(),
    ensures
        ({
            let (state, shown) = after_turns(ids, open, accepted, turns);
            &&& state.ids == ids
            &&& state.next == turns
            &&& shown.len() > 0
            &&& shown[0] == ids[0]
            &&& shown.no_duplicates()
            &&& forall|i: int| 0 <= i < shown.len() ==> ids.contains(#[trigger] shown[i])
            &&& forall|i: int| 0 < i < shown.len() ==> state.open.contains(#[trigger] shown[i])
            &&& forall|id: Seq<char>| #[trigger] state.open.contains(id) ==> ids.contains(id)
        }),
    decreases turns,
{
    if turns == 0 {
        assert(ids.contains(ids[0]));
    } else {
        switch_stays_in_the_view(ids, open, accepted, (turns - 1) as nat);
        let (state, shown) = after_turns(ids, open, accepted, (turns - 1) as nat);
        let id = ids[turns - 1];
        assert(ids.contains(id));
        if gets_pane(state, accepted[turns - 1], shown) {
            let more = shown.push(id);
            assert forall|i: int, j: int| 0 <= i < more.len() && 0 <= j < more.len() && i
                != j implies more[i] != more[j] by {
                if i == shown.len() {
                    assert(shown.contains(more[j]));
                }
                if j == shown.len() {
                    assert(shown.contains(more[i]));
                }
            }
        }
    }
}

/// Where the server accepts every terminal that it is asked about, all terminals of the
/// view are open and shown in the end, and no others are open.
pub proof fn accepted_view_is_shown_whole(
    ids: Seq<Seq<char>>,
    open: Set<Seq<char>>,
    accepted: Seq<bool>,
)
    requires
        ids.len() > 0,
        accepted.len() == ids.len(),
        forall|i: int| 0 <= i < accepted.len() ==> accepted[i],
    ensures
        ({
            let (state, shown) = after_turns(ids, open, accepted, ids.len());
            &&& state.open == ids.to_set()
            &&& shown.to_set() == ids.to_set()
        }),
{
    let (state, shown) = after_turns(ids, open, accepted, ids.len());
    switch_stays_in_the_view(ids, open, accepted, ids.len());
    accepted_turns(ids, open, accepted, ids.len());
    assert forall|id: Seq<char>| ids.contains(id) implies state.open.contains(id)
        && shown.contains(id) by {
        let i = choose|i: int| 0 <= i < ids.len() && ids[i] == id;
        assert(state.open.contains(ids[i]));
    }
    assert forall|id: Seq<char>| shown.contains(id) implies ids.contains(id) by {
        let i = choose|i: int| 0 <= i < shown.len() && shown[i] == id;
        assert(ids.contains(shown[i]));
    }
    assert(state.open =~= ids.to_set());
    assert(shown.to_set() =~= ids.to_set());
}

proof fn accepted_turns(
    ids: Seq<Seq<char>>,
    open: Set<Seq<char>>,
    accepted: Seq<bool>,
    turns: nat,
)
    requires
        ids.len() > 0,
        turns <= ids.len(),
        accepted.len() == ids.len(),
        forall|i: int| 0 <= i < accepted.len() ==> accepted[i],
    ensures
        ({
            let (state, shown) = after_turns(ids, open, accepted, turns);
            forall|i: int|
                0 <= i < turns ==> state.open.contains(#[trigger] ids[i]) && shown.contains(ids[i])
        }),
    decreases turns,
{
    switch_stays_in_the_view(ids, open, accepted, turns);
    if turns > 0 {
        let last = (turns - 1) as nat;
        accepted_turns(ids, open, accepted, last);
        switch_stays_in_the_view(ids, open, accepted, last);
        let (state, shown) = after_turns(ids, open, accepted, last);
        let (state2, shown2) = after_turns(ids, open, accepted, turns);
        assert forall|i: int| 0 <= i < turns implies state2.open.contains(#[trigger] ids[i])
            && shown2.contains(ids[i]) by {
            text::push_members(shown, ids[turns - 1]);
            if i == turns - 1 && ids[i] == ids[0] {
                assert(shown2[0] == ids[0]);
            }
        }
    }
}

} // verus!
