//! What an attached client shows, and what becomes of each terminal when the view changes.

use vstd::prelude::*;

use crate::error::Result;
use crate::ipc::message::{self, Layout, MuxRequest, Response, ViewInfo, ViewInfoView};
use crate::selection;
use crate::terminal::attach::{
    first_rect, is_too_small, label, numbered, opens_with, output_plan, panes_to_draw, session_ids,
    session_ids_are_complete, session_terminals, view_by_index, view_list_text, with_screen,
    Opening, OutputPlan, Pane, Rect, SplitDirection,
};
use crate::terminal::switch::{
    after_turn, after_turns, begun, gets_pane, is_open_after, not_among, switch_stays_in_the_view,
    Placement, SwitchStart, SwitchState, ViewSwitch,
};
use crate::text;

verus! {

/// One more terminal in the list leaves what is asked for before it as it is: the terminals
/// of a session come in the order in which they are first named.
pub proof fn session_ids_grow_at_the_end(
    name: Seq<char>,
    extra: Seq<Seq<char>>,
    more: Seq<char>,
)
    ensures
        session_ids(name, extra).is_prefix_of(session_ids(name, extra.push(more))),
        session_ids(name, extra.push(more)).len() <= session_ids(name, extra).len() + 1,
        session_ids(name, Seq::empty()) == seq![name],
{
    assert(extra.push(more).drop_last() =~= extra);
}

/// A session starts with a screen for the terminal it is named after and for each of the
/// others, in their order. Where there is an arrangement to restore it is that one, and no
/// pane is split off; where there is none each of the others gets a pane, in their order.
pub proof fn sessions_start_with_every_terminal(
    name: Seq<char>,
    extra: Seq<String>,
    restore: Option<Layout>,
    opening: Opening,
)
    requires
        opens_with(name, extra, restore, opening),
    ensures
        opening.restore == restore,
        opening.screens@.len() == extra.len() + 1,
        opening.screens@[0]@ == name,
        forall|i: int|
            0 <= i < extra.len() ==> #[trigger] opening.screens@[i + 1]@ == extra[i]@,
        restore is Some ==> opening.splits@.len() == 0,
        restore is None ==> opening.splits@ == extra,
{
    let screens = text::contents(opening.screens@);
    assert(screens.len() == extra.len() + 1);
    assert(opening.screens@[0]@ == screens[0]);
    assert forall|i: int| 0 <= i < extra.len() implies #[trigger] opening.screens@[i + 1]@
        == extra[i]@ by {
        assert(screens[i + 1] == text::contents(extra)[i]);
    }
}

/// A terminal is shown where the first pane with its id is, and nowhere where no pane has
/// it.
pub proof fn terminals_are_shown_in_their_first_pane(panes: Seq<Pane>, id: Seq<char>)
    ensures
        match first_rect(panes, id) {
            Some(rect) => exists|i: int|
                0 <= i < panes.len() && (#[trigger] panes[i]).id@ == id && panes[i].rect == rect
                    && forall|j: int| 0 <= j < i ==> (#[trigger] panes[j]).id@ != id,
            None => forall|i: int| 0 <= i < panes.len() ==> (#[trigger] panes[i]).id@ != id,
        },
    decreases panes.len(),
{
    if panes.len() > 0 {
        if panes[0].id@ == id {
            assert(panes[0].rect == first_rect(panes, id)->0);
        } else {
            let rest = panes.skip(1);
            terminals_are_shown_in_their_first_pane(rest, id);
            match first_rect(rest, id) {
                Some(rect) => {
                    let i = choose|i: int|
                        0 <= i < rest.len() && (#[trigger] rest[i]).id@ == id && rest[i].rect
                            == rect && forall|j: int|
                            0 <= j < i ==> (#[trigger] rest[j]).id@ != id;
                    assert(panes[i + 1] == rest[i]);
                    assert forall|j: int| 0 <= j < i + 1 implies (#[trigger] panes[j]).id@ != id by {
                        if j > 0 {
                            assert(panes[j] == rest[j - 1]);
                        }
                    }
                },
                None => {
                    assert forall|i: int| 0 <= i < panes.len() implies (#[trigger] panes[i]).id@
                        != id by {
                        if i > 0 {
                            assert(panes[i] == rest[i - 1]);
                        }
                    }
                },
            }
        }
    }
}

/// Every pane whose terminal has a screen is drawn, and no other, in the order of the panes.
pub proof fn panes_with_a_screen_are_drawn(panes: Seq<Pane>, screens: Seq<Seq<char>>) -> (
    places: Seq<int>)
    ensures
        ({
            let drawn = panes.filter(with_screen(screens));
            &&& places.len() == drawn.len()
            &&& forall|a: int|
                0 <= a < places.len() ==> 0 <= #[trigger] places[a] < panes.len() && drawn[a]
                    == panes[places[a]] && exists|j: int|
                    0 <= j < screens.len() && #[trigger] screens[j] == panes[places[a]].id@
            &&& forall|a: int, b: int| 0 <= a < b < places.len() ==> places[a] < places[b]
            &&& forall|i: int, j: int|
                #![trigger panes[i], screens[j]]
                0 <= i < panes.len() && 0 <= j < screens.len() && screens[j] == panes[i].id@
                    ==> places.contains(i) && drawn.contains(panes[i])
        }),
{
    let keep = with_screen(screens);
    let drawn = panes.filter(keep);
    let places = selection::kept_in_order(panes, keep);
    assert forall|a: int| 0 <= a < places.len() implies exists|j: int|
        0 <= j < screens.len() && #[trigger] screens[j] == panes[#[trigger] places[a]].id@ by {
        let id = panes[places[a]].id@;
        assert(keep(panes[places[a]]));
        assert(screens.contains(id));
        let j = choose|j: int| 0 <= j < screens.len() && screens[j] == id;
        assert(screens[j] == id);
    }
    assert forall|i: int, j: int|
        #![trigger panes[i], screens[j]]
        0 <= i < panes.len() && 0 <= j < screens.len() && screens[j]
            == panes[i].id@ implies places.contains(i) && drawn.contains(panes[i]) by {
        assert(keep(panes[i]));
        let a = choose|a: int| 0 <= a < places.len() && places[a] == i;
        assert(drawn[a] == panes[places[a]]);
    }
    places
}

/// Where every pane has a screen all of them are drawn.
pub proof fn all_panes_are_drawn(panes: Seq<Pane>, screens: Seq<Seq<char>>)
    requires
        forall|i: int| 0 <= i < panes.len() ==> screens.contains((#[trigger] panes[i]).id@),
    ensures
        panes.filter(with_screen(screens)) == panes,
    decreases panes.len(),
{
    reveal(Seq::filter);
    if panes.len() > 0 {
        let fewer = panes.drop_last();
        assert forall|i: int| 0 <= i < fewer.len() implies screens.contains(
            (#[trigger] fewer[i]).id@,
        ) by {
            assert(fewer[i] == panes[i]);
        }
        all_panes_are_drawn(fewer, screens);
        let last = panes[panes.len() - 1];
        assert(fewer.push(last) =~= panes);
    } else {
        assert(panes.filter(with_screen(screens)) =~= panes);
    }
}

/// A pane is split side by side where it is at least four columns wide, and one above the
/// other where it is at least four rows high; its other measure does not matter.
pub proof fn room_for_a_split(rect: Rect)
    ensures
        is_too_small(SplitDirection::Vertical, rect) <==> rect.width < 4,
        is_too_small(SplitDirection::Horizontal, rect) <==> rect.height < 4,
{
}

/// In the text that lists the views each has its number, a colon, and its name or else its
/// id, and a bar stands before every view but the first.
pub proof fn views_are_numbered_from_one(views: Seq<ViewInfoView>, view: ViewInfoView)
    ensures
        view.name matches Some(name) ==> label(view) == name,
        view.name is None ==> label(view) == view.id,
        numbered(seq![view]) == "1:"@ + label(view),
        views.len() > 0 ==> numbered(views.push(view)) == numbered(views) + (" | "@
            + text::decimal(views.len() + 1) + ":"@ + label(view)),
{
    reveal_strlit("1:");
    reveal_strlit(":");
    let one = seq![view];
    assert(one.last() == view);
    assert(text::decimal(1) =~= seq!['1']);
    assert(numbered(one) =~= "1:"@ + label(view));
    if views.len() > 0 {
        let more = views.push(view);
        assert(more.drop_last() =~= views);
        assert(numbered(more) =~= numbered(views) + (" | "@ + text::decimal(views.len() + 1)
            + ":"@ + label(view)));
    }
}

/// The terminals to let go of are those that have a screen and that the new view lacks, and
/// no others, in the order of the screens.
pub proof fn only_stale_terminals_are_let_go(ids: Seq<Seq<char>>, screens: Seq<Seq<char>>) -> (
    places: Seq<int>)
    ensures
        ({
            let stale = screens.filter(not_among(ids));
            &&& places.len() == stale.len()
            &&& forall|a: int|
                0 <= a < places.len() ==> 0 <= #[trigger] places[a] < screens.len() && stale[a]
                    == screens[places[a]] && !ids.contains(stale[a])
            &&& forall|a: int, b: int| 0 <= a < b < places.len() ==> places[a] < places[b]
            &&& forall|id: Seq<char>| #[trigger]
                stale.contains(id) <==> screens.contains(id) && !ids.contains(id)
            &&& forall|id: Seq<char>| #[trigger]
                stale.contains(id) ==> !begun(ids, screens.to_set()).open.contains(id)
        }),
{
    let keep = not_among(ids);
    let stale = screens.filter(keep);
    let places = selection::kept_in_order(screens, keep);
    assert forall|id: Seq<char>| #[trigger] stale.contains(id) <==> screens.contains(id)
        && !ids.contains(id) by {
        if stale.contains(id) {
            let a = choose|a: int| 0 <= a < stale.len() && stale[a] == id;
            assert(0 <= places[a] < screens.len() && keep(screens[places[a]]));
        }
        if screens.contains(id) && !ids.contains(id) {
            let i = choose|i: int| 0 <= i < screens.len() && screens[i] == id;
            assert(keep(screens[i]));
            let a = choose|a: int| 0 <= a < places.len() && places[a] == i;
            assert(stale[a] == screens[places[a]]);
        }
    }
    assert forall|a: int| 0 <= a < places.len() implies 0 <= #[trigger] places[a] < screens.len()
        && stale[a] == screens[places[a]] && !ids.contains(stale[a]) by {
        assert(keep(screens[places[a]]));
    }
    places
}

/// A switch starts with exactly those terminals open that have a screen and that the new view
/// has; the new view's terminals have their turns from the first on.
pub proof fn shared_terminals_stay_open(ids: Seq<Seq<char>>, open: Set<Seq<char>>, id: Seq<char>)
    ensures
        begun(ids, open).open.contains(id) <==> open.contains(id) && ids.contains(id),
        begun(ids, open).ids == ids,
        begun(ids, open).next == 0,
{
}

/// A turn concerns one terminal: it is open afterwards where it was before or was accepted,
/// every other is open exactly where it was before, and the turn goes to the next. It gets a
/// pane exactly where it is open then, is not the first of the view and is not shown yet.
pub proof fn a_turn_concerns_one_terminal(
    state: SwitchState,
    accepted: bool,
    shown: Seq<Seq<char>>,
    other: Seq<char>,
)
    requires
        0 <= state.next < state.ids.len(),
    ensures
        ({
            let id = state.ids[state.next];
            let after = after_turn(state, accepted);
            let open = state.open.contains(id) || accepted;
            &&& after.ids == state.ids
            &&& after.next == state.next + 1
            &&& after.open.contains(id) == open
            &&& is_open_after(state, accepted) == open
            &&& other != id ==> after.open.contains(other) == state.open.contains(other)
            &&& gets_pane(state, accepted, shown) <==> open && id != state.ids[0]
                && !shown.contains(id)
        }),
{
}

/// However the server answers, terminals that were open and are in the new view stay open,
/// a terminal is opened only where it was or where the server accepted it at one of its
/// turns, and every terminal that is open once its turn has come is shown.
pub proof fn open_terminals_are_shown(
    ids: Seq<Seq<char>>,
    open: Set<Seq<char>>,
    accepted: Seq<bool>,
    turns: nat,
)
    requires
        ids.len() > 0,
        turns <= ids.len(),
    ensures
        ({
            let (state, shown) = after_turns(ids, open, accepted, turns);
            &&& forall|id: Seq<char>|
                open.contains(id) && ids.contains(id) ==> #[trigger] state.open.contains(id)
            &&& forall|id: Seq<char>| #[trigger]
                state.open.contains(id) ==> open.contains(id) || exists|k: int|
                    0 <= k < turns && #[trigger] ids[k] == id && accepted[k]
            &&& forall|k: int|
                0 <= k < turns && state.open.contains(#[trigger] ids[k]) ==> shown.contains(ids[k])
        }),
    decreases turns,
{
    switch_stays_in_the_view(ids, open, accepted, turns);
    if turns > 0 {
        let last = (turns - 1) as nat;
        open_terminals_are_shown(ids, open, accepted, last);
        switch_stays_in_the_view(ids, open, accepted, last);
        let (state, shown) = after_turns(ids, open, accepted, last);
        let (state2, shown2) = after_turns(ids, open, accepted, turns);
        let id = ids[turns - 1];
        text::push_members(shown, id);
        assert forall|s: Seq<char>| #[trigger] state2.open.contains(s) implies open.contains(s)
            || exists|k: int| 0 <= k < turns && #[trigger] ids[k] == s && accepted[k] by {
            if state.open.contains(s) {
                if !open.contains(s) {
                    let k = choose|k: int| 0 <= k < last && #[trigger] ids[k] == s && accepted[k];
                    assert(ids[k] == s && accepted[k]);
                }
            } else {
                assert(ids[turns - 1] == s && accepted[turns - 1]);
            }
        }
        assert forall|k: int| 0 <= k < turns && state2.open.contains(
            #[trigger] ids[k],
        ) implies shown2.contains(ids[k]) by {
            if ids[k] == ids[0] {
                assert(shown2[0] == ids[0]);
            } else if ids[k] != id {
                assert(k < last);
                assert(state.open.contains(ids[k]));
            }
        }
    }
}

/// What is drawn of a window is every pane whose terminal has a screen and no other, in the
/// order of the panes; where every pane has a screen it is all of them.
pub proof fn windows_are_drawn_whole(panes: Vec<Pane>, screens: Vec<String>, drawn: Vec<Pane>)
    requires
        call_ensures(panes_to_draw, (&panes, &screens), drawn),
    ensures
        forall|i: int, j: int|
            #![trigger panes@[i], screens@[j]]
            0 <= i < panes@.len() && 0 <= j < screens@.len() && screens@[j]@ == panes@[i].id@
                ==> drawn@.contains(panes@[i]),
        forall|a: int|
            0 <= a < drawn@.len() ==> panes@.contains(#[trigger] drawn@[a]) && text::contents(
                screens@,
            ).contains(drawn@[a].id@),
        (forall|i: int|
            0 <= i < panes@.len() ==> text::contents(screens@).contains(
                (#[trigger] panes@[i]).id@,
            )) ==> drawn@ == panes@,
{
    let ids = text::contents(screens@);
    let places = panes_with_a_screen_are_drawn(panes@, ids);
    assert forall|i: int, j: int|
        #![trigger panes@[i], screens@[j]]
        0 <= i < panes@.len() && 0 <= j < screens@.len() && screens@[j]@
            == panes@[i].id@ implies drawn@.contains(panes@[i]) by {
        assert(ids[j] == panes@[i].id@);
    }
    assert forall|a: int| 0 <= a < drawn@.len() implies panes@.contains(#[trigger] drawn@[a])
        && ids.contains(drawn@[a].id@) by {
        assert(drawn@[a] == panes@[places[a]]);
    }
    if forall|i: int| 0 <= i < panes@.len() ==> ids.contains((#[trigger] panes@[i]).id@) {
        all_panes_are_drawn(panes@, ids);
    }
}

/// A switch lets go of exactly the terminals that have a screen and that the new view lacks,
/// keeps open exactly those that it has, and starts the layout with its first terminal.
pub proof fn switches_start_with_what_both_views_share(
    terminal_ids: Vec<String>,
    screens: Vec<String>,
    start: Option<SwitchStart>,
    id: Seq<char>,
)
    requires
        call_ensures(ViewSwitch::begin, (terminal_ids, screens), start),
    ensures
        start is None <==> terminal_ids@.len() == 0,
        start matches Some(start) ==> {
            let has_screen = text::contents(screens@).contains(id);
            let in_view = text::contents(terminal_ids@).contains(id);
            &&& start.first@ == terminal_ids@[0]@
            &&& text::contents(start.stale@).contains(id) <==> has_screen && !in_view
            &&& start.switch@.open.contains(id) <==> has_screen && in_view
            &&& start.switch@.next == 0
            &&& start.switch@.ids == text::contents(terminal_ids@)
        },
{
    let ids = text::contents(terminal_ids@);
    let old = text::contents(screens@);
    let _ = only_stale_terminals_are_let_go(ids, old);
    shared_terminals_stay_open(ids, old.to_set(), id);
}

/// A session asks for the terminal it is named after and for each of the others once.
pub proof fn sessions_ask_for_every_terminal(name: &str, extra: Vec<String>, ids: Vec<String>)
    requires
        call_ensures(session_terminals, (name, &extra), ids),
    ensures
        ids@.len() > 0,
        ids@[0]@ == name@,
        text::contents(ids@).no_duplicates(),
        forall|i: int|
            0 <= i < extra@.len() ==> text::contents(ids@).contains((#[trigger] extra@[i])@),
        forall|i: int|
            0 <= i < ids@.len() ==> (#[trigger] ids@[i])@ == name@ || text::contents(
                extra@,
            ).contains(ids@[i]@),
{
    let others = text::contents(extra@);
    let asked = text::contents(ids@);
    session_ids_are_complete(name@, others);
    assert(ids@[0]@ == asked[0]);
    assert forall|i: int| 0 <= i < extra@.len() implies asked.contains((#[trigger] extra@[i])@) by {
        assert(others[i] == extra@[i]@);
        assert(others.contains(others[i]));
    }
    assert forall|i: int| 0 <= i < ids@.len() implies (#[trigger] ids@[i])@ == name@
        || others.contains(ids@[i]@) by {
        assert(asked[i] == ids@[i]@);
        assert(asked.contains(asked[i]));
    }
}

/// Output is drawn where its terminal is shown, and the cursor goes there exactly where that
/// terminal has the focus; output of a terminal that is not shown is not drawn.
pub proof fn output_is_drawn_in_its_pane(
    panes: Vec<Pane>,
    id: &str,
    focused: &str,
    plan: Option<OutputPlan>,
)
    requires
        call_ensures(output_plan, (&panes, id, focused), plan),
    ensures
        plan is None <==> forall|i: int|
            0 <= i < panes@.len() ==> (#[trigger] panes@[i]).id@ != id@,
        plan matches Some(plan) ==> plan.cursor == (id@ == focused@) && exists|i: int|
            0 <= i < panes@.len() && (#[trigger] panes@[i]).id@ == id@ && panes@[i].rect
                == plan.rect,
{
    terminals_are_shown_in_their_first_pane(panes@, id@);
}

/// The view with a number is the one that the list has at that place, with all that the list
/// says of it.
pub proof fn views_are_found_by_their_number(
    views: Vec<ViewInfo>,
    n: usize,
    found: Result<ViewInfo>,
)
    requires
        call_ensures(view_by_index, (Response::ViewList { views }, n), found),
    ensures
        found is Ok <==> 1 <= n <= views@.len(),
        found matches Ok(view) ==> view@.id == views@[n - 1].id@ && view@.name == text::opt_content(
            views@[n - 1].name,
        ) && view@.terminal_ids == text::contents(views@[n - 1].terminal_ids@) && view@.created_at
            == views@[n - 1].created_at@,
{
}

/// The list of views in the status bar grows at its end: one more view adds its number and its
/// name, or its id where it has no name, and leaves what was there. No view at all is told, and
/// so is an answer that is no list.
pub proof fn view_lists_grow_at_the_end(
    views: Vec<ViewInfo>,
    view: ViewInfo,
    more: Vec<ViewInfo>,
    before: String,
    after: String,
    other: Response,
    told: String,
)
    requires
        more@ == views@.push(view),
        call_ensures(view_list_text, (&Response::ViewList { views },), before),
        call_ensures(view_list_text, (&Response::ViewList { views: more },), after),
        !(other is ViewList),
        call_ensures(view_list_text, (&other,), told),
    ensures
        ({
            let entry = text::decimal(more@.len()) + ":"@ + match view.name {
                Some(name) => name@,
                None => view.id@,
            };
            &&& views@.len() == 0 ==> before@ == " [VIEWS] (none)"@ && after@ == " [VIEWS] "@ + entry
            &&& views@.len() > 0 ==> after@ == before@ + (" | "@ + entry)
        }),
        told@ == " [VIEWS] error"@,
{
    let all = message::view_listing(views@);
    let grown = message::view_listing(more@);
    let entry = text::decimal(more@.len()) + ":"@ + match view.name {
        Some(name) => name@,
        None => view.id@,
    };
    assert(grown.drop_last() =~= all);
    assert(grown.last() == view@);
    assert(label(view@) == match view.name {
        Some(name) => name@,
        None => view.id@,
    });
    if views@.len() > 0 {
        let head = " [VIEWS] "@;
        assert(numbered(grown) == numbered(all) + " | "@ + entry);
        assert(head + (numbered(all) + " | "@ + entry) =~= (head + numbered(all)) + (" | "@ + entry));
    }
}

/// A turn asks for the terminal whose turn it is where that is not open, and for nothing where
/// it is. A terminal that was not open gets a screen where it was accepted; one that is open
/// then gets a pane unless it is the first of the view or is shown. The turn goes to the next,
/// and nothing changes for any other terminal.
pub proof fn turns_ask_and_place_in_order(
    switch: &mut ViewSwitch,
    request: Option<MuxRequest>,
    accepted: bool,
    shown: Vec<String>,
    placement: Placement,
    other: Seq<char>,
)
    requires
        old(switch).well_formed(),
        0 <= old(switch)@.next < old(switch)@.ids.len(),
        call_ensures(ViewSwitch::request, (&*old(switch),), request),
        call_ensures(ViewSwitch::place, (switch, accepted, &shown), placement),
    ensures
        ({
            let before = old(switch)@;
            let after = final(switch)@;
            let id = before.ids[before.next];
            let was_open = before.open.contains(id);
            &&& was_open ==> request is None
            &&& !was_open ==> (request matches Some(MuxRequest::AddTerminal { id: asked }) && asked@
                == id)
            &&& placement.id@ == id
            &&& placement.screen <==> !was_open && accepted
            &&& placement.split <==> (was_open || accepted) && id != before.ids[0]
                && !text::contents(shown@).contains(id)
            &&& after.ids == before.ids
            &&& after.next == before.next + 1
            &&& after.open.contains(id) <==> was_open || accepted
            &&& other != id ==> (after.open.contains(other) <==> before.open.contains(other))
        }),
{
    a_turn_concerns_one_terminal(old(switch)@, accepted, text::contents(shown@), other);
}

} // verus!
