//! What each operation does to each view, and what is said of it.

use vstd::prelude::*;
use vstd::view::View as _;

use crate::directory;
use crate::ipc::message::{self, Layout, ViewInfo, ViewInfoView};
use crate::text;
use crate::view::manager::{
    found, found_by_id, is_listing, is_listing_order, keys, listing_is_complete, view_info,
    well_formed, with_layout_in, with_terminal_in, without_terminal, without_terminal_in, View,
    ViewManager, ViewRecord,
};

verus! {

/// What an id or a name stands for: the view that has it as its id, or else the oldest that
/// has it as its name, or else nothing. By id alone a view is found by its id and nothing
/// else.
pub proof fn what_stands_for_a_view(records: Seq<ViewRecord>, asked: Seq<char>)
    ensures
        match found(records, asked) {
            Some(i) => {
                &&& 0 <= i < records.len()
                &&& records[i].id == asked || {
                    &&& records[i].name == Some(asked)
                    &&& forall|j: int| 0 <= j < records.len() ==> (#[trigger] records[j]).id != asked
                    &&& forall|j: int|
                        0 <= j < i ==> (#[trigger] records[j]).name != Some(asked)
                }
            },
            None => forall|j: int|
                0 <= j < records.len() ==> (#[trigger] records[j]).id != asked
                    && records[j].name != Some(asked),
        },
        match found_by_id(records, asked) {
            Some(i) => 0 <= i < records.len() && records[i].id == asked,
            None => forall|j: int| 0 <= j < records.len() ==> (#[trigger] records[j]).id != asked,
        },
{
    let all = keys(records);
    assert forall|j: int| 0 <= j < records.len() implies (#[trigger] records[j]).id == all[j].id
        && records[j].name == all[j].name by {}
    directory::what_is_resolved(all, asked);
}

/// In a valid registry no two views have one id.
pub proof fn ids_tell_views_apart(records: Seq<ViewRecord>, i: int, j: int)
    requires
        well_formed(records),
        0 <= i < records.len(),
        0 <= j < records.len(),
        records[i].id == records[j].id,
    ensures
        i == j,
{
    assert(keys(records)[i].id == keys(records)[j].id);
}

/// What is said of a view is its id, its name, all its terminals in their order, and when it
/// was created.
pub proof fn what_is_said_of_a_view(view: ViewRecord)
    ensures
        view.info().id == view.id,
        view.info().name == view.name,
        view.info().terminal_ids == view.terminal_ids,
        view.info().created_at == view.created_at,
{
}

/// A list of views says of every view, once, its id, its name, all its terminals in their
/// order and when it was created. The older come first, by the text of that time, and those
/// of one time in the order of their creation.
pub proof fn listing_says_of_every_view(records: Seq<ViewRecord>, infos: Seq<ViewInfoView>) -> (
    order: Seq<int>)
    requires
        is_listing(records, infos),
    ensures
        infos.len() == records.len(),
        order.len() == records.len(),
        order.no_duplicates(),
        forall|i: int| 0 <= i < records.len() ==> #[trigger] order.contains(i),
        forall|a: int|
            0 <= a < infos.len() ==> {
                let view = records[#[trigger] order[a]];
                &&& 0 <= order[a] < records.len()
                &&& infos[a].id == view.id
                &&& infos[a].name == view.name
                &&& infos[a].terminal_ids == view.terminal_ids
                &&& infos[a].created_at == view.created_at
            },
        forall|a: int, b: int|
            0 <= a < b < infos.len() ==> text::text_before(
                (#[trigger] infos[a]).created_at,
                (#[trigger] infos[b]).created_at,
            ) || (infos[a].created_at == infos[b].created_at && order[a] < order[b]),
{
    let order = choose|order: Seq<int>| #[trigger]
        is_listing_order(records, order) && infos == order.map_values(|i: int| records[i].info());
    listing_is_complete(records, order);
    assert forall|a: int| 0 <= a < infos.len() implies #[trigger] infos[a]
        == records[order[a]].info() by {}
    assert forall|a: int, b: int| 0 <= a < b < infos.len() implies text::text_before(
        (#[trigger] infos[a]).created_at,
        (#[trigger] infos[b]).created_at,
    ) || (infos[a].created_at == infos[b].created_at && order[a] < order[b]) by {
        let (i, j) = (order[a], order[b]);
        assert(text::text_before(records[i].created_at, records[j].created_at) || (
        records[i].created_at == records[j].created_at && i < j));
    }
    order
}

/// Storing an arrangement changes the arrangement and the focus of the view with that id,
/// and nothing else of any view.
pub proof fn layout_is_stored_in_one_view(
    before: Seq<ViewRecord>,
    id: Seq<char>,
    layout: Layout,
    focused: Seq<char>,
    j: int,
)
    requires
        well_formed(before),
    ensures
        ({
            let after = with_layout_in(before, id, layout, focused);
            &&& after.len() == before.len()
            &&& 0 <= j < before.len() ==> {
                &&& before[j].id != id ==> after[j] == before[j]
                &&& before[j].id == id ==> {
                    &&& after[j].layout == layout
                    &&& after[j].focused == focused
                    &&& after[j].id == before[j].id
                    &&& after[j].name == before[j].name
                    &&& after[j].terminal_ids == before[j].terminal_ids
                    &&& after[j].created_at == before[j].created_at
                }
            }
        }),
{
    what_stands_for_a_view(before, id);
    if 0 <= j < before.len() && before[j].id == id {
        ids_tell_views_apart(before, j, found_by_id(before, id)->0);
    }
}

/// Adding a terminal to the view with an id puts it behind the terminals that the view has,
/// unless it has it already, and changes nothing else of any view.
pub proof fn terminal_is_added_to_one_view(
    before: Seq<ViewRecord>,
    id: Seq<char>,
    terminal_id: Seq<char>,
    j: int,
)
    requires
        well_formed(before),
    ensures
        ({
            let after = with_terminal_in(before, id, terminal_id);
            let had = before[j].terminal_ids.contains(terminal_id);
            &&& after.len() == before.len()
            &&& 0 <= j < before.len() ==> {
                &&& before[j].id != id || had ==> after[j] == before[j]
                &&& before[j].id == id && !had ==> {
                    &&& after[j].terminal_ids == before[j].terminal_ids.push(terminal_id)
                    &&& after[j].id == before[j].id
                    &&& after[j].name == before[j].name
                    &&& after[j].layout == before[j].layout
                    &&& after[j].focused == before[j].focused
                    &&& after[j].created_at == before[j].created_at
                }
            }
        }),
{
    what_stands_for_a_view(before, id);
    if 0 <= j < before.len() && before[j].id == id {
        ids_tell_views_apart(before, j, found_by_id(before, id)->0);
    }
}

/// Taking a terminal out of the view with an id leaves its other terminals, as often and in
/// the order in which it has them, and changes nothing else of any view.
pub proof fn terminal_is_taken_out_of_one_view(
    before: Seq<ViewRecord>,
    id: Seq<char>,
    terminal_id: Seq<char>,
    j: int,
) -> (places: Seq<int>)
    requires
        well_formed(before),
    ensures
        ({
            let after = without_terminal_in(before, id, terminal_id);
            let had = before[j].terminal_ids;
            &&& after.len() == before.len()
            &&& 0 <= j < before.len() ==> {
                &&& before[j].id != id ==> after[j] == before[j]
                &&& before[j].id == id ==> {
                    &&& after[j].id == before[j].id
                    &&& after[j].name == before[j].name
                    &&& after[j].layout == before[j].layout
                    &&& after[j].focused == before[j].focused
                    &&& after[j].created_at == before[j].created_at
                    &&& places.len() == after[j].terminal_ids.len()
                    &&& forall|a: int|
                        0 <= a < places.len() ==> 0 <= #[trigger] places[a] < had.len()
                            && had[places[a]] != terminal_id && after[j].terminal_ids[a]
                            == had[places[a]]
                    &&& forall|a: int, b: int| 0 <= a < b < places.len() ==> places[a] < places[b]
                    &&& forall|i: int|
                        0 <= i < had.len() && #[trigger] had[i] != terminal_id ==> places.contains(i)
                }
            }
        }),
{
    what_stands_for_a_view(before, id);
    if 0 <= j < before.len() && before[j].id == id {
        ids_tell_views_apart(before, j, found_by_id(before, id)->0);
    }
    text::without_keeps_order(before[j].terminal_ids, terminal_id)
}

/// Taking a terminal out of every view leaves each view its other terminals, as often and in
/// the order in which it has them, and changes nothing else.
pub proof fn terminal_is_taken_out_of_every_view(
    before: Seq<ViewRecord>,
    terminal_id: Seq<char>,
    j: int,
) -> (places: Seq<int>)
    ensures
        ({
            let after = without_terminal(before, terminal_id);
            let had = before[j].terminal_ids;
            &&& after.len() == before.len()
            &&& 0 <= j < before.len() ==> {
                &&& after[j].id == before[j].id
                &&& after[j].name == before[j].name
                &&& after[j].layout == before[j].layout
                &&& after[j].focused == before[j].focused
                &&& after[j].created_at == before[j].created_at
                &&& places.len() == after[j].terminal_ids.len()
                &&& forall|a: int|
                    0 <= a < places.len() ==> 0 <= #[trigger] places[a] < had.len() && had[places[a]]
                        != terminal_id && after[j].terminal_ids[a] == had[places[a]]
                &&& forall|a: int, b: int| 0 <= a < b < places.len() ==> places[a] < places[b]
                &&& forall|i: int|
                    0 <= i < had.len() && #[trigger] had[i] != terminal_id ==> places.contains(i)
            }
        }),
{
    text::without_keeps_order(before[j].terminal_ids, terminal_id)
}

/// A view counts by its id, its name, all its terminals in their order, its arrangement, its
/// focus and when it was created.
pub proof fn views_by_content(view: View)
    ensures
        view@.id == view.id@,
        view@.name == text::opt_content(view.name),
        view@.terminal_ids == text::contents(view.terminal_ids@),
        view@.layout == view.layout,
        view@.focused == view.focused@,
        view@.created_at == view.created_at@,
{
}

/// What is said of a view, wherever it is said, is its id, its name, all its terminals in
/// their order, and when it was created.
pub proof fn views_are_described_whole(view: View, info: ViewInfo)
    requires
        call_ensures(view_info, (&view,), info),
    ensures
        info.id@ == view.id@,
        text::opt_content(info.name) == text::opt_content(view.name),
        info.terminal_ids@.len() == view.terminal_ids@.len(),
        forall|i: int|
            0 <= i < view.terminal_ids@.len() ==> (#[trigger] info.terminal_ids@[i])@
                == view.terminal_ids@[i]@,
        info.created_at@ == view.created_at@,
{
    let said = text::contents(info.terminal_ids@);
    let has = text::contents(view.terminal_ids@);
    assert(said == has);
    assert(said.len() == info.terminal_ids@.len() && has.len() == view.terminal_ids@.len());
    assert forall|i: int| 0 <= i < view.terminal_ids@.len() implies (
    #[trigger] info.terminal_ids@[i])@ == view.terminal_ids@[i]@ by {
        assert(said[i] == info.terminal_ids@[i]@ && has[i] == view.terminal_ids@[i]@);
    }
}

/// The list of a registry says of every view its id, its name, all its terminals in their
/// order, and when it was created, and of nothing else.
pub proof fn registries_are_listed_whole(mgr: ViewManager, infos: Vec<ViewInfo>, i: int)
    requires
        call_ensures(ViewManager::list, (&mgr,), infos),
    ensures
        infos@.len() == mgr@.len(),
        0 <= i < mgr@.len() ==> exists|a: int|
            0 <= a < infos@.len() && (#[trigger] infos@[a]).id@ == mgr@[i].id && text::opt_content(
                infos@[a].name,
            ) == mgr@[i].name && text::contents(infos@[a].terminal_ids@) == mgr@[i].terminal_ids
                && infos@[a].created_at@ == mgr@[i].created_at,
{
    let said = message::view_listing(infos@);
    let order = listing_says_of_every_view(mgr@, said);
    assert(said.len() == infos@.len());
    if 0 <= i < mgr@.len() {
        assert(order.contains(i));
        let a = choose|a: int| 0 <= a < order.len() && order[a] == i;
        assert(said[a] == infos@[a]@);
        assert(infos@[a].id@ == mgr@[order[a]].id);
    }
}

} // verus!
