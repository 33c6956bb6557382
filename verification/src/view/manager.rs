//! The views that the server keeps.

use vstd::prelude::*;
use vstd::string::*;
use vstd::view::View as _;

use crate::clock::{self, LocalTime};
use crate::directory::{self, Key};
use crate::error::{ErrorView, KexshError, Result};
use crate::ident;
use crate::ipc::message::{self, Layout, ViewInfo, ViewInfoView};
use crate::text;

verus! {

/// A group of terminals that are shown together.
#[derive(Debug)]
pub struct View {
    pub id: String,
    pub name: Option<String>,
    pub terminal_ids: Vec<String>,
    pub layout: Layout,
    pub focused: String,
    pub created_at: String,
}

/// The mathematical content of a [`View`].
pub struct ViewRecord {
    pub id: Seq<char>,
    pub name: Option<Seq<char>>,
    pub terminal_ids: Seq<Seq<char>>,
    pub layout: Layout,
    pub focused: Seq<char>,
    pub created_at: Seq<char>,
}

impl vstd::view::View for View {
    type V = ViewRecord;

    open spec fn view(&self) -> ViewRecord {
        ViewRecord {
            id: self.id@,
            name: text::opt_content(self.name),
            terminal_ids: text::contents(self.terminal_ids@),
            layout: self.layout,
            focused: self.focused@,
            created_at: self.created_at@,
        }
    }
}

impl ViewRecord {
    /// What the view is found by.
    pub open spec fn key(self) -> Key {
        Key { id: self.id, name: self.name }
    }

    /// What a listing says of the view.
    pub open spec fn info(self) -> ViewInfoView {
        ViewInfoView {
            id: self.id,
            name: self.name,
            terminal_ids: self.terminal_ids,
            created_at: self.created_at,
        }
    }

    /// The view with one more terminal, unless it has it already.
    pub open spec fn with_terminal(self, terminal_id: Seq<char>) -> ViewRecord {
        if self.terminal_ids.contains(terminal_id) {
            self
        } else {
            ViewRecord { terminal_ids: self.terminal_ids.push(terminal_id), ..self }
        }
    }

    /// The view without a terminal.
    pub open spec fn without_terminal(self, terminal_id: Seq<char>) -> ViewRecord {
        ViewRecord {
            terminal_ids: text::without(self.terminal_ids, terminal_id),
            ..self
        }
    }

    /// The view with another arrangement.
    pub open spec fn with_layout(self, layout: Layout, focused: Seq<char>) -> ViewRecord {
        ViewRecord { layout, focused, ..self }
    }
}

/// What the views of a registry are found by.
pub open spec fn keys(records: Seq<ViewRecord>) -> Seq<Key> {
    records.map_values(|r: ViewRecord| r.key())
}

/// The view that `id_or_name` stands for.
pub open spec fn found(records: Seq<ViewRecord>, id_or_name: Seq<char>) -> Option<int> {
    directory::resolved(keys(records), id_or_name)
}

/// The view with the id `id`.
pub open spec fn found_by_id(records: Seq<ViewRecord>, id: Seq<char>) -> Option<int> {
    directory::id_index(keys(records), id)
}

/// The views after an arrangement was stored for the one with the id `id`.
pub open spec fn with_layout_in(
    records: Seq<ViewRecord>,
    id: Seq<char>,
    layout: Layout,
    focused: Seq<char>,
) -> Seq<ViewRecord> {
    match found_by_id(records, id) {
        Some(i) => records.update(i, records[i].with_layout(layout, focused)),
        None => records,
    }
}

/// The views after a terminal was added to the one with the id `id`.
pub open spec fn with_terminal_in(
    records: Seq<ViewRecord>,
    id: Seq<char>,
    terminal_id: Seq<char>,
) -> Seq<ViewRecord> {
    match found_by_id(records, id) {
        Some(i) => records.update(i, records[i].with_terminal(terminal_id)),
        None => records,
    }
}

/// The views after a terminal was taken out of the one with the id `id`.
pub open spec fn without_terminal_in(
    records: Seq<ViewRecord>,
    id: Seq<char>,
    terminal_id: Seq<char>,
) -> Seq<ViewRecord> {
    match found_by_id(records, id) {
        Some(i) => records.update(i, records[i].without_terminal(terminal_id)),
        None => records,
    }
}

/// The views after a terminal has left all of them.
pub open spec fn without_terminal(records: Seq<ViewRecord>, terminal_id: Seq<char>) -> Seq<
    ViewRecord,
> {
    records.map_values(|r: ViewRecord| r.without_terminal(terminal_id))
}

/// Whether a listing holds what it should of every view, in the order of a listing.
pub open spec fn is_listing(records: Seq<ViewRecord>, infos: Seq<ViewInfoView>) -> bool {
    exists|order: Seq<int>| #[trigger]
        is_listing_order(records, order) && infos == order.map_values(|i: int| records[i].info())
}

/// Every view has a short id of its own and names no terminal twice.
pub open spec fn well_formed(records: Seq<ViewRecord>) -> bool {
    &&& directory::well_formed(keys(records))
    &&& forall|i: int| 0 <= i < records.len() ==> (#[trigger] records[i]).terminal_ids.no_duplicates()
}

/// Whether view `i` is listed before view `j`: by age as it is shown, then by order of
/// creation.
pub open spec fn listed_before(records: Seq<ViewRecord>, i: int, j: int) -> bool {
    ||| text::text_before(records[i].created_at, records[j].created_at)
    ||| records[i].created_at == records[j].created_at && i < j
}

/// Whether `order` names every view once, in the order of a listing.
pub open spec fn is_listing_order(records: Seq<ViewRecord>, order: Seq<int>) -> bool {
    &&& order.len() == records.len()
    &&& forall|a: int| 0 <= a < order.len() ==> 0 <= #[trigger] order[a] < records.len()
    &&& forall|a: int, b: int|
        0 <= a < b < order.len() ==> listed_before(records, #[trigger] order[a], #[trigger] order[b])
}

/// The text of the error for a view that is not there.
pub open spec fn not_found_text(id_or_name: Seq<char>) -> Seq<char> {
    "view not found: "@ + id_or_name
}

/// Writes the text of the error for a view that is not there.
pub fn not_found(id_or_name: &str) -> (message: String)
    ensures
        message@ == not_found_text(id_or_name@),
{
    "view not found: ".to_owned().concat(id_or_name)
}

/// What a listing says of a view.
pub fn view_info(view: &View) -> (info: ViewInfo)
    ensures
        info@ == view@.info(),
{
    ViewInfo {
        id: view.id.clone(),
        name: text::copy_opt(&view.name),
        terminal_ids: text::copy_texts(&view.terminal_ids),
        created_at: view.created_at.clone(),
    }
}

/// The kept views, oldest first.
pub struct ViewManager {
    views: Vec<View>,
}

impl vstd::view::View for ViewManager {
    type V = Seq<ViewRecord>;

    closed spec fn view(&self) -> Seq<ViewRecord> {
        self.views@.map_values(|v: View| v@)
    }
}

impl Default for ViewManager {
    fn default() -> (manager: ViewManager)
        ensures
            manager@ == Seq::<ViewRecord>::empty(),
            manager.well_formed(),
    {
        ViewManager::new()
    }
}

impl ViewManager {
    /// Every view has a short id of its own and names no terminal twice.
    pub open spec fn well_formed(&self) -> bool {
        well_formed(self@)
    }

    /// A registry without views.
    pub fn new() -> (manager: ViewManager)
        ensures
            manager@ == Seq::<ViewRecord>::empty(),
            manager.well_formed(),
    {
        let manager = ViewManager { views: Vec::new() };
        proof {
            assert(manager@ =~= Seq::<ViewRecord>::empty());
        }
        manager
    }

    /// How many views there are.
    pub fn len(&self) -> (n: usize)
        ensures
            n == self@.len(),
    {
        self.views.len()
    }

    fn ids(&self) -> (ids: Vec<String>)
        ensures
            ids@.len() == self@.len(),
            forall|s: Seq<char>| ident::holds(ids@, s) <==> directory::has_id(keys(self@), s),
    {
        let mut ids: Vec<String> = Vec::new();
        let mut i: usize = 0;
        while i < self.views.len()
            invariant
                i <= self.views@.len(),
                ids@.len() == i,
                forall|j: int| 0 <= j < i ==> (#[trigger] ids@[j])@ == keys(self@)[j].id,
            decreases self.views@.len() - i,
        {
            ids.push(self.views[i].id.clone());
            i += 1;
        }
        proof {
            let all = keys(self@);
            assert forall|s: Seq<char>| ident::holds(ids@, s) <==> directory::has_id(all, s) by {
                if ident::holds(ids@, s) {
                    let j = choose|j: int| 0 <= j < ids@.len() && (#[trigger] ids@[j])@ == s;
                    assert(all[j].id == s);
                }
                if directory::has_id(all, s) {
                    let j = choose|j: int| 0 <= j < all.len() && (#[trigger] all[j]).id == s;
                    assert(ids@[j]@ == s);
                }
            }
        }
        ids
    }

    fn index_of_id(&self, id: &str) -> (index: Option<usize>)
        requires
            self.well_formed(),
        ensures
            index matches Some(i) ==> i < self@.len() && found_by_id(self@, id@) == Some(i as int)
                && self@[i as int].id == id@,
            index is None ==> found_by_id(self@, id@) is None && !directory::has_id(
                keys(self@),
                id@,
            ),
    {
        let ghost all = keys(self@);
        let mut i: usize = 0;
        while i < self.views.len()
            invariant
                self.well_formed(),
                all == keys(self@),
                i <= self.views@.len(),
                forall|j: int| 0 <= j < i ==> (#[trigger] all[j]).id != id@,
            decreases self.views@.len() - i,
        {
            if text::same_text(self.views[i].id.as_str(), id) {
                proof {
                    assert(all[i as int].id == id@);
                    directory::id_index_is(all, i as int);
                }
                return Some(i);
            }
            i += 1;
        }
        None
    }

    fn index_of(&self, id_or_name: &str) -> (index: Option<usize>)
        requires
            self.well_formed(),
        ensures
            index matches Some(i) ==> i < self@.len() && found(self@, id_or_name@) == Some(
                i as int,
            ),
            index is None ==> found(self@, id_or_name@) is None,
    {
        if let Some(i) = self.index_of_id(id_or_name) {
            return Some(i);
        }
        let ghost all = keys(self@);
        let mut i: usize = 0;
        while i < self.views.len()
            invariant
                all == keys(self@),
                i <= self.views@.len(),
                !directory::has_id(all, id_or_name@),
                forall|j: int| 0 <= j < i ==> (#[trigger] all[j]).name != Some(id_or_name@),
            decreases self.views@.len() - i,
        {
            if text::is_text(&self.views[i].name, id_or_name) {
                proof {
                    assert(directory::is_first_named(all, id_or_name@, i as int));
                    directory::name_index_is(all, id_or_name@, i as int);
                }
                return Some(i);
            }
            i += 1;
        }
        proof {
            directory::unresolved_is_absent(all, id_or_name@);
            assert(directory::resolved(all, id_or_name@) is None);
        }
        None
    }

    /// Adds a view of one terminal, which is in focus, under a new id.
    pub fn create(&mut self, name: Option<String>, terminal_id: String, created_at: String) -> (id:
        String)
        requires
            old(self).well_formed(),
            old(self)@.len() < ident::SHORT_IDS,
        ensures
            final(self).well_formed(),
            ident::is_short_id(id@),
            !directory::has_id(keys(old(self)@), id@),
            final(self)@ == old(self)@.push(
                ViewRecord {
                    id: id@,
                    name: text::opt_content(name),
                    terminal_ids: seq![terminal_id@],
                    layout: Layout::Null,
                    focused: terminal_id@,
                    created_at: created_at@,
                },
            ),
    {
        let id = ident::fresh_id(&self.ids());
        let mut terminal_ids: Vec<String> = Vec::new();
        terminal_ids.push(terminal_id.clone());
        let view = View {
            id: id.clone(),
            name,
            terminal_ids,
            layout: Layout::Null,
            focused: terminal_id,
            created_at,
        };
        let ghost record = view@;
        self.views.push(view);
        proof {
            assert(record.terminal_ids =~= seq![terminal_id@]);
            directory::added_entry_is_found(keys(old(self)@), record.key());
            assert(final(self)@ =~= old(self)@.push(record));
            assert(keys(final(self)@) =~= keys(old(self)@).push(record.key()));
        }
        id
    }

    /// Removes the view that `id_or_name` stands for.
    pub fn delete(&mut self, id_or_name: &str) -> (deleted: Result<()>)
        requires
            old(self).well_formed(),
        ensures
            final(self).well_formed(),
            match found(old(self)@, id_or_name@) {
                Some(i) => deleted is Ok && final(self)@ == old(self)@.remove(i),
                None => deleted matches Err(error) && error@ == ErrorView::Server(
                    not_found_text(id_or_name@),
                ) && final(self)@ == old(self)@,
            },
    {
        match self.index_of(id_or_name) {
            Some(i) => {
                let _view = self.views.remove(i);
                proof {
                    directory::removed_entry_is_gone(keys(old(self)@), i as int);
                    assert(final(self)@ =~= old(self)@.remove(i as int));
                    assert(keys(final(self)@) =~= keys(old(self)@).remove(i as int));
                }
                Ok(())
            },
            None => Err(KexshError::Server(not_found(id_or_name))),
        }
    }

    /// Every view, oldest first.
    pub fn list_full(&self) -> (views: Vec<&View>)
        ensures
            views@.map_values(|v: &View| v@) == self@,
    {
        let mut views: Vec<&View> = Vec::new();
        let mut i: usize = 0;
        while i < self.views.len()
            invariant
                i <= self.views@.len(),
                views@.len() == i,
                forall|j: int| 0 <= j < i ==> (#[trigger] views@[j])@ == self@[j],
            decreases self.views@.len() - i,
        {
            views.push(&self.views[i]);
            i += 1;
        }
        proof {
            assert(views@.map_values(|v: &View| v@) =~= self@);
        }
        views
    }

    /// The view that `id_or_name` stands for.
    pub fn get(&self, id_or_name: &str) -> (view: Option<&View>)
        requires
            self.well_formed(),
        ensures
            match found(self@, id_or_name@) {
                Some(i) => view matches Some(v) && v@ == self@[i],
                None => view is None,
            },
    {
        match self.index_of(id_or_name) {
            Some(i) => Some(&self.views[i]),
            None => None,
        }
    }

    /// The id of the view that `id_or_name` stands for.
    pub fn resolve_id(&self, id_or_name: &str) -> (id: Option<String>)
        requires
            self.well_formed(),
        ensures
            match found(self@, id_or_name@) {
                Some(i) => id matches Some(id) && id@ == self@[i].id,
                None => id is None,
            },
    {
        match self.index_of(id_or_name) {
            Some(i) => Some(self.views[i].id.clone()),
            None => None,
        }
    }

    /// Stores an arrangement for the view with the id `id`; a name will not do.
    pub fn update_layout(&mut self, id: &str, layout: Layout, focused: String)
        requires
            old(self).well_formed(),
        ensures
            final(self).well_formed(),
            final(self)@ == with_layout_in(old(self)@, id@, layout, focused@),
    {
        if let Some(i) = self.index_of_id(id) {
            self.views[i].layout = layout;
            self.views[i].focused = focused;
            proof {
                assert(final(self)@ =~= old(self)@.update(
                    i as int,
                    old(self)@[i as int].with_layout(layout, focused@),
                ));
                assert(keys(final(self)@) =~= keys(old(self)@));
            }
        }
    }

    /// Adds a terminal to the view with the id `view_id`, unless the view has it already.
    pub fn add_terminal(&mut self, view_id: &str, terminal_id: &str)
        requires
            old(self).well_formed(),
        ensures
            final(self).well_formed(),
            final(self)@ == with_terminal_in(old(self)@, view_id@, terminal_id@),
    {
        if let Some(i) = self.index_of_id(view_id) {
            let ghost before = old(self)@[i as int];
            let present = ident::is_taken(&self.views[i].terminal_ids, terminal_id);
            proof {
                let ids = self.views@[i as int].terminal_ids@;
                if present {
                    let j = choose|j: int| 0 <= j < ids.len() && (#[trigger] ids[j])@ == terminal_id@;
                    assert(before.terminal_ids[j] == terminal_id@);
                } else if before.terminal_ids.contains(terminal_id@) {
                    let j = choose|j: int|
                        0 <= j < before.terminal_ids.len() && before.terminal_ids[j] == terminal_id@;
                    assert(ids[j]@ == terminal_id@);
                }
            }
            if !present {
                self.views[i].terminal_ids.push(terminal_id.to_owned());
                proof {
                    assert(self.views@[i as int]@.terminal_ids =~= before.terminal_ids.push(
                        terminal_id@,
                    ));
                    assert(self@[i as int] == before.with_terminal(terminal_id@));
                }
            }
            proof {
                assert(final(self)@ =~= old(self)@.update(
                    i as int,
                    before.with_terminal(terminal_id@),
                ));
                assert(keys(final(self)@) =~= keys(old(self)@));
            }
        }
    }

    /// Takes a terminal out of the view with the id `view_id`.
    pub fn remove_terminal_from_view(&mut self, view_id: &str, terminal_id: &str)
        requires
            old(self).well_formed(),
        ensures
            final(self).well_formed(),
            final(self)@ == without_terminal_in(old(self)@, view_id@, terminal_id@),
    {
        if let Some(i) = self.index_of_id(view_id) {
            let rest = text::without_text(&self.views[i].terminal_ids, terminal_id);
            self.views[i].terminal_ids = rest;
            proof {
                text::without_keeps_distinct(old(self)@[i as int].terminal_ids, terminal_id@);
                assert(final(self)@ =~= old(self)@.update(
                    i as int,
                    old(self)@[i as int].without_terminal(terminal_id@),
                ));
                assert(keys(final(self)@) =~= keys(old(self)@));
            }
        }
    }

    /// Takes a terminal out of every view.
    pub fn remove_terminal(&mut self, terminal_id: &str)
        requires
            old(self).well_formed(),
        ensures
            final(self).well_formed(),
            final(self)@ == without_terminal(old(self)@, terminal_id@),
    {
        let mut i: usize = 0;
        while i < self.views.len()
            invariant
                i <= self.views@.len(),
                self.views@.len() == old(self).views@.len(),
                forall|j: int|
                    0 <= j < i ==> (#[trigger] self.views@[j])@ == old(self)@[j].without_terminal(terminal_id@),
                forall|j: int|
                    i <= j < self.views@.len() ==> #[trigger] self.views@[j] == old(self).views@[j],
            decreases self.views@.len() - i,
        {
            let rest = text::without_text(&self.views[i].terminal_ids, terminal_id);
            self.views[i].terminal_ids = rest;
            i += 1;
        }
        proof {
            assert(final(self)@ =~= without_terminal(old(self)@, terminal_id@));
            assert(keys(final(self)@) =~= keys(old(self)@));
            assert forall|j: int| 0 <= j < final(self)@.len() implies (#[trigger] final(self)@[j]).terminal_ids.no_duplicates() by {
                text::without_keeps_distinct(old(self)@[j].terminal_ids, terminal_id@);
            }
        }
    }

    fn listing_order(&self) -> (order: Vec<usize>)
        ensures
            is_listing_order(self@, order@.map_values(|i: usize| i as int)),
    {
        let mut order: Vec<usize> = Vec::new();
        let mut i: usize = 0;
        while i < self.views.len()
            invariant
                i <= self.views@.len(),
                order@.len() == i,
                forall|a: int| 0 <= a < i ==> 0 <= #[trigger] order@[a] < i,
                forall|a: int, b: int|
                    0 <= a < b < i ==> listed_before(
                        self@,
                        #[trigger] order@[a] as int,
                        #[trigger] order@[b] as int,
                    ),
            decreases self.views@.len() - i,
        {
            let mut place: usize = i;
            while place > 0 && text::comes_before(
                self.views[i].created_at.as_str(),
                self.views[order[place - 1]].created_at.as_str(),
            )
                invariant
                    i < self.views@.len(),
                    place <= i,
                    order@.len() == i,
                    forall|a: int| 0 <= a < i ==> 0 <= #[trigger] order@[a] < i,
                    forall|a: int|
                        place <= a < i ==> listed_before(
                            self@,
                            i as int,
                            #[trigger] order@[a] as int,
                        ),
                decreases place,
            {
                place -= 1;
            }
            let ghost before = order@;
            order.insert(place, i);
            proof {
                assert forall|a: int| 0 <= a < place implies listed_before(
                    self@,
                    #[trigger] before[a] as int,
                    i as int,
                ) by {
                    self.earlier_stays_earlier(before, a, place as int, i as int);
                }
            }
            i += 1;
        }
        proof {
            let plain = order@.map_values(|i: usize| i as int);
            assert forall|a: int, b: int| 0 <= a < b < plain.len() implies listed_before(
                self@,
                #[trigger] plain[a],
                #[trigger] plain[b],
            ) by {
                assert(listed_before(self@, order@[a] as int, order@[b] as int));
            }
        }
        order
    }

    proof fn earlier_stays_earlier(&self, order: Seq<usize>, a: int, place: int, i: int)
        requires
            0 <= a < place <= order.len(),
            0 <= i < self@.len(),
            forall|k: int| 0 <= k < order.len() ==> 0 <= #[trigger] order[k] < i,
            forall|k: int, l: int|
                0 <= k < l < order.len() ==> listed_before(
                    self@,
                    #[trigger] order[k] as int,
                    #[trigger] order[l] as int,
                ),
            !text::text_before(self@[i].created_at, self@[order[place - 1] as int].created_at),
        ensures
            listed_before(self@, order[a] as int, i),
    {
        use_order(
            self@[order[a] as int].created_at,
            self@[order[place - 1] as int].created_at,
            self@[i].created_at,
        );
        if a < place - 1 {
            assert(listed_before(self@, order[a] as int, order[place - 1] as int));
        }
    }

    /// What a listing says of every view, sorted by age.
    pub fn list(&self) -> (infos: Vec<ViewInfo>)
        ensures
            is_listing(self@, message::view_listing(infos@)),
    {
        let order = self.listing_order();
        let ghost plain = order@.map_values(|i: usize| i as int);
        let mut infos: Vec<ViewInfo> = Vec::new();
        let mut a: usize = 0;
        while a < order.len()
            invariant
                a <= order@.len(),
                is_listing_order(self@, plain),
                plain == order@.map_values(|i: usize| i as int),
                infos@.len() == a,
                forall|b: int| 0 <= b < a ==> (#[trigger] infos@[b])@ == self@[plain[b]].info(),
            decreases order@.len() - a,
        {
            assert(plain[a as int] == order@[a as int]);
            infos.push(view_info(&self.views[order[a]]));
            a += 1;
        }
        proof {
            assert(message::view_listing(infos@) =~= plain.map_values(|i: int| self@[i].info()));
        }
        infos
    }
}

/// Where `b` does not come after `c`, what is before `b`, or is `b`, does not come after
/// `c` either.
proof fn use_order(a: Seq<char>, b: Seq<char>, c: Seq<char>)
    requires
        !text::text_before(c, b),
    ensures
        text::text_before(a, b) ==> text::text_before(a, c) || a == c,
        b == c || text::text_before(b, c),
{
    let (x, y, z) = (
        vstd::utf8::encode_utf8(a),
        vstd::utf8::encode_utf8(b),
        vstd::utf8::encode_utf8(c),
    );
    vstd::utf8::encode_utf8_decode_utf8(b);
    vstd::utf8::encode_utf8_decode_utf8(c);
    text::bytes_before_total(y, z);
    if text::text_before(a, b) && text::text_before(b, c) {
        text::bytes_before_transitive(x, y, z);
    }
}

/// A listing names every view exactly once.
pub proof fn listing_is_complete(records: Seq<ViewRecord>, order: Seq<int>)
    requires
        is_listing_order(records, order),
    ensures
        order.no_duplicates(),
        forall|i: int| 0 <= i < records.len() ==> #[trigger] order.contains(i),
{
    assert forall|a: int, b: int| 0 <= a < order.len() && 0 <= b < order.len() && a
        != b implies order[a] != order[b] by {
        if a < b {
            never_before_itself(records, order[a]);
            assert(listed_before(records, order[a], order[b]));
        } else {
            never_before_itself(records, order[b]);
            assert(listed_before(records, order[b], order[a]));
        }
    }
    order.unique_seq_to_set();
    let all = vstd::set_lib::set_int_range(0, records.len() as int);
    vstd::set_lib::lemma_int_range(0, records.len() as int);
    assert(order.to_set().subset_of(all));
    vstd::set_lib::lemma_subset_equality(order.to_set(), all);
    assert forall|i: int| 0 <= i < records.len() implies #[trigger] order.contains(i) by {
        assert(all.contains(i));
        assert(order.to_set().contains(i));
    }
}

/// A view that was created earlier, to the minute, is listed earlier.
pub proof fn older_views_are_listed_first(
    records: Seq<ViewRecord>,
    order: Seq<int>,
    a: int,
    b: int,
    earlier: LocalTime,
    later: LocalTime,
)
    requires
        is_listing_order(records, order),
        0 <= a < order.len(),
        0 <= b < order.len(),
        records[order[a]].created_at == earlier.stamp(),
        records[order[b]].created_at == later.stamp(),
        earlier.is_on_calendar(),
        later.is_on_calendar(),
        earlier.is_before(later),
    ensures
        a < b,
{
    clock::earlier_stamps_come_first(earlier, later);
    let first = vstd::utf8::encode_utf8(earlier.stamp());
    let second = vstd::utf8::encode_utf8(later.stamp());
    text::bytes_before_irreflexive(first);
    if b < a {
        assert(listed_before(records, order[b], order[a]));
        if text::bytes_before(second, first) {
            text::bytes_before_transitive(first, second, first);
        }
    }
}

proof fn never_before_itself(records: Seq<ViewRecord>, i: int)
    ensures
        !listed_before(records, i, i),
{
    text::bytes_before_irreflexive(vstd::utf8::encode_utf8(records[i].created_at));
}

/// A new view is found by its id, and by its name where that stood for nothing before.
pub proof fn created_view_is_found(before: Seq<ViewRecord>, new: ViewRecord)
    requires
        well_formed(before),
        ident::is_short_id(new.id),
        !directory::has_id(keys(before), new.id),
    ensures
        found(before.push(new), new.id) == Some(before.len() as int),
        new.name matches Some(name) ==> found(before, name) is None ==> found(
            before.push(new),
            name,
        ) == Some(before.len() as int),
{
    directory::added_entry_is_found(keys(before), new.key());
    assert(keys(before.push(new)) =~= keys(before).push(new.key()));
}

/// Deleting a view leaves every other view as it was, terminals and all.
pub proof fn deleted_view_leaves_the_others(before: Seq<ViewRecord>, id_or_name: Seq<char>)
    requires
        well_formed(before),
        found(before, id_or_name) is Some,
    ensures
        ({
            let i = found(before, id_or_name)->0;
            let after = before.remove(i);
            &&& !directory::has_id(keys(after), before[i].id)
            &&& forall|j: int|
                0 <= j < before.len() && j != i ==> (found(
                    after,
                    (#[trigger] before[j]).id,
                ) matches Some(k) && after[k] == before[j])
        }),
{
    let i = found(before, id_or_name)->0;
    let after = before.remove(i);
    directory::resolved_is_there(keys(before), id_or_name);
    directory::removed_entry_is_gone(keys(before), i);
    assert(keys(after) =~= keys(before).remove(i));
    assert forall|j: int| 0 <= j < before.len() && j != i implies (found(
        after,
        (#[trigger] before[j]).id,
    ) matches Some(k) && after[k] == before[j]) by {
        assert(keys(before)[j].id == before[j].id);
    }
}

/// Adding a terminal to a view twice is adding it once.
pub proof fn adding_twice_is_adding_once(
    before: Seq<ViewRecord>,
    view_id: Seq<char>,
    terminal_id: Seq<char>,
)
    requires
        well_formed(before),
    ensures
        ({
            let once = with_terminal_in(before, view_id, terminal_id);
            with_terminal_in(once, view_id, terminal_id) == once
        }),
{
    let once = with_terminal_in(before, view_id, terminal_id);
    if let Some(i) = found_by_id(before, view_id) {
        directory::id_index_is(keys(before), i);
        assert(keys(once) =~= keys(before));
        assert(once[i].terminal_ids.contains(terminal_id)) by {
            if !before[i].terminal_ids.contains(terminal_id) {
                assert(once[i].terminal_ids.last() == terminal_id);
            }
        }
        assert(with_terminal_in(once, view_id, terminal_id) =~= once);
    }
}

/// Taking out a terminal that was just added to a view that lacked it gives the view
/// back as it was.
pub proof fn removing_undoes_adding(
    before: Seq<ViewRecord>,
    view_id: Seq<char>,
    terminal_id: Seq<char>,
)
    requires
        well_formed(before),
        found_by_id(before, view_id) matches Some(i) ==> !before[i].terminal_ids.contains(
            terminal_id,
        ),
    ensures
        without_terminal_in(
            with_terminal_in(before, view_id, terminal_id),
            view_id,
            terminal_id,
        ) == before,
{
    let once = with_terminal_in(before, view_id, terminal_id);
    if let Some(i) = found_by_id(before, view_id) {
        directory::id_index_is(keys(before), i);
        assert(keys(once) =~= keys(before));
        let ids = before[i].terminal_ids;
        text::without_absent(ids, terminal_id);
        assert(ids.push(terminal_id).drop_last() =~= ids);
        assert(text::without(ids.push(terminal_id), terminal_id) == ids) by {
            reveal(Seq::filter);
        }
        assert(without_terminal_in(once, view_id, terminal_id) =~= before);
    }
}

/// A terminal that is taken out of every view is in none of them, and nothing else about
/// any view changes.
pub proof fn removed_terminal_is_in_no_view(before: Seq<ViewRecord>, terminal_id: Seq<char>)
    ensures
        without_terminal(before, terminal_id).len() == before.len(),
        forall|i: int|
            0 <= i < before.len() ==> {
                let r = #[trigger] without_terminal(before, terminal_id)[i];
                &&& !r.terminal_ids.contains(terminal_id)
                &&& forall|t: Seq<char>|
                    t != terminal_id ==> (r.terminal_ids.contains(t)
                        <==> before[i].terminal_ids.contains(t))
                &&& r == ViewRecord { terminal_ids: r.terminal_ids, ..before[i] }
            },
{
    assert forall|i: int| 0 <= i < before.len() implies {
        let r = #[trigger] without_terminal(before, terminal_id)[i];
        &&& !r.terminal_ids.contains(terminal_id)
        &&& forall|t: Seq<char>|
            t != terminal_id ==> (r.terminal_ids.contains(t) <==> before[i].terminal_ids.contains(
                t,
            ))
        &&& r == ViewRecord { terminal_ids: r.terminal_ids, ..before[i] }
    } by {
        text::without_members(before[i].terminal_ids, terminal_id);
    }
}

/// Changing one view leaves every other view as it was.
pub proof fn other_views_stay(
    before: Seq<ViewRecord>,
    view_id: Seq<char>,
    terminal_id: Seq<char>,
    layout: Layout,
    focused: Seq<char>,
    j: int,
)
    requires
        0 <= j < before.len(),
        before[j].id != view_id,
        well_formed(before),
    ensures
        with_layout_in(before, view_id, layout, focused)[j] == before[j],
        with_terminal_in(before, view_id, terminal_id)[j] == before[j],
        without_terminal_in(before, view_id, terminal_id)[j] == before[j],
{
    if let Some(i) = found_by_id(before, view_id) {
        let all = keys(before);
        let k = choose|k: int| 0 <= k < all.len() && (#[trigger] all[k]).id == view_id;
        directory::id_index_is(all, k);
        assert(before[k].id == view_id);
    }
}

/// A stored arrangement is what is found afterwards.
pub proof fn stored_layout_is_found(
    before: Seq<ViewRecord>,
    id: Seq<char>,
    layout: Layout,
    focused: Seq<char>,
)
    requires
        well_formed(before),
        found_by_id(before, id) is Some,
    ensures
        ({
            let after = with_layout_in(before, id, layout, focused);
            &&& found(after, id) matches Some(i)
            &&& after[i].layout == layout
            &&& after[i].focused == focused
        }),
{
    let i = found_by_id(before, id)->0;
    let all = keys(before);
    let k = choose|k: int| 0 <= k < all.len() && (#[trigger] all[k]).id == id;
    directory::id_index_is(all, k);
    let after = with_layout_in(before, id, layout, focused);
    assert(keys(after) =~= all);
}

} // verus!
