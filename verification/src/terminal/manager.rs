//! The terminals that the server runs.

use vstd::prelude::*;
use vstd::string::*;

use crate::directory::{self, Key};
use crate::error::{ErrorView, KexshError, Result};
use crate::ident;
use crate::ipc::message::{self, TerminalInfo, TerminalInfoView};
use crate::text;

verus! {

/// A running terminal. `P` is the handle to its pseudo-terminal, which is kept and handed
/// out but never looked into.
pub struct Terminal<P> {
    pub id: String,
    pub name: Option<String>,
    pub pty: P,
    pub created_at: String,
}

/// The mathematical content of a [`Terminal`].
pub struct TerminalRecord<P> {
    pub id: Seq<char>,
    pub name: Option<Seq<char>>,
    pub pty: P,
    pub created_at: Seq<char>,
}

impl<P> View for Terminal<P> {
    type V = TerminalRecord<P>;

    open spec fn view(&self) -> TerminalRecord<P> {
        TerminalRecord {
            id: self.id@,
            name: text::opt_content(self.name),
            pty: self.pty,
            created_at: self.created_at@,
        }
    }
}

impl<P> TerminalRecord<P> {
    /// What the terminal is found by.
    pub open spec fn key(self) -> Key {
        Key { id: self.id, name: self.name }
    }

    /// What a listing says of the terminal.
    pub open spec fn info(self) -> TerminalInfoView {
        TerminalInfoView { id: self.id, name: self.name, created_at: self.created_at }
    }
}

/// What the terminals of a registry are found by.
pub open spec fn keys<P>(records: Seq<TerminalRecord<P>>) -> Seq<Key> {
    records.map_values(|r: TerminalRecord<P>| r.key())
}

/// The terminal that `id_or_name` stands for.
pub open spec fn found<P>(records: Seq<TerminalRecord<P>>, id_or_name: Seq<char>) -> Option<int> {
    directory::resolved(keys(records), id_or_name)
}

/// The contents of a list of terminals.
pub open spec fn records<P>(terminals: Seq<Terminal<P>>) -> Seq<TerminalRecord<P>> {
    terminals.map_values(|t: Terminal<P>| t@)
}

/// What a listing says of terminals.
pub open spec fn infos<P>(records: Seq<TerminalRecord<P>>) -> Seq<TerminalInfoView> {
    records.map_values(|r: TerminalRecord<P>| r.info())
}

/// The text of the error for a terminal that is not there.
pub open spec fn not_found_text(id_or_name: Seq<char>) -> Seq<char> {
    "terminal not found: "@ + id_or_name
}

/// Writes the text of the error for a terminal that is not there.
pub fn not_found(id_or_name: &str) -> (message: String)
    ensures
        message@ == not_found_text(id_or_name@),
{
    "terminal not found: ".to_owned().concat(id_or_name)
}

/// The running terminals, oldest first.
pub struct TerminalManager<P> {
    terminals: Vec<Terminal<P>>,
}

impl<P> View for TerminalManager<P> {
    type V = Seq<TerminalRecord<P>>;

    closed spec fn view(&self) -> Seq<TerminalRecord<P>> {
        records(self.terminals@)
    }
}

impl<P> Default for TerminalManager<P> {
    fn default() -> (manager: TerminalManager<P>)
        ensures
            manager@ == Seq::<TerminalRecord<P>>::empty(),
            manager.well_formed(),
    {
        TerminalManager::new()
    }
}

impl<P> TerminalManager<P> {
    /// Every terminal has a short id of its own.
    pub open spec fn well_formed(&self) -> bool {
        directory::well_formed(keys(self@))
    }

    /// A registry without terminals.
    pub fn new() -> (manager: TerminalManager<P>)
        ensures
            manager@ == Seq::<TerminalRecord<P>>::empty(),
            manager.well_formed(),
    {
        let manager = TerminalManager { terminals: Vec::new() };
        proof {
            assert(manager@ =~= Seq::<TerminalRecord<P>>::empty());
        }
        manager
    }

    /// How many terminals there are.
    pub fn len(&self) -> (n: usize)
        ensures
            n == self@.len(),
    {
        self.terminals.len()
    }

    fn ids(&self) -> (ids: Vec<String>)
        ensures
            ids@.len() == self@.len(),
            forall|s: Seq<char>| ident::holds(ids@, s) <==> directory::has_id(keys(self@), s),
    {
        let mut ids: Vec<String> = Vec::new();
        let mut i: usize = 0;
        while i < self.terminals.len()
            invariant
                i <= self.terminals@.len(),
                ids@.len() == i,
                forall|j: int| 0 <= j < i ==> (#[trigger] ids@[j])@ == keys(self@)[j].id,
            decreases self.terminals@.len() - i,
        {
            ids.push(self.terminals[i].id.clone());
            i += 1;
        }
        proof {
            let all = keys(self@);
            assert forall|s: Seq<char>| ident::holds(ids@, s) <==> directory::has_id(all, s) by {
                if ident::holds(ids@, s) {
                    let j = choose|j: int| 0 <= j < ids@.len() && (#[trigger] ids@[j])@ == s;
                    assert(all[j].id == s);
                }
                if directory::has_id(all, s) {
                    let j = choose|j: int| 0 <= j < all.len() && (#[trigger] all[j]).id == s;
                    assert(ids@[j]@ == s);
                }
            }
        }
        ids
    }

    fn index_of(&self, id_or_name: &str) -> (index: Option<usize>)
        requires
            self.well_formed(),
        ensures
            index matches Some(i) ==> i < self@.len() && found(self@, id_or_name@) == Some(
                i as int,
            ),
            index is None ==> found(self@, id_or_name@) is None,
    {
        let ghost all = keys(self@);
        let mut i: usize = 0;
        while i < self.terminals.len()
            invariant
                self.well_formed(),
                all == keys(self@),
                i <= self.terminals@.len(),
                forall|j: int| 0 <= j < i ==> (#[trigger] all[j]).id != id_or_name@,
            decreases self.terminals@.len() - i,
        {
            if text::same_text(self.terminals[i].id.as_str(), id_or_name) {
                proof {
                    assert(all[i as int].id == id_or_name@);
                    directory::id_index_is(all, i as int);
                }
                return Some(i);
            }
            i += 1;
        }
        proof {
            assert(!directory::has_id(all, id_or_name@));
        }
        let mut i: usize = 0;
        while i < self.terminals.len()
            invariant
                all == keys(self@),
                i <= self.terminals@.len(),
                !directory::has_id(all, id_or_name@),
                forall|j: int| 0 <= j < i ==> (#[trigger] all[j]).name != Some(id_or_name@),
            decreases self.terminals@.len() - i,
        {
            if text::is_text(&self.terminals[i].name, id_or_name) {
                proof {
                    assert(directory::is_first_named(all, id_or_name@, i as int));
                    directory::name_index_is(all, id_or_name@, i as int);
                }
                return Some(i);
            }
            i += 1;
        }
        proof {
            directory::unresolved_is_absent(all, id_or_name@);
            assert(directory::resolved(all, id_or_name@) is None);
        }
        None
    }

    /// Adds a terminal under a new id, given what became of starting its
    /// pseudo-terminal. Where that failed nothing is added.
    pub fn create(&mut self, name: Option<String>, spawned: Result<P>, created_at: String) -> (id:
        Result<String>)
        requires
            old(self).well_formed(),
            old(self)@.len() < ident::SHORT_IDS,
        ensures
            final(self).well_formed(),
            spawned matches Err(error) ==> id == Err::<String, KexshError>(error) && final(self)@
                == old(self)@,
            spawned matches Ok(pty) ==> id matches Ok(id) && ident::is_short_id(id@)
                && !directory::has_id(keys(old(self)@), id@) && final(self)@ == old(self)@.push(
                TerminalRecord {
                    id: id@,
                    name: text::opt_content(name),
                    pty,
                    created_at: created_at@,
                },
            ),
    {
        let pty = match spawned {
            Ok(pty) => pty,
            Err(error) => return Err(error),
        };
        let id = ident::fresh_id(&self.ids());
        let terminal = Terminal { id: id.clone(), name, pty, created_at };
        let ghost record = terminal@;
        self.terminals.push(terminal);
        proof {
            directory::added_entry_is_found(keys(old(self)@), record.key());
            assert(final(self)@ =~= old(self)@.push(record));
            assert(keys(final(self)@) =~= keys(old(self)@).push(record.key()));
        }
        Ok(id)
    }

    /// Takes a terminal out of the registry, so that its pseudo-terminal can be killed.
    pub fn kill(&mut self, id_or_name: &str) -> (killed: Result<Terminal<P>>)
        requires
            old(self).well_formed(),
        ensures
            final(self).well_formed(),
            match found(old(self)@, id_or_name@) {
                Some(i) => killed matches Ok(t) && t@ == old(self)@[i] && final(self)@ == old(self)@.remove(i),
                None => killed matches Err(error) && error@ == ErrorView::Server(
                    not_found_text(id_or_name@),
                ) && final(self)@ == old(self)@,
            },
    {
        match self.index_of(id_or_name) {
            Some(i) => {
                let terminal = self.terminals.remove(i);
                proof {
                    directory::removed_entry_is_gone(keys(old(self)@), i as int);
                    assert(final(self)@ =~= old(self)@.remove(i as int));
                    assert(keys(final(self)@) =~= keys(old(self)@).remove(i as int));
                }
                Ok(terminal)
            },
            None => Err(KexshError::Server(not_found(id_or_name))),
        }
    }

    /// Takes every terminal out of the registry.
    pub fn kill_all(&mut self) -> (killed: Vec<Terminal<P>>)
        ensures
            final(self)@ == Seq::<TerminalRecord<P>>::empty(),
            final(self).well_formed(),
            records(killed@) == old(self)@,
    {
        let mut killed: Vec<Terminal<P>> = Vec::new();
        killed.append(&mut self.terminals);
        proof {
            assert(final(self)@ =~= Seq::<TerminalRecord<P>>::empty());
            assert(records(killed@) =~= old(self)@);
        }
        killed
    }

    /// What a listing says of every terminal, oldest first.
    pub fn list(&self) -> (infos: Vec<TerminalInfo>)
        ensures
            message::terminal_listing(infos@) == self::infos(self@),
    {
        let mut infos: Vec<TerminalInfo> = Vec::new();
        let mut i: usize = 0;
        while i < self.terminals.len()
            invariant
                i <= self.terminals@.len(),
                infos@.len() == i,
                forall|j: int| 0 <= j < i ==> (#[trigger] infos@[j])@ == self@[j].info(),
            decreases self.terminals@.len() - i,
        {
            let t = &self.terminals[i];
            infos.push(
                TerminalInfo {
                    id: t.id.clone(),
                    name: text::copy_opt(&t.name),
                    created_at: t.created_at.clone(),
                },
            );
            i += 1;
        }
        proof {
            assert(message::terminal_listing(infos@) =~= self::infos(self@));
        }
        infos
    }

    /// The terminal that `id_or_name` stands for.
    pub fn get(&self, id_or_name: &str) -> (terminal: Option<&Terminal<P>>)
        requires
            self.well_formed(),
        ensures
            match found(self@, id_or_name@) {
                Some(i) => terminal matches Some(t) && t@ == self@[i],
                None => terminal is None,
            },
    {
        match self.index_of(id_or_name) {
            Some(i) => Some(&self.terminals[i]),
            None => None,
        }
    }

    /// The id of the terminal that `id_or_name` stands for.
    pub fn resolve_id(&self, id_or_name: &str) -> (id: Option<String>)
        requires
            self.well_formed(),
        ensures
            match found(self@, id_or_name@) {
                Some(i) => id matches Some(id) && id@ == self@[i].id,
                None => id is None,
            },
    {
        match self.index_of(id_or_name) {
            Some(i) => Some(self.terminals[i].id.clone()),
            None => None,
        }
    }
}

/// A new terminal is found by its id, and by its name where that stood for nothing
/// before.
pub proof fn created_terminal_is_found<P>(before: Seq<TerminalRecord<P>>, new: TerminalRecord<P>)
    requires
        directory::well_formed(keys(before)),
        ident::is_short_id(new.id),
        !directory::has_id(keys(before), new.id),
    ensures
        found(before.push(new), new.id) == Some(before.len() as int),
        new.name matches Some(name) ==> found(before, name) is None ==> found(
            before.push(new),
            name,
        ) == Some(before.len() as int),
{
    directory::added_entry_is_found(keys(before), new.key());
    assert(keys(before.push(new)) =~= keys(before).push(new.key()));
}

/// Creating a terminal takes nothing away: what was found before is found after, unless
/// the new id is the very text it was found by.
pub proof fn create_keeps_the_others<P>(
    before: Seq<TerminalRecord<P>>,
    new: TerminalRecord<P>,
    id_or_name: Seq<char>,
)
    requires
        directory::well_formed(keys(before)),
        ident::is_short_id(new.id),
        !directory::has_id(keys(before), new.id),
        found(before, id_or_name) is Some,
        id_or_name != new.id,
    ensures
        found(before.push(new), id_or_name) == found(before, id_or_name),
{
    directory::older_entries_stay(keys(before), new.key(), id_or_name);
    assert(keys(before.push(new)) =~= keys(before).push(new.key()));
}

/// After a terminal is killed no terminal has its id, and every other terminal is still
/// found by its own id.
pub proof fn killed_terminal_is_gone<P>(before: Seq<TerminalRecord<P>>, id_or_name: Seq<char>)
    requires
        directory::well_formed(keys(before)),
        found(before, id_or_name) is Some,
    ensures
        ({
            let i = found(before, id_or_name)->0;
            let after = before.remove(i);
            &&& !directory::has_id(keys(after), before[i].id)
            &&& forall|j: int|
                0 <= j < before.len() && j != i ==> (found(
                    after,
                    (#[trigger] before[j]).id,
                ) matches Some(k) && after[k] == before[j])
        }),
{
    let i = found(before, id_or_name)->0;
    let after = before.remove(i);
    directory::resolved_is_there(keys(before), id_or_name);
    directory::removed_entry_is_gone(keys(before), i);
    assert(keys(after) =~= keys(before).remove(i));
    assert forall|j: int| 0 <= j < before.len() && j != i implies (found(
        after,
        (#[trigger] before[j]).id,
    ) matches Some(k) && after[k] == before[j]) by {
        assert(keys(before)[j].id == before[j].id);
    }
}

/// What an id or a name stands for: the terminal that has it as its id, or else the oldest
/// that has it as its name, or else nothing.
pub proof fn what_stands_for_a_terminal<P>(records: Seq<TerminalRecord<P>>, asked: Seq<char>)
    requires
        directory::well_formed(keys(records)),
    ensures
        match found(records, asked) {
            Some(i) => {
                &&& 0 <= i < records.len()
                &&& records[i].id == asked || {
                    &&& records[i].name == Some(asked)
                    &&& forall|j: int| 0 <= j < records.len() ==> (#[trigger] records[j]).id != asked
                    &&& forall|j: int|
                        0 <= j < i ==> (#[trigger] records[j]).name != Some(asked)
                }
            },
            None => forall|j: int|
                0 <= j < records.len() ==> (#[trigger] records[j]).id != asked
                    && records[j].name != Some(asked),
        },
{
    let all = keys(records);
    assert forall|j: int| 0 <= j < records.len() implies (#[trigger] records[j]).id == all[j].id
        && records[j].name == all[j].name by {}
    directory::what_is_resolved(all, asked);
}

/// A list of terminals says of each its id, its name and when it was created, oldest first.
pub proof fn listing_says_of_each_terminal<P>(records: Seq<TerminalRecord<P>>, i: int)
    ensures
        infos(records).len() == records.len(),
        0 <= i < records.len() ==> infos(records)[i].id == records[i].id && infos(records)[i].name
            == records[i].name && infos(records)[i].created_at == records[i].created_at,
{
}

/// A terminal counts by its id, its name, its pseudo-terminal and when it was created, and a
/// list of terminals by its entries, one by one.
pub proof fn terminals_by_content<P>(terminals: Seq<Terminal<P>>, i: int)
    ensures
        records(terminals).len() == terminals.len(),
        0 <= i < terminals.len() ==> {
            &&& records(terminals)[i].id == terminals[i].id@
            &&& records(terminals)[i].name == text::opt_content(terminals[i].name)
            &&& records(terminals)[i].pty == terminals[i].pty
            &&& records(terminals)[i].created_at == terminals[i].created_at@
        },
{
}

} // verus!
