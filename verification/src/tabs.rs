//! The tabs of a window: their order, the active one, the most recently used order, and the
//! switcher that walks it.

use vstd::prelude::*;

use crate::lists::{lemma_filter_holds, lemma_filter_take, wrapped_index};
use crate::model::{
    ConnectionSettings, ConnectionState, DisconnectReason, EntryPath, FileSortField, Listing,
    ProfileId, RestoredTabTarget, SessionId, SortDirection, SortSpec, TabId,
};
use crate::nav::PathHistory;

verus! {

/// One tab: a connection and the two panes.
#[derive(PartialEq, Eq, Debug)]
pub struct TabState {
    pub id: TabId,
    pub title: String,
    pub profile_id: Option<ProfileId>,
    pub connection: ConnectionState,
    pub session_epoch: u64,
    pub local: Listing,
    pub remote: Listing,
    pub selected_paths: Vec<EntryPath>,
    pub sort: SortSpec,
    pub connection_settings: Option<ConnectionSettings>,
    pub restored_target: Option<RestoredTabTarget>,
    pub local_history: PathHistory,
    pub remote_history: PathHistory,
}

impl TabState {
    /// A tab that was never connected.
    pub fn new(id: TabId, title: String) -> (r: Self)
        ensures
            r.id == id,
            r.title == title,
            r.is_blank(),
            r.local.path is None,
            r.remote.path is None,
            r.profile_id is None,
            r.restored_target is None,
    {
        TabState {
            id,
            title,
            profile_id: None,
            connection: ConnectionState::Empty,
            session_epoch: 0,
            local: Listing::empty(),
            remote: Listing::empty(),
            selected_paths: Vec::new(),
            sort: SortSpec { field: FileSortField::Name, direction: SortDirection::Ascending },
            connection_settings: None,
            restored_target: None,
            local_history: PathHistory::new(),
            remote_history: PathHistory::new(),
        }
    }

    /// Nothing has happened in the tab yet: no connection, no listing, no selection, no history.
    pub open spec fn is_blank(&self) -> bool {
        &&& self.connection is Empty
        &&& self.session_epoch == 0
        &&& self.local.entries@.len() == 0
        &&& !self.local.is_refreshing
        &&& self.local.error is None
        &&& self.remote.entries@.len() == 0
        &&& !self.remote.is_refreshing
        &&& self.remote.error is None
        &&& self.selected_paths@.len() == 0
        &&& self.sort.field is Name
        &&& self.sort.direction is Ascending
        &&& self.connection_settings is None
        &&& self.local_history.past().len() == 0
        &&& self.local_history.ahead().len() == 0
        &&& self.remote_history.past().len() == 0
        &&& self.remote_history.ahead().len() == 0
    }

    /// A first connection attempt begins, under the next epoch.
    pub fn begin_connect(&mut self, session_id: SessionId)
        requires
            old(self).session_epoch < u64::MAX,
        ensures
            *final(self) == (TabState {
                session_epoch: (old(self).session_epoch + 1) as u64,
                connection: ConnectionState::Connecting {
                    session_id,
                    session_epoch: (old(self).session_epoch + 1) as u64,
                },
                ..*old(self)
            }),
    {
        self.session_epoch = self.session_epoch + 1;
        self.connection = ConnectionState::Connecting {
            session_id,
            session_epoch: self.session_epoch,
        };
    }

    /// An attempt to replace a live connection begins, under the next epoch.
    pub fn begin_reconnect(&mut self, session_id: SessionId)
        requires
            old(self).session_epoch < u64::MAX,
        ensures
            *final(self) == (TabState {
                session_epoch: (old(self).session_epoch + 1) as u64,
                connection: ConnectionState::Reconnecting {
                    session_id,
                    session_epoch: (old(self).session_epoch + 1) as u64,
                },
                ..*old(self)
            }),
    {
        self.session_epoch = self.session_epoch + 1;
        self.connection = ConnectionState::Reconnecting {
            session_id,
            session_epoch: self.session_epoch,
        };
    }

    /// The connection is up.
    pub fn complete_connect(&mut self, session_id: SessionId)
        ensures
            *final(self) == (TabState {
                connection: ConnectionState::Connected {
                    session_id,
                    session_epoch: old(self).session_epoch,
                },
                ..*old(self)
            }),
    {
        self.connection = ConnectionState::Connected {
            session_id,
            session_epoch: self.session_epoch,
        };
    }

    /// The connection is gone.
    pub fn disconnect(&mut self, reason: DisconnectReason)
        ensures
            *final(self) == (TabState {
                connection: ConnectionState::Disconnected { reason },
                ..*old(self)
            }),
    {
        self.connection = ConnectionState::Disconnected { reason };
    }
}

/// The first position of a tab with the given id; the length of the list where there is none.
pub open spec fn tab_index(tabs: Seq<TabState>, id: TabId) -> int
    decreases tabs.len(),
{
    if tabs.len() == 0 || tabs[0].id == id {
        0
    } else {
        1 + tab_index(tabs.drop_first(), id)
    }
}

/// A tab has the given id.
pub open spec fn has_tab(tabs: Seq<TabState>, id: TabId) -> bool {
    tab_index(tabs, id) < tabs.len()
}

/// What the position of a tab says.
pub proof fn lemma_tab_index(tabs: Seq<TabState>, id: TabId)
    ensures
        0 <= tab_index(tabs, id) <= tabs.len(),
        has_tab(tabs, id) ==> tabs[tab_index(tabs, id)].id == id,
        forall|j: int| 0 <= j < tab_index(tabs, id) ==> (#[trigger] tabs[j]).id != id,
    decreases tabs.len(),
{
    if tabs.len() > 0 && tabs[0].id != id {
        lemma_tab_index(tabs.drop_first(), id);
        assert forall|j: int| 0 <= j < tab_index(tabs, id) implies (#[trigger] tabs[j]).id
            != id by {
            if j > 0 {
                assert(tabs.drop_first()[j - 1] == tabs[j]);
            }
        }
    }
}

/// A position with the given id that no earlier one has is the position of the tab.
pub proof fn lemma_tab_index_is(tabs: Seq<TabState>, id: TabId, i: int)
    requires
        0 <= i <= tabs.len(),
        i < tabs.len() ==> tabs[i].id == id,
        forall|j: int| 0 <= j < i ==> (#[trigger] tabs[j]).id != id,
    ensures
        tab_index(tabs, id) == i,
{
    lemma_tab_index(tabs, id);
    if tab_index(tabs, id) < i {
        assert(tabs[tab_index(tabs, id)].id == id);
    }
}

/// No two tabs have the same id.
pub open spec fn distinct_tabs(tabs: Seq<TabState>) -> bool {
    forall|i: int, j: int|
        0 <= i < j < tabs.len() ==> (#[trigger] tabs[i]).id != (#[trigger] tabs[j]).id
}

/// Every id but the given one.
pub open spec fn other_than(id: TabId) -> spec_fn(TabId) -> bool {
    |x: TabId| x != id
}

/// The most recently used order after a use of `id`.
pub open spec fn touched(mru: Seq<TabId>, id: TabId) -> Seq<TabId> {
    seq![id] + mru.filter(other_than(id))
}

/// The tabs of a window.
#[derive(PartialEq, Eq, Debug)]
pub struct TabStore {
    /// In the order in which they were opened.
    pub tabs: Vec<TabState>,
    pub active_tab_id: Option<TabId>,
    /// The most recently used first.
    pub mru: Vec<TabId>,
    pub switcher_open: bool,
    pub switcher_index: usize,
}

impl TabStore {
    /// Ids are distinct; the order of use holds each tab once, the active one first; and the
    /// switcher points into that order.
    pub open spec fn wf(&self) -> bool {
        &&& distinct_tabs(self.tabs@)
        &&& self.mru@.no_duplicates()
        &&& forall|id: TabId| #[trigger] self.mru@.contains(id) <==> has_tab(self.tabs@, id)
        &&& self.active_tab_id == if self.mru@.len() > 0 {
            Some(self.mru@[0])
        } else {
            None
        }
        &&& self.switcher_open ==> self.switcher_index < self.mru@.len()
        &&& !self.switcher_open ==> self.switcher_index == 0
    }

    /// The position of the active tab; the number of tabs where none is active.
    pub open spec fn active_index(&self) -> int {
        match self.active_tab_id {
            Some(id) => tab_index(self.tabs@, id),
            None => self.tabs@.len() as int,
        }
    }

    /// The active tab.
    pub open spec fn active(&self) -> Option<TabState> {
        if self.active_index() < self.tabs@.len() {
            Some(self.tabs@[self.active_index()])
        } else {
            None
        }
    }

    pub fn new() -> (r: Self)
        ensures
            r.wf(),
            r.tabs@.len() == 0,
            !r.switcher_open,
    {
        let r = TabStore {
            tabs: Vec::new(),
            active_tab_id: None,
            mru: Vec::new(),
            switcher_open: false,
            switcher_index: 0,
        };
        assert forall|id: TabId| #[trigger] r.mru@.contains(id) <==> has_tab(r.tabs@, id) by {
            lemma_tab_index(r.tabs@, id);
        }
        r
    }

    /// The position of the tab with the given id.
    pub fn position(&self, id: TabId) -> (r: Option<usize>)
        ensures
            r is Some <==> has_tab(self.tabs@, id),
            r is Some ==> r->0 == tab_index(self.tabs@, id) && self.tabs@[r->0 as int].id == id,
    {
        proof {
            lemma_tab_index(self.tabs@, id);
        }
        let mut i: usize = 0;
        while i < self.tabs.len()
            invariant
                i <= self.tabs@.len(),
                forall|j: int| 0 <= j < i ==> (#[trigger] self.tabs@[j]).id != id,
            decreases self.tabs@.len() - i,
        {
            if self.tabs[i].id == id {
                proof {
                    lemma_tab_index_is(self.tabs@, id, i as int);
                }
                return Some(i);
            }
            i += 1;
        }
        proof {
            lemma_tab_index_is(self.tabs@, id, i as int);
        }
        None
    }

    /// The position of the active tab.
    pub fn active_position(&self) -> (r: Option<usize>)
        ensures
            r is Some <==> self.active() is Some,
            r is Some ==> r->0 == self.active_index() && r->0 < self.tabs@.len(),
    {
        proof {
            if self.active_tab_id is Some {
                lemma_tab_index(self.tabs@, self.active_tab_id->0);
            }
        }
        match self.active_tab_id {
            Some(id) => self.position(id),
            None => None,
        }
    }

    /// Puts a tab at the front of the order of use.
    pub fn touch_mru(&mut self, id: TabId)
        ensures
            *final(self) == (TabStore { mru: final(self).mru, ..*old(self) }),
            final(self).mru@ == touched(old(self).mru@, id),
    {
        let kept = without(&self.mru, id);
        let mut order: Vec<TabId> = Vec::new();
        order.push(id);
        let mut i: usize = 0;
        while i < kept.len()
            invariant
                i <= kept@.len(),
                order@ == seq![id] + kept@.take(i as int),
            decreases kept@.len() - i,
        {
            order.push(kept[i]);
            i += 1;
        }
        assert(kept@.take(i as int) =~= kept@);
        self.mru = order;
    }
}

/// A tab has the given id exactly where one of the list has it.
pub proof fn lemma_has_tab(tabs: Seq<TabState>, id: TabId)
    ensures
        has_tab(tabs, id) <==> exists|j: int| 0 <= j < tabs.len() && (#[trigger] tabs[j]).id == id,
{
    lemma_tab_index(tabs, id);
    if exists|j: int| 0 <= j < tabs.len() && (#[trigger] tabs[j]).id == id {
        let j = choose|j: int| 0 <= j < tabs.len() && (#[trigger] tabs[j]).id == id;
        if !has_tab(tabs, id) {
            assert(tabs[j].id != id);
        }
    } else if has_tab(tabs, id) {
        assert(tabs[tab_index(tabs, id)].id == id);
    }
}

proof fn lemma_push_tab(tabs: Seq<TabState>, tab: TabState)
    requires
        distinct_tabs(tabs),
        !has_tab(tabs, tab.id),
    ensures
        distinct_tabs(tabs.push(tab)),
        forall|id: TabId| #[trigger]
            has_tab(tabs.push(tab), id) <==> id == tab.id || has_tab(tabs, id),
        tab_index(tabs.push(tab), tab.id) == tabs.len(),
{
    let all = tabs.push(tab);
    lemma_has_tab(tabs, tab.id);
    assert forall|i: int, j: int| 0 <= i < j < all.len() implies (#[trigger] all[i]).id != (
    #[trigger] all[j]).id by {
        if j == tabs.len() {
            assert(tabs[i].id != tab.id);
        } else {
            assert(tabs[i].id != tabs[j].id);
        }
    }
    assert forall|id: TabId| #[trigger] has_tab(all, id) <==> id == tab.id || has_tab(tabs, id) by {
        lemma_has_tab(all, id);
        lemma_has_tab(tabs, id);
        if has_tab(all, id) && id != tab.id {
            let k = choose|k: int| 0 <= k < all.len() && (#[trigger] all[k]).id == id;
            assert(tabs[k].id == id);
        }
        if has_tab(tabs, id) {
            let k = choose|k: int| 0 <= k < tabs.len() && (#[trigger] tabs[k]).id == id;
            assert(all[k].id == id);
        }
        assert(all[tabs.len() as int].id == tab.id);
    }
    assert forall|j: int| 0 <= j < tabs.len() implies (#[trigger] all[j]).id != tab.id by {
        assert(tabs[j].id != tab.id);
    }
    lemma_tab_index_is(all, tab.id, tabs.len() as int);
}

proof fn lemma_remove_tab(tabs: Seq<TabState>, i: int)
    requires
        distinct_tabs(tabs),
        0 <= i < tabs.len(),
    ensures
        distinct_tabs(tabs.remove(i)),
        forall|id: TabId| #[trigger]
            has_tab(tabs.remove(i), id) <==> id != tabs[i].id && has_tab(tabs, id),
{
    let all = tabs.remove(i);
    assert forall|a: int, b: int| 0 <= a < b < all.len() implies (#[trigger] all[a]).id != (
    #[trigger] all[b]).id by {
        let x = if a < i {
            a
        } else {
            a + 1
        };
        let y = if b < i {
            b
        } else {
            b + 1
        };
        assert(tabs[x].id != tabs[y].id);
    }
    assert forall|id: TabId| #[trigger] has_tab(all, id) <==> id != tabs[i].id && has_tab(
        tabs,
        id,
    ) by {
        lemma_has_tab(all, id);
        lemma_has_tab(tabs, id);
        if has_tab(all, id) {
            let k = choose|k: int| 0 <= k < all.len() && (#[trigger] all[k]).id == id;
            if k < i {
                assert(tabs[k].id == id);
                assert(tabs[k].id != tabs[i].id);
            } else {
                assert(tabs[k + 1].id == id);
                assert(tabs[i].id != tabs[k + 1].id);
            }
        }
        if id != tabs[i].id && has_tab(tabs, id) {
            let k = choose|k: int| 0 <= k < tabs.len() && (#[trigger] tabs[k]).id == id;
            if k < i {
                assert(all[k].id == id);
            } else {
                assert(all[k - 1].id == id);
            }
        }
    }
}

/// Changing a tab but not its id keeps the positions of all tabs.
pub proof fn lemma_update_tab(tabs: Seq<TabState>, i: int, tab: TabState)
    requires
        0 <= i < tabs.len(),
        tab.id == tabs[i].id,
    ensures
        distinct_tabs(tabs) ==> distinct_tabs(tabs.update(i, tab)),
        forall|id: TabId| #[trigger] tab_index(tabs.update(i, tab), id) == tab_index(tabs, id),
{
    let all = tabs.update(i, tab);
    if distinct_tabs(tabs) {
        assert forall|a: int, b: int| 0 <= a < b < all.len() implies (#[trigger] all[a]).id != (
        #[trigger] all[b]).id by {
            assert(tabs[a].id != tabs[b].id);
        }
    }
    assert forall|id: TabId| #[trigger] tab_index(all, id) == tab_index(tabs, id) by {
        lemma_tab_index(tabs, id);
        let k = tab_index(tabs, id);
        assert forall|j: int| 0 <= j < k implies (#[trigger] all[j]).id != id by {
            assert(tabs[j].id != id);
        }
        lemma_tab_index_is(all, id, k);
    }
}

/// A store whose tabs changed in one place, but for the id, is still in order.
pub proof fn lemma_store_with_tab(before: TabStore, after: TabStore, i: int)
    requires
        before.wf(),
        tab_changed(before, after, i),
    ensures
        after.wf(),
        after.active_index() == before.active_index(),
        forall|id: TabId| #[trigger] tab_index(after.tabs@, id) == tab_index(before.tabs@, id),
{
    lemma_update_tab(before.tabs@, i, after.tabs@[i]);
    assert forall|id: TabId| #[trigger] after.mru@.contains(id) <==> has_tab(after.tabs@, id) by {
        assert(tab_index(after.tabs@, id) == tab_index(before.tabs@, id));
        assert(before.mru@.contains(id) <==> has_tab(before.tabs@, id));
    }
    if before.active_tab_id is Some {
        assert(tab_index(after.tabs@, before.active_tab_id->0) == tab_index(
            before.tabs@,
            before.active_tab_id->0,
        ));
    }
}

/// The tab that is active once the tab at `i` is gone: the active one, or, where that is the one
/// that goes, the one that takes its position, or else the last.
pub open spec fn active_without(tabs: Seq<TabState>, active: Option<TabId>, i: int) -> Option<
    TabId,
> {
    let rest = tabs.remove(i);
    if active != Some(tabs[i].id) {
        active
    } else if rest.len() == 0 {
        None
    } else if i < rest.len() {
        Some(rest[i].id)
    } else {
        Some(rest.last().id)
    }
}

/// The order of use once the tab `id` is gone and `active` is the active one.
pub open spec fn mru_without(mru: Seq<TabId>, id: TabId, active: Option<TabId>) -> Seq<TabId> {
    match active {
        Some(active) => touched(mru.filter(other_than(id)), active),
        None => mru.filter(other_than(id)),
    }
}

/// The tab `id` is gone from the store: where it was the active one another took its place, and
/// the order of use and the switcher followed.
pub open spec fn tab_closed(before: TabStore, after: TabStore, id: TabId) -> bool {
    let i = tab_index(before.tabs@, id);
    &&& after.tabs@ == before.tabs@.remove(i)
    &&& after.active_tab_id == active_without(before.tabs@, before.active_tab_id, i)
    &&& after.mru@ == mru_without(before.mru@, id, after.active_tab_id)
    &&& after.switcher_open == (before.switcher_open && after.tabs@.len() > 0)
    &&& after.switcher_index == if !after.switcher_open {
        0
    } else if before.switcher_index >= after.mru@.len() {
        after.mru@.len() - 1
    } else {
        before.switcher_index as int
    }
}

/// The tab `id` became the active one, and the switcher closed.
pub open spec fn tab_activated(before: TabStore, after: TabStore, id: TabId) -> bool {
    &&& after == (TabStore {
        active_tab_id: Some(id),
        mru: after.mru,
        switcher_open: false,
        switcher_index: 0,
        ..before
    })
    &&& after.mru@ == touched(before.mru@, id)
}

/// One tab of the store changed, but not its id, and nothing else did.
pub open spec fn tab_changed(before: TabStore, after: TabStore, i: int) -> bool {
    &&& 0 <= i < before.tabs@.len()
    &&& after == (TabStore { tabs: after.tabs, ..before })
    &&& after.tabs@ == before.tabs@.update(i, after.tabs@[i])
    &&& after.tabs@[i].id == before.tabs@[i].id
}

impl TabStore {
    /// Adds a tab behind the others and makes it the active one.
    pub fn open_tab(&mut self, tab: TabState)
        requires
            old(self).wf(),
            !has_tab(old(self).tabs@, tab.id),
        ensures
            final(self).wf(),
            final(self).tabs@ == old(self).tabs@.push(tab),
            final(self).active_tab_id == Some(tab.id),
            final(self).active() == Some(tab),
            final(self).mru@ == touched(old(self).mru@, tab.id),
            final(self).switcher_open == old(self).switcher_open,
            final(self).switcher_index == old(self).switcher_index,
    {
        let id = tab.id;
        proof {
            lemma_push_tab(self.tabs@, tab);
            law_touched_order(self.mru@, id);
            assert(!self.mru@.contains(id));
            lemma_filter_all(self.mru@, id);
        }
        self.tabs.push(tab);
        self.active_tab_id = Some(id);
        self.touch_mru(id);
    }

    /// Removes a tab. Where it was the active one, the tab after it takes its place, or the last
    /// one where it was the last itself: a rule chosen here. The order of use and the switcher
    /// follow. Says whether there was such a tab.
    pub fn close_tab(&mut self, id: TabId) -> (r: bool)
        requires
            old(self).wf(),
        ensures
            final(self).wf(),
            r == has_tab(old(self).tabs@, id),
            !r ==> *final(self) == *old(self),
            r ==> tab_closed(*old(self), *final(self), id),
    {
        let i: usize = match self.position(id) {
            Some(i) => i,
            None => return false,
        };
        proof {
            lemma_remove_tab(self.tabs@, i as int);
            lemma_filter_holds(self.mru@, other_than(id));
            lemma_active_exists(*self);
        }
        let ghost before = *self;
        let _ = self.tabs.remove(i);
        let count: usize = self.tabs.len();
        if self.active_tab_id == Some(id) {
            self.active_tab_id = if count == 0 {
                None
            } else if i < count {
                Some(self.tabs[i].id)
            } else {
                Some(self.tabs[count - 1].id)
            };
        }
        self.mru = without(&self.mru, id);
        let ghost kept = self.mru@;
        proof {
            if self.active_tab_id is Some {
                lemma_has_tab(self.tabs@, self.active_tab_id->0);
                assert(before.active_tab_id == Some(before.mru@[0]));
                assert(before.mru@.contains(before.mru@[0]));
                assert(has_tab(self.tabs@, self.active_tab_id->0));
                law_touched_order(kept, self.active_tab_id->0);
            }
        }
        if let Some(active) = self.active_tab_id {
            self.touch_mru(active);
        }
        proof {
            assert forall|x: TabId| #[trigger] self.mru@.contains(x) <==> has_tab(self.tabs@, x) by {
                assert(kept.contains(x) <==> before.mru@.contains(x) && x != id);
            }
            if self.active_tab_id is None {
                assert(before.active_tab_id is Some);
                assert(self.tabs@.len() == 0);
                if self.mru@.len() > 0 {
                    assert(self.mru@.contains(self.mru@[0]));
                    lemma_tab_index(self.tabs@, self.mru@[0]);
                }
            } else {
                lemma_tab_index(self.tabs@, self.active_tab_id->0);
            }
        }
        if self.switcher_open {
            if self.mru.len() == 0 {
                self.switcher_open = false;
                self.switcher_index = 0;
            } else if self.switcher_index >= self.mru.len() {
                self.switcher_index = self.mru.len() - 1;
            }
        }
        true
    }

    /// Makes a tab the active one and closes the switcher. Says whether there is such a tab.
    pub fn activate_tab(&mut self, id: TabId) -> (r: bool)
        requires
            old(self).wf(),
        ensures
            final(self).wf(),
            r == has_tab(old(self).tabs@, id),
            !r ==> *final(self) == *old(self),
            r ==> tab_activated(*old(self), *final(self), id),
    {
        if self.position(id).is_none() {
            return false;
        }
        proof {
            law_touched_order(self.mru@, id);
        }
        self.active_tab_id = Some(id);
        self.touch_mru(id);
        if self.switcher_open {
            self.switcher_open = false;
            self.switcher_index = 0;
        }
        true
    }

    /// Makes the tab `offset` positions from the active one active, round the ends, in the order
    /// in which tabs were opened.
    pub fn activate_tab_in_direction(&mut self, offset: isize) -> (r: bool)
        requires
            old(self).wf(),
        ensures
            final(self).wf(),
            r == (old(self).tabs@.len() > 0),
            !r ==> *final(self) == *old(self),
            r ==> tab_activated(
                *old(self),
                *final(self),
                old(self).tabs@[(old(self).active_index() + offset) % (
                old(self).tabs@.len() as int)].id,
            ),
    {
        if self.tabs.len() == 0 {
            return false;
        }
        proof {
            lemma_active_exists(*self);
        }
        let current: usize = match self.active_position() {
            Some(i) => i,
            None => 0,
        };
        let next: usize = wrapped_index(current, offset, self.tabs.len());
        let id = self.tabs[next].id;
        proof {
            lemma_has_tab(self.tabs@, id);
        }
        self.activate_tab(id)
    }

    /// The switcher opens on the tab used before the active one, or moves on by one, round the
    /// end.
    pub fn tab_switcher_next(&mut self) -> (r: bool)
        requires
            old(self).wf(),
        ensures
            final(self).wf(),
            r == (old(self).mru@.len() > 0),
            *final(self) == (TabStore {
                switcher_open: old(self).switcher_open || r,
                switcher_index: final(self).switcher_index,
                ..*old(self)
            }),
            final(self).switcher_index == next_switch(
                old(self).switcher_open,
                old(self).switcher_index as int,
                old(self).mru@.len() as int,
            ),
    {
        let count: usize = self.mru.len();
        if count == 0 {
            return false;
        }
        if !self.switcher_open {
            self.switcher_open = true;
            self.switcher_index = if count > 1 {
                1
            } else {
                0
            };
        } else {
            self.switcher_index = wrapped_index(self.switcher_index, 1, count);
        }
        true
    }

    /// The switcher opens on the tab used longest ago, or moves back by one, round the end.
    pub fn tab_switcher_prev(&mut self) -> (r: bool)
        requires
            old(self).wf(),
        ensures
            final(self).wf(),
            r == (old(self).mru@.len() > 0),
            *final(self) == (TabStore {
                switcher_open: old(self).switcher_open || r,
                switcher_index: final(self).switcher_index,
                ..*old(self)
            }),
            final(self).switcher_index == prev_switch(
                old(self).switcher_open,
                old(self).switcher_index as int,
                old(self).mru@.len() as int,
            ),
    {
        let count: usize = self.mru.len();
        if count == 0 {
            return false;
        }
        if !self.switcher_open {
            self.switcher_open = true;
            self.switcher_index = count - 1;
        } else {
            self.switcher_index = wrapped_index(self.switcher_index, -1, count);
        }
        true
    }

    /// The switcher closes and nothing is switched. Says whether it was open.
    pub fn close_tab_switcher(&mut self) -> (r: bool)
        requires
            old(self).wf(),
        ensures
            final(self).wf(),
            r == old(self).switcher_open,
            *final(self) == (TabStore { switcher_open: false, switcher_index: 0, ..*old(self) }),
    {
        let was_open = self.switcher_open;
        self.switcher_open = false;
        self.switcher_index = 0;
        was_open
    }

    /// The switcher closes and the tab that it points at becomes the active one. Says whether it
    /// was open.
    pub fn confirm_tab_switcher(&mut self) -> (r: bool)
        requires
            old(self).wf(),
        ensures
            final(self).wf(),
            r == old(self).switcher_open,
            !r ==> *final(self) == *old(self),
            r ==> tab_activated(
                *old(self),
                *final(self),
                old(self).mru@[old(self).switcher_index as int],
            ),
    {
        if !self.switcher_open {
            return false;
        }
        let id = self.mru[self.switcher_index];
        proof {
            assert(self.mru@.contains(id));
        }
        let _ = self.activate_tab(id);
        true
    }
}

/// Where the switcher points after a step on.
pub open spec fn next_switch(open: bool, index: int, count: int) -> int {
    if count == 0 {
        index
    } else if !open {
        if count > 1 {
            1
        } else {
            0
        }
    } else {
        (index + 1) % count
    }
}

/// Where the switcher points after a step back.
pub open spec fn prev_switch(open: bool, index: int, count: int) -> int {
    if count == 0 {
        index
    } else if !open {
        count - 1
    } else {
        (index - 1) % count
    }
}

/// A list that does not hold the id is itself without it.
pub proof fn lemma_filter_all(mru: Seq<TabId>, id: TabId)
    requires
        !mru.contains(id),
    ensures
        mru.filter(other_than(id)) == mru,
    decreases mru.len(),
{
    reveal(Seq::filter);
    if mru.len() > 0 {
        let front = mru.drop_last();
        assert forall|x: TabId| front.contains(x) implies mru.contains(x) by {
            let k = choose|k: int| 0 <= k < front.len() && front[k] == x;
            assert(mru[k] == x);
        }
        lemma_filter_all(front, id);
        assert(mru[mru.len() - 1] == mru.last());
        assert(front.push(mru.last()) =~= mru);
    }
}

/// A window with tabs has an active one.
pub proof fn lemma_active_exists(store: TabStore)
    requires
        store.wf(),
        store.tabs@.len() > 0,
    ensures
        store.active() is Some,
        store.mru@.len() > 0,
        0 <= store.active_index() < store.tabs@.len(),
{
    let first = store.tabs@[0].id;
    lemma_has_tab(store.tabs@, first);
    assert(store.mru@.contains(first));
    assert(store.mru@.contains(store.mru@[0]));
    lemma_tab_index(store.tabs@, store.mru@[0]);
}

/// The list without the given id.
pub fn without(ids: &Vec<TabId>, id: TabId) -> (r: Vec<TabId>)
    ensures
        r@ == ids@.filter(other_than(id)),
{
    let ghost keep = other_than(id);
    let mut out: Vec<TabId> = Vec::new();
    let mut i: usize = 0;
    assert(ids@.take(0).filter(keep) =~= Seq::<TabId>::empty()) by {
        reveal(Seq::filter);
    }
    while i < ids.len()
        invariant
            i <= ids@.len(),
            keep == other_than(id),
            out@ == ids@.take(i as int).filter(keep),
        decreases ids@.len() - i,
    {
        proof {
            lemma_filter_take(ids@, keep, i as int);
        }
        if ids[i] != id {
            out.push(ids[i]);
        }
        i += 1;
    }
    assert(ids@.take(i as int) =~= ids@);
    out
}

/// Using a tab puts it first, once, and loses none of the others.
pub proof fn law_touched_order(mru: Seq<TabId>, id: TabId)
    ensures
        touched(mru, id)[0] == id,
        mru.no_duplicates() ==> touched(mru, id).no_duplicates(),
        forall|x: TabId| #[trigger] touched(mru, id).contains(x) <==> x == id || mru.contains(x),
{
    let keep = other_than(id);
    let rest = mru.filter(keep);
    lemma_filter_holds(mru, keep);
    let all = touched(mru, id);
    assert forall|x: TabId| #[trigger] all.contains(x) <==> x == id || mru.contains(x) by {
        if all.contains(x) {
            let k = choose|k: int| 0 <= k < all.len() && all[k] == x;
            if k > 0 {
                assert(rest[k - 1] == x);
                assert(rest.contains(x));
            }
        }
        if mru.contains(x) && x != id {
            assert(rest.contains(x));
            let k = choose|k: int| 0 <= k < rest.len() && rest[k] == x;
            assert(all[k + 1] == x);
        }
        assert(all[0] == id);
    }
    if mru.no_duplicates() {
        assert forall|i: int, j: int|
            0 <= i < all.len() && 0 <= j < all.len() && i != j implies all[i] != all[j] by {
            if i > 0 && j > 0 {
                assert(rest[i - 1] != rest[j - 1]);
            } else if i > 0 {
                assert(rest.contains(rest[i - 1]));
            } else {
                assert(rest.contains(rest[j - 1]));
            }
        }
    }
}

}
