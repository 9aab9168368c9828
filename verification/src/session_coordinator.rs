//! The saved session: which windows there are, in which order they are saved, and when.

use std::collections::HashMap;

use vstd::prelude::*;
use vstd::std_specs::iter::IteratorSpec;

use crate::model::{TabId, WindowSessionId};
use crate::tabs::{other_than, without};

verus! {

broadcast use vstd::std_specs::hash::group_hash_axioms;

/// What is saved of a tab.
#[derive(PartialEq, Eq, Debug)]
pub struct SessionTabSnapshot {
    pub title: String,
    pub profile_id: Option<u64>,
    pub host: String,
    pub port: u16,
    pub username: String,
    pub local_path: Option<String>,
    pub remote_path: Option<String>,
}

/// What is saved of a window.
#[derive(PartialEq, Eq, Debug)]
pub struct SessionWindowSnapshot {
    pub id: WindowSessionId,
    pub active_tab_index: usize,
    pub tabs: Vec<SessionTabSnapshot>,
}

/// The saved session.
#[derive(PartialEq, Eq, Debug)]
pub struct SessionFile {
    pub version: u32,
    pub active_window_index: usize,
    pub windows: Vec<SessionWindowSnapshot>,
}

pub const CURRENT_VERSION: u32 = 1;

impl SessionFile {
    pub fn empty() -> (r: Self)
        ensures
            r.version == CURRENT_VERSION,
            r.active_window_index == 0,
            r.windows@.len() == 0,
    {
        SessionFile { version: CURRENT_VERSION, active_window_index: 0, windows: Vec::new() }
    }
}

/// The tabs of a window that the runtime still serves.
#[derive(PartialEq, Eq, Debug)]
pub struct WindowRuntimeSessions {
    pub window_id: WindowSessionId,
    pub tab_ids: Vec<TabId>,
}

/// How a snapshot is to be written.
#[derive(Clone, Copy, PartialEq, Eq, Structural, Debug)]
pub enum SaveAction {
    /// The process is quitting and its last snapshot stands.
    Keep,
    Save,
    /// The file could not be read at the start: it is set aside first.
    RecoverAndSave,
}

/// The owner of the saved session.
#[derive(PartialEq, Eq, Debug)]
pub struct SessionCoordinator {
    pub restore_pending: Option<SessionFile>,
    pub window_order: Vec<WindowSessionId>,
    pub next_window_id: u64,
    pub quitting: bool,
    /// The tabs that the runtime serves, by the number of their window.
    pub runtime_sessions: HashMap<u64, Vec<TabId>>,
}

/// The ids of some windows.
pub open spec fn window_ids(windows: Seq<SessionWindowSnapshot>) -> Seq<WindowSessionId> {
    windows.map_values(|w: SessionWindowSnapshot| w.id)
}

/// The largest id of some windows; zero where there are none.
pub open spec fn largest_window_id(windows: Seq<SessionWindowSnapshot>) -> int
    decreases windows.len(),
{
    if windows.len() == 0 {
        0
    } else if windows.last().id.0 > largest_window_id(windows.drop_last()) {
        windows.last().id.0 as int
    } else {
        largest_window_id(windows.drop_last())
    }
}

/// The number after the given one, held at the largest.
pub open spec fn next_number(n: int) -> int {
    if n < u64::MAX {
        n + 1
    } else {
        u64::MAX as int
    }
}

/// No window has an id above the largest.
pub proof fn lemma_largest_window_id(windows: Seq<SessionWindowSnapshot>, i: int)
    requires
        0 <= i < windows.len(),
    ensures
        windows[i].id.0 <= largest_window_id(windows),
    decreases windows.len(),
{
    if i < windows.len() - 1 {
        lemma_largest_window_id(windows.drop_last(), i);
    }
}

/// The list with those of the other ids that it lacks behind it.
pub open spec fn merged(ids: Seq<TabId>, more: Seq<TabId>) -> Seq<TabId>
    decreases more.len(),
{
    if more.len() == 0 {
        ids
    } else {
        let front = merged(ids, more.drop_last());
        if front.contains(more.last()) {
            front
        } else {
            front.push(more.last())
        }
    }
}

fn holds_tab(ids: &Vec<TabId>, id: TabId) -> (r: bool)
    ensures
        r == ids@.contains(id),
{
    let mut i: usize = 0;
    while i < ids.len()
        invariant
            i <= ids@.len(),
            forall|j: int| 0 <= j < i ==> ids@[j] != id,
        decreases ids@.len() - i,
    {
        if ids[i] == id {
            assert(ids@[i as int] == id);
            return true;
        }
        i += 1;
    }
    false
}

fn holds_window(ids: &Vec<WindowSessionId>, id: WindowSessionId) -> (r: bool)
    ensures
        r == ids@.contains(id),
{
    let mut i: usize = 0;
    while i < ids.len()
        invariant
            i <= ids@.len(),
            forall|j: int| 0 <= j < i ==> ids@[j] != id,
        decreases ids@.len() - i,
    {
        if ids[i] == id {
            assert(ids@[i as int] == id);
            return true;
        }
        i += 1;
    }
    false
}

fn merge_tabs(ids: &Vec<TabId>, more: &Vec<TabId>) -> (r: Vec<TabId>)
    ensures
        r@ == merged(ids@, more@),
{
    let mut out: Vec<TabId> = ids.clone();
    assert(out@ =~= ids@);
    let mut i: usize = 0;
    while i < more.len()
        invariant
            i <= more@.len(),
            out@ == merged(ids@, more@.take(i as int)),
        decreases more@.len() - i,
    {
        assert(more@.take(i + 1).drop_last() =~= more@.take(i as int));
        if !holds_tab(&out, more[i]) {
            out.push(more[i]);
        }
        i += 1;
    }
    assert(more@.take(i as int) =~= more@);
    out
}

fn ids_of(windows: &Vec<SessionWindowSnapshot>) -> (r: Vec<WindowSessionId>)
    ensures
        r@ == window_ids(windows@),
{
    let mut out: Vec<WindowSessionId> = Vec::new();
    let mut i: usize = 0;
    while i < windows.len()
        invariant
            i <= windows@.len(),
            out@ == window_ids(windows@).take(i as int),
        decreases windows@.len() - i,
    {
        out.push(windows[i].id);
        assert(window_ids(windows@).take(i + 1) =~= window_ids(windows@).take(i as int).push(
            windows@[i as int].id,
        ));
        i += 1;
    }
    assert(window_ids(windows@).take(i as int) =~= window_ids(windows@));
    out
}

/// The tabs of closed windows that are let go: of each closed window of which the runtime serves
/// some tabs, those tabs, once.
pub open spec fn lets_go(
    before: SessionCoordinator,
    live: Seq<WindowSessionId>,
    released: Seq<WindowRuntimeSessions>,
) -> bool {
    &&& forall|i: int|
        0 <= i < released.len() ==> {
            let window = #[trigger] released[i];
            &&& !live.contains(window.window_id)
            &&& before.served(window.window_id) == Some(window.tab_ids@)
            &&& window.tab_ids@.len() > 0
        }
    &&& forall|i: int, j: int|
        0 <= i < j < released.len() ==> (#[trigger] released[i]).window_id != (
        #[trigger] released[j]).window_id
    &&& forall|id: WindowSessionId|
        (#[trigger] before.served(id)) is Some && before.served(id)->0.len() > 0
            && !live.contains(id) ==> exists|i: int|
            0 <= i < released.len() && (#[trigger] released[i]).window_id == id
}

/// Of the windows whose tabs the runtime serves, only the live ones are kept.
pub open spec fn keeps_live(
    before: SessionCoordinator,
    after: SessionCoordinator,
    live: Seq<WindowSessionId>,
) -> bool {
    forall|id: WindowSessionId| #[trigger]
        after.served(id) == if live.contains(id) {
            before.served(id)
        } else {
            None
        }
}

impl SessionCoordinator {
    /// The tabs of a window that the runtime still serves.
    pub open spec fn served(&self, id: WindowSessionId) -> Option<Seq<TabId>> {
        if self.runtime_sessions@.contains_key(id.0) {
            Some(self.runtime_sessions@[id.0]@)
        } else {
            None
        }
    }

    /// The coordinator of the session that was read.
    pub fn new(file: SessionFile) -> (r: Self)
        ensures
            r.restore_pending == Some(file),
            r.window_order@.len() == 0,
            r.next_window_id == next_number(largest_window_id(file.windows@)),
            !r.quitting,
            forall|id: WindowSessionId| #[trigger] r.served(id) is None,
    {
        let mut largest: u64 = 0;
        let mut i: usize = 0;
        while i < file.windows.len()
            invariant
                i <= file.windows@.len(),
                largest == largest_window_id(file.windows@.take(i as int)),
            decreases file.windows@.len() - i,
        {
            assert(file.windows@.take(i + 1).drop_last() =~= file.windows@.take(i as int));
            if file.windows[i].id.0 > largest {
                largest = file.windows[i].id.0;
            }
            i += 1;
        }
        assert(file.windows@.take(i as int) =~= file.windows@);
        SessionCoordinator {
            restore_pending: Some(file),
            window_order: Vec::new(),
            next_window_id: if largest < u64::MAX {
                largest + 1
            } else {
                u64::MAX
            },
            quitting: false,
            runtime_sessions: HashMap::new(),
        }
    }

    /// The session to restore, the first time; an empty one from then on.
    pub fn take_restore_session(&mut self) -> (r: SessionFile)
        ensures
            *final(self) == (SessionCoordinator { restore_pending: None, ..*old(self) }),
            old(self).restore_pending is Some ==> r == old(self).restore_pending->0,
            old(self).restore_pending is None ==> r.windows@.len() == 0 && r.active_window_index
                == 0 && r.version == CURRENT_VERSION,
    {
        match self.restore_pending.take() {
            Some(file) => file,
            None => SessionFile::empty(),
        }
    }

    /// An id for a new window.
    pub fn allocate_window_id(&mut self) -> (r: WindowSessionId)
        ensures
            r == WindowSessionId(old(self).next_window_id),
            *final(self) == (SessionCoordinator {
                next_window_id: next_number(old(self).next_window_id as int) as u64,
                ..*old(self)
            }),
    {
        let id = WindowSessionId(self.next_window_id);
        if self.next_window_id < u64::MAX {
            self.next_window_id = self.next_window_id + 1;
        }
        id
    }

    /// The id of a window that opens: the restored one, or a new one.
    pub fn id_for_window(&mut self, restored: Option<WindowSessionId>) -> (r: WindowSessionId)
        ensures
            restored is Some ==> r == restored->0 && *final(self) == *old(self),
            restored is None ==> r == WindowSessionId(old(self).next_window_id) && *final(self) == (
            SessionCoordinator {
                next_window_id: next_number(old(self).next_window_id as int) as u64,
                ..*old(self)
            }),
    {
        match restored {
            Some(id) => id,
            None => self.allocate_window_id(),
        }
    }

    /// Puts a window behind the others in the saved order.
    pub fn register_window(&mut self, id: WindowSessionId)
        ensures
            *final(self) == (SessionCoordinator {
                window_order: final(self).window_order,
                ..*old(self)
            }),
            final(self).window_order@ == if old(self).window_order@.contains(id) {
                old(self).window_order@
            } else {
                old(self).window_order@.push(id)
            },
    {
        if !holds_window(&self.window_order, id) {
            self.window_order.push(id);
        }
    }

    /// Notes that the runtime serves tabs of a window.
    pub fn register_runtime_tabs(&mut self, window_id: WindowSessionId, tab_ids: &Vec<TabId>)
        ensures
            *final(self) == (SessionCoordinator {
                runtime_sessions: final(self).runtime_sessions,
                ..*old(self)
            }),
            final(self).served(window_id) == Some(
                merged(
                    match old(self).served(window_id) {
                        Some(ids) => ids,
                        None => Seq::empty(),
                    },
                    tab_ids@,
                ),
            ),
            forall|id: WindowSessionId|
                id != window_id ==> #[trigger] final(self).served(id) == old(self).served(id),
    {
        let tabs = match self.runtime_sessions.get(&window_id.0) {
            Some(known) => merge_tabs(known, tab_ids),
            None => {
                let none: Vec<TabId> = Vec::new();
                assert(none@ =~= Seq::<TabId>::empty());
                merge_tabs(&none, tab_ids)
            },
        };
        let _ = self.runtime_sessions.insert(window_id.0, tabs);
    }

    /// Notes that the runtime let go of a tab.
    pub fn mark_runtime_tab_released(&mut self, window_id: WindowSessionId, tab_id: TabId)
        ensures
            *final(self) == (SessionCoordinator {
                runtime_sessions: final(self).runtime_sessions,
                ..*old(self)
            }),
            final(self).served(window_id) == match old(self).served(window_id) {
                Some(ids) => Some(ids.filter(other_than(tab_id))),
                None => None,
            },
            forall|id: WindowSessionId|
                id != window_id ==> #[trigger] final(self).served(id) == old(self).served(id),
    {
        let tabs = match self.runtime_sessions.get(&window_id.0) {
            Some(known) => without(known, tab_id),
            None => return,
        };
        let _ = self.runtime_sessions.insert(window_id.0, tabs);
    }

    /// The windows of which the runtime serves tabs, in no particular order.
    fn known_windows(&self) -> (r: Vec<u64>)
        ensures
            r@.no_duplicates(),
            forall|k: u64| #[trigger] r@.contains(k) <==> self.runtime_sessions@.contains_key(k),
    {
        let mut out: Vec<u64> = Vec::new();
        let ghost all = self.runtime_sessions.keys().remaining().unref();
        for key in it: self.runtime_sessions.keys()
            invariant
                it.seq().unref() == all,
                out@ == all.take(it.index() as int),
        {
            out.push(*key);
        }
        assert(out@ =~= all);
        proof {
            assert forall|k: u64| #[trigger]
                all.contains(k) <==> self.runtime_sessions@.contains_key(k) by {
                assert(all.to_set().contains(k) <==> all.contains(k));
            }
        }
        out
    }

    /// A snapshot is about to be written: how, and in which order the windows stand from now on.
    /// Once the process is quitting, nothing changes any more. `unreadable` says that the file on
    /// disk could not be read.
    pub fn save(&mut self, snapshot: &SessionFile, quitting: bool, unreadable: bool) -> (r:
        SaveAction)
        ensures
            old(self).quitting ==> *final(self) == *old(self) && r is Keep,
            !old(self).quitting ==> {
                &&& *final(self) == (SessionCoordinator {
                    quitting,
                    window_order: final(self).window_order,
                    ..*old(self)
                })
                &&& final(self).window_order@ == window_ids(snapshot.windows@)
                &&& r == if unreadable {
                    SaveAction::RecoverAndSave
                } else {
                    SaveAction::Save
                }
            },
    {
        if self.quitting {
            return SaveAction::Keep;
        }
        self.quitting = quitting;
        self.window_order = ids_of(&snapshot.windows);
        if unreadable {
            SaveAction::RecoverAndSave
        } else {
            SaveAction::Save
        }
    }

    /// Forgets the windows that are closed and hands out the tabs of each that the runtime still
    /// serves, in no particular order.
    pub fn release_closed_window_sessions(&mut self, live: &Vec<WindowSessionId>) -> (r: Vec<
        WindowRuntimeSessions,
    >)
        ensures
            *final(self) == (SessionCoordinator {
                runtime_sessions: final(self).runtime_sessions,
                ..*old(self)
            }),
            keeps_live(*old(self), *final(self), live@),
            lets_go(*old(self), live@, r@),
    {
        let ghost before = *self;
        let known = self.known_windows();
        let mut left: Vec<WindowRuntimeSessions> = Vec::new();
        let mut i: usize = 0;
        while i < known.len()
            invariant
                i <= known@.len(),
                known@.no_duplicates(),
                forall|k: u64| #[trigger]
                    known@.contains(k) <==> before.runtime_sessions@.contains_key(k),
                *self == (SessionCoordinator { runtime_sessions: self.runtime_sessions, ..before }),
                forall|id: WindowSessionId| #[trigger]
                    self.served(id) == if !live@.contains(id) && known@.take(i as int).contains(
                        id.0,
                    ) {
                        None
                    } else {
                        before.served(id)
                    },
                forall|k: int|
                    0 <= k < left@.len() ==> {
                        let window = #[trigger] left@[k];
                        &&& !live@.contains(window.window_id)
                        &&& before.served(window.window_id) == Some(window.tab_ids@)
                        &&& window.tab_ids@.len() > 0
                        &&& known@.take(i as int).contains(window.window_id.0)
                    },
                forall|a: int, b: int|
                    0 <= a < b < left@.len() ==> (#[trigger] left@[a]).window_id != (
                    #[trigger] left@[b]).window_id,
                forall|m: int|
                    0 <= m < i ==> released_of(
                        before,
                        live@,
                        left@,
                        WindowSessionId(#[trigger] known@[m]),
                    ),
            decreases known@.len() - i,
        {
            let ghost held = *self;
            let ghost told = left@;
            let key: u64 = known[i];
            let id = WindowSessionId(key);
            proof {
                lemma_take_grows(known@, i as int);
                assert(known@.contains(key));
                assert(before.served(id) is Some);
                assert(held.served(id) == before.served(id));
            }
            if !holds_window(live, id) {
                let tabs = self.runtime_sessions.remove(&key);
                if let Some(tab_ids) = tabs {
                    if tab_ids.len() > 0 {
                        left.push(WindowRuntimeSessions { window_id: id, tab_ids });
                        assert(left@[left@.len() - 1].window_id == id);
                    }
                }
            }
            proof {
                assert forall|m: int| 0 <= m < i + 1 implies released_of(
                    before,
                    live@,
                    left@,
                    WindowSessionId(#[trigger] known@[m]),
                ) by {
                    if m < i {
                        let other = WindowSessionId(known@[m]);
                        assert(released_of(before, live@, told, other));
                        if before.served(other) is Some && before.served(other)->0.len() > 0
                            && !live@.contains(other) {
                            let k = choose|k: int|
                                0 <= k < told.len() && (#[trigger] told[k]).window_id == other;
                            assert(left@[k] == told[k]);
                        }
                    }
                }
                assert forall|other: WindowSessionId| #[trigger]
                    self.served(other) == if !live@.contains(other) && known@.take(
                        i + 1,
                    ).contains(other.0) {
                        None
                    } else {
                        before.served(other)
                    } by {
                    assert(held.served(other) == if !live@.contains(other) && known@.take(
                        i as int,
                    ).contains(other.0) {
                        None
                    } else {
                        before.served(other)
                    });
                }
            }
            i += 1;
        }
        proof {
            assert(known@.take(i as int) =~= known@);
            assert forall|id: WindowSessionId|
                (#[trigger] before.served(id)) is Some && before.served(id)->0.len() > 0
                    && !live@.contains(id) implies exists|k: int|
                0 <= k < left@.len() && (#[trigger] left@[k]).window_id == id by {
                assert(known@.contains(id.0));
                let m = choose|m: int| 0 <= m < known@.len() && known@[m] == id.0;
                assert(released_of(before, live@, left@, WindowSessionId(known@[m])));
            }
        }
        left
    }
}

/// The tabs of a window are among those let go, where they are to be.
pub open spec fn released_of(
    before: SessionCoordinator,
    live: Seq<WindowSessionId>,
    released: Seq<WindowRuntimeSessions>,
    id: WindowSessionId,
) -> bool {
    before.served(id) is Some && before.served(id)->0.len() > 0 && !live.contains(id)
        ==> exists|k: int| 0 <= k < released.len() && (#[trigger] released[k]).window_id == id
}

/// One more element of a list without duplicates is one that was not there.
proof fn lemma_take_grows(s: Seq<u64>, i: int)
    requires
        0 <= i < s.len(),
        s.no_duplicates(),
    ensures
        !s.take(i).contains(s[i]),
        forall|k: u64| #[trigger]
            s.take(i + 1).contains(k) <==> s.take(i).contains(k) || k == s[i],
{
    let front = s.take(i);
    let grown = s.take(i + 1);
    assert(grown =~= front.push(s[i]));
    assert(grown[i] == s[i]);
    assert forall|k: u64| #[trigger] grown.contains(k) <==> front.contains(k) || k == s[i] by {
        if front.contains(k) {
            let m = choose|m: int| 0 <= m < front.len() && front[m] == k;
            assert(grown[m] == k);
        }
        if grown.contains(k) {
            let m = choose|m: int| 0 <= m < grown.len() && grown[m] == k;
            if m < i {
                assert(front[m] == k);
            }
        }
    }
}

/// The place of a window in the saved order: behind all where it is not in it.
pub open spec fn place(order: Seq<WindowSessionId>, id: WindowSessionId) -> int
    decreases order.len(),
{
    if order.len() == 0 || order[0] == id {
        0
    } else {
        1 + place(order.drop_first(), id)
    }
}

fn place_of(order: &Vec<WindowSessionId>, id: WindowSessionId) -> (r: usize)
    ensures
        r == place(order@, id),
        r <= order@.len(),
{
    let mut i: usize = 0;
    assert(order@.skip(0) =~= order@);
    while i < order.len()
        invariant
            i <= order@.len(),
            place(order@, id) == i + place(order@.skip(i as int), id),
        decreases order@.len() - i,
    {
        assert(order@.skip(i as int).drop_first() =~= order@.skip(i + 1));
        if order[i] == id {
            return i;
        }
        i += 1;
    }
    i
}

/// The windows that stand at a place of the saved order.
pub open spec fn at_place(order: Seq<WindowSessionId>, k: int) -> spec_fn(
    SessionWindowSnapshot,
) -> bool {
    |w: SessionWindowSnapshot| place(order, w.id) == k
}

/// The windows stand by their places in the saved order.
pub open spec fn by_place(order: Seq<WindowSessionId>, windows: Seq<SessionWindowSnapshot>) -> bool {
    forall|i: int, j: int|
        0 <= i <= j < windows.len() ==> place(order, (#[trigger] windows[i]).id) <= place(
            order,
            (#[trigger] windows[j]).id,
        )
}

/// One list is the other put in order, windows of one place staying as they stood.
pub open spec fn stably_ordered(
    order: Seq<WindowSessionId>,
    from: Seq<SessionWindowSnapshot>,
    to: Seq<SessionWindowSnapshot>,
) -> bool {
    &&& by_place(order, to)
    &&& forall|k: int| #[trigger] to.filter(at_place(order, k)) == from.filter(at_place(order, k))
    &&& to.len() == from.len()
}

proof fn lemma_filter_split(
    s: Seq<SessionWindowSnapshot>,
    i: int,
    keep: spec_fn(SessionWindowSnapshot) -> bool,
)
    requires
        0 <= i < s.len(),
    ensures
        s.filter(keep) == s.take(i).filter(keep) + seq![s[i]].filter(keep) + s.skip(i + 1).filter(
            keep,
        ),
        s.remove(i).filter(keep) == s.take(i).filter(keep) + s.skip(i + 1).filter(keep),
        seq![s[i]].filter(keep) == if keep(s[i]) {
            seq![s[i]]
        } else {
            Seq::<SessionWindowSnapshot>::empty()
        },
{
    let one = seq![s[i]];
    assert(s =~= s.take(i) + one + s.skip(i + 1));
    assert(s.remove(i) =~= s.take(i) + s.skip(i + 1));
    Seq::filter_distributes_over_add(s.take(i) + one, s.skip(i + 1), keep);
    Seq::filter_distributes_over_add(s.take(i), one, keep);
    Seq::filter_distributes_over_add(s.take(i), s.skip(i + 1), keep);
    reveal_with_fuel(Seq::filter, 2);
    assert(one.drop_last() =~= Seq::<SessionWindowSnapshot>::empty());
}

proof fn lemma_filter_none(
    s: Seq<SessionWindowSnapshot>,
    keep: spec_fn(SessionWindowSnapshot) -> bool,
)
    requires
        forall|j: int| 0 <= j < s.len() ==> !keep(#[trigger] s[j]),
    ensures
        s.filter(keep) == Seq::<SessionWindowSnapshot>::empty(),
    decreases s.len(),
{
    reveal(Seq::filter);
    if s.len() > 0 {
        assert(!keep(s[s.len() - 1]));
        assert forall|j: int| 0 <= j < s.drop_last().len() implies !keep(
            #[trigger] s.drop_last()[j],
        ) by {
            assert(!keep(s[j]));
        }
        lemma_filter_none(s.drop_last(), keep);
    } else {
        assert(s =~= Seq::<SessionWindowSnapshot>::empty());
    }
}

/// The session made of the live windows: in the saved order, windows new to it last, and the
/// active one marked.
pub fn collect_session(
    windows: Vec<SessionWindowSnapshot>,
    window_order: &Vec<WindowSessionId>,
    active: Option<WindowSessionId>,
) -> (r: SessionFile)
    ensures
        r.version == CURRENT_VERSION,
        stably_ordered(window_order@, windows@, r.windows@),
        r.active_window_index == active_position(r.windows@, active),
{
    let ordered = order_windows(windows, window_order);
    let active_window_index: usize = match active {
        Some(id) => window_position(&ordered, id),
        None => 0,
    };
    SessionFile { version: CURRENT_VERSION, active_window_index, windows: ordered }
}

/// The position of the window with the given id; the first where there is none.
pub open spec fn active_position(
    windows: Seq<SessionWindowSnapshot>,
    active: Option<WindowSessionId>,
) -> int {
    match active {
        Some(id) => if place(window_ids(windows), id) < windows.len() {
            place(window_ids(windows), id)
        } else {
            0
        },
        None => 0,
    }
}

fn window_position(windows: &Vec<SessionWindowSnapshot>, id: WindowSessionId) -> (r: usize)
    ensures
        r == active_position(windows@, Some(id)),
{
    let ids = ids_of(windows);
    let at: usize = place_of(&ids, id);
    if at < windows.len() {
        at
    } else {
        0
    }
}

fn order_windows(
    windows: Vec<SessionWindowSnapshot>,
    window_order: &Vec<WindowSessionId>,
) -> (r: Vec<SessionWindowSnapshot>)
    ensures
        stably_ordered(window_order@, windows@, r@),
{
    let ghost all = windows@;
    let ghost order = window_order@;
    let mut rest = windows;
    let mut out: Vec<SessionWindowSnapshot> = Vec::new();
    proof {
        assert forall|k: int| #[trigger]
            all.filter(at_place(order, k)) == out@.filter(at_place(order, k)) + rest@.filter(
                at_place(order, k),
            ) by {
            reveal(Seq::filter);
            assert(out@.filter(at_place(order, k)) =~= Seq::<SessionWindowSnapshot>::empty());
            assert(Seq::<SessionWindowSnapshot>::empty() + rest@.filter(at_place(order, k))
                =~= rest@.filter(at_place(order, k)));
        }
    }
    while rest.len() > 0
        invariant
            order == window_order@,
            out@.len() + rest@.len() == all.len(),
            by_place(order, out@),
            forall|i: int, j: int|
                0 <= i < out@.len() && 0 <= j < rest@.len() ==> place(
                    order,
                    (#[trigger] out@[i]).id,
                ) <= place(order, (#[trigger] rest@[j]).id),
            forall|k: int| #[trigger]
                all.filter(at_place(order, k)) == out@.filter(at_place(order, k)) + rest@.filter(
                    at_place(order, k),
                ),
        decreases rest@.len(),
    {
        let first: usize = first_of_least_place(&rest, window_order);
        let ghost before = rest@;
        let ghost held = out@;
        let window = rest.remove(first);
        let ghost least = place(order, window.id);
        out.push(window);
        proof {
            assert forall|k: int| #[trigger]
                all.filter(at_place(order, k)) == out@.filter(at_place(order, k)) + rest@.filter(
                    at_place(order, k),
                ) by {
                let keep = at_place(order, k);
                lemma_filter_split(before, first as int, keep);
                Seq::filter_distributes_over_add(held, seq![window], keep);
                assert(out@ =~= held + seq![window]);
                if k == least {
                    assert forall|j: int| 0 <= j < before.take(first as int).len() implies !keep(
                        #[trigger] before.take(first as int)[j],
                    ) by {
                        assert(place(order, before[j].id) > least);
                    }
                    lemma_filter_none(before.take(first as int), keep);
                }
                assert(all.filter(keep) =~= out@.filter(keep) + rest@.filter(keep));
            }
            assert forall|i: int, j: int| 0 <= i <= j < out@.len() implies place(
                order,
                (#[trigger] out@[i]).id,
            ) <= place(order, (#[trigger] out@[j]).id) by {
                if j < held.len() {
                    assert(place(order, held[i].id) <= place(order, held[j].id));
                } else if i < held.len() {
                    assert(place(order, held[i].id) <= place(order, before[first as int].id));
                }
            }
            assert forall|i: int, j: int| 0 <= i < out@.len() && 0 <= j < rest@.len() implies place(
                order,
                (#[trigger] out@[i]).id,
            ) <= place(order, (#[trigger] rest@[j]).id) by {
                let x = if j < first {
                    j
                } else {
                    j + 1
                };
                assert(rest@[j] == before[x]);
                if i < held.len() {
                    assert(place(order, held[i].id) <= place(order, before[x].id));
                }
            }
        }
    }
    proof {
        assert forall|k: int| #[trigger]
            out@.filter(at_place(order, k)) == all.filter(at_place(order, k)) by {
            assert(all.filter(at_place(order, k)) == out@.filter(at_place(order, k))
                + rest@.filter(at_place(order, k)));
            reveal(Seq::filter);
            assert(out@.filter(at_place(order, k)) + rest@.filter(at_place(order, k))
                =~= out@.filter(at_place(order, k)));
        }
    }
    out
}

fn first_of_least_place(
    windows: &Vec<SessionWindowSnapshot>,
    window_order: &Vec<WindowSessionId>,
) -> (r: usize)
    requires
        windows@.len() > 0,
    ensures
        r < windows@.len(),
        forall|j: int|
            0 <= j < windows@.len() ==> place(window_order@, windows@[r as int].id) <= place(
                window_order@,
                (#[trigger] windows@[j]).id,
            ),
        forall|j: int|
            0 <= j < r ==> place(window_order@, windows@[r as int].id) < place(
                window_order@,
                (#[trigger] windows@[j]).id,
            ),
{
    let mut best: usize = 0;
    let mut least: usize = place_of(window_order, windows[0].id);
    let mut i: usize = 1;
    while i < windows.len()
        invariant
            best < i <= windows@.len(),
            least == place(window_order@, windows@[best as int].id),
            forall|j: int|
                0 <= j < i ==> least <= place(window_order@, (#[trigger] windows@[j]).id),
            forall|j: int|
                0 <= j < best ==> least < place(window_order@, (#[trigger] windows@[j]).id),
        decreases windows@.len() - i,
    {
        let at: usize = place_of(window_order, windows[i].id);
        if at < least {
            best = i;
            least = at;
        }
        i += 1;
    }
    best
}

/// Which of the restored windows is brought to the front; none where there are no windows, and a
/// new one opens.
pub fn restored_active_window(file: &SessionFile) -> (r: Option<usize>)
    ensures
        r is None <==> file.windows@.len() == 0,
        r is Some ==> r->0 == if file.active_window_index < file.windows@.len() {
            file.active_window_index as int
        } else {
            file.windows@.len() - 1
        },
{
    let count: usize = file.windows.len();
    if count == 0 {
        None
    } else if file.active_window_index < count {
        Some(file.active_window_index)
    } else {
        Some(count - 1)
    }
}

/// What is to be done at a checkpoint: a session to be written, how, and the tabs that the runtime
/// is to let go, window by window.
#[derive(PartialEq, Eq, Debug)]
pub struct Checkpoint {
    pub file: SessionFile,
    pub action: SaveAction,
    pub released: Vec<WindowRuntimeSessions>,
}

/// The session is that of the live windows, in the order that the coordinator keeps.
pub open spec fn is_collected(
    coordinator: SessionCoordinator,
    windows: Seq<SessionWindowSnapshot>,
    active: Option<WindowSessionId>,
    file: SessionFile,
) -> bool {
    &&& file.version == CURRENT_VERSION
    &&& stably_ordered(coordinator.window_order@, windows, file.windows@)
    &&& file.active_window_index == active_position(file.windows@, active)
}

/// How a session is written that may be.
pub open spec fn writing(unreadable: bool) -> SaveAction {
    if unreadable {
        SaveAction::RecoverAndSave
    } else {
        SaveAction::Save
    }
}

/// The last session of the process is written, unless it already was.
pub open spec fn quit_saved(
    before: SessionCoordinator,
    after: SessionCoordinator,
    windows: Seq<SessionWindowSnapshot>,
    active: Option<WindowSessionId>,
    unreadable: bool,
    r: Checkpoint,
) -> bool {
    &&& is_collected(before, windows, active, r.file)
    &&& r.released@.len() == 0
    &&& if before.quitting {
        after == before && r.action is Keep
    } else {
        &&& after == (SessionCoordinator {
            quitting: true,
            window_order: after.window_order,
            ..before
        })
        &&& after.window_order@ == window_ids(r.file.windows@)
        &&& r.action == writing(unreadable)
    }
}

/// The session of the windows that are left is written, and the tabs of the closed ones are let
/// go; nothing happens once the process quits.
pub open spec fn close_saved(
    before: SessionCoordinator,
    after: SessionCoordinator,
    windows: Seq<SessionWindowSnapshot>,
    active: Option<WindowSessionId>,
    unreadable: bool,
    r: Option<Checkpoint>,
) -> bool {
    match r {
        None => before.quitting && after == before,
        Some(done) => {
            let live = window_ids(done.file.windows@);
            &&& !before.quitting
            &&& is_collected(before, windows, active, done.file)
            &&& after == (SessionCoordinator {
                window_order: after.window_order,
                runtime_sessions: after.runtime_sessions,
                ..before
            })
            &&& after.window_order@ == live
            &&& keeps_live(before, after, live)
            &&& lets_go(before, live, done.released@)
            &&& done.action == writing(unreadable)
        },
    }
}

/// The process is about to quit: the session of all windows is written, for the last time.
pub fn checkpoint_before_quit(
    coordinator: &mut SessionCoordinator,
    windows: Vec<SessionWindowSnapshot>,
    active: Option<WindowSessionId>,
    unreadable: bool,
) -> (r: Checkpoint)
    ensures
        quit_saved(*old(coordinator), *final(coordinator), windows@, active, unreadable, r),
{
    let file = collect_session(windows, &coordinator.window_order, active);
    let action = coordinator.save(&file, true, unreadable);
    Checkpoint { file, action, released: Vec::new() }
}

/// A window was closed: the session of those that are left is written. Nothing where the process
/// quits.
pub fn checkpoint_after_window_closed(
    coordinator: &mut SessionCoordinator,
    windows: Vec<SessionWindowSnapshot>,
    active: Option<WindowSessionId>,
    unreadable: bool,
) -> (r: Option<Checkpoint>)
    ensures
        close_saved(*old(coordinator), *final(coordinator), windows@, active, unreadable, r),
{
    if coordinator.quitting {
        return None;
    }
    let file = collect_session(windows, &coordinator.window_order, active);
    let live = ids_of(&file.windows);
    let released = coordinator.release_closed_window_sessions(&live);
    let ghost let_go = *coordinator;
    let action = coordinator.save(&file, false, unreadable);
    assert forall|id: WindowSessionId| #[trigger] coordinator.served(id) == let_go.served(
        id,
    ) by {}
    Some(Checkpoint { file, action, released })
}

/// Once the session was written for quitting, closing windows writes and changes nothing.
pub proof fn law_quit_freezes_the_session(
    before: SessionCoordinator,
    frozen: SessionCoordinator,
    after: SessionCoordinator,
    windows: Seq<SessionWindowSnapshot>,
    survivors: Seq<SessionWindowSnapshot>,
    active: Option<WindowSessionId>,
    unreadable: bool,
    quit: Checkpoint,
    close: Option<Checkpoint>,
)
    requires
        quit_saved(before, frozen, windows, active, unreadable, quit),
        close_saved(frozen, after, survivors, active, unreadable, close),
    ensures
        close is None,
        after == frozen,
{
}

/// A checkpoint holds every live window, and no other.
pub proof fn law_checkpoint_holds_the_live_windows(
    coordinator: SessionCoordinator,
    windows: Seq<SessionWindowSnapshot>,
    active: Option<WindowSessionId>,
    file: SessionFile,
    window: SessionWindowSnapshot,
)
    requires
        is_collected(coordinator, windows, active, file),
    ensures
        file.windows@.len() == windows.len(),
        file.windows@.contains(window) <==> windows.contains(window),
{
    let order = coordinator.window_order@;
    let k = place(order, window.id);
    let to = file.windows@;
    assert(to.filter(at_place(order, k)) == windows.filter(at_place(order, k)));
    crate::lists::lemma_filter_holds(to, at_place(order, k));
    crate::lists::lemma_filter_holds(windows, at_place(order, k));
    assert(to.filter(at_place(order, k)).contains(window) <==> to.contains(window));
    assert(windows.filter(at_place(order, k)).contains(window) <==> windows.contains(window));
}

/// An id handed out to a new window is that of no restored window, and the next one differs from
/// it, as long as the largest number is not reached.
pub proof fn law_new_window_ids_are_fresh(windows: Seq<SessionWindowSnapshot>, i: int, n: u64)
    requires
        0 <= i < windows.len(),
        next_number(largest_window_id(windows)) <= n < u64::MAX,
    ensures
        windows[i].id != WindowSessionId(n),
        next_number(n as int) > n,
{
    lemma_largest_window_id(windows, i);
}

/// Merging ids into a list without duplicates leaves it so, and it then holds exactly those of
/// both.
pub proof fn law_merged_tabs(ids: Seq<TabId>, more: Seq<TabId>)
    requires
        ids.no_duplicates(),
    ensures
        merged(ids, more).no_duplicates(),
        forall|id: TabId| #[trigger]
            merged(ids, more).contains(id) <==> ids.contains(id) || more.contains(id),
    decreases more.len(),
{
    if more.len() > 0 {
        law_merged_tabs(ids, more.drop_last());
        let front = merged(ids, more.drop_last());
        let all = merged(ids, more);
        assert forall|id: TabId| #[trigger] all.contains(id) <==> ids.contains(id)
            || more.contains(id) by {
            assert(more[more.len() - 1] == more.last());
            if more.contains(id) {
                let k = choose|k: int| 0 <= k < more.len() && more[k] == id;
                if k < more.len() - 1 {
                    assert(more.drop_last()[k] == id);
                }
            }
            if more.drop_last().contains(id) {
                let k = choose|k: int| 0 <= k < more.drop_last().len() && more.drop_last()[k]
                    == id;
                assert(more[k] == id);
            }
            if !front.contains(more.last()) {
                assert(all =~= front.push(more.last()));
                if all.contains(id) {
                    let k = choose|k: int| 0 <= k < all.len() && all[k] == id;
                    if k < front.len() {
                        assert(front[k] == id);
                    }
                }
                if front.contains(id) {
                    let k = choose|k: int| 0 <= k < front.len() && front[k] == id;
                    assert(all[k] == id);
                }
                assert(all[front.len() as int] == more.last());
            }
            assert(front.contains(id) <==> ids.contains(id) || more.drop_last().contains(id));
        }
        if !front.contains(more.last()) {
            assert forall|i: int, j: int|
                0 <= i < all.len() && 0 <= j < all.len() && i != j implies all[i] != all[j] by {
                if i < front.len() && j < front.len() {
                    assert(front[i] != front[j]);
                } else if i < front.len() {
                    assert(front.contains(front[i]));
                } else {
                    assert(front.contains(front[j]));
                }
            }
        }
    }
}

}
