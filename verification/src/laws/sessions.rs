//! What is saved of the windows and comes back when they are restored.

use vstd::prelude::*;

use super::common::{lemma_shown, shows};
use super::connecting::can_connect;
use crate::edit_sessions::EditSessionStore;
use crate::lists::lemma_filter_holds;
use crate::model::{ConnectionSettings, Dispatch, ProfileId, TabId, WindowSessionId};
use crate::resources::TabIdCounter;
use crate::session_coordinator::{
    at_place, checkpoint_after_window_closed, checkpoint_before_quit, collect_session,
    law_merged_tabs, lemma_largest_window_id, place, restored_active_window, window_ids,
    Checkpoint, SessionCoordinator, SessionFile, SessionWindowSnapshot,
};
use crate::tabs::{other_than, TabState};
use crate::workspace::{tab_endpoint, Workspace};

verus! {

/// Two texts that may be missing read the same.
pub open spec fn same_text(a: Option<String>, b: Option<String>) -> bool {
    match (a, b) {
        (Some(a), Some(b)) => a@ == b@,
        (None, None) => true,
        _ => false,
    }
}

/// A tab is reached at the host, port and user of its connection; where it has none, at those that
/// it had when it was saved; and a tab that never had any is named by its title.
pub proof fn law_endpoint_is_where_the_tab_connects(tab: TabState, r: (String, u16, String))
    requires
        call_ensures(tab_endpoint, (&tab,), r),
    ensures
        tab.connection_settings is Some ==> {
            &&& r.0@ == tab.connection_settings->0.host@
            &&& r.1 == tab.connection_settings->0.port
            &&& r.2@ == tab.connection_settings->0.username@
        },
        tab.connection_settings is None && tab.restored_target is Some ==> {
            &&& r.0@ == tab.restored_target->0.host@
            &&& r.1 == tab.restored_target->0.port
            &&& r.2@ == tab.restored_target->0.username@
        },
        tab.connection_settings is None && tab.restored_target is None ==> {
            &&& r.0@ == tab.title@
            &&& r.1 == 22
            &&& r.2@.len() == 0
        },
{
}

/// A tab for which an attempt was made is restored to the host, port, user and profile of that
/// attempt, in the directories that it showed.
pub proof fn law_attempt_survives_a_restart(
    w: &mut Workspace,
    edits: &mut EditSessionStore,
    i: int,
    settings: ConnectionSettings,
    profile_id: Option<ProfileId>,
    saved: SessionWindowSnapshot,
    home: String,
    config_failed: bool,
    ids: &mut TabIdCounter,
    again: Workspace,
)
    requires
        can_connect(*old(w), i),
        old(edits).wf(),
        call_ensures(
            Workspace::connect_with,
            (w, settings, profile_id, edits, Dispatch::Sent),
            (),
        ),
        call_ensures(Workspace::build_session_snapshot, (&*final(w),), saved),
        call_ensures(
            Workspace::new,
            (saved.id, home, config_failed, Some(&saved), ids),
            again,
        ),
    ensures
        again.window_session_id == old(w).window_session_id,
        again.tabs.tabs@.len() == old(w).tabs.tabs@.len(),
        ({
            let tab = again.tabs.tabs@[i];
            &&& tab.restored_target matches Some(target) && {
                &&& target.host@ == settings.host@
                &&& target.port == settings.port
                &&& target.username@ == settings.username@
                &&& target.profile_id == profile_id
            }
            &&& tab.profile_id == profile_id
            &&& tab.title@ == settings.host@
            &&& tab.connection_settings is None
            &&& tab.connection is Empty
        }),
{
    lemma_shown(*old(w), i);
    let t = final(w).tabs.tabs@[i];
    assert(t.connection_settings == Some(settings));
    assert(saved.tabs@[i]@.port == settings.port);
    assert(saved.tabs@[i]@.host == settings.host@);
    let tab = again.tabs.tabs@[i];
    assert(tab.title@ == settings.host@);
}

/// Every tab of a window comes back: in its place, under its title and profile, at the paths it
/// was at and with the endpoint it had, and the one that was shown is shown. Saving the window
/// again then gives the same.
pub proof fn law_saved_window_comes_back(
    w: Workspace,
    i: int,
    k: int,
    saved: SessionWindowSnapshot,
    home: String,
    config_failed: bool,
    ids: &mut TabIdCounter,
    again: Workspace,
    endpoint: (String, u16, String),
    twice: SessionWindowSnapshot,
)
    requires
        shows(w, i),
        0 <= k < w.tabs.tabs@.len(),
        w.tabs.tabs@[k].title@.len() > 0,
        old(ids).next + w.tabs.tabs@.len() <= u64::MAX,
        call_ensures(Workspace::build_session_snapshot, (&w,), saved),
        call_ensures(tab_endpoint, (&w.tabs.tabs@[k],), endpoint),
        call_ensures(
            Workspace::new,
            (saved.id, home, config_failed, Some(&saved), ids),
            again,
        ),
        call_ensures(Workspace::build_session_snapshot, (&again,), twice),
    ensures
        again.tabs.tabs@.len() == w.tabs.tabs@.len(),
        again.tabs.active_tab_id == Some(again.tabs.tabs@[i].id),
        ({
            let was = w.tabs.tabs@[k];
            let tab = again.tabs.tabs@[k];
            &&& tab.title@ == was.title@
            &&& tab.profile_id == was.profile_id
            &&& tab.id.0 == old(ids).next + k
            &&& tab.connection is Empty
            &&& was.local.path is Some ==> same_text(tab.local.path, was.local.path)
            &&& was.local.path is None ==> same_text(tab.local.path, Some(home))
            &&& was.remote.path is Some ==> same_text(tab.remote.path, was.remote.path)
            &&& was.remote.path is None && was.restored_target is Some ==> same_text(
                tab.remote.path,
                was.restored_target->0.remote_path,
            )
            &&& was.remote.path is None && was.restored_target is None ==> tab.remote.path is None
            &&& tab.restored_target is Some
            &&& tab.restored_target->0.host@ == endpoint.0@
            &&& tab.restored_target->0.port == endpoint.1
            &&& tab.restored_target->0.username@ == endpoint.2@
            &&& same_text(tab.restored_target->0.remote_path, tab.remote.path)
        }),
        twice.id == saved.id,
        twice.active_tab_index == saved.active_tab_index == i,
        twice.tabs@.len() == saved.tabs@.len(),
        ({
            let a = saved.tabs@[k];
            let b = twice.tabs@[k];
            &&& b.title@ == a.title@
            &&& b.profile_id == a.profile_id
            &&& b.host@ == a.host@
            &&& b.port == a.port
            &&& b.username@ == a.username@
            &&& a.local_path is Some ==> same_text(b.local_path, a.local_path)
            &&& same_text(b.remote_path, a.remote_path)
        }),
{
    lemma_shown(w, i);
    assert(saved.tabs@[k]@.title == w.tabs.tabs@[k].title@);
    let tab = again.tabs.tabs@[k];
    let shown = again.tabs.tabs@[i];
    assert(shown.id == TabId((old(ids).next + i) as u64));
    lemma_shown(again, i);
    assert(twice.tabs@[k]@.title == tab.title@);
}

/// A window that is restored from nothing opens one tab that is not connected, at home.
pub proof fn law_new_window_starts_at_home(
    id: WindowSessionId,
    home: String,
    config_failed: bool,
    ids: &mut TabIdCounter,
    w: Workspace,
)
    requires
        call_ensures(Workspace::new, (id, home, config_failed, None, ids), w),
    ensures
        w.window_session_id == id,
        w.tabs.tabs@.len() == 1,
        w.tabs.active_tab_id == Some(w.tabs.tabs@[0].id),
        w.tabs.tabs@[0].id.0 == old(ids).next,
        w.tabs.tabs@[0].local.path == Some(home),
        w.tabs.tabs@[0].connection is Empty,
        w.modals@.len() == 0,
        w.surface is Files,
        w.focused_side is Local,
{
    crate::tabs::lemma_active_exists(w.tabs);
    crate::tabs::lemma_tab_index(w.tabs.tabs@, w.tabs.active_tab_id->0);
}

proof fn lemma_place(order: Seq<WindowSessionId>, p: int)
    requires
        0 <= p < order.len(),
        order.no_duplicates(),
    ensures
        place(order, order[p]) == p,
    decreases order.len(),
{
    if p > 0 {
        let rest = order.drop_first();
        assert(rest[p - 1] == order[p]);
        assert forall|a: int, b: int| 0 <= a < b < rest.len() implies rest[a] != rest[b] by {
            assert(rest[a] == order[a + 1] && rest[b] == order[b + 1]);
        }
        lemma_place(rest, p - 1);
        assert(order[0] != order[p]);
    }
}

proof fn lemma_place_holds(order: Seq<WindowSessionId>, id: WindowSessionId)
    ensures
        0 <= place(order, id) <= order.len(),
        place(order, id) < order.len() ==> order[place(order, id)] == id,
        order.contains(id) ==> place(order, id) < order.len(),
    decreases order.len(),
{
    if order.len() > 0 && order[0] != id {
        let rest = order.drop_first();
        lemma_place_holds(rest, id);
        if order.contains(id) {
            let k = choose|k: int| 0 <= k < order.len() && order[k] == id;
            assert(rest[k - 1] == id);
        }
    }
}

/// The session that is saved holds every window and no other. The windows that have a place in the
/// saved order stand in it, those that have none behind them, and the active one is marked.
pub proof fn law_session_keeps_the_windows_in_order(
    windows: Vec<SessionWindowSnapshot>,
    order: Vec<WindowSessionId>,
    active: Option<WindowSessionId>,
    window: SessionWindowSnapshot,
    p: int,
    q: int,
    a: int,
    b: int,
    r: SessionFile,
    front: Option<usize>,
)
    requires
        call_ensures(collect_session, (windows, &order, active), r),
        call_ensures(restored_active_window, (&r,), front),
        order@.no_duplicates(),
        0 <= a < r.windows@.len(),
        0 <= b < r.windows@.len(),
        0 <= p < order@.len(),
        r.windows@[a].id == order@[p],
        !order@.contains(r.windows@[b].id) || (p < q < order@.len() && r.windows@[b].id
            == order@[q]),
    ensures
        r.windows@.len() == windows@.len(),
        r.windows@.contains(window) <==> windows@.contains(window),
        a < b,
        active is Some && windows@.contains(window) && window.id == active->0 ==> front is Some
            && front->0 < r.windows@.len() && r.windows@[front->0 as int].id == active->0,
{
    let to = r.windows@;
    lemma_place(order@, p);
    lemma_place_holds(order@, to[b].id);
    if order@.contains(to[b].id) {
        lemma_place(order@, q);
    } else if place(order@, to[b].id) < order@.len() {
        assert(order@[place(order@, to[b].id)] == to[b].id);
    }
    if b <= a {
        assert(place(order@, to[b].id) <= place(order@, to[a].id));
    }
    let k = place(order@, window.id);
    lemma_filter_holds(to, at_place(order@, k));
    lemma_filter_holds(windows@, at_place(order@, k));
    assert(to.filter(at_place(order@, k)) == windows@.filter(at_place(order@, k)));
    assert(to.filter(at_place(order@, k)).contains(window) <==> to.contains(window));
    if active is Some && windows@.contains(window) && window.id == active->0 {
        let n = choose|n: int| 0 <= n < to.len() && to[n] == window;
        assert(window_ids(to)[n] == active->0);
        lemma_place_holds(window_ids(to), active->0);
    }
}

/// Once the session was saved for quitting, it stands: windows that close afterwards write nothing
/// and change nothing.
pub proof fn law_last_session_stands(
    a: &mut SessionCoordinator,
    b: &mut SessionCoordinator,
    c: &mut SessionCoordinator,
    windows: Vec<SessionWindowSnapshot>,
    left: Vec<SessionWindowSnapshot>,
    active: Option<WindowSessionId>,
    unreadable: bool,
    window: SessionWindowSnapshot,
    quit: Checkpoint,
    close: Option<Checkpoint>,
    again: Checkpoint,
)
    requires
        !old(a).quitting,
        call_ensures(checkpoint_before_quit, (a, windows, active, unreadable), quit),
        *old(b) == *final(a),
        call_ensures(checkpoint_after_window_closed, (b, left, active, unreadable), close),
        *old(c) == *final(b),
        call_ensures(checkpoint_before_quit, (c, left, active, unreadable), again),
    ensures
        quit.file.windows@.len() == windows@.len(),
        quit.file.windows@.contains(window) <==> windows@.contains(window),
        quit.action is RecoverAndSave <==> unreadable,
        quit.action is Save <==> !unreadable,
        close is None,
        again.action is Keep,
        *final(c) == *final(a),
{
    let k = place(old(a).window_order@, window.id);
    let keep = at_place(old(a).window_order@, k);
    lemma_filter_holds(quit.file.windows@, keep);
    lemma_filter_holds(windows@, keep);
    assert(quit.file.windows@.filter(keep) == windows@.filter(keep));
    assert(windows@.filter(keep).contains(window) <==> windows@.contains(window));
    assert(quit.file.windows@.filter(keep).contains(window) <==> quit.file.windows@.contains(
        window,
    ));
}

/// Before that, a window that closes is written out of the session, the others stay, and the tabs
/// of the closed one, and of no other, are let go.
pub proof fn law_closed_window_is_let_go(
    c: &mut SessionCoordinator,
    left: Vec<SessionWindowSnapshot>,
    active: Option<WindowSessionId>,
    unreadable: bool,
    id: WindowSessionId,
    window: SessionWindowSnapshot,
    m: int,
    r: Option<Checkpoint>,
)
    requires
        !old(c).quitting,
        call_ensures(checkpoint_after_window_closed, (c, left, active, unreadable), r),
    ensures
        r is Some,
        !final(c).quitting,
        r->0.action is RecoverAndSave <==> unreadable,
        r->0.action is Save <==> !unreadable,
        r->0.file.windows@.contains(window) <==> left@.contains(window),
        (exists|k: int| 0 <= k < left@.len() && (#[trigger] left@[k]).id == id)
            && old(c).runtime_sessions@.contains_key(id.0) ==> {
            &&& final(c).runtime_sessions@.contains_key(id.0)
            &&& final(c).runtime_sessions@[id.0]@ == old(c).runtime_sessions@[id.0]@
        },
        (forall|k: int| 0 <= k < left@.len() ==> (#[trigger] left@[k]).id != id)
            && old(c).runtime_sessions@.contains_key(id.0) ==> {
            &&& !final(c).runtime_sessions@.contains_key(id.0)
            &&& old(c).runtime_sessions@[id.0]@.len() > 0 ==> exists|k: int|
                0 <= k < r->0.released@.len() && (#[trigger] r->0.released@[k]).window_id == id
                    && r->0.released@[k].tab_ids@ == old(c).runtime_sessions@[id.0]@
        },
        0 <= m < r->0.released@.len() ==> {
            let gone = r->0.released@[m];
            &&& old(c).runtime_sessions@.contains_key(gone.window_id.0)
            &&& gone.tab_ids@ == old(c).runtime_sessions@[gone.window_id.0]@
            &&& forall|k: int|
                0 <= k < left@.len() ==> (#[trigger] left@[k]).id != gone.window_id
        },
{
    let order = old(c).window_order@;
    let to = r->0.file.windows@;
    let live = window_ids(to);
    assert forall|x: SessionWindowSnapshot| #[trigger] to.contains(x) <==> left@.contains(x) by {
        let keep = at_place(order, place(order, x.id));
        lemma_filter_holds(to, keep);
        lemma_filter_holds(left@, keep);
        assert(to.filter(keep) == left@.filter(keep));
        assert(to.filter(keep).contains(x) <==> to.contains(x));
        assert(left@.filter(keep).contains(x) <==> left@.contains(x));
    }
    assert forall|x: WindowSessionId| #[trigger] live.contains(x) <==> exists|k: int|
        0 <= k < left@.len() && (#[trigger] left@[k]).id == x by {
        if live.contains(x) {
            let n = choose|n: int| 0 <= n < live.len() && live[n] == x;
            assert(to.contains(to[n]));
            let k = choose|k: int| 0 <= k < left@.len() && left@[k] == to[n];
            assert(left@[k].id == x);
        }
        if exists|k: int| 0 <= k < left@.len() && (#[trigger] left@[k]).id == x {
            let k = choose|k: int| 0 <= k < left@.len() && (#[trigger] left@[k]).id == x;
            assert(left@.contains(left@[k]));
            assert(to.contains(left@[k]));
            let n = choose|n: int| 0 <= n < to.len() && to[n] == left@[k];
            assert(live[n] == x);
        }
    }
    assert(final(c).served(id) == if live.contains(id) {
        old(c).served(id)
    } else {
        None
    });
    assert(old(c).served(id) is Some <==> old(c).runtime_sessions@.contains_key(id.0));
    if 0 <= m < r->0.released@.len() {
        let gone = r->0.released@[m];
        assert(old(c).served(gone.window_id) == Some(gone.tab_ids@));
        assert(!live.contains(gone.window_id));
    }
}

/// An id that a new window gets is larger than that of every window of the session that was read,
/// and than those handed out before it, as long as there is a larger number. A window that is
/// restored keeps its own.
pub proof fn law_new_windows_get_new_ids(
    file: SessionFile,
    a: &mut SessionCoordinator,
    b: &mut SessionCoordinator,
    c: &mut SessionCoordinator,
    i: int,
    first: WindowSessionId,
    second: WindowSessionId,
    restored: WindowSessionId,
    kept: WindowSessionId,
)
    requires
        call_ensures(SessionCoordinator::new, (file,), *old(a)),
        call_ensures(SessionCoordinator::allocate_window_id, (a,), first),
        *old(b) == *final(a),
        call_ensures(SessionCoordinator::id_for_window, (b, None), second),
        *old(c) == *final(b),
        call_ensures(SessionCoordinator::id_for_window, (c, Some(restored)), kept),
        0 <= i < file.windows@.len(),
        first.0 < u64::MAX,
    ensures
        first.0 > file.windows@[i].id.0,
        second.0 > first.0,
        kept == restored,
        *final(c) == *final(b),
{
    lemma_largest_window_id(file.windows@, i);
}

/// The session that was read is restored once.
pub proof fn law_session_is_restored_once(
    file: SessionFile,
    a: &mut SessionCoordinator,
    b: &mut SessionCoordinator,
    first: SessionFile,
    second: SessionFile,
)
    requires
        call_ensures(SessionCoordinator::new, (file,), *old(a)),
        call_ensures(SessionCoordinator::take_restore_session, (a,), first),
        *old(b) == *final(a),
        call_ensures(SessionCoordinator::take_restore_session, (b,), second),
    ensures
        first == file,
        second.windows@.len() == 0,
{
}

/// A window that is registered is in the saved order, once, behind those that were there.
pub proof fn law_registered_window_has_a_place(
    a: &mut SessionCoordinator,
    b: &mut SessionCoordinator,
    id: WindowSessionId,
)
    requires
        old(a).window_order@.no_duplicates(),
        call_ensures(SessionCoordinator::register_window, (a, id), ()),
        *old(b) == *final(a),
        call_ensures(SessionCoordinator::register_window, (b, id), ()),
    ensures
        final(a).window_order@.contains(id),
        final(a).window_order@.no_duplicates(),
        old(a).window_order@.is_prefix_of(final(a).window_order@),
        !old(a).window_order@.contains(id) ==> final(a).window_order@.last() == id,
        final(b).window_order@ == final(a).window_order@,
{
    let was = old(a).window_order@;
    let now = final(a).window_order@;
    if !was.contains(id) {
        assert(now[was.len() as int] == id);
        assert(was.is_prefix_of(now));
        assert forall|x: int, y: int| 0 <= x < y < now.len() implies now[x] != now[y] by {
            if y == was.len() {
                assert(was.contains(was[x]));
            }
        }
    }
}

/// The runtime serves the tabs that were registered, and those alone, until they are let go.
pub proof fn law_registered_tabs_are_served(
    a: &mut SessionCoordinator,
    b: &mut SessionCoordinator,
    window: WindowSessionId,
    tabs: Vec<TabId>,
    gone: TabId,
    tab: TabId,
    other: WindowSessionId,
)
    requires
        old(a).runtime_sessions@.contains_key(window.0),
        old(a).runtime_sessions@[window.0]@.no_duplicates(),
        call_ensures(SessionCoordinator::register_runtime_tabs, (a, window, &tabs), ()),
        *old(b) == *final(a),
        call_ensures(SessionCoordinator::mark_runtime_tab_released, (b, window, gone), ()),
        other != window,
    ensures
        final(a).runtime_sessions@.contains_key(window.0),
        final(b).runtime_sessions@.contains_key(window.0),
        final(a).runtime_sessions@[window.0]@.contains(tab) <==> tabs@.contains(tab) || old(a).runtime_sessions@[window.0]@.contains(tab),
        final(b).runtime_sessions@[window.0]@.contains(tab) <==> tab != gone && (tabs@.contains(tab)
            || old(a).runtime_sessions@[window.0]@.contains(tab)),
        final(b).runtime_sessions@.contains_key(other.0) <==> old(a).runtime_sessions@.contains_key(other.0),
        old(a).runtime_sessions@.contains_key(other.0) ==> final(b).runtime_sessions@[other.0]@
            == old(a).runtime_sessions@[other.0]@,
{
    let known = old(a).runtime_sessions@[window.0]@;
    law_merged_tabs(known, tabs@);
    let all = final(a).runtime_sessions@[window.0]@;
    lemma_filter_holds(all, other_than(gone));
    assert(final(a).served(window) is Some);
    assert(final(b).served(window) is Some);
    assert(final(a).served(other) == old(a).served(other));
    assert(final(b).served(other) == final(a).served(other));
    assert(all.filter(other_than(gone)).contains(tab) <==> all.contains(tab) && tab != gone);
}

}
