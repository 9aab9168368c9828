//! Opening, showing and closing tabs.

use vstd::prelude::*;

use super::common::{lemma_shown, lemma_tab_at, shows};
use crate::edit_sessions::{not_of_tab, of_tab, EditSession, EditSessionStore};
use crate::lists::{law_wrapping_is_undone, lemma_filter_holds};
use crate::model::{AppCommand, Dispatch, TabId};
use crate::tab_actions::ClosedTab;
use crate::tabs::{lemma_has_tab, other_than};
use crate::workspace::Workspace;

verus! {

proof fn lemma_filter_first<A>(s: Seq<A>, keep: spec_fn(A) -> bool)
    requires
        s.len() > 0,
        keep(s[0]),
    ensures
        s.filter(keep).len() > 0,
        s.filter(keep)[0] == s[0],
    decreases s.len(),
{
    reveal(Seq::filter);
    if s.len() > 1 {
        assert(s.drop_last()[0] == s[0]);
        lemma_filter_first(s.drop_last(), keep);
    } else {
        assert(s.drop_last().filter(keep) =~= Seq::<A>::empty());
    }
}

/// A new tab stands behind the others, at home and not connected, and is shown. Nothing happens to
/// the others.
pub proof fn law_new_tab_is_shown(w: &mut Workspace, id: TabId, k: int)
    requires
        old(w).wf(),
        forall|j: int| 0 <= j < old(w).tabs.tabs@.len() ==> (#[trigger] old(w).tabs.tabs@[j]).id
            != id,
        0 <= k < old(w).tabs.tabs@.len(),
        call_ensures(Workspace::open_new_tab, (w, id), ()),
    ensures
        shows(*final(w), old(w).tabs.tabs@.len() as int),
        final(w).tabs.tabs@.len() == old(w).tabs.tabs@.len() + 1,
        final(w).tabs.tabs@[k] == old(w).tabs.tabs@[k],
        ({
            let tab = final(w).tabs.tabs@.last();
            &&& tab.id == id
            &&& tab.connection is Empty
            &&& tab.session_epoch == 0
            &&& tab.local.path == Some(old(w).default_local_path)
            &&& tab.remote.path is None
            &&& tab.profile_id is None
            &&& tab.connection_settings is None
            &&& tab.selected_paths@.len() == 0
        }),
        final(w).focused_side is Local,
{
    let n = old(w).tabs.tabs@.len() as int;
    crate::tabs::lemma_active_exists(final(w).tabs);
    crate::tabs::lemma_tab_index(final(w).tabs.tabs@, final(w).tabs.active_tab_id->0);
    assert(final(w).tabs.tabs@[n].id == id);
}

/// The window shows the tab that was asked for, and the tabs themselves stay as they are. The
/// switcher then leads back to the tab that was shown before.
pub proof fn law_switcher_leads_back(
    a: &mut Workspace,
    b: &mut Workspace,
    c: &mut Workspace,
    i: int,
    j: int,
    found: bool,
)
    requires
        shows(*old(a), i),
        0 <= j < old(a).tabs.tabs@.len(),
        i != j,
        call_ensures(Workspace::activate_tab, (a, old(a).tabs.tabs@[j].id), found),
        *old(b) == *final(a),
        call_ensures(Workspace::tab_switcher_next, (b,), ()),
        *old(c) == *final(b),
        call_ensures(Workspace::confirm_tab_switcher, (c,), ()),
    ensures
        found,
        shows(*final(a), j),
        final(a).tabs.tabs@ == old(a).tabs.tabs@,
        shows(*final(b), j),
        final(b).tabs.switcher_open,
        shows(*final(c), i),
        final(c).tabs.tabs@ == old(a).tabs.tabs@,
        !final(c).tabs.switcher_open,
{
    let tabs = old(a).tabs.tabs@;
    lemma_has_tab(tabs, tabs[j].id);
    let mru = old(a).tabs.mru@;
    assert(tabs[i].id != tabs[j].id);
    assert(mru[0] == tabs[i].id);
    lemma_filter_first(mru, other_than(tabs[j].id));
    assert(final(a).tabs.mru@[1] == tabs[i].id);
}

/// Opened backwards, the switcher points at the tab that was used longest ago.
pub proof fn law_switcher_starts_at_the_oldest(a: &mut Workspace, b: &mut Workspace)
    requires
        old(a).wf(),
        !old(a).tabs.switcher_open,
        old(a).tabs.mru@.len() > 0,
        call_ensures(Workspace::tab_switcher_prev, (a,), ()),
        *old(b) == *final(a),
        call_ensures(Workspace::confirm_tab_switcher, (b,), ()),
    ensures
        final(b).tabs.active_tab_id == Some(old(a).tabs.mru@.last()),
        final(b).tabs.tabs@ == old(a).tabs.tabs@,
{
    assert(old(a).tabs.mru.len() == old(a).tabs.mru@.len());
}

/// A step of the switcher and one the other way undo each other, and the switcher points at each
/// tab in turn.
pub proof fn law_switcher_steps_undo_each_other(
    a: &mut Workspace,
    b: &mut Workspace,
    c: &mut Workspace,
)
    requires
        old(a).wf(),
        old(a).tabs.switcher_open,
        call_ensures(Workspace::tab_switcher_next, (a,), ()),
        *old(b) == *final(a),
        call_ensures(Workspace::tab_switcher_prev, (b,), ()),
        *old(c) == *final(b),
        call_ensures(Workspace::tab_switcher_prev, (c,), ()),
    ensures
        final(b).tabs.switcher_index == old(a).tabs.switcher_index,
        final(b).tabs.switcher_open,
        old(a).tabs.switcher_index + 1 < old(a).tabs.mru@.len() ==> final(a).tabs.switcher_index
            == old(a).tabs.switcher_index + 1,
        old(a).tabs.switcher_index + 1 == old(a).tabs.mru@.len() ==> final(a).tabs.switcher_index
            == 0,
        old(a).tabs.switcher_index > 0 ==> final(c).tabs.switcher_index
            == old(a).tabs.switcher_index - 1,
        old(a).tabs.switcher_index == 0 ==> final(c).tabs.switcher_index
            == old(a).tabs.mru@.len() - 1,
        final(c).tabs.active_tab_id == old(a).tabs.active_tab_id,
{
    let n = old(a).tabs.mru@.len() as int;
    let at = old(a).tabs.switcher_index as int;
    assert(old(a).tabs.mru.len() == n);
    law_wrapping_is_undone(at, 1, n);
    if at == 0 {
        vstd::arithmetic::div_mod::lemma_fundamental_div_mod_converse(-1, n, -1, n - 1);
    } else {
        vstd::arithmetic::div_mod::lemma_small_mod((at - 1) as nat, n as nat);
    }
    if at + 1 < n {
        vstd::arithmetic::div_mod::lemma_small_mod((at + 1) as nat, n as nat);
    } else {
        vstd::arithmetic::div_mod::lemma_mod_self_0(n);
    }
}

/// The switcher closed leaves the tab that was shown.
pub proof fn law_closed_switcher_switches_nothing(w: &mut Workspace)
    requires
        old(w).wf(),
        call_ensures(Workspace::close_tab_switcher, (w,), ()),
    ensures
        !final(w).tabs.switcher_open,
        final(w).tabs.active_tab_id == old(w).tabs.active_tab_id,
        final(w).tabs.tabs == old(w).tabs.tabs,
        final(w).tabs.mru == old(w).tabs.mru,
{
}

/// The tab to the right is the next one in the order in which they were opened, round the end, and
/// as many steps the other way lead back.
pub proof fn law_steps_between_tabs_undo_each_other(
    a: &mut Workspace,
    b: &mut Workspace,
    i: int,
    offset: isize,
    there: bool,
    back: isize,
    again: bool,
)
    requires
        shows(*old(a), i),
        call_ensures(Workspace::activate_tab_in_direction, (a, offset), there),
        *old(b) == *final(a),
        back == -offset,
        call_ensures(Workspace::activate_tab_in_direction, (b, back), again),
    ensures
        there && again,
        final(a).tabs.tabs@ == old(a).tabs.tabs@,
        offset == 1 && i + 1 < old(a).tabs.tabs@.len() ==> shows(*final(a), i + 1),
        offset == 1 && i + 1 == old(a).tabs.tabs@.len() ==> shows(*final(a), 0),
        offset == -1 && i > 0 ==> shows(*final(a), i - 1),
        offset == -1 && i == 0 ==> shows(*final(a), old(a).tabs.tabs@.len() - 1),
        shows(*final(b), i),
        final(b).tabs.tabs@ == old(a).tabs.tabs@,
{
    let n = old(a).tabs.tabs@.len() as int;
    lemma_shown(*old(a), i);
    let j = (i + offset) % n;
    vstd::arithmetic::div_mod::lemma_mod_bound(i + offset, n);
    assert(shows(*final(a), j));
    lemma_shown(*final(a), j);
    law_wrapping_is_undone(i, offset as int, n);
    assert((j + back) % n == i);
    if offset == 1 {
        if i + 1 < n {
            vstd::arithmetic::div_mod::lemma_small_mod((i + 1) as nat, n as nat);
        } else {
            vstd::arithmetic::div_mod::lemma_mod_self_0(n);
        }
    }
    if offset == -1 {
        if i > 0 {
            vstd::arithmetic::div_mod::lemma_small_mod((i - 1) as nat, n as nat);
        } else {
            vstd::arithmetic::div_mod::lemma_fundamental_div_mod_converse(-1, n, -1, n - 1);
        }
    }
}

/// A tab that is closed is gone, and so are its edits, which are handed out to be cleaned up. The
/// others stay in their order. Where it was not shown, the tab that was still is; where it was, the
/// one that follows it is, or the last where none follows.
pub proof fn law_closed_tab_is_gone(
    w: &mut Workspace,
    edits: &mut EditSessionStore,
    i: int,
    c: int,
    k: int,
    outcome: Dispatch,
    asked: Option<AppCommand>,
    session: EditSession,
    r: Option<ClosedTab>,
)
    requires
        shows(*old(w), i),
        old(edits).wf(),
        0 <= c < old(w).tabs.tabs@.len(),
        0 <= k < old(w).tabs.tabs@.len() - 1,
        call_ensures(
            Workspace::close_tab_command,
            (&*old(w), old(w).tabs.tabs@[c].id),
            asked,
        ),
        call_ensures(
            Workspace::close_tab_by_id,
            (w, old(w).tabs.tabs@[c].id, edits, outcome),
            r,
        ),
    ensures
        asked == Some(AppCommand::CloseTab { tab_id: old(w).tabs.tabs@[c].id }),
        r is Some,
        r->0.released <==> outcome is Sent,
        final(w).tabs.tabs@.len() == old(w).tabs.tabs@.len() - 1,
        final(w).tabs.tabs@[k] == if k < c {
            old(w).tabs.tabs@[k]
        } else {
            old(w).tabs.tabs@[k + 1]
        },
        i != c ==> final(w).tabs.active_tab_id == old(w).tabs.active_tab_id,
        i == c && c + 1 < old(w).tabs.tabs@.len() ==> final(w).tabs.active_tab_id == Some(
            old(w).tabs.tabs@[c + 1].id,
        ),
        i == c && c + 1 == old(w).tabs.tabs@.len() ==> final(w).tabs.active_tab_id == Some(
            old(w).tabs.tabs@[c - 1].id,
        ),
        r->0.edits@.contains(session) <==> old(edits).sessions@.contains(session) && session.tab_id
            == old(w).tabs.tabs@[c].id,
        final(edits).sessions@.contains(session) <==> old(edits).sessions@.contains(session)
            && session.tab_id != old(w).tabs.tabs@[c].id,
        old(w).large_edit_confirm is Some ==> (final(w).large_edit_confirm is Some <==> old(w).large_edit_confirm->0.tab_id != old(w).tabs.tabs@[c].id),
{
    let tabs = old(w).tabs.tabs@;
    let id = tabs[c].id;
    lemma_has_tab(tabs, id);
    lemma_tab_at(tabs, c);
    lemma_filter_holds(old(edits).sessions@, of_tab(id));
    lemma_filter_holds(old(edits).sessions@, not_of_tab(id));
    if i != c {
        assert(tabs[i].id != tabs[c].id);
    }
}

/// Closing the only tab leaves the window without one.
pub proof fn law_last_tab_leaves_an_empty_window(
    w: &mut Workspace,
    edits: &mut EditSessionStore,
    outcome: Dispatch,
    r: Option<ClosedTab>,
)
    requires
        shows(*old(w), 0),
        old(edits).wf(),
        old(w).tabs.tabs@.len() == 1,
        call_ensures(
            Workspace::close_tab_by_id,
            (w, old(w).tabs.tabs@[0].id, edits, outcome),
            r,
        ),
    ensures
        final(w).tabs.tabs@.len() == 0,
        final(w).tabs.active_tab_id is None,
        !final(w).tabs.switcher_open,
{
    lemma_has_tab(old(w).tabs.tabs@, old(w).tabs.tabs@[0].id);
    lemma_tab_at(old(w).tabs.tabs@, 0);
}

/// A tab that the window does not have is neither shown nor closed.
pub proof fn law_foreign_tab_changes_nothing(
    a: &mut Workspace,
    b: &mut Workspace,
    edits: &mut EditSessionStore,
    id: TabId,
    outcome: Dispatch,
    shown: bool,
    closed: Option<ClosedTab>,
    asked: Option<AppCommand>,
)
    requires
        old(a).wf(),
        old(edits).wf(),
        forall|j: int| 0 <= j < old(a).tabs.tabs@.len() ==> (#[trigger] old(a).tabs.tabs@[j]).id
            != id,
        call_ensures(Workspace::activate_tab, (a, id), shown),
        *old(b) == *final(a),
        call_ensures(Workspace::close_tab_command, (&*old(b), id), asked),
        call_ensures(Workspace::close_tab_by_id, (b, id, edits, outcome), closed),
    ensures
        !shown,
        closed is None,
        asked is None,
        *final(b) == *old(a),
        *final(edits) == *old(edits),
{
    lemma_has_tab(old(a).tabs.tabs@, id);
}

}
