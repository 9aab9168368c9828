//! The small steps that whole operations are made of.

use vstd::prelude::*;

use super::common::{lemma_shown, lemma_tab_at, shows};
use super::connecting::{is_first, lemma_found};
use super::files::selects_one;
use super::hearing::has_session;
use super::pointing::selects_alone;
use super::selecting::{listing, lists_each_once};
use super::texts::{is_clean, is_name};
use crate::drawer_height::{clamp_drawer_height, content_area_height_from_viewport};
use crate::drawer_view::{running_of, running_transfers};
use crate::edit_sessions::{
    conflicts_in, lemma_first_where_bound, lemma_session_at, EditSession, EditSessionStore,
};
use crate::helpers::{connected_transfer_session, connection_in_flight};
use crate::lists::{clamped_index, lemma_filter_holds, wrapped_index};
use crate::modals::{other_questions, ModalRequestId};
use crate::model::{
    ConflictRequestId, ConnectionProfile, ConnectionState, DisconnectReason, Dispatch,
    EditSessionId, EntryPath, ModalRequest, PaneSide, ProfileId, SessionId, TabId, Timestamp,
    TransferId, TransferJob, TransferState, TrustRequestId,
};
use crate::nav::{lemma_names_plus_name, PathHistory};
use crate::profiles::SettingsSection;
use crate::selection::{views, EntryAction};
use crate::tabs::{law_touched_order, TabState, TabStore};
use crate::text::{split_names, texts};
use crate::workspace::{still_asked, Config, Workspace};

verus! {

/// A connection attempt begins under a new epoch, is up under the same one, and ends for the
/// reason that is given. Nothing else of the tab changes.
pub proof fn law_connection_goes_through_its_states(
    a: &mut TabState,
    b: &mut TabState,
    c: &mut TabState,
    d: &mut TabState,
    session_id: SessionId,
    reason: DisconnectReason,
)
    requires
        old(a).session_epoch < u64::MAX - 1,
        call_ensures(TabState::begin_connect, (a, session_id), ()),
        *old(b) == *final(a),
        call_ensures(TabState::complete_connect, (b, session_id), ()),
        *old(c) == *final(b),
        call_ensures(TabState::begin_reconnect, (c, session_id), ()),
        *old(d) == *final(b),
        call_ensures(TabState::disconnect, (d, reason), ()),
    ensures
        final(a).session_epoch == old(a).session_epoch + 1,
        final(a).connection == (ConnectionState::Connecting {
            session_id,
            session_epoch: final(a).session_epoch,
        }),
        final(b).connection == (ConnectionState::Connected {
            session_id,
            session_epoch: final(a).session_epoch,
        }),
        final(b).session_epoch == final(a).session_epoch,
        final(c).session_epoch == old(a).session_epoch + 2,
        final(c).connection == (ConnectionState::Reconnecting {
            session_id,
            session_epoch: final(c).session_epoch,
        }),
        final(d).connection == (ConnectionState::Disconnected { reason }),
        final(d).session_epoch == final(a).session_epoch,
        final(d).local == old(a).local && final(d).remote == old(a).remote,
        final(d).title == old(a).title && final(d).profile_id == old(a).profile_id,
{
}

/// An attempt is under way while it is made, and transfers can be started only over a connection
/// that is up, under its epoch and profile.
pub proof fn law_transfers_need_a_connection(
    tab: TabState,
    under_way: bool,
    r: Option<(u64, ProfileId)>,
)
    requires
        call_ensures(connection_in_flight, (&tab.connection,), under_way),
        call_ensures(connected_transfer_session, (&tab,), r),
    ensures
        under_way <==> tab.connection is Connecting || tab.connection is Reconnecting
            || tab.connection is AwaitingHostKey || tab.connection is AwaitingCredentials,
        r is Some <==> tab.connection is Connected,
        tab.connection matches ConnectionState::Connected { session_epoch, .. } ==> {
            &&& r->0 .0 == session_epoch
            &&& tab.profile_id matches Some(id) ==> r->0 .1 == id
        },
{
}

/// A tab that is used comes first in the order of use; none is lost, and none comes twice.
pub proof fn law_used_tab_comes_first(store: &mut TabStore, id: TabId, other: TabId)
    requires
        old(store).mru@.no_duplicates(),
        call_ensures(TabStore::touch_mru, (store, id), ()),
    ensures
        final(store).mru@[0] == id,
        final(store).mru@.no_duplicates(),
        final(store).mru@.contains(other) <==> old(store).mru@.contains(other) || other == id,
        final(store).tabs == old(store).tabs,
        final(store).active_tab_id == old(store).active_tab_id,
{
    law_touched_order(old(store).mru@, id);
}

/// Going back gives the place that was left last, and going forward then the place come from.
pub proof fn law_history_goes_back_and_forth(
    a: &mut PathHistory,
    b: &mut PathHistory,
    c: &mut PathHistory,
    from: &str,
    to: &str,
    back: Option<String>,
    forth: Option<String>,
    can_back: bool,
    can_forth: bool,
)
    requires
        from@ != to@,
        call_ensures(PathHistory::push_navigating_from, (a, Some(from), to), ()),
        call_ensures(PathHistory::can_back, (&*final(a),), can_back),
        *old(b) == *final(a),
        call_ensures(PathHistory::go_back, (b, to), back),
        call_ensures(PathHistory::can_forward, (&*final(b),), can_forth),
        *old(c) == *final(b),
        call_ensures(PathHistory::go_forward, (c, from), forth),
    ensures
        can_back,
        back is Some && back->0@ == from@,
        can_forth,
        forth is Some && forth->0@ == to@,
        final(b).back@.len() == old(a).back@.len(),
        final(c).back@.len() == final(a).back@.len(),
        final(a).forward@.len() == 0,
{
    assert(old(a).past().len() == old(a).back@.len());
    assert(final(a).past() == old(a).past().push(from@));
    assert(final(a).past().len() == final(a).back@.len());
    assert(final(a).ahead().len() == final(a).forward@.len());
    assert(final(b).past().len() == final(b).back@.len());
    assert(final(b).ahead().last() == to@);
    assert(final(c).past().len() == final(c).back@.len());
}

/// The settings show the profile that is selected while there is such a profile, and otherwise the
/// first.
pub proof fn law_settings_show_the_selected_profile(
    w: &mut Workspace,
    profiles: Vec<ConnectionProfile>,
    k: int,
    secret_present: bool,
    shown: Option<ProfileId>,
)
    requires
        is_first(profiles@, k),
        call_ensures(Workspace::settings_profile, (&*old(w), &profiles), shown),
        call_ensures(
            Workspace::set_settings_section,
            (w, SettingsSection::Profiles, &profiles, secret_present),
            (),
        ),
    ensures
        old(w).selected_profile_id == Some(profiles@[k].id) ==> {
            &&& shown == Some(profiles@[k].id)
            &&& final(w).profile_editor matches Some(editor) && editor.host@ == profiles@[k].host@
                && editor.profile_id == Some(profiles@[k].id)
        },
        old(w).selected_profile_id is None ==> shown == Some(profiles@[0].id)
            && final(w).profile_editor is Some && final(w).profile_editor->0.profile_id == Some(
            profiles@[0].id,
        ),
        final(w).settings_section is Profiles,
        final(w).selected_profile_id == shown,
{
    lemma_found(profiles@, k);
    lemma_found(profiles@, 0);
}

/// A question that is dropped is gone, and the others stay.
pub proof fn law_dropped_question_is_gone(
    a: &mut Workspace,
    b: &mut Workspace,
    key: TrustRequestId,
    id: ConflictRequestId,
    name: String,
    modal: ModalRequest,
    asked: bool,
)
    requires
        call_ensures(Workspace::remove_modal, (a, key), ()),
        call_ensures(Workspace::remove_conflict_modal, (b, id, name), ()),
        call_ensures(Workspace::has_transfer_conflict_modal, (&*final(b), id), asked),
    ensures
        final(a).modals@.contains(modal) <==> old(a).modals@.contains(modal) && !(
        modal matches ModalRequest::HostKey(p) && p.request_id == key),
        final(b).modals@.contains(modal) <==> old(b).modals@.contains(modal) && !(
        modal matches ModalRequest::TransferConflict(p) && p.request_id == id),
        !asked,
{
    let (x, y) = (ModalRequestId::Trust(key), ModalRequestId::Conflict(id));
    lemma_filter_holds(old(a).modals@, other_questions(x));
    lemma_filter_holds(old(b).modals@, other_questions(y));
    assert(old(a).modals@.filter(other_questions(x)).contains(modal) <==> old(a).modals@.contains(
        modal,
    ) && other_questions(x)(modal));
    assert(old(b).modals@.filter(other_questions(y)).contains(modal) <==> old(b).modals@.contains(
        modal,
    ) && other_questions(y)(modal));
    crate::modals::law_answered_question_is_gone(old(b).modals@, y);
}

/// A question about a key stays while the attempt that asks it lives; questions about files stay.
pub proof fn law_questions_of_dead_attempts_go(
    w: &mut Workspace,
    modal: ModalRequest,
    i: int,
    r: bool,
)
    requires
        old(w).wf(),
        call_ensures(Workspace::drain_expired_modals, (w,), r),
    ensures
        modal is TransferConflict ==> (final(w).modals@.contains(modal) <==> old(w).modals@.contains(
            modal,
        )),
        modal matches ModalRequest::HostKey(p) ==> (0 <= i < old(w).tabs.tabs@.len()
            && old(w).tabs.tabs@[i].id == p.scope.tab_id ==> (final(w).modals@.contains(modal)
            <==> old(w).modals@.contains(modal) && old(w).tabs.tabs@[i].session_epoch
            == p.scope.session_epoch && has_session(
            old(w).tabs.tabs@[i],
            p.scope.session_id,
        ))),
        final(w).tabs == old(w).tabs,
{
    let keep = still_asked(old(w).tabs.tabs@);
    lemma_filter_holds(old(w).modals@, keep);
    assert(old(w).modals@.filter(keep).contains(modal) <==> old(w).modals@.contains(modal) && keep(
        modal,
    ));
    if 0 <= i < old(w).tabs.tabs@.len() {
        lemma_tab_at(old(w).tabs.tabs@, i);
    }
}

/// Steps through a list go round its ends or stop there.
pub proof fn law_steps_go_round_or_stop(
    at: usize,
    count: usize,
    next: usize,
    previous: usize,
    on: usize,
    back: usize,
)
    requires
        at < count,
        call_ensures(wrapped_index, (at, 1isize, count), next),
        call_ensures(wrapped_index, (at, -1isize, count), previous),
        call_ensures(clamped_index, (at, 1isize, count), on),
        call_ensures(clamped_index, (at, -1isize, count), back),
    ensures
        at + 1 < count ==> next == at + 1 && on == at + 1,
        at + 1 == count ==> next == 0 && on == at,
        at > 0 ==> previous == at - 1 && back == at - 1,
        at == 0 ==> previous == count - 1 && back == 0,
{
    let n = count as int;
    if at + 1 < n {
        vstd::arithmetic::div_mod::lemma_small_mod((at + 1) as nat, n as nat);
    } else {
        vstd::arithmetic::div_mod::lemma_mod_self_0(n);
    }
    if at > 0 {
        vstd::arithmetic::div_mod::lemma_small_mod((at - 1) as nat, n as nat);
    } else {
        vstd::arithmetic::div_mod::lemma_fundamental_div_mod_converse(-1, n, -1, n - 1);
    }
}

/// The names of a path are those of the directory that holds it and its own.
pub proof fn law_path_is_made_of_names(
    above: &str,
    path: &str,
    name: Seq<char>,
    a: Vec<String>,
    b: Vec<String>,
    k: int,
)
    requires
        is_clean(above@),
        is_name(name),
        path@ == above@ + seq!['/'] + name,
        call_ensures(split_names, (above,), a),
        call_ensures(split_names, (path,), b),
    ensures
        b@.len() == a@.len() + 1,
        b@.last()@ == name,
        0 <= k < a@.len() ==> b@[k]@ == a@[k]@,
{
    lemma_names_plus_name(above@, name);
    let (x, y) = (texts(a@), texts(b@));
    assert(x.len() == a@.len() && y.len() == b@.len());
    assert(y == x.push(name));
    assert(y[a@.len() as int] == b@[a@.len() as int]@);
    if 0 <= k < a@.len() {
        assert(y[k] == b@[k]@ && x[k] == a@[k]@);
    }
}

/// Opening what is selected opens the entry that is.
pub proof fn law_selected_entry_is_opened(
    w: Workspace,
    i: int,
    config: Config,
    listed: Vec<EntryPath>,
    k: usize,
    at: Option<usize>,
    opened: EntryAction,
    r: EntryAction,
)
    requires
        shows(w, i),
        call_ensures(Workspace::visible_paths, (&w, w.focused_side, &config), listed),
        lists_each_once(listed@),
        k < listed@.len(),
        selects_alone(w, i, listed@[k as int]@),
        call_ensures(Workspace::selected_index, (&w, w.focused_side, &config), at),
        call_ensures(Workspace::open_entry_at, (&w, w.focused_side, k, &config), opened),
        call_ensures(Workspace::open_selected_entry, (&w, &config), r),
    ensures
        at == Some(k),
        r == opened,
{
    lemma_shown(w, i);
    let v = views(listed@);
    assert(v.len() == listed@.len());
    assert(v[k as int] == listed@[k as int]@);
    let selected = views(w.tabs.tabs@[i].selected_paths@);
    assert(selected.len() == 1);
    assert(selected[0] == listed@[k as int]@);
    crate::selection::lemma_position_of(v, v[k as int]);
    let p = crate::selection::position_of(v, v[k as int]);
    if p != k {
        assert(v[p] == listed@[p]@);
        if p < k {
            assert(listed@[p]@ != listed@[k as int]@);
        }
    }
}

/// A transfer counts as running where it runs, with how far it is.
pub proof fn law_running_transfers_are_those_that_run(
    jobs: Vec<TransferJob>,
    k: int,
    done: u64,
    total: Option<u64>,
    r: Vec<(TransferId, u64, Option<u64>)>,
)
    requires
        call_ensures(running_transfers, (&jobs,), r),
        0 <= k < jobs@.len(),
        jobs@[k].state == (TransferState::Running { bytes_done: done, bytes_total: total }),
    ensures
        r@.contains((jobs@[k].id, done, total)),
        r@.len() <= jobs@.len(),
{
    lemma_running(jobs@, k);
}

proof fn lemma_running(jobs: Seq<TransferJob>, k: int)
    requires
        0 <= k < jobs.len(),
        jobs[k].state is Running,
    ensures
        running_of(jobs).contains(
            (jobs[k].id, jobs[k].state->bytes_done, jobs[k].state->bytes_total),
        ),
        running_of(jobs).len() <= jobs.len(),
    decreases jobs.len(),
{
    let front = jobs.drop_last();
    let all = running_of(jobs);
    let before = running_of(front);
    let job = (jobs[k].id, jobs[k].state->bytes_done, jobs[k].state->bytes_total);
    lemma_running_count(front);
    if k < jobs.len() - 1 {
        assert(front[k] == jobs[k]);
        lemma_running(front, k);
        let p = choose|p: int| 0 <= p < before.len() && before[p] == job;
        assert(all[p] == job);
    } else {
        assert(all[before.len() as int] == job);
    }
}

proof fn lemma_running_count(jobs: Seq<TransferJob>)
    ensures
        running_of(jobs).len() <= jobs.len(),
    decreases jobs.len(),
{
    if jobs.len() > 0 {
        lemma_running_count(jobs.drop_last());
    }
}

/// The file that the shown tab asks about is the first of that tab that waits for an answer.
pub proof fn law_shown_tab_asks_about_its_file(
    w: Workspace,
    i: int,
    edits: EditSessionStore,
    k: int,
    r: Option<EditSessionId>,
    s: Option<EditSessionId>,
)
    requires
        shows(w, i),
        call_ensures(Workspace::edit_conflict_session, (&w, &edits), r),
        call_ensures(EditSessionStore::conflict_for_tab, (&edits, w.tabs.tabs@[i].id), s),
    ensures
        r == s,
        0 <= k < edits.sessions@.len() && edits.sessions@[k].phase is RemoteConflict
            && edits.sessions@[k].tab_id == w.tabs.tabs@[i].id ==> r is Some,
        r is Some ==> exists|j: int|
            0 <= j < edits.sessions@.len() && (#[trigger] edits.sessions@[j]).id == r->0
                && edits.sessions@[j].phase is RemoteConflict && edits.sessions@[j].tab_id
                == w.tabs.tabs@[i].id,
{
    lemma_shown(w, i);
    let meets = conflicts_in(w.tabs.tabs@[i].id);
    lemma_first_where_bound(edits.sessions@, meets);
    if 0 <= k < edits.sessions@.len() && meets(edits.sessions@[k]) {
        lemma_first_holds(edits.sessions@, meets, k);
    }
    if r is Some {
        let j = crate::edit_sessions::first_where(edits.sessions@, meets);
        assert(edits.sessions@[j].id == r->0);
    }
}

proof fn lemma_first_holds(
    sessions: Seq<EditSession>,
    meets: spec_fn(EditSession) -> bool,
    k: int,
)
    requires
        0 <= k < sessions.len(),
        meets(sessions[k]),
    ensures
        crate::edit_sessions::first_where(sessions, meets) <= k,
    decreases k,
{
    if k > 0 && !meets(sessions[0]) {
        assert(sessions.drop_first()[k - 1] == sessions[k]);
        lemma_first_holds(sessions.drop_first(), meets, k - 1);
    }
}

/// What is closed is closed, and nothing else of the window is.
pub proof fn law_closing_closes_one_thing(
    a: &mut Workspace,
    b: &mut Workspace,
    c: &mut Workspace,
    d: &mut Workspace,
    e: &mut Workspace,
    f: &mut Workspace,
)
    requires
        call_ensures(Workspace::close_command_palette, (a,), ()),
        call_ensures(Workspace::close_go_to_path, (b,), ()),
        call_ensures(Workspace::cancel_delete_confirm, (c,), ()),
        call_ensures(Workspace::cancel_inline_edit, (d,), ()),
        call_ensures(Workspace::close_connect_form, (e,), ()),
        call_ensures(Workspace::cancel_large_edit, (f,), ()),
    ensures
        !final(a).palette.open && final(a).connect_form == old(a).connect_form,
        !final(b).go_to_path_open && final(b).connect_form == old(b).connect_form,
        final(c).delete_confirm is None && final(c).connect_form == old(c).connect_form
            && final(c).tabs == old(c).tabs,
        final(d).inline_edit is None && final(d).tabs == old(d).tabs && final(d).delete_confirm
            == old(d).delete_confirm,
        final(e).connect_form is None && final(e).tabs == old(e).tabs,
        final(f).large_edit_confirm is None && final(f).tabs == old(f).tabs,
{
}

/// The drawer is as high as was asked, as far as the window allows; the usual height is two
/// hundred and forty pixels.
pub proof fn law_drawer_takes_the_height(
    a: &mut Workspace,
    b: &mut Workspace,
    c: &mut Workspace,
    height: i64,
    viewport: i64,
    content: i64,
    r: i64,
    usual: i64,
    kept: i64,
)
    requires
        call_ensures(content_area_height_from_viewport, (viewport,), content),
        call_ensures(clamp_drawer_height, (height, content), r),
        call_ensures(clamp_drawer_height, (480_000i64, content), usual),
        call_ensures(clamp_drawer_height, (old(c).drawer_height, content), kept),
        call_ensures(Workspace::set_drawer_height, (a, height, viewport), ()),
        call_ensures(Workspace::reset_drawer_height, (b, viewport), ()),
        call_ensures(Workspace::reclamp_drawer_height, (c, viewport), ()),
    ensures
        final(a).drawer_height == r,
        final(b).drawer_height == usual,
        final(c).drawer_height == kept,
        final(a).tabs == old(a).tabs,
{
}

/// A command for an edit that was not taken leaves the edit open, to be looked at again; the other
/// edits stay as they are.
pub proof fn law_untaken_edit_command_leaves_it_open(
    store: &mut EditSessionStore,
    k: int,
    m: int,
    restore: Option<Timestamp>,
    outcome: Option<Dispatch>,
)
    requires
        old(store).wf(),
        0 <= k < old(store).sessions@.len(),
        0 <= m < old(store).sessions@.len(),
        m != k,
        call_ensures(
            EditSessionStore::edit_command_sent,
            (store, old(store).sessions@[k].id, restore, outcome),
            (),
        ),
    ensures
        outcome == Some(Dispatch::Sent) ==> *final(store) == *old(store),
        outcome != Some(Dispatch::Sent) ==> {
            &&& final(store).sessions@.len() == old(store).sessions@.len()
            &&& final(store).sessions@[k].phase is Editing
            &&& final(store).sessions@[k].local_mtime == restore
            &&& final(store).sessions@[k].pending_check_id is None
            &&& final(store).sessions@[k].checking_local_mtime is None
            &&& final(store).sessions@[k].id == old(store).sessions@[k].id
            &&& final(store).sessions@[k].remote_path == old(store).sessions@[k].remote_path
            &&& final(store).sessions@[m] == old(store).sessions@[m]
        },
{
    lemma_session_at(old(store).sessions@, k);
}

/// What is shown in the file manager is the one local entry that is selected.
pub proof fn law_selected_entry_is_revealed(w: Workspace, i: int, k: int, r: Option<String>)
    requires
        shows(w, i),
        selects_one(w, i, PaneSide::Local, k),
        call_ensures(Workspace::reveal_local_selection, (&w,), r),
    ensures
        r is Some,
        r->0@ == listing(w, i, PaneSide::Local)[k].path@,
{
    lemma_shown(w, i);
    super::files::lemma_chosen_one(w, i, PaneSide::Local, k);
}

}
