//! What is left alone: surfaces that wait, forms that were refused, drafts that are dropped and
//! numbers that are not used up.

use vstd::prelude::*;

use super::common::{lemma_shown, lemma_tab_at, shows};
use crate::command_palette::PaletteKey;
use crate::connect_form::{ConnectForm, FormError};
use crate::edit_sessions::{EditSession, EditSessionStore, TempLook, WatchStep};
use crate::event_coordinator::present_orphaned_transfer_conflicts;
use crate::form_views::{ProfileList, SettingsPage};
use crate::keys::Keystroke;
use crate::lists::lemma_filter_holds;
use crate::modals::{latest_conflict, latest_host_key};
use crate::model::{
    ConflictRequest, ConnectionProfile, ConnectionSettings, Dispatch, EditSessionId, ModalRequest,
    ProfileId, RemoteSnapshot, StartTransferCommand, TabId, Timestamp, WindowSessionId,
};
use crate::profiles::{filtered_profiles, ProfileEditorState};
use crate::remote_edit::{EditStart, EditTarget};
use crate::resources::TabIdCounter;
use crate::session_coordinator::{
    checkpoint_after_window_closed, checkpoint_before_quit, place, window_ids, Checkpoint,
    SessionCoordinator, SessionFile, SessionWindowSnapshot,
};
use crate::tab_actions::ClosedTab;
use crate::tabs::{
    has_tab, law_touched_order, lemma_has_tab, lemma_tab_index, other_than, tab_index, touched,
    TabState,
};
use crate::text::decimal;
use crate::workspace::{Config, PendingEdit, Workspace};

verus! {

/// A question that keeps the settings from opening: about a file that is in the way, or about the
/// key of the host that the tab shown connects to.
pub open spec fn holds_back(question: ModalRequest, active: Option<TabId>) -> bool {
    match question {
        ModalRequest::TransferConflict(_) => true,
        ModalRequest::HostKey(prompt) => active == Some(prompt.scope.tab_id),
    }
}

proof fn lemma_no_conflict(modals: Seq<ModalRequest>)
    ensures
        latest_conflict(modals) is None <==> forall|k: int|
            0 <= k < modals.len() ==> !((#[trigger] modals[k]) is TransferConflict),
    decreases modals.len(),
{
    if modals.len() > 0 {
        let front = modals.drop_last();
        lemma_no_conflict(front);
        assert(modals.last() == modals[modals.len() - 1]);
        assert forall|k: int| 0 <= k < front.len() implies front[k] == #[trigger] modals[k] by {}
        if latest_conflict(modals) is None {
            assert forall|k: int| 0 <= k < modals.len() implies !((
            #[trigger] modals[k]) is TransferConflict) by {
                if k < front.len() {
                    assert(front[k] == modals[k]);
                }
            }
        }
    }
}

proof fn lemma_no_host_key(modals: Seq<ModalRequest>, id: TabId)
    ensures
        latest_host_key(modals, id) is None <==> forall|k: int|
            0 <= k < modals.len() ==> !((#[trigger] modals[k]) matches ModalRequest::HostKey(prompt)
                && prompt.scope.tab_id == id),
    decreases modals.len(),
{
    if modals.len() > 0 {
        let front = modals.drop_last();
        lemma_no_host_key(front, id);
        assert(modals.last() == modals[modals.len() - 1]);
        assert forall|k: int| 0 <= k < front.len() implies front[k] == #[trigger] modals[k] by {}
        if latest_host_key(modals, id) is None {
            assert forall|k: int| 0 <= k < modals.len() implies !((
            #[trigger] modals[k]) matches ModalRequest::HostKey(prompt) && prompt.scope.tab_id
                == id) by {
                if k < front.len() {
                    assert(front[k] == modals[k]);
                }
            }
        }
    }
}

/// The settings, the profiles and the page about the application open where nothing waits for an
/// answer, and change nothing where something does.
pub proof fn law_settings_wait_for_what_is_open(
    a: &mut Workspace,
    b: &mut Workspace,
    c: &mut Workspace,
    profiles: Vec<ConnectionProfile>,
    secret_present: bool,
    k: int,
)
    requires
        *old(a) == *old(b),
        *old(a) == *old(c),
        call_ensures(Workspace::open_settings, (a,), ()),
        call_ensures(Workspace::open_profiles, (b, &profiles, secret_present), ()),
        call_ensures(Workspace::show_about, (c,), ()),
    ensures
        ({
            ||| old(a).connect_form is Some
            ||| old(a).delete_confirm is Some
            ||| old(a).go_to_path_open
            ||| 0 <= k < old(a).modals@.len() && holds_back(
                old(a).modals@[k],
                old(a).tabs.active_tab_id,
            )
        }) ==> *final(a) == *old(a) && *final(b) == *old(a) && *final(c) == *old(a),
        ({
            &&& old(a).connect_form is None
            &&& old(a).delete_confirm is None
            &&& !old(a).go_to_path_open
            &&& forall|j: int|
                0 <= j < old(a).modals@.len() ==> !holds_back(
                    #[trigger] old(a).modals@[j],
                    old(a).tabs.active_tab_id,
                )
        }) ==> {
            &&& final(a).surface is Settings
            &&& final(a).settings_section is General
            &&& !final(a).about_open
            &&& final(b).surface is Settings
            &&& final(b).settings_section is Profiles
            &&& !final(b).about_open
            &&& final(c).about_open
            &&& final(c).surface == old(c).surface
        },
        final(a).tabs == old(a).tabs,
        final(b).tabs == old(b).tabs,
        final(c).tabs == old(c).tabs,
{
    let modals = old(a).modals@;
    lemma_no_conflict(modals);
    if old(a).tabs.active_tab_id is Some {
        lemma_no_host_key(modals, old(a).tabs.active_tab_id->0);
    }
    if forall|j: int|
        0 <= j < modals.len() ==> !holds_back(#[trigger] modals[j], old(a).tabs.active_tab_id) {
        assert forall|j: int| 0 <= j < modals.len() implies !((
        #[trigger] modals[j]) is TransferConflict) by {
            assert(!holds_back(modals[j], old(a).tabs.active_tab_id));
        }
        if old(a).tabs.active_tab_id is Some {
            let id = old(a).tabs.active_tab_id->0;
            assert forall|j: int| 0 <= j < modals.len() implies !((
            #[trigger] modals[j]) matches ModalRequest::HostKey(prompt) && prompt.scope.tab_id
                == id) by {
                assert(!holds_back(modals[j], old(a).tabs.active_tab_id));
            }
        }
    }
    if 0 <= k < modals.len() && holds_back(modals[k], old(a).tabs.active_tab_id) {
        assert(modals[k] is TransferConflict || modals[k] is HostKey);
    }
}

/// Leaving the settings drops what was begun in them and shows the files again.
pub proof fn law_leaving_the_settings_drops_drafts(w: &mut Workspace)
    requires
        call_ensures(Workspace::leave_settings, (w,), ()),
    ensures
        final(w).surface is Files,
        final(w).profile_editor is None,
        final(w).selected_profile_id is None,
        final(w).profile_delete_confirm is None,
        final(w).profile_filter@.len() == 0,
        !final(w).profile_filter_focused,
        final(w).settings_section is General,
        final(w).tabs == old(w).tabs,
        final(w).modals == old(w).modals,
{
}

/// A form that describes no connection stays open as it was typed and says why.
pub proof fn law_refused_form_says_why(
    w: &mut Workspace,
    home: Option<&str>,
    e: FormError,
    text: String,
    r: Option<(ConnectionSettings, Option<ProfileId>)>,
)
    requires
        old(w).connect_form is Some,
        call_ensures(
            ConnectForm::build_settings,
            (&old(w).connect_form->0, home),
            Err::<ConnectionSettings, FormError>(e),
        ),
        call_ensures(FormError::message, (e,), text),
        call_ensures(Workspace::submit_connect_form, (w, home), r),
    ensures
        r is None,
        final(w).connect_form is Some,
        final(w).connect_form->0.error is Some,
        final(w).connect_form->0.error->0@ == text@,
        final(w).connect_form->0 == (ConnectForm {
            error: final(w).connect_form->0.error,
            ..old(w).connect_form->0
        }),
        final(w).focus == old(w).focus,
        final(w).tabs == old(w).tabs,
{
}

/// A tab that asks for another remote directory shows that it waits for it, with nothing selected;
/// where the request could not be sent it stays as it was.
pub proof fn law_tab_waits_for_its_directory(
    w: &mut Workspace,
    i: int,
    j: int,
    path: String,
    outcome: Dispatch,
    r: bool,
)
    requires
        old(w).wf(),
        0 <= i < old(w).tabs.tabs@.len(),
        0 <= j < old(w).tabs.tabs@.len(),
        i != j,
        call_ensures(
            Workspace::request_remote_directory,
            (w, old(w).tabs.tabs@[i].id, path, outcome),
            r,
        ),
    ensures
        r <==> outcome is Sent,
        final(w).tabs.tabs@.len() == old(w).tabs.tabs@.len(),
        final(w).tabs.tabs@[j] == old(w).tabs.tabs@[j],
        !r ==> final(w).tabs == old(w).tabs,
        r ==> {
            let tab = final(w).tabs.tabs@[i];
            &&& tab.selected_paths@.len() == 0
            &&& tab.remote.path == Some(path)
            &&& tab.remote.is_refreshing
            &&& tab.remote.error is None
            &&& tab.remote.entries == old(w).tabs.tabs@[i].remote.entries
            &&& tab.local == old(w).tabs.tabs@[i].local
            &&& tab.connection == old(w).tabs.tabs@[i].connection
        },
{
    lemma_tab_at(old(w).tabs.tabs@, i);
}

/// A file whose size and age are put into a listing changes no other tab, nor which tab is shown.
pub proof fn law_written_file_is_of_its_tab(
    w: &mut Workspace,
    i: int,
    j: int,
    path: &str,
    snapshot: RemoteSnapshot,
    r: bool,
)
    requires
        old(w).wf(),
        0 <= i < old(w).tabs.tabs@.len(),
        0 <= j < old(w).tabs.tabs@.len(),
        i != j,
        call_ensures(
            Workspace::sync_remote_entry_snapshot,
            (w, old(w).tabs.tabs@[i].id, path, snapshot),
            r,
        ),
    ensures
        final(w).tabs.tabs@.len() == old(w).tabs.tabs@.len(),
        final(w).tabs.tabs@[j] == old(w).tabs.tabs@[j],
        final(w).tabs.tabs@[i].local == old(w).tabs.tabs@[i].local,
        final(w).tabs.tabs@[i].remote.path == old(w).tabs.tabs@[i].remote.path,
        final(w).tabs.tabs@[i].selected_paths == old(w).tabs.tabs@[i].selected_paths,
        final(w).tabs.active_tab_id == old(w).tabs.active_tab_id,
        final(w).tabs.mru == old(w).tabs.mru,
        final(w).modals == old(w).modals,
{
    lemma_tab_at(old(w).tabs.tabs@, i);
}

/// Looking at a copy uses up the number of a check only where a check begins, and never that of an
/// edit.
pub proof fn law_only_checks_use_up_numbers(
    store: &mut EditSessionStore,
    id: EditSessionId,
    look: TempLook,
    ready: bool,
    r: WatchStep,
)
    requires
        old(store).wf(),
        call_ensures(EditSessionStore::poll_session, (store, id, look, ready), r),
    ensures
        r is Check ==> final(store).next_check_id == if old(store).next_check_id == u64::MAX {
            0
        } else {
            old(store).next_check_id + 1
        },
        r is Check ==> r->Check_0.check_id.0 == old(store).next_check_id,
        !(r is Check) ==> final(store).next_check_id == old(store).next_check_id,
        final(store).next_id == old(store).next_id,
        r is Reaped <==> final(store).sessions@.len() < old(store).sessions@.len(),
        !(r is Reaped) ==> final(store).sessions@.len() == old(store).sessions@.len(),
{
    crate::edit_sessions::lemma_session_index(old(store).sessions@, id);
}

/// Where no question waits the window stays as it was; a single one that is new is put in front,
/// with the name that was made up for it.
pub proof fn law_put_question_can_be_answered(
    windows: &mut Vec<Workspace>,
    active: Option<usize>,
    pending: Vec<ConflictRequest>,
    names: Vec<String>,
    w: int,
)
    requires
        pending@.len() == names@.len(),
        pending@.len() <= 1,
        0 <= w < old(windows)@.len(),
        active == Some(w as usize),
        w == (w as usize),
        call_ensures(
            present_orphaned_transfer_conflicts,
            (windows, active, &pending, &names),
            (),
        ),
    ensures
        pending@.len() == 0 ==> {
            &&& final(windows)@[w].modals@ == old(windows)@[w].modals@
            &&& final(windows)@[w].conflict_rename == old(windows)@[w].conflict_rename
            &&& final(windows)@[w].conflict_rename_error == old(windows)@[w].conflict_rename_error
            &&& final(windows)@[w].focus == old(windows)@[w].focus
        },
        pending@.len() == 1 && (forall|v: int|
            0 <= v < old(windows)@.len() ==> (#[trigger] old(windows)@[v]).modals@.len() == 0) ==> {
            &&& final(windows)@[w].modals@.len() == 1
            &&& final(windows)@[w].conflict_rename == names@[0]
            &&& final(windows)@[w].conflict_rename_error is None
            &&& final(windows)@[w].focus is Modal
        },
{
    let before = old(windows)@;
    let p = pending@;
    if p.len() == 1 {
        let front = p.drop_last();
        assert(front.len() == 0);
        assert(crate::event_coordinator::unasked_at(before, front).len() == 0);
        assert(p.last() == p[0]);
        reveal_with_fuel(crate::event_coordinator::unasked_at, 2);
        assert(crate::event_coordinator::unasked_at(before, p).len() <= 1);
    }
}

/// Another tab is shown without the filters and the range of the one before.
pub proof fn law_filters_stay_with_their_tab(w: &mut Workspace, id: TabId, r: bool)
    requires
        old(w).wf(),
        call_ensures(Workspace::activate_tab, (w, id), r),
    ensures
        r ==> {
            &&& final(w).local_filter.query@.len() == 0
            &&& final(w).local_filter.input@.len() == 0
            &&& final(w).remote_filter.query@.len() == 0
            &&& final(w).remote_filter.input@.len() == 0
            &&& !final(w).local_filter.explicit_focus
            &&& !final(w).remote_filter.explicit_focus
            &&& final(w).selection_anchor is None
            &&& final(w).tabs.active_tab_id == Some(id)
        },
        final(w).tabs.tabs == old(w).tabs.tabs,
        final(w).modals == old(w).modals,
        final(w).focus == old(w).focus,
{
}

/// Closing the palette or the field for a path drops what was typed there.
pub proof fn law_closed_fields_are_empty(a: &mut Workspace, b: &mut Workspace)
    requires
        call_ensures(Workspace::close_command_palette, (a,), ()),
        call_ensures(Workspace::close_go_to_path, (b,), ()),
    ensures
        !final(a).palette.open,
        final(a).palette.input@.len() == 0,
        final(a).palette.selected == 0,
        final(a).tabs == old(a).tabs,
        !final(b).go_to_path_open,
        final(b).go_to_path_input@.len() == 0,
        final(b).go_to_path_error is None,
        final(b).tabs == old(b).tabs,
{
}

/// A session that is written, at the end or after a window was closed, carries the version that is
/// read back, and the order of its windows is the one that is gone by from then on.
pub proof fn law_written_session_sets_the_order(
    a: &mut SessionCoordinator,
    b: &mut SessionCoordinator,
    windows: Vec<SessionWindowSnapshot>,
    active: Option<WindowSessionId>,
    unreadable: bool,
    quit: Checkpoint,
    closed: Option<Checkpoint>,
    empty: SessionFile,
    k: int,
)
    requires
        call_ensures(SessionFile::empty, (), empty),
        !old(a).quitting,
        !old(b).quitting,
        call_ensures(checkpoint_before_quit, (a, windows, active, unreadable), quit),
        call_ensures(checkpoint_after_window_closed, (b, windows, active, unreadable), closed),
    ensures
        closed is Some,
        quit.file.version == empty.version,
        closed->0.file.version == empty.version,
        final(a).window_order@.len() == quit.file.windows@.len(),
        final(b).window_order@.len() == closed->0.file.windows@.len(),
        0 <= k < quit.file.windows@.len() ==> final(a).window_order@[k]
            == quit.file.windows@[k].id,
        0 <= k < closed->0.file.windows@.len() ==> final(b).window_order@[k]
            == closed->0.file.windows@[k].id,
        final(a).quitting,
        !final(b).quitting,
        quit.released@.len() == 0,
{
    if 0 <= k < quit.file.windows@.len() {
        assert(window_ids(quit.file.windows@)[k] == quit.file.windows@[k].id);
    }
    if 0 <= k < closed->0.file.windows@.len() {
        assert(window_ids(closed->0.file.windows@)[k] == closed->0.file.windows@[k].id);
    }
}

/// Following a command for an edit uses up no numbers, and touches that edit alone.
pub proof fn law_followed_command_is_of_its_edit(
    store: &mut EditSessionStore,
    id: EditSessionId,
    mtime: Option<Timestamp>,
    outcome: Option<Dispatch>,
    k: int,
)
    requires
        old(store).wf(),
        call_ensures(EditSessionStore::edit_command_sent, (store, id, mtime, outcome), ()),
        0 <= k < old(store).sessions@.len(),
    ensures
        final(store).next_id == old(store).next_id,
        final(store).next_check_id == old(store).next_check_id,
        final(store).sessions@.len() == old(store).sessions@.len(),
        old(store).sessions@[k].id != id ==> final(store).sessions@[k] == old(store).sessions@[k],
        outcome == Some(Dispatch::Sent) ==> final(store).sessions@ == old(store).sessions@,
{
    crate::edit_sessions::lemma_session_index(old(store).sessions@, id);
}

/// An edit that begins has nothing under way but its download, and nothing against it yet.
pub proof fn law_new_edit_starts_clean(
    store: &mut EditSessionStore,
    pending: PendingEdit,
    dir: &str,
    run: &str,
    r: (EditSessionId, StartTransferCommand),
)
    requires
        old(store).wf(),
        old(store).next_id < u64::MAX,
        call_ensures(EditSessionStore::start_edit_download, (store, &pending, dir, run), r),
    ensures
        ({
            let session = final(store).sessions@.last();
            &&& session.id == r.0
            &&& session.remote_path == pending.remote_path
            &&& session.tab_id == pending.tab_id
            &&& session.session_epoch == pending.session_epoch
            &&& session.profile_id == pending.profile_id
            &&& session.phase is Downloading
            &&& session.remote_snapshot.size == pending.size
            &&& session.remote_snapshot.modified_at == pending.modified_at
            &&& session.local_mtime is None
            &&& session.active_transfer is None
            &&& session.pending_check_id is None
            &&& session.checking_local_mtime is None
            &&& session.missing_ticks == 0
        }),
{
}

/// A connection that the user calls off leaves the tab disconnected, with an empty remote pane.
pub proof fn law_called_off_tab_is_empty(w: &mut Workspace, i: int, j: int, outcome: Dispatch)
    requires
        shows(*old(w), i),
        0 <= j < old(w).tabs.tabs@.len(),
        j != i,
        call_ensures(Workspace::cancel_connect, (w, outcome), ()),
        final(w).tabs.tabs@[i] != old(w).tabs.tabs@[i],
    ensures
        final(w).tabs.tabs@[i].connection is Disconnected,
        final(w).tabs.tabs@[i].remote.path is None,
        final(w).tabs.tabs@[i].remote.entries@.len() == 0,
        !final(w).tabs.tabs@[i].remote.is_refreshing,
        final(w).tabs.tabs@[i].remote.error is None,
        final(w).tabs.tabs@[i].local == old(w).tabs.tabs@[i].local,
        final(w).tabs.tabs@[j] == old(w).tabs.tabs@[j],
{
    lemma_shown(*old(w), i);
}

/// One tab was used later than another.
pub open spec fn used_later(mru: Seq<TabId>, a: TabId, b: TabId) -> bool {
    exists|i: int, j: int|
        0 <= i < j < mru.len() && #[trigger] mru[i] == a && #[trigger] mru[j] == b
}

proof fn lemma_filter_keeps_order(mru: Seq<TabId>, id: TabId, a: TabId, b: TabId)
    requires
        used_later(mru, a, b),
        a != id,
        b != id,
    ensures
        used_later(mru.filter(other_than(id)), a, b),
    decreases mru.len(),
{
    reveal(Seq::filter);
    let keep = other_than(id);
    let (i, j) = choose|i: int, j: int|
        0 <= i < j < mru.len() && #[trigger] mru[i] == a && #[trigger] mru[j] == b;
    let front = mru.drop_last();
    let rest = front.filter(keep);
    let all = mru.filter(keep);
    if j < mru.len() - 1 {
        assert(front[i] == a && front[j] == b);
        lemma_filter_keeps_order(front, id, a, b);
        let (x, y) = choose|x: int, y: int|
            0 <= x < y < rest.len() && #[trigger] rest[x] == a && #[trigger] rest[y] == b;
        assert(all[x] == a && all[y] == b);
    } else {
        lemma_filter_holds(front, keep);
        assert(front[i] == a);
        assert(front.contains(a));
        assert(rest.contains(a));
        let x = choose|x: int| 0 <= x < rest.len() && rest[x] == a;
        assert(all == rest.push(b));
        assert(all[x] == a && all[rest.len() as int] == b);
    }
}

proof fn lemma_touched_keeps_order(mru: Seq<TabId>, id: TabId, a: TabId, b: TabId)
    requires
        used_later(mru, a, b),
        a != id,
        b != id,
    ensures
        used_later(touched(mru, id), a, b),
{
    lemma_filter_keeps_order(mru, id, a, b);
    let rest = mru.filter(other_than(id));
    let (x, y) = choose|x: int, y: int|
        0 <= x < y < rest.len() && #[trigger] rest[x] == a && #[trigger] rest[y] == b;
    let all = touched(mru, id);
    assert(all[x + 1] == a && all[y + 1] == b);
}

/// The tab that is shown is the one used last; the others keep the order in which they were used.
pub proof fn law_shown_tab_was_used_last(w: &mut Workspace, id: TabId, a: TabId, b: TabId, r: bool)
    requires
        old(w).wf(),
        call_ensures(Workspace::activate_tab, (w, id), r),
        r,
    ensures
        final(w).tabs.mru@[0] == id,
        final(w).tabs.active_tab_id == Some(id),
        a != id && b != id && used_later(old(w).tabs.mru@, a, b) ==> used_later(
            final(w).tabs.mru@,
            a,
            b,
        ),
{
    if a != id && b != id && used_later(old(w).tabs.mru@, a, b) {
        lemma_touched_keeps_order(old(w).tabs.mru@, id, a, b);
    }
}

/// A tab that was closed is not switched to any more; the others are, and the switcher closes with
/// the last of them.
pub proof fn law_closed_tab_leaves_the_switcher(
    w: &mut Workspace,
    edits: &mut EditSessionStore,
    id: TabId,
    a: TabId,
    b: TabId,
    outcome: Dispatch,
    r: Option<ClosedTab>,
)
    requires
        old(w).wf(),
        old(edits).wf(),
        call_ensures(Workspace::close_tab_by_id, (w, id, edits, outcome), r),
        r is Some,
        a != id,
        b != id,
    ensures
        !final(w).tabs.mru@.contains(id),
        final(w).tabs.mru@.contains(a) <==> old(w).tabs.mru@.contains(a),
        used_later(old(w).tabs.mru@, a, b) && final(w).tabs.active_tab_id != Some(a)
            && final(w).tabs.active_tab_id != Some(b) ==> used_later(final(w).tabs.mru@, a, b),
        final(w).tabs.active_tab_id is Some ==> final(w).tabs.mru@[0]
            == final(w).tabs.active_tab_id->0,
        final(w).tabs.switcher_open ==> old(w).tabs.switcher_open && final(w).tabs.tabs@.len() > 0,
        final(w).tabs.switcher_open ==> final(w).tabs.switcher_index < final(w).tabs.mru@.len(),
        old(w).tabs.switcher_open && final(w).tabs.tabs@.len() > 0 ==> final(w).tabs.switcher_open,
        !final(w).tabs.switcher_open ==> final(w).tabs.switcher_index == 0,
{
    let before = old(w).tabs;
    let after = final(w).tabs;
    let i = tab_index(before.tabs@, id);
    lemma_tab_index(before.tabs@, id);
    lemma_has_tab(before.tabs@, a);
    lemma_has_tab(before.tabs@, id);
    lemma_has_tab(after.tabs@, a);
    lemma_has_tab(after.tabs@, id);
    let kept = before.mru@.filter(other_than(id));
    lemma_filter_holds(before.mru@, other_than(id));
    if after.active_tab_id is Some {
        law_touched_order(kept, after.active_tab_id->0);
    }
    if used_later(before.mru@, a, b) && after.active_tab_id != Some(a) && after.active_tab_id
        != Some(b) {
        lemma_filter_keeps_order(before.mru@, id, a, b);
        if after.active_tab_id is Some {
            lemma_touched_keeps_order(kept, after.active_tab_id->0, a, b);
        }
    }
    if after.active_tab_id is Some {
        let next = after.active_tab_id->0;
        assert(after.mru@.contains(after.mru@[0]));
        assert(has_tab(after.tabs@, next));
        lemma_has_tab(after.tabs@, next);
        let m = choose|m: int| 0 <= m < after.tabs@.len() && (#[trigger] after.tabs@[m]).id == next;
        let at = if m < i {
            m
        } else {
            m + 1
        };
        assert(after.tabs@[m] == before.tabs@[at]);
        assert(before.tabs@[at].id == next);
        lemma_has_tab(before.tabs@, next);
        assert(next != id);
    }
}

/// A new tab has nothing listed, nothing selected and nowhere to go back or on to, and is not
/// connected.
pub proof fn law_new_tab_is_empty(id: TabId, title: String, r: TabState)
    requires
        call_ensures(TabState::new, (id, title), r),
    ensures
        r.connection is Empty,
        r.session_epoch == 0,
        r.local.path is None && r.local.entries@.len() == 0 && r.local.error is None,
        r.remote.path is None && r.remote.entries@.len() == 0 && r.remote.error is None,
        !r.local.is_refreshing && !r.remote.is_refreshing,
        r.selected_paths@.len() == 0,
        r.sort.field is Name && r.sort.direction is Ascending,
        r.connection_settings is None,
        r.local_history.past().len() == 0 && r.local_history.ahead().len() == 0,
        r.remote_history.past().len() == 0 && r.remote_history.ahead().len() == 0,
        r.title == title,
{
}

/// A new window has no question, no form, no field and no page open, filters nothing, and starts in
/// the local pane with the transfers shown.
pub proof fn law_new_window_is_quiet(
    id: WindowSessionId,
    path: String,
    failed: bool,
    restore: Option<&SessionWindowSnapshot>,
    ids: &mut TabIdCounter,
    r: Workspace,
)
    requires
        restore is Some ==> old(ids).next + restore->0.tabs@.len() <= u64::MAX,
        old(ids).next < u64::MAX,
        call_ensures(Workspace::new, (id, path, failed, restore, ids), r),
    ensures
        r.window_session_id == id,
        r.default_local_path == path,
        r.modals@.len() == 0,
        r.next_session_id == 1,
        r.focus is LocalPane && r.focused_side is Local,
        r.surface is Files && r.settings_section is General,
        r.profile_filter@.len() == 0 && !r.profile_filter_focused,
        r.selected_profile_id is None && r.profile_editor is None,
        r.profile_delete_confirm is None && r.large_edit_confirm is None,
        !r.about_open,
        r.drawer_open && r.drawer_resize is None,
        !r.completed_section_expanded && !r.failed_section_expanded,
        r.status_message is None,
        r.config_error is Some <==> failed,
        r.connect_form is None,
        r.conflict_rename@.len() == 0 && r.conflict_rename_error is None,
        r.delete_confirm is None && r.inline_edit is None && r.context_menu is None,
        !r.go_to_path_open && r.go_to_path_input@.len() == 0 && r.go_to_path_error is None,
        !r.palette.open && r.palette.input@.len() == 0 && r.palette.selected == 0,
        r.local_filter.query@.len() == 0 && r.local_filter.input@.len() == 0,
        r.remote_filter.query@.len() == 0 && r.remote_filter.input@.len() == 0,
        !r.local_filter.explicit_focus && !r.remote_filter.explicit_focus,
        r.selection_anchor is None,
{
}

/// An open palette takes the keys that it knows and what is typed; other keys, and all keys where
/// it is closed, go on to the window and change nothing.
pub proof fn law_palette_takes_its_keys(
    w: &mut Workspace,
    stroke: Keystroke,
    typed: Option<String>,
    r: PaletteKey,
)
    requires
        call_ensures(Workspace::handle_command_palette_key, (w, &stroke, typed), r),
    ensures
        r is Unused ==> *final(w) == *old(w),
        !old(w).palette.open ==> r is Unused,
        old(w).palette.open && (stroke.is_plain("enter"@) || stroke.is_plain("up"@)
            || stroke.is_plain("down"@) || typed is Some) ==> !(r is Unused),
        old(w).palette.open && typed is Some && !stroke.is_plain("enter"@) && !stroke.is_plain("up"@)
            && !stroke.is_plain("down"@) ==> r is Used && final(w).palette.input == typed->0
            && final(w).palette.selected == 0 && final(w).palette.open,
        r is Run ==> !final(w).palette.open && stroke.is_plain("enter"@),
        final(w).tabs == old(w).tabs,
{
}

/// The form that is opened for a tab that was restored holds no secrets, and says where the tab
/// was connected to.
pub proof fn law_restored_tab_holds_no_secrets(
    w: &mut Workspace,
    i: int,
    profiles: Vec<ConnectionProfile>,
)
    requires
        shows(*old(w), i),
        old(w).tabs.tabs@[i].connection_settings is None,
        old(w).tabs.tabs@[i].restored_target is Some,
        call_ensures(Workspace::open_connect_form, (w, &profiles), ()),
    ensures
        final(w).connect_form is Some,
        final(w).connect_form->0.password@.len() == 0,
        final(w).connect_form->0.passphrase@.len() == 0,
        final(w).connect_form->0.error is None,
        ({
            let target = old(w).tabs.tabs@[i].restored_target->0;
            let form = final(w).connect_form->0;
            target.profile_id is None ==> {
                &&& form.host == target.host
                &&& form.port@ == decimal(target.port as nat)
                &&& form.username == target.username
                &&& form.source_profile_id is None
                &&& form.key_path@.len() == 0
                &&& form.auth_method is Password
            }
        }),
{
    lemma_shown(*old(w), i);
}

proof fn lemma_place_is(order: Seq<WindowSessionId>, id: WindowSessionId, k: int)
    requires
        0 <= k < order.len(),
        order[k] == id,
        forall|j: int| 0 <= j < k ==> #[trigger] order[j] != id,
    ensures
        place(order, id) == k,
    decreases k,
{
    if k > 0 {
        assert(order[0] != id);
        let rest = order.drop_first();
        assert(rest[k - 1] == id);
        assert forall|j: int| 0 <= j < k - 1 implies #[trigger] rest[j] != id by {
            assert(rest[j] == order[j + 1]);
        }
        lemma_place_is(rest, id, k - 1);
    }
}

/// The written session says which of its windows was in front.
pub proof fn law_window_in_front_is_remembered(
    c: &mut SessionCoordinator,
    windows: Vec<SessionWindowSnapshot>,
    id: WindowSessionId,
    unreadable: bool,
    k: int,
    r: Checkpoint,
)
    requires
        call_ensures(checkpoint_before_quit, (c, windows, Some(id), unreadable), r),
        0 <= k < r.file.windows@.len(),
        r.file.windows@[k].id == id,
        forall|j: int| 0 <= j < k ==> (#[trigger] r.file.windows@[j]).id != id,
    ensures
        r.file.active_window_index == k,
{
    let ids = window_ids(r.file.windows@);
    assert(ids[k] == id);
    assert forall|j: int| 0 <= j < k implies #[trigger] ids[j] != id by {
        assert(ids[j] == r.file.windows@[j].id);
    }
    lemma_place_is(ids, id, k);
}

/// The editor of a new profile holds nothing but the usual port.
pub proof fn law_new_profile_starts_empty(r: ProfileEditorState)
    requires
        call_ensures(ProfileEditorState::blank, (), r),
    ensures
        r.is_new,
        r.profile_id is None,
        r.name@.len() == 0 && r.host@.len() == 0 && r.username@.len() == 0,
        r.port@ == "22"@,
        r.auth_method is Password,
        r.key_path@.len() == 0 && r.default_remote_path@.len() == 0,
        r.password@.len() == 0 && r.passphrase@.len() == 0,
        !r.secret_present_hint,
        r.error is None,
{
}

/// A file cannot be edited before the tab is connected, and the user is told so.
pub proof fn law_edit_needs_a_connection(
    w: &mut Workspace,
    store: &mut EditSessionStore,
    i: int,
    target: EditTarget,
    live: Vec<TabId>,
    config: Config,
    r: (EditStart, Vec<EditSession>),
)
    requires
        shows(*old(w), i),
        old(store).wf(),
        !(old(w).tabs.tabs@[i].connection is Connected),
        call_ensures(Workspace::begin_edit, (w, target, store, &live, &config), r),
    ensures
        r.0 is Nothing,
        final(w).status_message is Some,
        final(w).status_message->0@ == "Connect before editing"@,
        final(w).large_edit_confirm == old(w).large_edit_confirm,
        final(w).tabs == old(w).tabs,
{
    lemma_shown(*old(w), i);
}

/// Closing the list of profiles in the form drops its filter and keeps what was typed.
pub proof fn law_closed_picker_is_empty(form: &mut ConnectForm)
    requires
        call_ensures(ConnectForm::close_profile_picker, (form,), ()),
    ensures
        !final(form).profile_picker_open,
        final(form).profile_picker_filter@.len() == 0,
        final(form).host == old(form).host,
        final(form).port == old(form).port,
        final(form).username == old(form).username,
        final(form).password == old(form).password,
        final(form).passphrase == old(form).passphrase,
        final(form).key_path == old(form).key_path,
        final(form).source_profile_id == old(form).source_profile_id,
{
}

/// However the form is opened, it starts at its first field, with no complaint and no list open.
pub proof fn law_opened_form_is_at_its_start(
    w: &mut Workspace,
    i: int,
    profiles: Vec<ConnectionProfile>,
)
    requires
        shows(*old(w), i),
        old(w).tabs.tabs@[i].connection_settings is Some
            || old(w).tabs.tabs@[i].restored_target is None,
        call_ensures(Workspace::open_connect_form, (w, &profiles), ()),
    ensures
        final(w).connect_form is Some,
        final(w).connect_form->0.focused_field is Host,
        final(w).connect_form->0.error is None,
        !final(w).connect_form->0.profile_picker_open,
        final(w).connect_form->0.profile_picker_filter@.len() == 0,
        final(w).focus is ConnectForm,
        final(w).tabs == old(w).tabs,
{
    lemma_shown(*old(w), i);
}

/// The page of profiles shows its filter, and lists what the filter finds; where nothing is saved,
/// or nothing is found, it says so.
pub proof fn law_profiles_page_lists_what_is_found(
    w: Workspace,
    config: Config,
    profiles: Vec<ConnectionProfile>,
    filter: &str,
    found: Vec<ConnectionProfile>,
    k: int,
    r: SettingsPage,
)
    requires
        filter@ == w.profile_filter@,
        call_ensures(filtered_profiles, (&profiles, filter), found),
        call_ensures(Workspace::settings_page, (&w, &config, &profiles), r),
    ensures
        r is General <==> w.settings_section is General,
        r matches SettingsPage::General { appearance, config_error } ==> appearance
            == config.appearance && config_error == w.config_error,
        r matches SettingsPage::Profiles(page) ==> {
            &&& page.filter == w.profile_filter
            &&& page.filter_focused == w.profile_filter_focused
            &&& page.list is NoProfiles <==> profiles@.len() == 0
            &&& page.list is NoMatches ==> found@.len() == 0
            &&& page.list matches ProfileList::Rows(rows) ==> rows@.len() == found@.len()
            &&& page.list matches ProfileList::Rows(rows) ==> (0 <= k < rows@.len() ==> {
                &&& rows@[k].id == found@[k].id
                &&& rows@[k].selected ==> w.selected_profile_id == Some(found@[k].id)
                &&& w.selected_profile_id == Some(found@[k].id) && w.profile_editor is None
                    ==> rows@[k].selected
            })
            &&& page.detail is Editor <==> w.profile_editor is Some
            &&& page.detail is CreateFirst <==> w.profile_editor is None && profiles@.len() == 0
        },
{
}

/// Each copy that is watched is looked at once, in the order of the watch list.
pub proof fn law_every_watched_copy_is_looked_at(
    store: &mut EditSessionStore,
    looks: Vec<(TempLook, bool)>,
    ids: Vec<EditSessionId>,
    r: Vec<WatchStep>,
)
    requires
        old(store).wf(),
        call_ensures(EditSessionStore::watch_candidates, (&*old(store),), ids),
        looks@.len() == ids@.len(),
        call_ensures(EditSessionStore::poll_edit_sessions, (store, &looks), r),
    ensures
        r@.len() == ids@.len(),
        ids@.len() == 0 ==> *final(store) == *old(store),
{
    let stores = choose|stores: Seq<EditSessionStore>|
        crate::edit_sessions::poll_chain(stores, *old(store), *final(store), looks@, r@);
    assert(crate::edit_sessions::poll_chain(stores, *old(store), *final(store), looks@, r@));
}

} // verus!
