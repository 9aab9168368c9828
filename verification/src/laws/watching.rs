//! The files that are being edited: how they are kept, found and let go.

use vstd::prelude::*;

use super::common::lemma_tab_at;
use crate::dispatch::sync_listing;
use crate::edit_sessions::{
    keeps_copy_at, lemma_candidates, lemma_first_where, lemma_first_where_bound, lemma_session_at,
    lemma_session_missing, not_of_tab, of_tab, orphaned, owned, EditSession, EditSessionStore,
};
use crate::file_ops::parent_entry;
use crate::lists::lemma_filter_holds;
use crate::model::{
    Dispatch, EditSessionId, EntryPath, FileEntry, FsScope, PaneSide, PathView, ProfileId,
    RemoteSnapshot, StartTransferCommand, TabId, Timestamp, UserFacingError,
};
use crate::remote_edit::build_edit_upload_command;
use crate::session_coordinator::{window_ids, SaveAction, SessionCoordinator, SessionFile};
use crate::workspace::Workspace;

verus! {

/// An edit that is registered is kept until it is removed, and is then handed out; the others stay.
pub proof fn law_registered_edit_is_kept_until_removed(
    a: &mut EditSessionStore,
    b: &mut EditSessionStore,
    session: EditSession,
    other: EditSession,
    r: Option<EditSession>,
    again: &mut EditSessionStore,
    gone: Option<EditSession>,
)
    requires
        old(a).wf(),
        forall|j: int| 0 <= j < old(a).sessions@.len() ==> (#[trigger] old(a).sessions@[j]).id
            != session.id,
        call_ensures(EditSessionStore::register, (a, session), ()),
        *old(b) == *final(a),
        call_ensures(EditSessionStore::remove, (b, session.id), r),
        *old(again) == *final(b),
        call_ensures(EditSessionStore::remove, (again, session.id), gone),
    ensures
        final(a).sessions@.contains(session),
        final(a).sessions@.contains(other) <==> old(a).sessions@.contains(other) || other
            == session,
        r == Some(session),
        final(b).sessions@ == old(a).sessions@,
        gone is None,
        *final(again) == *final(b),
{
    let n = old(a).sessions@.len() as int;
    assert(final(a).sessions@[n] == session);
    lemma_session_at(final(a).sessions@, n);
    assert(final(a).sessions@.remove(n) =~= old(a).sessions@);
    lemma_session_missing(final(b).sessions@, session.id);
    if old(a).sessions@.contains(other) {
        let k = choose|k: int| 0 <= k < n && old(a).sessions@[k] == other;
        assert(final(a).sessions@[k] == other);
    }
}

/// Ids of edits are handed out once.
pub proof fn law_edit_ids_are_handed_out_once(
    a: &mut EditSessionStore,
    b: &mut EditSessionStore,
    i: int,
    first: EditSessionId,
    second: EditSessionId,
)
    requires
        old(a).wf(),
        0 <= i < old(a).sessions@.len(),
        call_ensures(EditSessionStore::allocate_id, (a,), first),
        *old(b) == *final(a),
        call_ensures(EditSessionStore::allocate_id, (b,), second),
        old(a).next_id < u64::MAX,
    ensures
        first != second,
        first != old(a).sessions@[i].id,
        final(b).sessions == old(a).sessions,
{
    lemma_session_at(old(a).sessions@, i);
}

/// The edits of a tab that closes are handed out, all of them and no other, and those of the other
/// tabs stay. So are those of tabs that are gone.
pub proof fn law_edits_go_with_their_tab(
    a: &mut EditSessionStore,
    b: &mut EditSessionStore,
    tab_id: TabId,
    live: Vec<TabId>,
    session: EditSession,
    closed: Vec<EditSession>,
    lost: Vec<EditSession>,
)
    requires
        old(a).wf(),
        old(b).wf(),
        call_ensures(EditSessionStore::remove_for_tab, (a, tab_id), closed),
        call_ensures(EditSessionStore::remove_orphaned, (b, &live), lost),
    ensures
        closed@.contains(session) <==> old(a).sessions@.contains(session) && session.tab_id
            == tab_id,
        final(a).sessions@.contains(session) <==> old(a).sessions@.contains(session)
            && session.tab_id != tab_id,
        lost@.contains(session) <==> old(b).sessions@.contains(session) && !live@.contains(
            session.tab_id,
        ),
        final(b).sessions@.contains(session) <==> old(b).sessions@.contains(session)
            && live@.contains(session.tab_id),
{
    lemma_filter_holds(old(a).sessions@, of_tab(tab_id));
    lemma_filter_holds(old(a).sessions@, not_of_tab(tab_id));
    lemma_filter_holds(old(b).sessions@, orphaned(live@));
    lemma_filter_holds(old(b).sessions@, owned(live@));
}

/// A tab that connects anew takes its edits with it, and only its own.
pub proof fn law_edits_move_on_with_their_tab(
    store: &mut EditSessionStore,
    tab_id: TabId,
    epoch: u64,
    k: int,
)
    requires
        old(store).wf(),
        0 <= k < old(store).sessions@.len(),
        call_ensures(EditSessionStore::update_epoch_for_tab, (store, tab_id, epoch), ()),
    ensures
        final(store).sessions@.len() == old(store).sessions@.len(),
        ({
            let was = old(store).sessions@[k];
            let now = final(store).sessions@[k];
            &&& was.tab_id == tab_id ==> now == (EditSession { session_epoch: epoch, ..was })
            &&& was.tab_id != tab_id ==> now == was
        }),
{
}

/// A temporary file belongs to the first edit that keeps its copy there.
pub proof fn law_edit_is_found_by_its_copy(
    store: EditSessionStore,
    path: &str,
    k: int,
    r: Option<usize>,
)
    requires
        call_ensures(EditSessionStore::find_by_temp_path, (&store, path), r),
    ensures
        0 <= k < store.sessions@.len() && store.sessions@[k].local_temp_path@ == path@ && (forall|
            j: int,
        |
            0 <= j < k ==> (#[trigger] store.sessions@[j]).local_temp_path@ != path@) ==> r is Some
            && r->0 == k,
        (forall|j: int|
            0 <= j < store.sessions@.len() ==> (#[trigger] store.sessions@[j]).local_temp_path@
                != path@) ==> r is None,
{
    let meets = keeps_copy_at(path@);
    if 0 <= k < store.sessions@.len() && store.sessions@[k].local_temp_path@ == path@ && (forall|
        j: int,
    |
        0 <= j < k ==> (#[trigger] store.sessions@[j]).local_temp_path@ != path@) {
        lemma_first_where(store.sessions@, meets, k);
    }
    lemma_first_where_bound(store.sessions@, meets);
}

/// The copies that are looked at are those of the files that are open, that wait for an answer or
/// whose check is under way, each once.
pub proof fn law_open_files_are_watched(store: EditSessionStore, k: int, r: Vec<EditSessionId>)
    requires
        store.wf(),
        0 <= k < store.sessions@.len(),
        call_ensures(EditSessionStore::watch_candidates, (&store,), r),
    ensures
        r@.contains(store.sessions@[k].id) <==> store.sessions@[k].phase is Editing
            || store.sessions@[k].phase is RemoteConflict
            || store.sessions@[k].phase is CheckingRemote,
        r@.no_duplicates(),
{
    lemma_candidates(store);
    lemma_session_at(store.sessions@, k);
}

/// Times cut to whole seconds are never later and never more than a second earlier, and cutting
/// them again changes nothing.
pub proof fn law_times_are_cut_to_seconds(t: Timestamp, secs: u64, r: Timestamp, s: Timestamp, w: Timestamp)
    requires
        call_ensures(Timestamp::truncated_to_secs, (t,), r),
        call_ensures(Timestamp::truncated_to_secs, (r,), s),
        call_ensures(Timestamp::from_secs_since_epoch, (secs,), w),
    ensures
        r.0 <= t.0 < r.0 + 1_000_000_000,
        r.0 % 1_000_000_000 == 0,
        s == r,
        w.0 == secs * 1_000_000_000,
{
}

/// An edited file is written back from its copy to where it came from, over what is there.
pub proof fn law_edit_is_written_back(
    temp: &str,
    path: &str,
    epoch: u64,
    profile_id: ProfileId,
    tab_id: TabId,
    r: StartTransferCommand,
)
    requires
        call_ensures(build_edit_upload_command, (temp, path, epoch, profile_id, tab_id), r),
    ensures
        r.direction is Upload,
        r.sources@.len() == 1,
        r.sources@[0]@ == (PathView { side: PaneSide::Local, text: temp@ }),
        r.destination@ == (PathView { side: PaneSide::Remote, text: path@ }),
        r.tab_id == tab_id,
        r.session_epoch == epoch,
        r.profile_id == profile_id,
        r.conflict_policy is OverwriteAll,
{
    let v = crate::selection::views(r.sources@);
    assert(v.len() == r.sources@.len());
    assert(v[0] == r.sources@[0]@);
}

/// The directory of an entry is on the side of the entry.
pub proof fn law_directory_is_on_the_same_side(
    path: EntryPath,
    t: &str,
    above: Option<String>,
    r: Option<EntryPath>,
)
    requires
        t@ == path@.text,
        call_ensures(crate::nav::parent_of, (t,), above),
        call_ensures(parent_entry, (&path,), r),
    ensures
        r is Some <==> above is Some,
        r is Some ==> r->0@ == (PathView { side: path@.side, text: above->0@ }),
{
}

/// An operation on this machine always starts, one on the server where its command was sent; the
/// window says which.
pub proof fn law_operation_starts_where_it_can(
    w: &mut Workspace,
    scope: FsScope,
    outcome: Dispatch,
    r: bool,
)
    requires
        call_ensures(Workspace::dispatch_fs, (w, scope, outcome), r),
    ensures
        r <==> scope is Local || outcome is Sent,
        final(w).status_message is Some,
        final(w).tabs == old(w).tabs,
{
}

/// An operation that failed is told; one that went well leaves no word behind where nothing is
/// read again.
pub proof fn law_finished_operation_is_told(
    a: &mut Workspace,
    b: &mut Workspace,
    error: UserFacingError,
    refreshes: bool,
)
    requires
        call_ensures(Workspace::local_fs_finished, (a, Some(&error), refreshes), ()),
        call_ensures(Workspace::local_fs_finished, (b, None, refreshes), ()),
    ensures
        final(a).status_message is Some,
        final(a).status_message->0@ == error.title@ + seq![':', ' '] + error.message@,
        !refreshes ==> final(b).status_message is None,
        refreshes ==> final(b).status_message == old(b).status_message,
{
    reveal_strlit(": ");
    assert(": "@ =~= seq![':', ' ']);
}

/// The session is written while the process runs, set aside first where it could not be read, and
/// the windows keep the order in which they were written.
pub proof fn law_session_is_written_while_running(
    c: &mut SessionCoordinator,
    file: SessionFile,
    quitting: bool,
    unreadable: bool,
    k: int,
    r: SaveAction,
)
    requires
        call_ensures(SessionCoordinator::save, (c, &file, quitting, unreadable), r),
    ensures
        old(c).quitting ==> r is Keep && *final(c) == *old(c),
        !old(c).quitting ==> {
            &&& unreadable ==> r is RecoverAndSave
            &&& !unreadable ==> r is Save
            &&& final(c).quitting == quitting
            &&& final(c).window_order@.len() == file.windows@.len()
            &&& 0 <= k < file.windows@.len() ==> final(c).window_order@[k] == file.windows@[k].id
            &&& final(c).next_window_id == old(c).next_window_id
        },
{
    if !old(c).quitting && 0 <= k < file.windows@.len() {
        assert(window_ids(file.windows@)[k] == file.windows@[k].id);
    }
}

/// The size and age of a file that was written are put into the listing that shows it: into that
/// entry, and into no other.
pub proof fn law_written_file_is_updated_in_the_listing(
    windows: &mut Vec<Workspace>,
    i: int,
    k: int,
    m: int,
    path: &str,
    snapshot: RemoteSnapshot,
    r: bool,
)
    requires
        old(windows)@.len() == 1,
        old(windows)@[0].wf(),
        0 <= i < old(windows)@[0].tabs.tabs@.len(),
        0 <= k < old(windows)@[0].tabs.tabs@[i].remote.entries@.len(),
        0 <= m < old(windows)@[0].tabs.tabs@[i].remote.entries@.len(),
        m != k,
        old(windows)@[0].tabs.tabs@[i].remote.entries@[k].path@ == path@,
        forall|j: int|
            0 <= j < k ==> (#[trigger] old(windows)@[0].tabs.tabs@[i].remote.entries@[j]).path@
                != path@,
        call_ensures(
            sync_listing,
            (windows, old(windows)@[0].tabs.tabs@[i].id, path, snapshot),
            r,
        ),
    ensures
        r,
        ({
            let was = old(windows)@[0].tabs.tabs@[i].remote.entries@;
            let now = final(windows)@[0].tabs.tabs@[i].remote.entries@;
            &&& now.len() == was.len()
            &&& now[k].size == snapshot.size
            &&& now[k].modified_at == snapshot.modified_at
            &&& now[k].path@ == was[k].path@
            &&& now[k].name == was[k].name
            &&& now[m] == was[m]
        }),
        final(windows)@[0].tabs.tabs@[i].connection == old(windows)@[0].tabs.tabs@[i].connection,
{
    let w = old(windows)@[0];
    let entries = w.tabs.tabs@[i].remote.entries@;
    lemma_tab_at(w.tabs.tabs@, i);
    lemma_entry_at(entries, path@, k);
    reveal_with_fuel(crate::dispatch::lister, 2);
    assert(crate::workspace::listed_snapshot(w.tabs.tabs@, w.tabs.tabs@[i].id, path@) is Some);
}

proof fn lemma_entry_at(entries: Seq<FileEntry>, path: Seq<char>, k: int)
    requires
        0 <= k < entries.len(),
        entries[k].path@ == path,
        forall|j: int| 0 <= j < k ==> (#[trigger] entries[j]).path@ != path,
    ensures
        crate::workspace::entry_index(entries, path) == k,
    decreases k,
{
    if k > 0 {
        let rest = entries.drop_first();
        assert(rest[k - 1] == entries[k]);
        assert forall|j: int| 0 <= j < k - 1 implies (#[trigger] rest[j]).path@ != path by {
            assert(rest[j] == entries[j + 1]);
        }
        assert(entries[0].path@ != path);
        lemma_entry_at(rest, path, k - 1);
    }
}

}
