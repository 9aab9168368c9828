//! Editing a remote file: fetching it, noticing saves, checking, writing it back.

use vstd::prelude::*;

use crate::edit_sessions::{
    keeps_copy_at, lemma_first_where, lemma_session_at, EditAdvance, EditPhase, EditSession,
    EditSessionStore, TempLook, TempStat, WatchStep,
};
use crate::model::{
    EditSessionId, EntryPath, StartTransferCommand, Timestamp, TransferJob,
};
use crate::remote_edit::{ConflictChoice, ConflictStep};
use crate::workspace::{Config, PendingEdit};

verus! {

/// No session but the one at `i` keeps its copy where that one does.
pub open spec fn copy_is_its_own(sessions: Seq<EditSession>, i: int) -> bool {
    forall|j: int|
        0 <= j < sessions.len() && j != i ==> (#[trigger] sessions[j]).local_temp_path@
            != sessions[i].local_temp_path@
}

/// The transfer fetches the file of the session to its copy.
pub open spec fn fetches(job: TransferJob, session: EditSession) -> bool {
    &&& job.direction is Download
    &&& job.source matches EntryPath::Remote(from) && from@ == session.remote_path@
    &&& job.destination matches EntryPath::Local(to) && to@ == session.local_temp_path@
}

/// The transfer writes the copy of the session over its file.
pub open spec fn writes_back(job: TransferJob, session: EditSession) -> bool {
    &&& job.direction is Upload
    &&& job.source matches EntryPath::Local(from) && from@ == session.local_temp_path@
    &&& job.destination matches EntryPath::Remote(to) && to@ == session.remote_path@
}

proof fn lemma_waits(sessions: Seq<EditSession>, job: TransferJob, i: int)
    requires
        0 <= i < sessions.len(),
        copy_is_its_own(sessions, i),
        sessions[i].phase is Downloading && fetches(job, sessions[i])
            || sessions[i].phase is UploadingBack && writes_back(job, sessions[i]),
    ensures
        crate::edit_sessions::advanced_index(sessions, job) == Some(i),
{
    let meets = keeps_copy_at(sessions[i].local_temp_path@);
    assert forall|j: int| 0 <= j < i implies !meets(#[trigger] sessions[j]) by {
        assert(sessions[j].local_temp_path@ != sessions[i].local_temp_path@);
    }
    lemma_first_where(sessions, meets, i);
}

/// A copy that was fetched and not saved since is no save: a look that finds it as old as it was
/// fetched starts no check, and one that finds it younger does, while the tab can answer. The
/// editor that opens the copy is the configured one.
pub proof fn law_fetched_copy_is_no_save(
    store: &mut EditSessionStore,
    later: &mut EditSessionStore,
    i: int,
    job: TransferJob,
    stat: Option<TempStat>,
    config: Config,
    advance: EditAdvance,
    found: Option<Timestamp>,
    ready: bool,
    step: WatchStep,
)
    requires
        old(store).wf(),
        0 <= i < old(store).sessions@.len(),
        old(store).sessions@[i].phase is Downloading,
        copy_is_its_own(old(store).sessions@, i),
        fetches(job, old(store).sessions@[i]),
        call_ensures(
            EditSessionStore::advance_edit_sessions,
            (store, &job, true, stat, &config),
            advance,
        ),
        *old(later) == *final(store),
        call_ensures(
            EditSessionStore::poll_session,
            (
                later,
                old(store).sessions@[i].id,
                TempLook::Present { modified: found },
                ready,
            ),
            step,
        ),
    ensures
        ({
            let fetched = old(store).sessions@[i];
            let open = final(store).sessions@[i];
            let seen = final(later).sessions@[i];
            let saved = stat is Some && stat->0.modified is Some && found is Some && found->0 .0
                > stat->0.modified->0 .0;
            &&& advance == (EditAdvance::OpenEditor {
                temp_path: fetched.local_temp_path,
                editor: config.external_editor,
            })
            &&& open == (EditSession {
                phase: EditPhase::Editing,
                local_mtime: open.local_mtime,
                active_transfer: None,
                ..fetched
            })
            &&& step is Check <==> saved && ready
            &&& !(step is Check) ==> step is Nothing && seen.phase is Editing && seen.local_mtime
                == open.local_mtime
            &&& step matches WatchStep::Check(command) ==> {
                &&& command.tab_id == fetched.tab_id
                &&& command.session_epoch == fetched.session_epoch
                &&& command.edit_session_id == fetched.id
                &&& command.path@ == fetched.remote_path@
                &&& seen.phase is CheckingRemote
                &&& seen.pending_check_id == Some(command.check_id)
                &&& seen.checking_local_mtime == found
            }
            &&& final(later).sessions@.len() == old(store).sessions@.len()
            &&& forall|j: int|
                0 <= j < old(store).sessions@.len() && j != i ==> final(later).sessions@[j]
                    == #[trigger] old(store).sessions@[j]
        }),
{
    lemma_waits(old(store).sessions@, job, i);
    lemma_session_at(final(store).sessions@, i);
    assert(final(store).sessions@[i].id == old(store).sessions@[i].id);
    assert forall|j: int| 0 <= j < old(store).sessions@.len() && j != i implies final(later).sessions@[j] == #[trigger] old(store).sessions@[j] by {
        assert(final(store).sessions@[j] == old(store).sessions@[j]);
    }
}

/// A file that could not be fetched is not edited: its session is gone, with its copy to be
/// removed, and every other one stays.
pub proof fn law_failed_fetch_ends_the_session(
    store: &mut EditSessionStore,
    i: int,
    job: TransferJob,
    stat: Option<TempStat>,
    config: Config,
    advance: EditAdvance,
    j: int,
)
    requires
        old(store).wf(),
        0 <= i < old(store).sessions@.len(),
        old(store).sessions@[i].phase is Downloading,
        copy_is_its_own(old(store).sessions@, i),
        fetches(job, old(store).sessions@[i]),
        call_ensures(
            EditSessionStore::advance_edit_sessions,
            (store, &job, false, stat, &config),
            advance,
        ),
        0 <= j < old(store).sessions@.len(),
    ensures
        advance is DownloadFailed,
        advance->DownloadFailed_temp_path == old(store).sessions@[i].local_temp_path,
        advance->DownloadFailed_tab_id == old(store).sessions@[i].tab_id,
        final(store).sessions@.contains(old(store).sessions@[j]) <==> j != i,
        final(store).sessions@.len() == old(store).sessions@.len() - 1,
{
    let (before, after) = (old(store).sessions@, final(store).sessions@);
    lemma_waits(before, job, i);
    if j != i {
        let k = if j < i {
            j
        } else {
            j - 1
        };
        assert(after[k] == before[j]);
    } else if after.contains(before[i]) {
        let k = choose|k: int| 0 <= k < after.len() && after[k] == before[i];
        let m = if k < i {
            k
        } else {
            k + 1
        };
        assert(after[k] == before[m]);
        if m < i {
            assert(before[m].id != before[i].id);
        } else {
            assert(before[i].id != before[m].id);
        }
    }
}

/// Once a copy was written back, the remote file is taken to be as large as the copy and as old
/// as it in whole seconds; what failed changes nothing but that the session is open again. In
/// either case saves are told from the same age as before.
pub proof fn law_written_file_is_the_copy(
    store: &mut EditSessionStore,
    i: int,
    job: TransferJob,
    succeeded: bool,
    stat: Option<TempStat>,
    config: Config,
    advance: EditAdvance,
)
    requires
        old(store).wf(),
        0 <= i < old(store).sessions@.len(),
        old(store).sessions@[i].phase is UploadingBack,
        copy_is_its_own(old(store).sessions@, i),
        writes_back(job, old(store).sessions@[i]),
        call_ensures(
            EditSessionStore::advance_edit_sessions,
            (store, &job, succeeded, stat, &config),
            advance,
        ),
    ensures
        ({
            let before = old(store).sessions@[i];
            let after = final(store).sessions@[i];
            &&& after == (EditSession {
                phase: EditPhase::Editing,
                active_transfer: None,
                remote_snapshot: after.remote_snapshot,
                ..before
            })
            &&& advance is Uploaded
            &&& advance->Uploaded_tab_id == before.tab_id
            &&& advance->Uploaded_remote_path == before.remote_path
            &&& !succeeded || stat is None ==> after.remote_snapshot == before.remote_snapshot
                && advance->refreshed is None
            &&& succeeded && stat is Some ==> {
                let known = after.remote_snapshot;
                &&& advance->refreshed == Some(known)
                &&& known.size == Some(stat->0.size)
                &&& known.modified_at is Some <==> stat->0.modified is Some
                &&& stat->0.modified matches Some(t) ==> {
                    &&& known.modified_at->0 .0 % 1_000_000_000 == 0
                    &&& known.modified_at->0 .0 <= t.0 < known.modified_at->0 .0 + 1_000_000_000
                }
            }
        }),
        forall|j: int|
            0 <= j < old(store).sessions@.len() && j != i ==> final(store).sessions@[j]
                == #[trigger] old(store).sessions@[j],
{
    lemma_waits(old(store).sessions@, job, i);
}

/// A transfer that is none of those that a session waits for leaves every session alone.
pub proof fn law_other_transfers_change_no_session(
    store: &mut EditSessionStore,
    job: TransferJob,
    succeeded: bool,
    stat: Option<TempStat>,
    config: Config,
    advance: EditAdvance,
)
    requires
        forall|i: int|
            0 <= i < old(store).sessions@.len() ==> {
                let s = #[trigger] old(store).sessions@[i];
                &&& s.phase is Downloading ==> !(job.direction is Download) || !(
                job.source matches EntryPath::Remote(p) && p@ == s.remote_path@)
                &&& s.phase is UploadingBack ==> !(job.direction is Upload) || !(
                job.destination matches EntryPath::Remote(p) && p@ == s.remote_path@)
            },
        call_ensures(
            EditSessionStore::advance_edit_sessions,
            (store, &job, succeeded, stat, &config),
            advance,
        ),
    ensures
        *final(store) == *old(store),
        advance is Nothing,
{
    crate::edit_sessions::law_unrelated_transfer_advances_nothing(old(store).sessions@, job);
}

/// A file that is opened for editing is fetched from where it lies to a copy, under the
/// connection that it was opened over; and the end of that transfer opens that copy.
pub proof fn law_fetch_opens_what_was_asked_for(
    store: &mut EditSessionStore,
    later: &mut EditSessionStore,
    pending: PendingEdit,
    dir: &str,
    run: &str,
    started: (EditSessionId, StartTransferCommand),
    job: TransferJob,
    stat: Option<TempStat>,
    config: Config,
    advance: EditAdvance,
)
    requires
        old(store).wf(),
        call_ensures(
            EditSessionStore::start_edit_download,
            (store, &pending, dir, run),
            started,
        ),
        *old(later) == *final(store),
        copy_is_its_own(final(store).sessions@, final(store).sessions@.len() - 1),
        job.direction == started.1.direction,
        job.source@ == started.1.sources@[0]@,
        job.destination@ == started.1.destination@,
        call_ensures(
            EditSessionStore::advance_edit_sessions,
            (later, &job, true, stat, &config),
            advance,
        ),
    ensures
        started.1.tab_id == pending.tab_id,
        started.1.session_epoch == pending.session_epoch,
        started.1.profile_id == pending.profile_id,
        started.1.direction is Download,
        started.1.conflict_policy is OverwriteAll,
        started.1.sources@.len() == 1,
        started.1.sources@[0] matches EntryPath::Remote(p) && p@ == pending.remote_path@,
        started.1.destination is Local,
        advance is OpenEditor,
        advance->OpenEditor_temp_path@ == started.1.destination->Local_0@,
        advance->editor == config.external_editor,
        forall|i: int|
            0 <= i < old(store).sessions@.len() ==> #[trigger] final(store).sessions@[i] == old(store).sessions@[i] && old(store).sessions@[i].id != started.0,
        ({
            let session = final(later).sessions@.last();
            &&& final(later).sessions@.len() == old(store).sessions@.len() + 1
            &&& session.id == started.0
            &&& session.remote_path@ == pending.remote_path@
            &&& session.tab_id == pending.tab_id
            &&& session.session_epoch == pending.session_epoch
            &&& session.profile_id == pending.profile_id
            &&& session.phase is Editing
            &&& session.remote_snapshot.size == pending.size
            &&& session.remote_snapshot.modified_at == pending.modified_at
            &&& session.missing_ticks == 0
            &&& session.pending_check_id is None
        }),
{
    let sources = crate::selection::views(started.1.sources@);
    assert(sources.len() == started.1.sources@.len());
    assert(sources[0] == started.1.sources@[0]@);
    let n = old(store).sessions@.len() as int;
    assert(final(store).sessions@.last() == final(store).sessions@[n]);
    lemma_waits(final(store).sessions@, job, n);
    assert(final(later).sessions@.last() == final(later).sessions@[n]);
    assert forall|i: int| 0 <= i < n implies #[trigger] final(store).sessions@[i] == old(store).sessions@[i] && old(store).sessions@[i].id != started.0 by {
        assert(final(store).sessions@.drop_last()[i] == old(store).sessions@[i]);
        assert(old(store).sessions@[i].id.0 < old(store).next_id);
    }
}

/// What the user decides about a file that changed under an edit is what happens: overwriting
/// sends the copy over that file, and the end of that transfer opens the session again;
/// discarding asks for the same file once more, with nothing left of the session; and putting it
/// off opens the session again. Without a change to decide about nothing happens.
pub proof fn law_decision_is_carried_out(
    store: &mut EditSessionStore,
    i: int,
    choice: ConflictChoice,
    step: ConflictStep,
)
    requires
        old(store).wf(),
        0 <= i < old(store).sessions@.len(),
        call_ensures(
            EditSessionStore::resolve_edit_conflict,
            (store, old(store).sessions@[i].id, choice),
            step,
        ),
    ensures
        ({
            let before = old(store).sessions@;
            let after = final(store).sessions@;
            let session = before[i];
            let waits = session.phase is RemoteConflict;
            &&& !waits ==> after == before && step is Nothing
            &&& waits && choice is Overwrite ==> {
                &&& step matches ConflictStep::Upload(c)
                &&& c.direction is Upload
                &&& c.tab_id == session.tab_id
                &&& c.session_epoch == session.session_epoch
                &&& c.profile_id == session.profile_id
                &&& c.conflict_policy is OverwriteAll
                &&& c.sources@.len() == 1
                &&& c.sources@[0] matches EntryPath::Local(p)
                &&& p@ == session.local_temp_path@
                &&& c.destination matches EntryPath::Remote(q)
                &&& q@ == session.remote_path@
                &&& after[i] == (EditSession { phase: EditPhase::UploadingBack, ..session })
            }
            &&& waits && choice is DiscardLocal ==> {
                &&& step matches ConflictStep::Redownload { pending, discarded }
                &&& pending.remote_path@ == session.remote_path@
                &&& pending.tab_id == session.tab_id
                &&& pending.session_epoch == session.session_epoch
                &&& pending.profile_id == session.profile_id
                &&& pending.size == session.remote_snapshot.size
                &&& pending.modified_at == session.remote_snapshot.modified_at
                &&& discarded == session
                &&& !after.contains(session)
            }
            &&& waits && choice is Later ==> {
                &&& step is Nothing
                &&& after[i] == (EditSession { phase: EditPhase::Editing, ..session })
            }
            &&& forall|j: int|
                0 <= j < before.len() && j != i ==> after.contains(#[trigger] before[j])
        }),
{
    let before = old(store).sessions@;
    let after = final(store).sessions@;
    lemma_session_at(before, i);
    if before[i].phase is RemoteConflict && choice is Overwrite {
        let sources = step->Upload_0.sources@;
        assert(crate::selection::views(sources).len() == sources.len());
        assert(crate::selection::views(sources)[0] == sources[0]@);
    }
    if before[i].phase is RemoteConflict && choice is DiscardLocal && after.contains(before[i]) {
        let k = choose|k: int| 0 <= k < after.len() && after[k] == before[i];
        let m = if k < i {
            k
        } else {
            k + 1
        };
        assert(after[k] == before[m]);
        if m < i {
            assert(before[m].id != before[i].id);
        } else {
            assert(before[i].id != before[m].id);
        }
    }
    assert forall|j: int| 0 <= j < before.len() && j != i implies after.contains(
        #[trigger] before[j],
    ) by {
        let k = if after.len() < before.len() && j > i {
            j - 1
        } else {
            j
        };
        assert(after[k] == before[j]);
    }
}

/// A copy that is missing once or twice is waited for; missing a third time in a row it ends its
/// session, and is given to be removed. A look that finds it starts the count anew.
pub proof fn law_third_miss_in_a_row_reaps(
    a: &mut EditSessionStore,
    b: &mut EditSessionStore,
    c: &mut EditSessionStore,
    i: int,
    ready: bool,
    first: WatchStep,
    second: WatchStep,
    third: WatchStep,
)
    requires
        old(a).wf(),
        0 <= i < old(a).sessions@.len(),
        old(a).sessions@[i].phase is Editing || old(a).sessions@[i].phase is RemoteConflict || old(a).sessions@[i].phase is CheckingRemote,
        old(a).sessions@[i].missing_ticks == 0,
        call_ensures(
            EditSessionStore::poll_session,
            (a, old(a).sessions@[i].id, TempLook::Missing, ready),
            first,
        ),
        *old(b) == *final(a),
        call_ensures(
            EditSessionStore::poll_session,
            (b, old(a).sessions@[i].id, TempLook::Missing, ready),
            second,
        ),
        *old(c) == *final(b),
        call_ensures(
            EditSessionStore::poll_session,
            (c, old(a).sessions@[i].id, TempLook::Missing, ready),
            third,
        ),
    ensures
        first is Nothing,
        second is Nothing,
        final(b).sessions@[i] == (EditSession { missing_ticks: 2, ..old(a).sessions@[i] }),
        third == (WatchStep::Reaped {
            temp_path: old(a).sessions@[i].local_temp_path,
            redraw: old(a).sessions@[i].phase is RemoteConflict,
        }),
        final(c).sessions@ == final(b).sessions@.remove(i),
{
    lemma_session_at(old(a).sessions@, i);
    lemma_session_at(final(a).sessions@, i);
    lemma_session_at(final(b).sessions@, i);
}

/// A look that finds the copy starts the count of misses anew, whatever it was; and while a check
/// is under way, or a change waits for a decision, no look asks for another check.
pub proof fn law_found_copy_is_counted_anew(
    store: &mut EditSessionStore,
    i: int,
    found: Option<Timestamp>,
    ready: bool,
    step: WatchStep,
)
    requires
        old(store).wf(),
        0 <= i < old(store).sessions@.len(),
        !(old(store).sessions@[i].phase is Downloading),
        !(old(store).sessions@[i].phase is UploadingBack),
        call_ensures(
            EditSessionStore::poll_session,
            (
                store,
                old(store).sessions@[i].id,
                TempLook::Present { modified: found },
                ready,
            ),
            step,
        ),
    ensures
        final(store).sessions@.len() == old(store).sessions@.len(),
        final(store).sessions@[i].missing_ticks == 0,
        final(store).sessions@[i].local_mtime == old(store).sessions@[i].local_mtime,
        step is Check ==> old(store).sessions@[i].phase is Editing,
        !(step is Check) ==> final(store).sessions@[i].phase == old(store).sessions@[i].phase,
{
    lemma_session_at(old(store).sessions@, i);
}

/// A check that could not be sent is as if no look had been taken: the next look that finds the
/// same save asks for a check of it again.
pub proof fn law_unsent_check_is_not_lost(
    a: &mut EditSessionStore,
    b: &mut EditSessionStore,
    c: &mut EditSessionStore,
    i: int,
    found: Option<Timestamp>,
    first: WatchStep,
    second: WatchStep,
)
    requires
        old(a).wf(),
        0 <= i < old(a).sessions@.len(),
        call_ensures(
            EditSessionStore::poll_session,
            (a, old(a).sessions@[i].id, TempLook::Present { modified: found }, true),
            first,
        ),
        first is Check,
        *old(b) == *final(a),
        call_ensures(
            EditSessionStore::revert_stranded_upload,
            (b, old(a).sessions@[i].id, old(a).sessions@[i].local_mtime),
            (),
        ),
        *old(c) == *final(b),
        call_ensures(
            EditSessionStore::poll_session,
            (c, old(a).sessions@[i].id, TempLook::Present { modified: found }, true),
            second,
        ),
    ensures
        final(b).sessions@[i] == (EditSession { missing_ticks: 0, ..old(a).sessions@[i] }),
        second is Check,
        second->Check_0.path@ == first->Check_0.path@,
        second->Check_0.tab_id == first->Check_0.tab_id,
        second->Check_0.edit_session_id == first->Check_0.edit_session_id,
        second->Check_0.session_epoch == first->Check_0.session_epoch,
{
    lemma_session_at(old(a).sessions@, i);
    lemma_session_at(final(a).sessions@, i);
    lemma_session_at(final(b).sessions@, i);
}

}
