//! Remote files opened for editing: the sessions, how a watch of the temporary files drives
//! them, and how finished transfers do.

use vstd::prelude::*;

use crate::lists::lemma_filter_take;
use crate::model::{
    CheckRemoteEditSnapshotCommand, EditCheckId, EditSessionId, EntryPath, ProfileId,
    RemoteSnapshot, TabId, Timestamp, TransferDirection, TransferId, TransferJob,
};
use crate::resources::next_number;
use crate::text::{chars_of, joined3, same_text};
use crate::workspace::Config;

verus! {

/// How many looks in a row may miss a temporary file before its session is given up. The number
/// is chosen here.
pub const EDIT_MISSING_TICKS_LIMIT: u32 = 3;

/// Where an editing session stands.
#[derive(Clone, Copy, PartialEq, Eq, Structural, Debug)]
pub enum EditPhase {
    Downloading,
    Editing,
    CheckingRemote,
    UploadingBack,
    RemoteConflict,
}

/// A remote file that is being edited.
#[derive(PartialEq, Eq, Debug)]
pub struct EditSession {
    pub id: EditSessionId,
    pub remote_path: String,
    pub tab_id: TabId,
    pub session_epoch: u64,
    pub profile_id: ProfileId,
    pub local_temp_path: String,
    pub phase: EditPhase,
    /// The remote file as it was when it was fetched or last written.
    pub remote_snapshot: RemoteSnapshot,
    /// The age of the temporary file that saves are told from.
    pub local_mtime: Option<Timestamp>,
    pub active_transfer: Option<TransferId>,
    pub pending_check_id: Option<EditCheckId>,
    pub checking_local_mtime: Option<Timestamp>,
    pub missing_ticks: u32,
}

impl Clone for EditSession {
    fn clone(&self) -> (r: Self)
        ensures
            r == *self,
    {
        EditSession {
            id: self.id,
            remote_path: self.remote_path.clone(),
            tab_id: self.tab_id,
            session_epoch: self.session_epoch,
            profile_id: self.profile_id,
            local_temp_path: self.local_temp_path.clone(),
            phase: self.phase,
            remote_snapshot: self.remote_snapshot,
            local_mtime: self.local_mtime,
            active_transfer: self.active_transfer,
            pending_check_id: self.pending_check_id,
            checking_local_mtime: self.checking_local_mtime,
            missing_ticks: self.missing_ticks,
        }
    }
}

/// The first position of a session with the given id; the length where there is none.
pub open spec fn session_index(sessions: Seq<EditSession>, id: EditSessionId) -> int
    decreases sessions.len(),
{
    if sessions.len() == 0 || sessions[0].id == id {
        0
    } else {
        1 + session_index(sessions.drop_first(), id)
    }
}

/// A session has the given id.
pub open spec fn has_session(sessions: Seq<EditSession>, id: EditSessionId) -> bool {
    session_index(sessions, id) < sessions.len()
}

/// What the position of a session says.
pub proof fn lemma_session_index(sessions: Seq<EditSession>, id: EditSessionId)
    ensures
        0 <= session_index(sessions, id) <= sessions.len(),
        has_session(sessions, id) ==> sessions[session_index(sessions, id)].id == id,
        forall|j: int| 0 <= j < session_index(sessions, id) ==> (#[trigger] sessions[j]).id != id,
    decreases sessions.len(),
{
    if sessions.len() > 0 && sessions[0].id != id {
        lemma_session_index(sessions.drop_first(), id);
        assert forall|j: int| 0 <= j < session_index(sessions, id) implies (
        #[trigger] sessions[j]).id != id by {
            if j > 0 {
                assert(sessions.drop_first()[j - 1] == sessions[j]);
            }
        }
    }
}

/// A position with the given id that no earlier one has is the position of the session.
pub proof fn lemma_session_index_is(sessions: Seq<EditSession>, id: EditSessionId, i: int)
    requires
        0 <= i <= sessions.len(),
        i < sessions.len() ==> sessions[i].id == id,
        forall|j: int| 0 <= j < i ==> (#[trigger] sessions[j]).id != id,
    ensures
        session_index(sessions, id) == i,
{
    lemma_session_index(sessions, id);
    if session_index(sessions, id) < i {
        assert(sessions[session_index(sessions, id)].id == id);
    }
}

/// What a look at a temporary file found.
#[derive(Clone, Copy, PartialEq, Eq, Structural, Debug)]
pub enum TempLook {
    Missing,
    Present { modified: Option<Timestamp> },
}

/// What is to be done after a look at a temporary file.
#[derive(PartialEq, Eq, Debug)]
pub enum WatchStep {
    Nothing,
    /// The session is gone: remove the directory of its temporary file, and redraw the windows
    /// where it had a question open.
    Reaped { temp_path: String, redraw: bool },
    /// Ask for the state of the remote file.
    Check(CheckRemoteEditSnapshotCommand),
}

/// The size and age of the temporary file at the end of a transfer.
#[derive(Clone, Copy, PartialEq, Eq, Structural, Debug)]
pub struct TempStat {
    pub size: u64,
    pub modified: Option<Timestamp>,
}

/// What is to be done after a transfer of an edited file.
#[derive(PartialEq, Eq, Debug)]
pub enum EditAdvance {
    Nothing,
    /// Open the temporary file in the editor that is configured, or else in the usual one.
    OpenEditor { temp_path: String, editor: Option<String> },
    /// The session is gone: remove the directory of its temporary file and tell the user.
    DownloadFailed { temp_path: String, tab_id: TabId, message: String },
    /// The remote file was written; its entry in the tab's listing becomes the snapshot.
    Uploaded { tab_id: TabId, remote_path: String, refreshed: Option<RemoteSnapshot> },
}

/// The age cut to whole seconds.
pub open spec fn whole_seconds(t: Timestamp) -> Timestamp {
    Timestamp(((t.0 / 1_000_000_000) * 1_000_000_000) as u128)
}

impl Timestamp {
    /// The time in whole seconds since the epoch.
    pub fn from_secs_since_epoch(secs: u64) -> (r: Self)
        ensures
            r.0 == secs * 1_000_000_000,
    {
        Timestamp((secs as u128) * 1_000_000_000)
    }

    /// The time cut to whole seconds.
    pub fn truncated_to_secs(self) -> (r: Self)
        ensures
            r == whole_seconds(self),
    {
        Timestamp((self.0 / 1_000_000_000) * 1_000_000_000)
    }
}

/// Cutting a time to whole seconds twice is cutting it once, and never makes it later.
pub proof fn law_whole_seconds(t: Timestamp)
    ensures
        whole_seconds(whole_seconds(t)) == whole_seconds(t),
        whole_seconds(t).0 <= t.0,
        t.0 - whole_seconds(t).0 < 1_000_000_000,
{
}

/// The snapshot that stands for a file just uploaded.
pub open spec fn uploaded_snapshot(stat: TempStat) -> RemoteSnapshot {
    RemoteSnapshot {
        size: Some(stat.size),
        modified_at: match stat.modified {
            Some(t) => Some(whole_seconds(t)),
            None => None,
        },
    }
}

fn snapshot_of(stat: TempStat) -> (r: RemoteSnapshot)
    ensures
        r == uploaded_snapshot(stat),
{
    RemoteSnapshot {
        size: Some(stat.size),
        modified_at: match stat.modified {
            Some(t) => Some(t.truncated_to_secs()),
            None => None,
        },
    }
}

/// What stands behind the last separator of a path, or the whole path where nothing does.
pub open spec fn last_part(path: Seq<char>) -> Seq<char> {
    let tail = behind_last_separator(path);
    if tail.len() == 0 {
        path
    } else {
        tail
    }
}

/// What stands behind the last separator; all of it where there is none.
pub open spec fn behind_last_separator(s: Seq<char>) -> Seq<char>
    decreases s.len(),
{
    if s.len() == 0 || s.last() == '/' {
        Seq::<char>::empty()
    } else {
        behind_last_separator(s.drop_last()).push(s.last())
    }
}

/// The last part of a remote path, for messages; the whole path where the last part is empty.
pub fn file_name_of(remote_path: &str) -> (r: String)
    ensures
        r@ == last_part(remote_path@),
{
    let chars = chars_of(remote_path);
    let n: usize = chars.len();
    let mut from: usize = n;
    let ghost s = remote_path@;
    assert(s.take(n as int) =~= s);
    assert(s.skip(n as int) =~= Seq::<char>::empty());
    assert(behind_last_separator(s) =~= behind_last_separator(s.take(n as int)) + s.skip(n as int));
    while from > 0 && chars[from - 1] != '/'
        invariant
            from <= n,
            n == chars@.len(),
            chars@ == s,
            s == remote_path@,
            behind_last_separator(s) == behind_last_separator(s.take(from as int)) + s.skip(
                from as int,
            ),
        decreases from,
    {
        assert(s.take(from as int).drop_last() =~= s.take(from - 1));
        assert(s.take(from as int).last() == s[from - 1]);
        assert(behind_last_separator(s.take(from as int)) + s.skip(from as int)
            =~= behind_last_separator(s.take(from - 1)) + s.skip(from - 1));
        from -= 1;
    }
    assert(from > 0 ==> s.take(from as int).last() == s[from - 1]);
    assert(behind_last_separator(s) =~= s.skip(from as int));
    if from == n {
        return remote_path.to_string();
    }
    assert(s.skip(from as int) =~= s.subrange(from as int, n as int));
    remote_path.substring_char(from, n).to_string()
}

/// The editing sessions of the process.
#[derive(PartialEq, Eq, Debug)]
pub struct EditSessionStore {
    pub sessions: Vec<EditSession>,
    pub next_id: u64,
    pub next_check_id: u64,
}

/// The session has one of the three phases in which its temporary file is watched.
pub open spec fn is_watched(session: EditSession) -> bool {
    session.phase is Editing || session.phase is RemoteConflict || session.phase is CheckingRemote
}

/// The ids of the sessions in the given phase, in their order.
pub open spec fn ids_in_phase(sessions: Seq<EditSession>, phase: EditPhase) -> Seq<EditSessionId> {
    sessions.filter(in_phase(phase)).map_values(|s: EditSession| s.id)
}

/// The sessions whose temporary files are looked at: the open ones, then those with a conflict,
/// then those being checked.
pub open spec fn candidates(sessions: Seq<EditSession>) -> Seq<EditSessionId> {
    ids_in_phase(sessions, EditPhase::Editing) + ids_in_phase(sessions, EditPhase::RemoteConflict)
        + ids_in_phase(sessions, EditPhase::CheckingRemote)
}

/// The sessions in the given phase.
pub open spec fn in_phase(phase: EditPhase) -> spec_fn(EditSession) -> bool {
    |s: EditSession| s.phase == phase
}

/// The session is not past its last miss, and has a check under way only while it is checked.
pub open spec fn is_sound(session: EditSession) -> bool {
    &&& session.missing_ticks < EDIT_MISSING_TICKS_LIMIT
    &&& !(session.phase is CheckingRemote) ==> session.pending_check_id is None
        && session.checking_local_mtime is None
}

impl EditSessionStore {
    /// Ids are distinct and were all handed out, no session is past its last miss, and only one
    /// that is being checked has a check under way.
    pub open spec fn wf(&self) -> bool {
        &&& forall|i: int, j: int|
            0 <= i < j < self.sessions@.len() ==> (#[trigger] self.sessions@[i]).id != (
            #[trigger] self.sessions@[j]).id
        &&& forall|i: int|
            0 <= i < self.sessions@.len() ==> (#[trigger] self.sessions@[i]).id.0 < self.next_id
        &&& forall|i: int|
            0 <= i < self.sessions@.len() ==> is_sound(#[trigger] self.sessions@[i])
    }

    pub fn new() -> (r: Self)
        ensures
            r.wf(),
            r.sessions@.len() == 0,
            r.next_id == 1,
            r.next_check_id == 1,
    {
        EditSessionStore { sessions: Vec::new(), next_id: 1, next_check_id: 1 }
    }

    /// The session with the given id.
    pub open spec fn session(&self, id: EditSessionId) -> Option<EditSession> {
        if has_session(self.sessions@, id) {
            Some(self.sessions@[session_index(self.sessions@, id)])
        } else {
            None
        }
    }

    /// The position of the session with the given id.
    pub fn position(&self, id: EditSessionId) -> (r: Option<usize>)
        ensures
            r is Some <==> has_session(self.sessions@, id),
            r is Some ==> r->0 == session_index(self.sessions@, id) && r->0 < self.sessions@.len()
                && self.sessions@[r->0 as int].id == id,
    {
        proof {
            lemma_session_index(self.sessions@, id);
        }
        let mut i: usize = 0;
        while i < self.sessions.len()
            invariant
                i <= self.sessions@.len(),
                forall|j: int| 0 <= j < i ==> (#[trigger] self.sessions@[j]).id != id,
            decreases self.sessions@.len() - i,
        {
            if self.sessions[i].id == id {
                proof {
                    lemma_session_index_is(self.sessions@, id, i as int);
                }
                return Some(i);
            }
            i += 1;
        }
        proof {
            lemma_session_index_is(self.sessions@, id, i as int);
        }
        None
    }

    /// A fresh session id.
    pub fn allocate_id(&mut self) -> (r: EditSessionId)
        requires
            old(self).wf(),
            old(self).next_id < u64::MAX,
        ensures
            final(self).wf(),
            r == EditSessionId(old(self).next_id),
            *final(self) == (EditSessionStore {
                next_id: (old(self).next_id + 1) as u64,
                ..*old(self)
            }),
            !has_session(old(self).sessions@, r),
    {
        let id = EditSessionId(self.next_id);
        proof {
            lemma_session_index(self.sessions@, id);
        }
        self.next_id = self.next_id + 1;
        id
    }

    /// Adds a session.
    pub fn register(&mut self, session: EditSession)
        requires
            old(self).wf(),
            !has_session(old(self).sessions@, session.id),
            session.id.0 < old(self).next_id,
            is_sound(session),
        ensures
            final(self).wf(),
            final(self).sessions@ == old(self).sessions@.push(session),
            final(self).next_id == old(self).next_id,
            final(self).next_check_id == old(self).next_check_id,
    {
        proof {
            lemma_session_index(self.sessions@, session.id);
        }
        self.sessions.push(session);
    }

    /// Removes a session and hands it out.
    pub fn remove(&mut self, id: EditSessionId) -> (r: Option<EditSession>)
        requires
            old(self).wf(),
        ensures
            final(self).wf(),
            r == old(self).session(id),
            r is None ==> *final(self) == *old(self),
            r is Some ==> final(self).sessions@ == old(self).sessions@.remove(
                session_index(old(self).sessions@, id),
            ),
            final(self).next_id == old(self).next_id,
            final(self).next_check_id == old(self).next_check_id,
    {
        match self.position(id) {
            Some(i) => {
                let ghost before = self.sessions@;
                let session = self.sessions.remove(i);
                proof {
                    assert forall|a: int, b: int|
                        0 <= a < b < self.sessions@.len() implies (#[trigger] self.sessions@[a]).id
                            != (#[trigger] self.sessions@[b]).id by {
                        let x = if a < i {
                            a
                        } else {
                            a + 1
                        };
                        let y = if b < i {
                            b
                        } else {
                            b + 1
                        };
                        assert(before[x].id != before[y].id);
                    }
                    assert forall|a: int| 0 <= a < self.sessions@.len() implies (
                    #[trigger] self.sessions@[a]).id.0 < self.next_id && is_sound(
                        self.sessions@[a],
                    ) by {
                        let x = if a < i {
                            a
                        } else {
                            a + 1
                        };
                        assert(before[x].id.0 < self.next_id);
                    }
                }
                Some(session)
            },
            None => None,
        }
    }
}

/// The session after a look found its temporary file.
pub open spec fn seen(session: EditSession) -> EditSession {
    EditSession { missing_ticks: 0, ..session }
}

/// The session after a look missed its temporary file.
pub open spec fn missed(session: EditSession) -> EditSession {
    EditSession { missing_ticks: (session.missing_ticks + 1) as u32, ..session }
}

/// The session while the remote file is checked before a save.
pub open spec fn checking(
    session: EditSession,
    check: EditCheckId,
    saved: Option<Timestamp>,
) -> EditSession {
    EditSession {
        phase: EditPhase::CheckingRemote,
        pending_check_id: Some(check),
        checking_local_mtime: saved,
        missing_ticks: 0,
        ..session
    }
}

/// The session after its check could not be sent.
pub open spec fn reverted(session: EditSession, restore: Option<Timestamp>) -> EditSession {
    EditSession {
        phase: EditPhase::Editing,
        local_mtime: restore,
        pending_check_id: None,
        checking_local_mtime: None,
        ..session
    }
}

/// The temporary file was saved since the last time that counts.
pub open spec fn was_saved(session: EditSession, modified: Option<Timestamp>) -> bool {
    session.local_mtime is Some && modified is Some && modified->0 .0 > session.local_mtime->0 .0
}

/// The look leads to a check of the remote file: an open session, a save, and a tab that can
/// answer.
pub open spec fn starts_check(session: EditSession, look: TempLook, tab_ready: bool) -> bool {
    &&& look is Present
    &&& session.phase is Editing
    &&& was_saved(session, look->modified)
    &&& tab_ready
}

/// The command that checks the remote file of a session.
pub open spec fn check_command(session: EditSession, check: EditCheckId) -> (
    TabId,
    u64,
    EditSessionId,
    EditCheckId,
    Seq<char>,
) {
    (session.tab_id, session.session_epoch, session.id, check, session.remote_path@)
}

/// What a check command asks for.
pub open spec fn check_parts(command: CheckRemoteEditSnapshotCommand) -> (
    TabId,
    u64,
    EditSessionId,
    EditCheckId,
    Seq<char>,
) {
    (
        command.tab_id,
        command.session_epoch,
        command.edit_session_id,
        command.check_id,
        command.path@,
    )
}

/// The sessions after one look at the temporary file of one of them, and what is to be done.
pub open spec fn polled(
    before: EditSessionStore,
    after: EditSessionStore,
    id: EditSessionId,
    look: TempLook,
    tab_ready: bool,
    step: WatchStep,
) -> bool {
    if before.session(id) is None || !is_watched(before.session(id)->0) {
        after == before && step is Nothing
    } else {
        let i = session_index(before.sessions@, id);
        let session = before.sessions@[i];
        &&& after.next_id == before.next_id
        &&& if look is Missing && session.missing_ticks + 1 >= EDIT_MISSING_TICKS_LIMIT {
            &&& after.sessions@ == before.sessions@.remove(i)
            &&& step == (WatchStep::Reaped {
                temp_path: session.local_temp_path,
                redraw: session.phase is RemoteConflict,
            })
            &&& after.next_check_id == before.next_check_id
        } else if look is Missing {
            &&& after.sessions@ == before.sessions@.update(i, missed(session))
            &&& step is Nothing
            &&& after.next_check_id == before.next_check_id
        } else if starts_check(session, look, tab_ready) {
            let check = EditCheckId(before.next_check_id);
            &&& after.sessions@ == before.sessions@.update(
                i,
                checking(session, check, look->modified),
            )
            &&& step is Check
            &&& check_parts(step->Check_0) == check_command(session, check)
            &&& after.next_check_id == next_number(before.next_check_id)
        } else {
            &&& after.sessions@ == before.sessions@.update(i, seen(session))
            &&& step is Nothing
            &&& after.next_check_id == before.next_check_id
        }
    }
}

proof fn lemma_store_update(store: EditSessionStore, sessions: Seq<EditSession>, i: int)
    requires
        store.wf(),
        0 <= i < store.sessions@.len(),
        sessions.len() == store.sessions@.len(),
        forall|j: int| 0 <= j < sessions.len() && j != i ==> sessions[j] == store.sessions@[j],
        sessions[i].id == store.sessions@[i].id,
        is_sound(sessions[i]),
    ensures
        forall|a: int, b: int|
            0 <= a < b < sessions.len() ==> (#[trigger] sessions[a]).id != (
            #[trigger] sessions[b]).id,
        forall|a: int| 0 <= a < sessions.len() ==> (#[trigger] sessions[a]).id.0 < store.next_id,
        forall|a: int|
            0 <= a < sessions.len() ==> is_sound(#[trigger] sessions[a]),
        sessions == store.sessions@.update(i, sessions[i]),
{
    assert(sessions =~= store.sessions@.update(i, sessions[i]));
    assert forall|a: int, b: int| 0 <= a < b < sessions.len() implies (#[trigger] sessions[a]).id
        != (#[trigger] sessions[b]).id by {
        assert(store.sessions@[a].id != store.sessions@[b].id);
    }
    assert forall|a: int| 0 <= a < sessions.len() implies (#[trigger] sessions[a]).id.0
        < store.next_id && is_sound(sessions[a]) by {
        assert(store.sessions@[a].id.0 < store.next_id);
    }
}

impl EditSessionStore {
    /// Replaces a session by a later state of it.
    pub(crate) fn put(&mut self, i: usize, session: EditSession)
        requires
            old(self).wf(),
            i < old(self).sessions@.len(),
            session.id == old(self).sessions@[i as int].id,
            is_sound(session),
        ensures
            final(self).wf(),
            final(self).sessions@ == old(self).sessions@.update(i as int, session),
            final(self).next_id == old(self).next_id,
            final(self).next_check_id == old(self).next_check_id,
    {
        let ghost before = *self;
        self.sessions.set(i, session);
        proof {
            lemma_store_update(before, self.sessions@, i as int);
        }
    }

    /// One look at the temporary file of a watched session.
    ///
    /// A file that is missing is counted; the last miss allowed removes the session. A file that
    /// is there clears the count, and where it was saved since, the session is open, and its tab
    /// can answer, a check of the remote file starts.
    pub fn poll_session(&mut self, id: EditSessionId, look: TempLook, tab_ready: bool) -> (r:
        WatchStep)
        requires
            old(self).wf(),
        ensures
            final(self).wf(),
            polled(*old(self), *final(self), id, look, tab_ready, r),
    {
        let i: usize = match self.position(id) {
            Some(i) => i,
            None => return WatchStep::Nothing,
        };
        let mut session = self.sessions[i].clone();
        let phase = session.phase;
        if phase != EditPhase::Editing && phase != EditPhase::RemoteConflict && phase
            != EditPhase::CheckingRemote {
            return WatchStep::Nothing;
        }
        let modified = match look {
            TempLook::Missing => {
                if session.missing_ticks + 1 >= EDIT_MISSING_TICKS_LIMIT {
                    let _ = self.remove(id);
                    return WatchStep::Reaped {
                        temp_path: session.local_temp_path,
                        redraw: phase == EditPhase::RemoteConflict,
                    };
                }
                session.missing_ticks = session.missing_ticks + 1;
                self.put(i, session);
                return WatchStep::Nothing;
            },
            TempLook::Present { modified } => modified,
        };
        session.missing_ticks = 0;
        let saved = match (session.local_mtime, modified) {
            (Some(last), Some(now)) => now.0 > last.0,
            _ => false,
        };
        if phase != EditPhase::Editing || !saved || !tab_ready {
            self.put(i, session);
            return WatchStep::Nothing;
        }
        let check = EditCheckId(self.next_check_id);
        self.next_check_id = self.next_check_id.wrapping_add(1);
        let command = CheckRemoteEditSnapshotCommand {
            tab_id: session.tab_id,
            session_epoch: session.session_epoch,
            edit_session_id: session.id,
            check_id: check,
            path: session.remote_path.clone(),
        };
        session.phase = EditPhase::CheckingRemote;
        session.pending_check_id = Some(check);
        session.checking_local_mtime = modified;
        self.put(i, session);
        WatchStep::Check(command)
    }

    /// A check or a save could not be sent: the session is open again, with the age from which
    /// the save is told once more.
    pub fn revert_stranded_upload(&mut self, id: EditSessionId, restore_mtime: Option<Timestamp>)
        requires
            old(self).wf(),
        ensures
            final(self).wf(),
            final(self).next_id == old(self).next_id,
            final(self).next_check_id == old(self).next_check_id,
            old(self).session(id) is None ==> *final(self) == *old(self),
            old(self).session(id) is Some ==> final(self).sessions@ == old(self).sessions@.update(
                session_index(old(self).sessions@, id),
                reverted(old(self).session(id)->0, restore_mtime),
            ),
    {
        if let Some(i) = self.position(id) {
            let mut session = self.sessions[i].clone();
            session.phase = EditPhase::Editing;
            session.local_mtime = restore_mtime;
            session.pending_check_id = None;
            session.checking_local_mtime = None;
            self.put(i, session);
        }
    }
}

/// A check that could not be sent leaves an open session exactly as the look found it, so that
/// the next look tells the save again.
pub proof fn law_failed_check_leaves_session(
    session: EditSession,
    check: EditCheckId,
    saved: Option<Timestamp>,
)
    requires
        session.phase is Editing,
        session.pending_check_id is None,
        session.checking_local_mtime is None,
    ensures
        reverted(checking(session, check, saved), session.local_mtime) == seen(session),
        forall|look: TempLook, ready: bool|
            starts_check(
                reverted(checking(session, check, saved), session.local_mtime),
                look,
                ready,
            ) <==> #[trigger] starts_check(session, look, ready),
{
    assert(reverted(checking(session, check, saved), session.local_mtime) == seen(session));
    assert forall|look: TempLook, ready: bool|
        starts_check(
            reverted(checking(session, check, saved), session.local_mtime),
            look,
            ready,
        ) <==> #[trigger] starts_check(session, look, ready) by {}
}

/// While a check is under way, no look starts another.
pub proof fn law_no_second_check(
    session: EditSession,
    check: EditCheckId,
    saved: Option<Timestamp>,
    look: TempLook,
    ready: bool,
)
    ensures
        !starts_check(checking(session, check, saved), look, ready),
{
}

/// A save is checked before it goes up: no look at the temporary file of an open session makes it
/// upload.
pub proof fn law_saves_are_checked_first(
    before: EditSessionStore,
    after: EditSessionStore,
    id: EditSessionId,
    look: TempLook,
    ready: bool,
    step: WatchStep,
)
    requires
        polled(before, after, id, look, ready, step),
        before.session(id) is Some,
        before.session(id)->0.phase is Editing,
        before.wf(),
    ensures
        after.session(id) matches Some(session) ==> !(session.phase is UploadingBack),
        after.session(id) matches Some(session) ==> (session.phase is CheckingRemote <==> step
            is Check),
{
    let i = session_index(before.sessions@, id);
    lemma_session_index(before.sessions@, id);
    let session = before.sessions@[i];
    if look is Missing && session.missing_ticks + 1 >= EDIT_MISSING_TICKS_LIMIT {
        let rest = before.sessions@.remove(i);
        lemma_session_index(rest, id);
        if has_session(rest, id) {
            let k = session_index(rest, id);
            let j = if k < i {
                k
            } else {
                k + 1
            };
            assert(rest[k] == before.sessions@[j]);
            assert(before.sessions@[j].id == before.sessions@[i].id);
        }
    } else {
        assert(after.sessions@[i].id == id);
        assert forall|j: int| 0 <= j < i implies (#[trigger] after.sessions@[j]).id != id by {
            assert(after.sessions@[j] == before.sessions@[j]);
        }
        lemma_session_index_is(after.sessions@, id, i);
    }
}

/// A look that finds the file forgives every miss before it.
pub proof fn law_found_file_forgives_misses(session: EditSession)
    ensures
        seen(missed(session)) == seen(session),
        seen(session).missing_ticks == 0,
{
}

/// The first position at which a session meets the condition; the length where none does.
pub open spec fn first_where(
    sessions: Seq<EditSession>,
    meets: spec_fn(EditSession) -> bool,
) -> int
    decreases sessions.len(),
{
    if sessions.len() == 0 || meets(sessions[0]) {
        0
    } else {
        1 + first_where(sessions.drop_first(), meets)
    }
}

pub(crate) proof fn lemma_first_where(
    sessions: Seq<EditSession>,
    meets: spec_fn(EditSession) -> bool,
    i: int,
)
    requires
        0 <= i <= sessions.len(),
        i < sessions.len() ==> meets(sessions[i]),
        forall|j: int| 0 <= j < i ==> !meets(#[trigger] sessions[j]),
    ensures
        first_where(sessions, meets) == i,
    decreases sessions.len(),
{
    if sessions.len() > 0 && i > 0 {
        assert(!meets(sessions[0]));
        assert forall|j: int| 0 <= j < i - 1 implies !meets(
            #[trigger] sessions.drop_first()[j],
        ) by {
            assert(!meets(sessions[j + 1]));
        }
        lemma_first_where(sessions.drop_first(), meets, i - 1);
    }
}

/// The session edits the given file of the given profile.
pub open spec fn edits(profile_id: ProfileId, path: Seq<char>) -> spec_fn(EditSession) -> bool {
    |s: EditSession| s.profile_id == profile_id && s.remote_path@ == path
}

/// The session keeps its copy at the given place.
pub open spec fn keeps_copy_at(path: Seq<char>) -> spec_fn(EditSession) -> bool {
    |s: EditSession| s.local_temp_path@ == path
}

/// The session waits for the user of the given tab to resolve a conflict.
pub open spec fn conflicts_in(tab_id: TabId) -> spec_fn(EditSession) -> bool {
    |s: EditSession| s.phase is RemoteConflict && s.tab_id == tab_id
}

/// The session belongs to the given tab.
pub open spec fn of_tab(tab_id: TabId) -> spec_fn(EditSession) -> bool {
    |s: EditSession| s.tab_id == tab_id
}

/// The session does not belong to the given tab.
pub open spec fn not_of_tab(tab_id: TabId) -> spec_fn(EditSession) -> bool {
    |s: EditSession| s.tab_id != tab_id
}

/// The local end of a transfer: the destination where that is local, or else the source.
pub open spec fn local_end(source: EntryPath, destination: EntryPath) -> Option<Seq<char>> {
    match (source, destination) {
        (_, EntryPath::Local(path)) => Some(path@),
        (EntryPath::Local(path), _) => Some(path@),
        _ => None,
    }
}

/// The transfer is the one that the session waits for: the download that fetches its file, or
/// the upload that writes it back.
pub open spec fn is_transfer_of(session: EditSession, job: TransferJob) -> bool {
    match session.phase {
        EditPhase::Downloading => job.direction is Download && (job.source matches EntryPath::Remote(
            path,
        ) && path@ == session.remote_path@),
        EditPhase::UploadingBack => job.direction is Upload && (
        job.destination matches EntryPath::Remote(path) && path@ == session.remote_path@),
        _ => false,
    }
}

/// The position of the session that a finished transfer advances, where there is one.
pub open spec fn advanced_index(sessions: Seq<EditSession>, job: TransferJob) -> Option<int> {
    match local_end(job.source, job.destination) {
        Some(path) => {
            let i = first_where(sessions, keeps_copy_at(path));
            if i < sessions.len() && is_transfer_of(sessions[i], job) {
                Some(i)
            } else {
                None
            }
        },
        None => None,
    }
}

/// The session once its file is there.
pub open spec fn opened(session: EditSession, modified: Option<Timestamp>) -> EditSession {
    EditSession {
        phase: EditPhase::Editing,
        local_mtime: modified,
        active_transfer: None,
        ..session
    }
}

/// The session once its file was written back, or could not be.
pub open spec fn written_back(
    session: EditSession,
    refreshed: Option<RemoteSnapshot>,
) -> EditSession {
    EditSession {
        phase: EditPhase::Editing,
        active_transfer: None,
        remote_snapshot: match refreshed {
            Some(snapshot) => snapshot,
            None => session.remote_snapshot,
        },
        ..session
    }
}

/// The age that a look at the temporary file gives.
pub open spec fn stat_modified(stat: Option<TempStat>) -> Option<Timestamp> {
    match stat {
        Some(stat) => stat.modified,
        None => None,
    }
}

/// The snapshot that an upload leaves: that of the temporary file where the upload succeeded and
/// the file could be looked at.
pub open spec fn refreshed_snapshot(succeeded: bool, stat: Option<TempStat>) -> Option<
    RemoteSnapshot,
> {
    match stat {
        Some(stat) => if succeeded {
            Some(uploaded_snapshot(stat))
        } else {
            None
        },
        None => None,
    }
}

impl EditSessionStore {
    /// The sessions whose temporary files are looked at: the open ones, then those with a
    /// conflict, then those being checked.
    pub fn watch_candidates(&self) -> (r: Vec<EditSessionId>)
        ensures
            r@ == candidates(self.sessions@),
    {
        let mut out = self.ids_with_phase(EditPhase::Editing);
        let mut conflict = self.ids_with_phase(EditPhase::RemoteConflict);
        let mut checking = self.ids_with_phase(EditPhase::CheckingRemote);
        out.append(&mut conflict);
        out.append(&mut checking);
        out
    }

    fn ids_with_phase(&self, phase: EditPhase) -> (r: Vec<EditSessionId>)
        ensures
            r@ == ids_in_phase(self.sessions@, phase),
    {
        let ghost keep = in_phase(phase);
        let ghost id_of = |s: EditSession| s.id;
        let mut out: Vec<EditSessionId> = Vec::new();
        let mut i: usize = 0;
        assert(self.sessions@.take(0).filter(keep) =~= Seq::<EditSession>::empty()) by {
            reveal(Seq::filter);
        }
        assert(out@ =~= Seq::<EditSession>::empty().map_values(id_of));
        while i < self.sessions.len()
            invariant
                i <= self.sessions@.len(),
                keep == in_phase(phase),
                id_of == (|s: EditSession| s.id),
                out@ == self.sessions@.take(i as int).filter(keep).map_values(id_of),
            decreases self.sessions@.len() - i,
        {
            proof {
                lemma_filter_take(self.sessions@, keep, i as int);
            }
            if self.sessions[i].phase == phase {
                let ghost kept = self.sessions@.take(i as int).filter(keep);
                assert(kept.push(self.sessions@[i as int]).map_values(id_of) =~= kept.map_values(
                    id_of,
                ).push(self.sessions@[i as int].id));
                out.push(self.sessions[i].id);
            }
            i += 1;
        }
        assert(self.sessions@.take(i as int) =~= self.sessions@);
        out
    }

    /// The position of the session that edits the given file of the given profile.
    pub fn find_active(&self, profile_id: ProfileId, remote_path: &str) -> (r: Option<usize>)
        ensures
            r is Some <==> first_where(self.sessions@, edits(profile_id, remote_path@))
                < self.sessions@.len(),
            r is Some ==> r->0 == first_where(self.sessions@, edits(profile_id, remote_path@)),
    {
        let ghost meets = edits(profile_id, remote_path@);
        let mut i: usize = 0;
        while i < self.sessions.len()
            invariant
                i <= self.sessions@.len(),
                meets == edits(profile_id, remote_path@),
                forall|j: int| 0 <= j < i ==> !meets(#[trigger] self.sessions@[j]),
            decreases self.sessions@.len() - i,
        {
            if self.sessions[i].profile_id == profile_id && same_text(
                self.sessions[i].remote_path.as_str(),
                remote_path,
            ) {
                proof {
                    lemma_first_where(self.sessions@, meets, i as int);
                }
                return Some(i);
            }
            i += 1;
        }
        proof {
            lemma_first_where(self.sessions@, meets, i as int);
        }
        None
    }

    /// The position of the session that keeps its copy at the given place.
    pub fn find_by_temp_path(&self, path: &str) -> (r: Option<usize>)
        ensures
            r is Some <==> first_where(self.sessions@, keeps_copy_at(path@)) < self.sessions@.len(),
            r is Some ==> r->0 == first_where(self.sessions@, keeps_copy_at(path@)),
    {
        let ghost meets = keeps_copy_at(path@);
        let mut i: usize = 0;
        while i < self.sessions.len()
            invariant
                i <= self.sessions@.len(),
                meets == keeps_copy_at(path@),
                forall|j: int| 0 <= j < i ==> !meets(#[trigger] self.sessions@[j]),
            decreases self.sessions@.len() - i,
        {
            if same_text(self.sessions[i].local_temp_path.as_str(), path) {
                proof {
                    lemma_first_where(self.sessions@, meets, i as int);
                }
                return Some(i);
            }
            i += 1;
        }
        proof {
            lemma_first_where(self.sessions@, meets, i as int);
        }
        None
    }

    /// The session whose conflict the user of a tab is asked about.
    pub fn conflict_for_tab(&self, tab_id: TabId) -> (r: Option<EditSessionId>)
        ensures
            ({
                let i = first_where(self.sessions@, conflicts_in(tab_id));
                r == if i < self.sessions@.len() {
                    Some(self.sessions@[i].id)
                } else {
                    None
                }
            }),
    {
        let ghost meets = conflicts_in(tab_id);
        let mut i: usize = 0;
        while i < self.sessions.len()
            invariant
                i <= self.sessions@.len(),
                meets == conflicts_in(tab_id),
                forall|j: int| 0 <= j < i ==> !meets(#[trigger] self.sessions@[j]),
            decreases self.sessions@.len() - i,
        {
            if self.sessions[i].phase == EditPhase::RemoteConflict && self.sessions[i].tab_id
                == tab_id {
                proof {
                    lemma_first_where(self.sessions@, meets, i as int);
                }
                return Some(self.sessions[i].id);
            }
            i += 1;
        }
        proof {
            lemma_first_where(self.sessions@, meets, i as int);
        }
        None
    }

    /// Removes the sessions of a tab and hands them out.
    pub fn remove_for_tab(&mut self, tab_id: TabId) -> (r: Vec<EditSession>)
        requires
            old(self).wf(),
        ensures
            final(self).wf(),
            r@ == old(self).sessions@.filter(of_tab(tab_id)),
            final(self).sessions@ == old(self).sessions@.filter(not_of_tab(tab_id)),
            final(self).next_id == old(self).next_id,
            final(self).next_check_id == old(self).next_check_id,
    {
        let mut kept: Vec<EditSession> = Vec::new();
        let mut removed: Vec<EditSession> = Vec::new();
        let ghost all = self.sessions@;
        let mut i: usize = 0;
        assert(all.take(0).filter(of_tab(tab_id)) =~= Seq::<EditSession>::empty()) by {
            reveal(Seq::filter);
        }
        assert(all.take(0).filter(not_of_tab(tab_id)) =~= Seq::<EditSession>::empty()) by {
            reveal(Seq::filter);
        }
        while i < self.sessions.len()
            invariant
                i <= self.sessions@.len(),
                all == self.sessions@,
                removed@ == all.take(i as int).filter(of_tab(tab_id)),
                kept@ == all.take(i as int).filter(not_of_tab(tab_id)),
            decreases self.sessions@.len() - i,
        {
            proof {
                lemma_filter_take(all, of_tab(tab_id), i as int);
                lemma_filter_take(all, not_of_tab(tab_id), i as int);
            }
            let session = self.sessions[i].clone();
            if session.tab_id == tab_id {
                removed.push(session);
            } else {
                kept.push(session);
            }
            i += 1;
        }
        assert(all.take(i as int) =~= all);
        proof {
            lemma_filter_keeps_wf(*self, not_of_tab(tab_id));
        }
        self.sessions = kept;
        removed
    }

    /// Removes the sessions whose tab no window holds any more and hands them out.
    pub fn remove_orphaned(&mut self, live_tabs: &Vec<TabId>) -> (r: Vec<EditSession>)
        requires
            old(self).wf(),
        ensures
            final(self).wf(),
            r@ == old(self).sessions@.filter(orphaned(live_tabs@)),
            final(self).sessions@ == old(self).sessions@.filter(owned(live_tabs@)),
            final(self).next_id == old(self).next_id,
            final(self).next_check_id == old(self).next_check_id,
    {
        let mut kept: Vec<EditSession> = Vec::new();
        let mut removed: Vec<EditSession> = Vec::new();
        let ghost all = self.sessions@;
        let mut i: usize = 0;
        assert(all.take(0).filter(orphaned(live_tabs@)) =~= Seq::<EditSession>::empty()) by {
            reveal(Seq::filter);
        }
        assert(all.take(0).filter(owned(live_tabs@)) =~= Seq::<EditSession>::empty()) by {
            reveal(Seq::filter);
        }
        while i < self.sessions.len()
            invariant
                i <= self.sessions@.len(),
                all == self.sessions@,
                removed@ == all.take(i as int).filter(orphaned(live_tabs@)),
                kept@ == all.take(i as int).filter(owned(live_tabs@)),
            decreases self.sessions@.len() - i,
        {
            proof {
                lemma_filter_take(all, orphaned(live_tabs@), i as int);
                lemma_filter_take(all, owned(live_tabs@), i as int);
            }
            let session = self.sessions[i].clone();
            if holds_tab(live_tabs, session.tab_id) {
                kept.push(session);
            } else {
                removed.push(session);
            }
            i += 1;
        }
        assert(all.take(i as int) =~= all);
        proof {
            lemma_filter_keeps_wf(*self, owned(live_tabs@));
        }
        self.sessions = kept;
        removed
    }

    /// Gives the sessions of a tab the epoch of its new connection.
    pub fn update_epoch_for_tab(&mut self, tab_id: TabId, epoch: u64)
        requires
            old(self).wf(),
        ensures
            final(self).wf(),
            final(self).sessions@ == old(self).sessions@.map_values(at_epoch(tab_id, epoch)),
            final(self).next_id == old(self).next_id,
            final(self).next_check_id == old(self).next_check_id,
    {
        let ghost before = self.sessions@;
        let ghost count = before.len();
        let mut i: usize = 0;
        while i < self.sessions.len()
            invariant
                self.wf(),
                self.sessions@.len() == count,
                count == before.len(),
                i <= count,
                self.next_id == old(self).next_id,
                self.next_check_id == old(self).next_check_id,
                forall|j: int|
                    0 <= j < count ==> #[trigger] self.sessions@[j] == if j < i {
                        at_epoch(tab_id, epoch)(before[j])
                    } else {
                        before[j]
                    },
            decreases count - i,
        {
            if self.sessions[i].tab_id == tab_id {
                let mut session = self.sessions[i].clone();
                session.session_epoch = epoch;
                self.put(i, session);
            }
            i += 1;
        }
        assert(self.sessions@ =~= before.map_values(at_epoch(tab_id, epoch)));
    }

    /// A transfer finished: the session that waited for it goes on.
    ///
    /// A download opens the configured editor, or where it failed takes the session away and says so; an
    /// upload makes the session open again, and where it succeeded the state of the temporary
    /// file stands for the remote one. Other transfers change nothing.
    pub fn advance_edit_sessions(
        &mut self,
        job: &TransferJob,
        succeeded: bool,
        stat: Option<TempStat>,
        config: &Config,
    ) -> (r: EditAdvance)
        requires
            old(self).wf(),
        ensures
            final(self).wf(),
            final(self).next_id == old(self).next_id,
            final(self).next_check_id == old(self).next_check_id,
            advanced_index(old(self).sessions@, *job) is None ==> *final(self) == *old(self)
                && r is Nothing,
            advanced_index(old(self).sessions@, *job) is Some ==> {
                let i = advanced_index(old(self).sessions@, *job)->0;
                let session = old(self).sessions@[i];
                if session.phase is Downloading && succeeded {
                    &&& final(self).sessions@ == old(self).sessions@.update(
                        i,
                        opened(session, stat_modified(stat)),
                    )
                    &&& r == (EditAdvance::OpenEditor {
                        temp_path: session.local_temp_path,
                        editor: config.external_editor,
                    })
                } else if session.phase is Downloading {
                    &&& final(self).sessions@ == old(self).sessions@.remove(i)
                    &&& r is DownloadFailed
                    &&& r->DownloadFailed_temp_path == session.local_temp_path
                    &&& r->DownloadFailed_tab_id == session.tab_id
                    &&& r->message@ == "Could not download "@ + last_part(session.remote_path@)
                        + " for editing"@
                } else {
                    let refreshed = refreshed_snapshot(succeeded, stat);
                    &&& final(self).sessions@ == old(self).sessions@.update(
                        i,
                        written_back(session, refreshed),
                    )
                    &&& r == (EditAdvance::Uploaded {
                        tab_id: session.tab_id,
                        remote_path: session.remote_path,
                        refreshed,
                    })
                }
            },
    {
        let temp_path = match (&job.source, &job.destination) {
            (_, EntryPath::Local(path)) => path.clone(),
            (EntryPath::Local(path), _) => path.clone(),
            _ => return EditAdvance::Nothing,
        };
        let i: usize = match self.find_by_temp_path(temp_path.as_str()) {
            Some(i) => i,
            None => return EditAdvance::Nothing,
        };
        let mut session = self.sessions[i].clone();
        let matches = match session.phase {
            EditPhase::Downloading => job.direction == TransferDirection::Download
                && match &job.source {
                EntryPath::Remote(path) => same_text(path.as_str(), session.remote_path.as_str()),
                EntryPath::Local(_) => false,
            },
            EditPhase::UploadingBack => job.direction == TransferDirection::Upload
                && match &job.destination {
                EntryPath::Remote(path) => same_text(path.as_str(), session.remote_path.as_str()),
                EntryPath::Local(_) => false,
            },
            _ => false,
        };
        if !matches {
            return EditAdvance::Nothing;
        }
        if session.phase == EditPhase::Downloading {
            if !succeeded {
                let name = file_name_of(session.remote_path.as_str());
                let message = joined3("Could not download ", name.as_str(), " for editing");
                proof {
                    lemma_unique_position(*self, i as int);
                }
                let _ = self.remove(session.id);
                return EditAdvance::DownloadFailed {
                    temp_path: session.local_temp_path,
                    tab_id: session.tab_id,
                    message,
                };
            }
            let temp_path = session.local_temp_path.clone();
            session.phase = EditPhase::Editing;
            session.local_mtime = match stat {
                Some(stat) => stat.modified,
                None => None,
            };
            session.active_transfer = None;
            self.put(i, session);
            return EditAdvance::OpenEditor { temp_path, editor: config.editor() };
        }
        let refreshed = match stat {
            Some(stat) => {
                if succeeded {
                    Some(snapshot_of(stat))
                } else {
                    None
                }
            },
            None => None,
        };
        let tab_id = session.tab_id;
        let remote_path = session.remote_path.clone();
        session.phase = EditPhase::Editing;
        session.active_transfer = None;
        if let Some(snapshot) = refreshed {
            session.remote_snapshot = snapshot;
        }
        self.put(i, session);
        EditAdvance::Uploaded { tab_id, remote_path, refreshed }
    }
}

/// The session with the epoch of its tab's new connection.
pub open spec fn at_epoch(tab_id: TabId, epoch: u64) -> spec_fn(EditSession) -> EditSession {
    |s: EditSession|
        if s.tab_id == tab_id {
            EditSession { session_epoch: epoch, ..s }
        } else {
            s
        }
}

/// The session's tab is among the live ones.
pub open spec fn owned(live_tabs: Seq<TabId>) -> spec_fn(EditSession) -> bool {
    |s: EditSession| live_tabs.contains(s.tab_id)
}

/// The session's tab is not among the live ones.
pub open spec fn orphaned(live_tabs: Seq<TabId>) -> spec_fn(EditSession) -> bool {
    |s: EditSession| !live_tabs.contains(s.tab_id)
}

pub(crate) fn holds_tab(tabs: &Vec<TabId>, tab_id: TabId) -> (r: bool)
    ensures
        r == tabs@.contains(tab_id),
{
    let mut i: usize = 0;
    while i < tabs.len()
        invariant
            i <= tabs@.len(),
            forall|j: int| 0 <= j < i ==> tabs@[j] != tab_id,
        decreases tabs@.len() - i,
    {
        if tabs[i] == tab_id {
            assert(tabs@[i as int] == tab_id);
            return true;
        }
        i += 1;
    }
    false
}

proof fn lemma_unique_position(store: EditSessionStore, i: int)
    requires
        store.wf(),
        0 <= i < store.sessions@.len(),
    ensures
        session_index(store.sessions@, store.sessions@[i].id) == i,
{
    lemma_session_index_is(store.sessions@, store.sessions@[i].id, i);
}

proof fn lemma_filter_keeps_wf(store: EditSessionStore, keep: spec_fn(EditSession) -> bool)
    requires
        store.wf(),
    ensures
        ({
            let kept = store.sessions@.filter(keep);
            &&& forall|i: int, j: int|
                0 <= i < j < kept.len() ==> (#[trigger] kept[i]).id != (#[trigger] kept[j]).id
            &&& forall|i: int| 0 <= i < kept.len() ==> (#[trigger] kept[i]).id.0 < store.next_id
            &&& forall|i: int|
                0 <= i < kept.len() ==> is_sound(#[trigger] kept[i])
        }),
{
    let all = store.sessions@;
    let kept = all.filter(keep);
    assert(all.no_duplicates());
    crate::lists::lemma_filter_holds(all, keep);
    assert forall|i: int| 0 <= i < kept.len() implies (#[trigger] kept[i]).id.0 < store.next_id
        && is_sound(kept[i]) by {
        assert(kept.contains(kept[i]));
        let k = choose|k: int| 0 <= k < all.len() && all[k] == kept[i];
        assert(all[k].id.0 < store.next_id);
    }
    assert forall|i: int, j: int| 0 <= i < j < kept.len() implies (#[trigger] kept[i]).id != (
    #[trigger] kept[j]).id by {
        assert(kept.contains(kept[i]));
        assert(kept.contains(kept[j]));
        let a = choose|a: int| 0 <= a < all.len() && all[a] == kept[i];
        let b = choose|b: int| 0 <= b < all.len() && all[b] == kept[j];
        assert(kept[i] != kept[j]);
        if a < b {
            assert(all[a].id != all[b].id);
        } else if b < a {
            assert(all[b].id != all[a].id);
        }
    }
}

/// A transfer that merely shares the place of a session's copy, but fetches or writes another
/// file or goes the other way, advances no session.
pub proof fn law_unrelated_transfer_advances_nothing(sessions: Seq<EditSession>, job: TransferJob)
    requires
        forall|i: int| 0 <= i < sessions.len() ==> !is_transfer_of(#[trigger] sessions[i], job),
    ensures
        advanced_index(sessions, job) is None,
{
    if local_end(job.source, job.destination) is Some {
        let meets = keeps_copy_at(local_end(job.source, job.destination)->0);
        lemma_first_where_bound(sessions, meets);
    }
}

pub(crate) proof fn lemma_first_where_bound(sessions: Seq<EditSession>, meets: spec_fn(EditSession) -> bool)
    ensures
        0 <= first_where(sessions, meets) <= sessions.len(),
        first_where(sessions, meets) < sessions.len() ==> meets(
            sessions[first_where(sessions, meets)],
        ),
    decreases sessions.len(),
{
    if sessions.len() > 0 && !meets(sessions[0]) {
        lemma_first_where_bound(sessions.drop_first(), meets);
    }
}

/// What one look at the temporary file of a watched session makes of it, and what is to be done.
pub open spec fn looked_at(
    session: EditSession,
    look: TempLook,
    tab_ready: bool,
    after: Option<EditSession>,
    step: WatchStep,
) -> bool {
    if look is Missing && session.missing_ticks + 1 >= EDIT_MISSING_TICKS_LIMIT {
        &&& after is None
        &&& step == (WatchStep::Reaped {
            temp_path: session.local_temp_path,
            redraw: session.phase is RemoteConflict,
        })
    } else if look is Missing {
        after == Some(missed(session)) && step is Nothing
    } else if starts_check(session, look, tab_ready) {
        &&& step is Check
        &&& check_parts(step->Check_0) == check_command(session, step->Check_0.check_id)
        &&& after == Some(checking(session, step->Check_0.check_id, look->modified))
    } else {
        after == Some(seen(session)) && step is Nothing
    }
}

/// What one look makes of a watched session of the store, and what is to be done.
pub open spec fn looked_at_in(
    before: EditSessionStore,
    after: EditSessionStore,
    id: EditSessionId,
    look: (TempLook, bool),
    step: WatchStep,
) -> bool {
    &&& before.session(id) is Some
    &&& is_watched(before.session(id)->0)
    &&& looked_at(before.session(id)->0, look.0, look.1, after.session(id), step)
}

/// The states that the sessions go through while the watched ones are looked at one by one.
pub open spec fn poll_chain(
    stores: Seq<EditSessionStore>,
    before: EditSessionStore,
    after: EditSessionStore,
    looks: Seq<(TempLook, bool)>,
    steps: Seq<WatchStep>,
) -> bool {
    let ids = candidates(before.sessions@);
    &&& looks.len() == ids.len()
    &&& steps.len() == ids.len()
    &&& stores.len() == ids.len() + 1
    &&& stores[0] == before
    &&& stores.last() == after
    &&& forall|k: int| 0 <= k < stores.len() ==> (#[trigger] stores[k]).wf()
    &&& forall|k: int|
        0 <= k < steps.len() ==> polled(
            stores[k],
            stores[k + 1],
            ids[k],
            looks[k].0,
            looks[k].1,
            #[trigger] steps[k],
        )
}

/// The sessions after one look at the temporary file of every watched one, in the order of
/// `candidates`, and what is to be done for each. With each look goes whether the tab of the
/// session can answer.
pub open spec fn polled_all(
    before: EditSessionStore,
    after: EditSessionStore,
    looks: Seq<(TempLook, bool)>,
    steps: Seq<WatchStep>,
) -> bool {
    exists|stores: Seq<EditSessionStore>| #[trigger]
        poll_chain(stores, before, after, looks, steps)
}

impl EditSessionStore {
    /// One look at the temporary file of every watched session, in the order of
    /// `watch_candidates`. With each look goes whether the tab of the session can answer. Says
    /// what is to be done for each.
    pub fn poll_edit_sessions(&mut self, looks: &Vec<(TempLook, bool)>) -> (r: Vec<WatchStep>)
        requires
            old(self).wf(),
            looks@.len() == candidates(old(self).sessions@).len(),
        ensures
            final(self).wf(),
            polled_all(*old(self), *final(self), looks@, r@),
    {
        let ids = self.watch_candidates();
        let ghost before = *self;
        let ghost mut stores: Seq<EditSessionStore> = seq![*self];
        let mut steps: Vec<WatchStep> = Vec::new();
        let mut k: usize = 0;
        while k < ids.len()
            invariant
                k <= ids@.len(),
                ids@ == candidates(before.sessions@),
                looks@.len() == ids@.len(),
                steps@.len() == k,
                stores.len() == k + 1,
                stores[0] == before,
                stores.last() == *self,
                self.wf(),
                forall|j: int| 0 <= j < stores.len() ==> (#[trigger] stores[j]).wf(),
                forall|j: int|
                    0 <= j < steps@.len() ==> polled(
                        stores[j],
                        stores[j + 1],
                        ids@[j],
                        looks@[j].0,
                        looks@[j].1,
                        #[trigger] steps@[j],
                    ),
            decreases ids@.len() - k,
        {
            let ghost held = stores;
            let ghost told = steps@;
            let (look, ready) = looks[k];
            let step = self.poll_session(ids[k], look, ready);
            steps.push(step);
            proof {
                stores = stores.push(*self);
                assert forall|j: int| 0 <= j < steps@.len() implies polled(
                    stores[j],
                    stores[j + 1],
                    ids@[j],
                    looks@[j].0,
                    looks@[j].1,
                    #[trigger] steps@[j],
                ) by {
                    assert(stores[j] == held[j]);
                    if j < k {
                        assert(steps@[j] == told[j]);
                        assert(stores[j + 1] == held[j + 1]);
                    }
                }
            }
            k += 1;
        }
        assert(poll_chain(stores, before, *self, looks@, steps@));
        steps
    }
}

pub(crate) proof fn lemma_session_at(sessions: Seq<EditSession>, i: int)
    requires
        0 <= i < sessions.len(),
        forall|a: int, b: int|
            0 <= a < b < sessions.len() ==> (#[trigger] sessions[a]).id != (
            #[trigger] sessions[b]).id,
    ensures
        session_index(sessions, sessions[i].id) == i,
{
    lemma_session_index_is(sessions, sessions[i].id, i);
}

pub(crate) proof fn lemma_session_missing(sessions: Seq<EditSession>, id: EditSessionId)
    requires
        forall|a: int| 0 <= a < sessions.len() ==> (#[trigger] sessions[a]).id != id,
    ensures
        !has_session(sessions, id),
{
    lemma_session_index_is(sessions, id, sessions.len() as int);
}

/// A look at one session leaves every other alone.
pub(crate) proof fn lemma_poll_spares_others(
    before: EditSessionStore,
    after: EditSessionStore,
    id: EditSessionId,
    look: TempLook,
    ready: bool,
    step: WatchStep,
    other: EditSessionId,
)
    requires
        before.wf(),
        after.wf(),
        polled(before, after, id, look, ready, step),
        other != id,
    ensures
        after.session(other) == before.session(other),
{
    let i = session_index(before.sessions@, id);
    lemma_session_index(before.sessions@, id);
    lemma_session_index(before.sessions@, other);
    if before.session(id) is Some && is_watched(before.session(id)->0) {
        let k = session_index(before.sessions@, other);
        let removed = look is Missing && before.sessions@[i].missing_ticks + 1
            >= EDIT_MISSING_TICKS_LIMIT;
        if k < before.sessions@.len() {
            let m = if removed && k > i {
                k - 1
            } else {
                k
            };
            assert(after.sessions@[m] == before.sessions@[k]);
            lemma_session_at(after.sessions@, m);
        } else {
            assert forall|a: int| 0 <= a < after.sessions@.len() implies (
            #[trigger] after.sessions@[a]).id != other by {
                let b = if removed && a >= i {
                    a + 1
                } else {
                    a
                };
                assert(before.sessions@[b].id != other);
            }
            lemma_session_missing(after.sessions@, other);
        }
    }
}

/// What a look makes of the session that it is at.
pub(crate) proof fn lemma_poll_own(
    before: EditSessionStore,
    after: EditSessionStore,
    id: EditSessionId,
    look: TempLook,
    ready: bool,
    step: WatchStep,
)
    requires
        before.wf(),
        after.wf(),
        polled(before, after, id, look, ready, step),
        before.session(id) is Some,
        is_watched(before.session(id)->0),
    ensures
        looked_at(before.session(id)->0, look, ready, after.session(id), step),
{
    let i = session_index(before.sessions@, id);
    lemma_session_index(before.sessions@, id);
    let session = before.sessions@[i];
    if look is Missing && session.missing_ticks + 1 >= EDIT_MISSING_TICKS_LIMIT {
        assert forall|a: int| 0 <= a < after.sessions@.len() implies (
        #[trigger] after.sessions@[a]).id != id by {
            let b = if a >= i {
                a + 1
            } else {
                a
            };
            if b < i {
                assert(before.sessions@[b].id != before.sessions@[i].id);
            } else {
                assert(before.sessions@[i].id != before.sessions@[b].id);
            }
        }
        lemma_session_missing(after.sessions@, id);
    } else {
        assert(after.sessions@[i].id == id);
        lemma_session_at(after.sessions@, i);
    }
}

proof fn lemma_chain_spares(
    stores: Seq<EditSessionStore>,
    before: EditSessionStore,
    after: EditSessionStore,
    looks: Seq<(TempLook, bool)>,
    steps: Seq<WatchStep>,
    id: EditSessionId,
    from: int,
    to: int,
)
    requires
        poll_chain(stores, before, after, looks, steps),
        0 <= from <= to <= steps.len(),
        forall|k: int| from <= k < to ==> #[trigger] candidates(before.sessions@)[k] != id,
    ensures
        stores[to].session(id) == stores[from].session(id),
    decreases to - from,
{
    if from < to {
        lemma_chain_spares(stores, before, after, looks, steps, id, from, to - 1);
        let k = to - 1;
        assert(candidates(before.sessions@)[k] != id);
        assert(stores[k].wf() && stores[k + 1].wf());
        lemma_poll_spares_others(
            stores[k],
            stores[k + 1],
            candidates(before.sessions@)[k],
            looks[k].0,
            looks[k].1,
            steps[k],
            id,
        );
    }
}

/// The ids in a phase are those of the sessions in that phase, each once.
proof fn lemma_ids_in_phase(store: EditSessionStore, phase: EditPhase)
    requires
        store.wf(),
    ensures
        ids_in_phase(store.sessions@, phase).no_duplicates(),
        forall|id: EditSessionId| #[trigger]
            ids_in_phase(store.sessions@, phase).contains(id) <==> store.session(id) is Some
                && store.session(id)->0.phase == phase,
{
    let all = store.sessions@;
    let kept = all.filter(in_phase(phase));
    let ids = ids_in_phase(all, phase);
    lemma_filter_keeps_wf(store, in_phase(phase));
    crate::lists::lemma_filter_holds(all, in_phase(phase));
    assert forall|a: int, b: int| 0 <= a < ids.len() && 0 <= b < ids.len() && a != b implies ids[a]
        != ids[b] by {
        if a < b {
            assert(kept[a].id != kept[b].id);
        } else {
            assert(kept[b].id != kept[a].id);
        }
    }
    assert forall|id: EditSessionId| #[trigger] ids.contains(id) <==> store.session(id) is Some
        && store.session(id)->0.phase == phase by {
        lemma_session_index(all, id);
        if ids.contains(id) {
            let a = choose|a: int| 0 <= a < ids.len() && ids[a] == id;
            assert(kept.contains(kept[a]));
            let k = choose|k: int| 0 <= k < all.len() && all[k] == kept[a];
            lemma_session_at(all, k);
        }
        if store.session(id) is Some && store.session(id)->0.phase == phase {
            let k = session_index(all, id);
            assert(all.contains(all[k]));
            assert(kept.contains(all[k]));
            let a = choose|a: int| 0 <= a < kept.len() && kept[a] == all[k];
            assert(ids[a] == id);
        }
    }
}

/// The sessions that are looked at are the watched ones, each once.
pub proof fn lemma_candidates(store: EditSessionStore)
    requires
        store.wf(),
    ensures
        candidates(store.sessions@).no_duplicates(),
        forall|id: EditSessionId| #[trigger]
            candidates(store.sessions@).contains(id) <==> store.session(id) is Some && is_watched(
                store.session(id)->0,
            ),
{
    lemma_ids_in_phase(store, EditPhase::Editing);
    lemma_ids_in_phase(store, EditPhase::RemoteConflict);
    lemma_ids_in_phase(store, EditPhase::CheckingRemote);
    let x = ids_in_phase(store.sessions@, EditPhase::Editing);
    let y = ids_in_phase(store.sessions@, EditPhase::RemoteConflict);
    let z = ids_in_phase(store.sessions@, EditPhase::CheckingRemote);
    let all = candidates(store.sessions@);
    assert forall|a: int, b: int| 0 <= a < all.len() && 0 <= b < all.len() && a != b implies all[a]
        != all[b] by {
        lemma_in_one_of(x, y, z, a);
        lemma_in_one_of(x, y, z, b);
    }
    assert forall|id: EditSessionId| #[trigger] all.contains(id) <==> store.session(id) is Some
        && is_watched(store.session(id)->0) by {
        if all.contains(id) {
            let a = choose|a: int| 0 <= a < all.len() && all[a] == id;
            lemma_in_one_of(x, y, z, a);
        }
        if x.contains(id) {
            let a = choose|a: int| 0 <= a < x.len() && x[a] == id;
            assert(all[a] == id);
        }
        if y.contains(id) {
            let a = choose|a: int| 0 <= a < y.len() && y[a] == id;
            assert(all[x.len() + a] == id);
        }
        if z.contains(id) {
            let a = choose|a: int| 0 <= a < z.len() && z[a] == id;
            assert(all[x.len() + y.len() + a] == id);
        }
    }
}

proof fn lemma_in_one_of(
    x: Seq<EditSessionId>,
    y: Seq<EditSessionId>,
    z: Seq<EditSessionId>,
    a: int,
)
    requires
        0 <= a < (x + y + z).len(),
    ensures
        a < x.len() ==> (x + y + z)[a] == x[a] && x.contains((x + y + z)[a]),
        x.len() <= a < x.len() + y.len() ==> (x + y + z)[a] == y[a - x.len()] && y.contains(
            (x + y + z)[a],
        ),
        x.len() + y.len() <= a ==> (x + y + z)[a] == z[a - x.len() - y.len()] && z.contains(
            (x + y + z)[a],
        ),
{
}

/// A poll looks at every watched session exactly once, and leaves every other alone.
pub proof fn law_poll_looks_at_each_session_once(
    before: EditSessionStore,
    after: EditSessionStore,
    looks: Seq<(TempLook, bool)>,
    steps: Seq<WatchStep>,
)
    requires
        before.wf(),
        polled_all(before, after, looks, steps),
    ensures
        steps.len() == candidates(before.sessions@).len(),
        looks.len() == steps.len(),
        candidates(before.sessions@).no_duplicates(),
        forall|k: int|
            0 <= k < steps.len() ==> looked_at_in(
                before,
                after,
                candidates(before.sessions@)[k],
                looks[k],
                #[trigger] steps[k],
            ),
        forall|id: EditSessionId|
            before.session(id) is None || !is_watched(before.session(id)->0) ==> #[trigger]
                after.session(id) == before.session(id),
{
    let stores = choose|stores: Seq<EditSessionStore>| #[trigger]
        poll_chain(stores, before, after, looks, steps);
    let ids = candidates(before.sessions@);
    lemma_candidates(before);
    assert forall|k: int| 0 <= k < steps.len() implies looked_at_in(
        before,
        after,
        ids[k],
        looks[k],
        #[trigger] steps[k],
    ) by {
        let id = ids[k];
        assert(ids.contains(id));
        lemma_chain_spares(stores, before, after, looks, steps, id, 0, k);
        lemma_chain_spares(
            stores,
            before,
            after,
            looks,
            steps,
            id,
            k + 1,
            steps.len() as int,
        );
        assert(stores[k].wf() && stores[k + 1].wf());
        lemma_poll_own(stores[k], stores[k + 1], id, looks[k].0, looks[k].1, steps[k]);
    }
    assert forall|id: EditSessionId|
        before.session(id) is None || !is_watched(before.session(id)->0) implies #[trigger]
        after.session(id) == before.session(id) by {
        assert(!ids.contains(id));
        lemma_chain_spares(
            stores,
            before,
            after,
            looks,
            steps,
            id,
            0,
            steps.len() as int,
        );
    }
}

/// A poll sends nothing but checks: at most one for a session, and only for one that was open and
/// has been saved. A session with a conflict, or with a check under way, whose file is there
/// stays where it is, and so does an open one that was not saved.
pub proof fn law_poll_sends_only_checks(
    before: EditSessionStore,
    after: EditSessionStore,
    looks: Seq<(TempLook, bool)>,
    steps: Seq<WatchStep>,
    k: int,
)
    requires
        before.wf(),
        polled_all(before, after, looks, steps),
        0 <= k < steps.len(),
    ensures
        ({
            let id = candidates(before.sessions@)[k];
            let session = before.session(id)->0;
            &&& before.session(id) is Some
            &&& steps[k] matches WatchStep::Check(command) ==> {
                &&& command.edit_session_id == id
                &&& session.phase is Editing
                &&& looks[k].0 is Present
                &&& was_saved(session, looks[k].0->modified)
                &&& forall|j: int|
                    0 <= j < steps.len() && j != k && #[trigger] steps[j] is Check
                        ==> steps[j]->Check_0.edit_session_id != id
            }
            &&& looks[k].0 is Present && (!(session.phase is Editing) || !was_saved(
                session,
                looks[k].0->modified,
            )) ==> {
                &&& steps[k] is Nothing
                &&& after.session(id) is Some
                &&& after.session(id)->0.phase == session.phase
                &&& after.session(id)->0.local_mtime == session.local_mtime
            }
        }),
{
    law_poll_looks_at_each_session_once(before, after, looks, steps);
    let ids = candidates(before.sessions@);
    let id = ids[k];
    let session = before.session(id)->0;
    lemma_session_index(before.sessions@, id);
    assert(looked_at_in(before, after, id, looks[k], steps[k]));
    assert forall|j: int|
        0 <= j < steps.len() && j != k && #[trigger] steps[j] is Check implies {
        steps[j]->Check_0.edit_session_id != id
    } by {
        let other = ids[j];
        lemma_session_index(before.sessions@, other);
        assert(looked_at_in(before, after, other, looks[j], steps[j]));
        assert(ids[j] != ids[k]);
    }
}

/// A look that finds the file of a session forgives its misses. One that misses it is counted,
/// and the session stays in its phase, until the last miss allowed, which takes the session away
/// and gives its temporary file to be removed.
pub proof fn law_misses_are_counted(
    before: EditSessionStore,
    after: EditSessionStore,
    looks: Seq<(TempLook, bool)>,
    steps: Seq<WatchStep>,
    k: int,
)
    requires
        before.wf(),
        polled_all(before, after, looks, steps),
        0 <= k < steps.len(),
    ensures
        ({
            let id = candidates(before.sessions@)[k];
            let session = before.session(id)->0;
            let misses = session.missing_ticks + 1;
            &&& before.session(id) is Some
            &&& looks[k].0 is Present ==> after.session(id) is Some
                && after.session(id)->0.missing_ticks == 0
            &&& looks[k].0 is Missing && misses < EDIT_MISSING_TICKS_LIMIT ==> {
                &&& after.session(id) == Some(missed(session))
                &&& after.session(id)->0.phase == session.phase
                &&& after.session(id)->0.missing_ticks == misses
                &&& steps[k] is Nothing
            }
            &&& looks[k].0 is Missing && misses >= EDIT_MISSING_TICKS_LIMIT ==> {
                &&& after.session(id) is None
                &&& steps[k] == (WatchStep::Reaped {
                    temp_path: session.local_temp_path,
                    redraw: session.phase is RemoteConflict,
                })
            }
        }),
{
    law_poll_looks_at_each_session_once(before, after, looks, steps);
    let id = candidates(before.sessions@)[k];
    assert(looked_at_in(before, after, id, looks[k], steps[k]));
}

/// How many of the last looks in a row missed the file.
pub open spec fn misses_in_a_row(looks: Seq<TempLook>) -> nat
    decreases looks.len(),
{
    if looks.len() == 0 || looks.last() is Present {
        0
    } else {
        misses_in_a_row(looks.drop_last()) + 1
    }
}

/// Only as many misses in a row as are allowed take a session away. `sessions` are the states in
/// which the looks found it, the first of them with no miss; between the looks anything may
/// happen to it that leaves the count alone.
pub proof fn law_only_misses_in_a_row_reap(
    sessions: Seq<EditSession>,
    looks: Seq<TempLook>,
    ready: Seq<bool>,
    after: Seq<Option<EditSession>>,
    steps: Seq<WatchStep>,
)
    requires
        looks.len() > 0,
        sessions.len() == looks.len(),
        ready.len() == looks.len(),
        after.len() == looks.len(),
        steps.len() == looks.len(),
        sessions[0].missing_ticks == 0,
        forall|k: int|
            0 <= k < looks.len() ==> looked_at(
                sessions[k],
                looks[k],
                ready[k],
                after[k],
                #[trigger] steps[k],
            ),
        forall|k: int|
            0 <= k < looks.len() - 1 ==> (#[trigger] after[k]) is Some && sessions[k
                + 1].missing_ticks == after[k]->0.missing_ticks,
    ensures
        after.last() is None <==> misses_in_a_row(looks) >= EDIT_MISSING_TICKS_LIMIT,
        after.last() is Some ==> after.last()->0.missing_ticks == misses_in_a_row(looks),
    decreases looks.len(),
{
    let n = looks.len() - 1;
    assert(looked_at(sessions[n], looks[n], ready[n], after[n], steps[n]));
    if n == 0 {
        assert(looks.drop_last() =~= Seq::<TempLook>::empty());
        assert(misses_in_a_row(looks.drop_last()) == 0);
    } else {
        let (s, l, r) = (sessions.drop_last(), looks.drop_last(), ready.drop_last());
        let (a, t) = (after.drop_last(), steps.drop_last());
        assert forall|k: int| 0 <= k < l.len() implies looked_at(
            s[k],
            l[k],
            r[k],
            a[k],
            #[trigger] t[k],
        ) by {
            assert(t[k] == steps[k]);
        }
        assert forall|k: int| 0 <= k < l.len() - 1 implies (#[trigger] a[k]) is Some && s[k
            + 1].missing_ticks == a[k]->0.missing_ticks by {
            assert(a[k] == after[k]);
        }
        law_only_misses_in_a_row_reap(s, l, r, a, t);
        assert(after[n - 1] is Some);
        assert(a.last() == after[n - 1]);
    }
}

}
