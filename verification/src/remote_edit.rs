//! Opening remote files for editing, and what the user decides when a file changed meanwhile.

use vstd::prelude::*;

use crate::edit_sessions::{
    edits, first_where, has_session, holds_tab, not_of_tab, of_tab, session_index, EditPhase,
    EditSession, EditSessionStore,
};
use crate::helpers::{connected_transfer_session, string_of, transfer_session};
use crate::model::{
    ConflictPolicy, Dispatch, EditSessionId, EntryPath, FileEntry, FileKind, PaneSide, PathView,
    ProfileId, RemoteSnapshot, StartTransferCommand, TabId, Timestamp, TransferDirection,
};
use crate::nav::{lemma_names_are_plain, lemma_names_plus_name, parent, path_of};
use crate::selection::views;
use crate::tabs::{has_tab, tab_index, TabState};
use crate::text::{decimal, decimal_text, file_name, file_name_in, joined3, names, same_text};
use crate::workspace::{dispatch_status, Config, PendingEdit, Workspace};

verus! {

/// A file of more bytes than this is not fetched without asking.
pub const EDIT_SIZE_WARN_THRESHOLD: u64 = 104_857_600;

/// How the user resolves a change of the remote file under an edit.
#[derive(Clone, Copy, PartialEq, Eq, Structural, Debug)]
pub enum ConflictChoice {
    /// The local file goes over the remote one.
    Overwrite,
    /// The remote file is fetched again over the local one.
    DiscardLocal,
    /// The session goes on.
    Later,
}

/// A remote file to edit.
#[derive(PartialEq, Eq, Debug)]
pub struct EditTarget {
    pub path: String,
    pub size: Option<u64>,
    pub modified_at: Option<Timestamp>,
}

/// What opening a file for editing leads to.
#[derive(PartialEq, Eq, Debug)]
pub enum EditStart {
    /// There is nothing to do; the status says why, where there is a tab.
    Nothing,
    /// It is open already: its temporary file is to be shown again, in the editor that is
    /// configured, or else in the usual one.
    Reopen { temp_path: String, editor: Option<String> },
    /// The user is asked about its size.
    Asked,
    /// It is to be fetched.
    Download(PendingEdit),
}

/// What a decision about a changed file leads to.
#[derive(PartialEq, Eq, Debug)]
pub enum ConflictStep {
    Nothing,
    /// The local file is to be sent.
    Upload(StartTransferCommand),
    /// The session is gone, with its temporary file, and the file is to be fetched again.
    Redownload { pending: PendingEdit, discarded: EditSession },
}

/// The entry of a listing that a selected path names, where it is a remote file.
pub open spec fn file_at(entries: Seq<FileEntry>, path: PathView) -> Option<FileEntry>
    decreases entries.len(),
{
    if entries.len() == 0 || path.side is Local {
        None
    } else if entries[0].path@ == path.text && !(entries[0].kind is Directory) {
        Some(entries[0])
    } else {
        file_at(entries.drop_first(), path)
    }
}

/// The first selected path that names a remote file.
pub open spec fn first_file(selected: Seq<PathView>, entries: Seq<FileEntry>) -> Option<FileEntry>
    decreases selected.len(),
{
    if selected.len() == 0 {
        None
    } else {
        match file_at(entries, selected[0]) {
            Some(entry) => Some(entry),
            None => first_file(selected.drop_first(), entries),
        }
    }
}

fn find_file(entries: &Vec<FileEntry>, path: &EntryPath) -> (r: Option<usize>)
    ensures
        r is Some <==> file_at(entries@, path@) is Some,
        r is Some ==> r->0 < entries@.len() && entries@[r->0 as int] == file_at(
            entries@,
            path@,
        )->0,
{
    if path.side() == PaneSide::Local {
        return None;
    }
    let mut i: usize = 0;
    assert(entries@.skip(0) =~= entries@);
    while i < entries.len()
        invariant
            i <= entries@.len(),
            path@.side is Remote,
            file_at(entries@, path@) == file_at(entries@.skip(i as int), path@),
        decreases entries@.len() - i,
    {
        assert(entries@.skip(i as int).drop_first() =~= entries@.skip(i + 1));
        if same_text(entries[i].path.as_str(), path.as_str()) && entries[i].kind
            != FileKind::Directory {
            return Some(i);
        }
        i += 1;
    }
    None
}

fn find_first_file(selected: &Vec<EntryPath>, entries: &Vec<FileEntry>) -> (r: Option<usize>)
    ensures
        r is Some <==> first_file(views(selected@), entries@) is Some,
        r is Some ==> r->0 < entries@.len() && entries@[r->0 as int] == first_file(
            views(selected@),
            entries@,
        )->0,
{
    let ghost all = views(selected@);
    let mut i: usize = 0;
    assert(all.skip(0) =~= all);
    while i < selected.len()
        invariant
            i <= selected@.len(),
            all == views(selected@),
            first_file(all, entries@) == first_file(all.skip(i as int), entries@),
        decreases selected@.len() - i,
    {
        assert(all.skip(i as int).drop_first() =~= all.skip(i + 1));
        assert(all.skip(i as int)[0] == selected@[i as int]@);
        let found = find_file(entries, &selected[i]);
        if found.is_some() {
            return found;
        }
        i += 1;
    }
    None
}

/// The temporary file of a session: in a directory of its own, under the name of the remote file.
pub open spec fn temp_path(
    edits_dir: Seq<char>,
    run: Seq<char>,
    id: EditSessionId,
    remote_path: Seq<char>,
) -> Seq<char> {
    edits_dir + "/"@ + run + "/"@ + decimal(id.0 as nat) + "/"@ + match file_name(remote_path) {
        Some(name) => name,
        None => "file"@,
    }
}

/// The temporary file of a session.
pub fn edit_temp_path(edits_dir: &str, run: &str, id: EditSessionId, remote_path: &str) -> (r:
    String)
    ensures
        r@ == temp_path(edits_dir@, run@, id, remote_path@),
{
    let name = match file_name_in(remote_path) {
        Some(name) => name,
        None => "file".to_string(),
    };
    let mut out = joined3(edits_dir, "/", run);
    out.append("/");
    out.append(decimal_text(id.0).as_str());
    out.append("/");
    out.append(name.as_str());
    out
}

/// The directory of a session, in which nothing but its temporary file is kept.
pub open spec fn session_directory(edits_dir: Seq<char>, run: Seq<char>, id: EditSessionId) -> Seq<
    char,
> {
    edits_dir + "/"@ + run + "/"@ + decimal(id.0 as nat)
}

/// The directory that holds the temporary file of a session is that of the session, and none
/// above it: removing it takes nothing else away.
pub proof fn law_copy_has_its_own_directory(
    edits_dir: Seq<char>,
    run: Seq<char>,
    id: EditSessionId,
    remote_path: Seq<char>,
)
    ensures
        parent(temp_path(edits_dir, run, id, remote_path)) == Some(
            path_of(names(session_directory(edits_dir, run, id))),
        ),
        names(session_directory(edits_dir, run, id)).last() == decimal(id.0 as nat),
{
    reveal_strlit("/");
    reveal_strlit("file");
    assert("/"@ =~= seq!['/']);
    let number = decimal(id.0 as nat);
    let above = edits_dir + "/"@ + run;
    let directory = session_directory(edits_dir, run, id);
    crate::resources::lemma_decimal_is_digits(id.0 as nat);
    lemma_names_plus_name(above, number);
    let name = match file_name(remote_path) {
        Some(name) => name,
        None => "file"@,
    };
    assert(name.len() > 0 && !name.contains('/')) by {
        lemma_names_are_plain(remote_path);
        let all = names(remote_path);
        let proper = |p: Seq<char>| p != seq!['.'];
        crate::lists::lemma_filter_holds(all, proper);
        if file_name(remote_path) is Some {
            let kept = all.filter(proper);
            assert(kept.contains(kept[kept.len() - 1]));
            let k = choose|k: int| 0 <= k < all.len() && all[k] == name;
            assert(all[k] == name);
        }
    }
    lemma_names_plus_name(directory, name);
    assert(temp_path(edits_dir, run, id, remote_path) =~= directory + seq!['/'] + name);
    assert(names(directory).push(name).drop_last() =~= names(directory));
}

/// A transfer of one file over whatever is there.
pub open spec fn moves_one(
    command: StartTransferCommand,
    direction: TransferDirection,
    source: PathView,
    destination: PathView,
    tab_id: TabId,
    session_epoch: u64,
    profile_id: ProfileId,
) -> bool {
    &&& command.tab_id == tab_id
    &&& command.session_epoch == session_epoch
    &&& command.profile_id == profile_id
    &&& command.direction == direction
    &&& views(command.sources@) == seq![source]
    &&& command.destination@ == destination
    &&& command.conflict_policy is OverwriteAll
}

/// The transfer that writes the temporary file of a session back.
pub fn build_edit_upload_command(
    temp: &str,
    remote_path: &str,
    session_epoch: u64,
    profile_id: ProfileId,
    tab_id: TabId,
) -> (r: StartTransferCommand)
    ensures
        moves_one(
            r,
            TransferDirection::Upload,
            PathView { side: PaneSide::Local, text: temp@ },
            PathView { side: PaneSide::Remote, text: remote_path@ },
            tab_id,
            session_epoch,
            profile_id,
        ),
{
    let mut sources: Vec<EntryPath> = Vec::new();
    sources.push(EntryPath::Local(temp.to_string()));
    assert(views(sources@) =~= seq![PathView { side: PaneSide::Local, text: temp@ }]);
    StartTransferCommand {
        tab_id,
        session_epoch,
        profile_id,
        direction: TransferDirection::Upload,
        sources,
        destination: EntryPath::Remote(remote_path.to_string()),
        conflict_policy: ConflictPolicy::OverwriteAll,
    }
}

/// The session of a file that is about to be fetched.
pub open spec fn fetching(session: EditSession, pending: PendingEdit, id: EditSessionId, temp: Seq<char>)
    -> bool {
    &&& session.id == id
    &&& session.remote_path == pending.remote_path
    &&& session.tab_id == pending.tab_id
    &&& session.session_epoch == pending.session_epoch
    &&& session.profile_id == pending.profile_id
    &&& session.local_temp_path@ == temp
    &&& session.phase is Downloading
    &&& session.remote_snapshot == (RemoteSnapshot {
        size: pending.size,
        modified_at: pending.modified_at,
    })
    &&& session.local_mtime is None
    &&& session.active_transfer is None
    &&& session.pending_check_id is None
    &&& session.checking_local_mtime is None
    &&& session.missing_ticks == 0
}

impl EditSessionStore {
    /// Begins a session for a file, and gives the transfer that fetches it.
    pub fn start_edit_download(&mut self, pending: &PendingEdit, edits_dir: &str, run: &str) -> (r: (
        EditSessionId,
        StartTransferCommand,
    ))
        requires
            old(self).wf(),
            old(self).next_id < u64::MAX,
        ensures
            final(self).wf(),
            r.0 == EditSessionId(old(self).next_id),
            final(self).next_id == old(self).next_id + 1,
            final(self).next_check_id == old(self).next_check_id,
            final(self).sessions@.len() == old(self).sessions@.len() + 1,
            final(self).sessions@.drop_last() == old(self).sessions@,
            ({
                let temp = temp_path(edits_dir@, run@, r.0, pending.remote_path@);
                &&& fetching(final(self).sessions@.last(), *pending, r.0, temp)
                &&& moves_one(
                    r.1,
                    TransferDirection::Download,
                    PathView { side: PaneSide::Remote, text: pending.remote_path@ },
                    PathView { side: PaneSide::Local, text: temp },
                    pending.tab_id,
                    pending.session_epoch,
                    pending.profile_id,
                )
            }),
    {
        let id = self.allocate_id();
        let temp = edit_temp_path(edits_dir, run, id, pending.remote_path.as_str());
        let mut sources: Vec<EntryPath> = Vec::new();
        sources.push(EntryPath::Remote(pending.remote_path.clone()));
        assert(views(sources@) =~= seq![PathView {
            side: PaneSide::Remote,
            text: pending.remote_path@,
        }]);
        let session = EditSession {
            id,
            remote_path: pending.remote_path.clone(),
            tab_id: pending.tab_id,
            session_epoch: pending.session_epoch,
            profile_id: pending.profile_id,
            local_temp_path: temp.clone(),
            phase: EditPhase::Downloading,
            remote_snapshot: RemoteSnapshot {
                size: pending.size,
                modified_at: pending.modified_at,
            },
            local_mtime: None,
            active_transfer: None,
            pending_check_id: None,
            checking_local_mtime: None,
            missing_ticks: 0,
        };
        let ghost before = self.sessions@;
        self.register(session);
        assert(self.sessions@.drop_last() =~= before);
        (
            id,
            StartTransferCommand {
                tab_id: pending.tab_id,
                session_epoch: pending.session_epoch,
                profile_id: pending.profile_id,
                direction: TransferDirection::Download,
                sources,
                destination: EntryPath::Local(temp),
                conflict_policy: ConflictPolicy::OverwriteAll,
            },
        )
    }

    /// Puts a session into another phase.
    fn set_phase(&mut self, id: EditSessionId, phase: EditPhase)
        requires
            old(self).wf(),
            old(self).session(id) matches Some(session) ==> !(session.phase is CheckingRemote),
        ensures
            final(self).wf(),
            final(self).next_id == old(self).next_id,
            final(self).next_check_id == old(self).next_check_id,
            final(self).sessions@ == in_phase_now(old(self).sessions@, id, phase),
    {
        if let Some(i) = self.position(id) {
            let mut session = self.sessions[i].clone();
            session.phase = phase;
            self.put(i, session);
        }
    }

    /// Carries out a decision about a file that changed under an edit. One that is not waiting
    /// for a decision is left alone.
    pub fn resolve_edit_conflict(&mut self, id: EditSessionId, choice: ConflictChoice) -> (r:
        ConflictStep)
        requires
            old(self).wf(),
        ensures
            final(self).wf(),
            final(self).next_id == old(self).next_id,
            final(self).next_check_id == old(self).next_check_id,
            conflict_resolved(old(self).session(id), old(self).sessions@, final(self).sessions@, id, choice, r),
            r is Nothing && !(choice is Later) ==> *final(self) == *old(self),
    {
        let session = match self.position(id) {
            Some(i) => self.sessions[i].clone(),
            None => return ConflictStep::Nothing,
        };
        if session.phase != EditPhase::RemoteConflict {
            return ConflictStep::Nothing;
        }
        match choice {
            ConflictChoice::Overwrite => {
                self.set_phase(id, EditPhase::UploadingBack);
                ConflictStep::Upload(
                    build_edit_upload_command(
                        session.local_temp_path.as_str(),
                        session.remote_path.as_str(),
                        session.session_epoch,
                        session.profile_id,
                        session.tab_id,
                    ),
                )
            },
            ConflictChoice::DiscardLocal => {
                let pending = PendingEdit {
                    remote_path: session.remote_path.clone(),
                    size: session.remote_snapshot.size,
                    modified_at: session.remote_snapshot.modified_at,
                    session_epoch: session.session_epoch,
                    profile_id: session.profile_id,
                    tab_id: session.tab_id,
                };
                let _ = self.remove(id);
                ConflictStep::Redownload { pending, discarded: session }
            },
            ConflictChoice::Later => {
                self.set_phase(id, EditPhase::Editing);
                ConflictStep::Nothing
            },
        }
    }
}

/// The sessions with one of them in another phase.
pub open spec fn in_phase_now(sessions: Seq<EditSession>, id: EditSessionId, phase: EditPhase) -> Seq<
    EditSession,
> {
    let i = session_index(sessions, id);
    if has_session(sessions, id) {
        sessions.update(i, EditSession { phase, ..sessions[i] })
    } else {
        sessions
    }
}

/// What a decision does: the file is sent, or fetched again, or the session goes on; and nothing
/// where no decision is awaited.
pub open spec fn conflict_resolved(
    session: Option<EditSession>,
    before: Seq<EditSession>,
    after: Seq<EditSession>,
    id: EditSessionId,
    choice: ConflictChoice,
    step: ConflictStep,
) -> bool {
    match session {
        Some(session) if session.phase is RemoteConflict => match choice {
            ConflictChoice::Overwrite => {
                &&& after == in_phase_now(before, id, EditPhase::UploadingBack)
                &&& step matches ConflictStep::Upload(command) && moves_one(
                    command,
                    TransferDirection::Upload,
                    PathView { side: PaneSide::Local, text: session.local_temp_path@ },
                    PathView { side: PaneSide::Remote, text: session.remote_path@ },
                    session.tab_id,
                    session.session_epoch,
                    session.profile_id,
                )
            },
            ConflictChoice::DiscardLocal => {
                &&& after == before.remove(session_index(before, id))
                &&& step == ConflictStep::Redownload {
                    pending: PendingEdit {
                        remote_path: session.remote_path,
                        size: session.remote_snapshot.size,
                        modified_at: session.remote_snapshot.modified_at,
                        session_epoch: session.session_epoch,
                        profile_id: session.profile_id,
                        tab_id: session.tab_id,
                    },
                    discarded: session,
                }
            },
            ConflictChoice::Later => {
                &&& after == in_phase_now(before, id, EditPhase::Editing)
                &&& step is Nothing
            },
        },
        _ => after == before && step is Nothing,
    }
}

/// A second decision about the same change does nothing: the first has moved the session on.
pub proof fn law_conflict_is_resolved_once(
    first: EditSession,
    before: Seq<EditSession>,
    between: Seq<EditSession>,
    after: Seq<EditSession>,
    id: EditSessionId,
    choice: ConflictChoice,
    again: ConflictChoice,
    step: ConflictStep,
    second: ConflictStep,
)
    requires
        has_session(before, id),
        before[session_index(before, id)] == first,
        first.phase is RemoteConflict,
        !(choice is DiscardLocal),
        conflict_resolved(Some(first), before, between, id, choice, step),
        conflict_resolved(
            Some(between[session_index(before, id)]),
            between,
            after,
            id,
            again,
            second,
        ),
    ensures
        after == between,
        second is Nothing,
{
    crate::edit_sessions::lemma_session_index(before, id);
}

/// The live session that edits a file already.
pub open spec fn edited_already(
    sessions: Seq<EditSession>,
    profile_id: ProfileId,
    path: Seq<char>,
) -> Option<EditSession> {
    let i = first_where(sessions, edits(profile_id, path));
    if i < sessions.len() {
        Some(sessions[i])
    } else {
        None
    }
}

/// What the status says of a file that is open already and cannot be shown again now.
pub open spec fn busy_status(phase: EditPhase) -> Option<Seq<char>> {
    match phase {
        EditPhase::Downloading => Some("File is still downloading for editing"@),
        EditPhase::CheckingRemote => Some("Checking the remote file before saving"@),
        EditPhase::RemoteConflict => Some("Resolve the remote edit conflict before reopening"@),
        EditPhase::Editing => None,
        EditPhase::UploadingBack => None,
    }
}

fn busy_text(phase: EditPhase) -> (r: Option<String>)
    ensures
        string_of(r) == busy_status(phase),
{
    match phase {
        EditPhase::Downloading => Some("File is still downloading for editing".to_string()),
        EditPhase::CheckingRemote => Some("Checking the remote file before saving".to_string()),
        EditPhase::RemoteConflict => Some(
            "Resolve the remote edit conflict before reopening".to_string(),
        ),
        EditPhase::Editing => None,
        EditPhase::UploadingBack => None,
    }
}

/// A file for editing in a tab.
pub open spec fn pending_for(target: EditTarget, tab: TabState) -> PendingEdit {
    PendingEdit {
        remote_path: target.path,
        size: target.size,
        modified_at: target.modified_at,
        session_epoch: transfer_session(tab)->0 .0,
        profile_id: transfer_session(tab)->0 .1,
        tab_id: tab.id,
    }
}

/// A file of so many bytes is not fetched without asking.
pub open spec fn is_large(size: Option<u64>) -> bool {
    size is Some && size->0 > EDIT_SIZE_WARN_THRESHOLD
}

/// A session whose tab no window holds any more does not keep the file from being opened.
pub open spec fn abandoned(existing: Option<EditSession>, live_tabs: Seq<TabId>) -> bool {
    existing is Some && !live_tabs.contains(existing->0.tab_id)
}

impl Workspace {
    /// The remote file that the selection names for editing; where it names none the status says
    /// so.
    pub fn request_edit_selection(&mut self) -> (r: Option<EditTarget>)
        ensures
            ({
                let file = match old(self).tabs.active() {
                    Some(tab) => first_file(views(tab.selected_paths@), tab.remote.entries@),
                    None => None,
                };
                &&& r is Some <==> file is Some
                &&& r is Some ==> {
                    &&& *final(self) == *old(self)
                    &&& r->0 == (EditTarget {
                        path: file->0.path,
                        size: file->0.size,
                        modified_at: file->0.modified_at,
                    })
                }
                &&& r is None && old(self).tabs.active() is None ==> *final(self) == *old(self)
                &&& r is None && old(self).tabs.active() is Some ==> {
                    &&& *final(self) == (Workspace {
                        status_message: final(self).status_message,
                        ..*old(self)
                    })
                    &&& string_of(final(self).status_message) == Some(
                        "Select one remote file to edit"@,
                    )
                }
            }),
    {
        let i: usize = match self.tabs.active_position() {
            Some(i) => i,
            None => return None,
        };
        let tab = &self.tabs.tabs[i];
        match find_first_file(&tab.selected_paths, &tab.remote.entries) {
            Some(k) => {
                let entry = &tab.remote.entries[k];
                Some(
                    EditTarget {
                        path: entry.path.clone(),
                        size: entry.size,
                        modified_at: entry.modified_at,
                    },
                )
            },
            None => {
                self.status_message = Some("Select one remote file to edit".to_string());
                None
            },
        }
    }

    /// The window after a file was opened for editing, and what is left to do.
    pub open spec fn edit_begun(
        &self,
        before: Workspace,
        target: EditTarget,
        sessions: Seq<EditSession>,
        live_tabs: Seq<TabId>,
        config: Config,
        start: EditStart,
    ) -> bool {
        match before.tabs.active() {
            None => start is Nothing && *self == before,
            Some(tab) => match transfer_session(tab) {
                None => {
                    &&& start is Nothing
                    &&& *self == (Workspace { status_message: self.status_message, ..before })
                    &&& string_of(self.status_message) == Some("Connect before editing"@)
                },
                Some((_, profile_id)) => {
                    let existing = edited_already(sessions, profile_id, target.path@);
                    if existing is Some && live_tabs.contains(existing->0.tab_id) {
                        match busy_status(existing->0.phase) {
                            None => *self == before && start == (EditStart::Reopen {
                                temp_path: existing->0.local_temp_path,
                                editor: config.external_editor,
                            }),
                            Some(text) => {
                                &&& start is Nothing
                                &&& *self == (Workspace {
                                    status_message: self.status_message,
                                    ..before
                                })
                                &&& string_of(self.status_message) == Some(text)
                            },
                        }
                    } else if is_large(target.size) {
                        &&& start is Asked
                        &&& *self == (Workspace {
                            large_edit_confirm: Some(pending_for(target, tab)),
                            ..before
                        })
                    } else {
                        *self == before && start == EditStart::Download(pending_for(target, tab))
                    }
                },
            },
        }
    }

    /// Opens a remote file for editing. One that is open already in a tab of `live_tabs`, those
    /// of all windows, is not fetched twice; a session whose tab is gone is dropped, and its
    /// temporary files are to be deleted.
    pub fn begin_edit(
        &mut self,
        target: EditTarget,
        store: &mut EditSessionStore,
        live_tabs: &Vec<TabId>,
        config: &Config,
    ) -> (r: (EditStart, Vec<EditSession>))
        requires
            old(self).wf(),
            old(store).wf(),
        ensures
            final(self).wf(),
            final(store).wf(),
            final(self).edit_begun(
                *old(self),
                target,
                old(store).sessions@,
                live_tabs@,
                *config,
                r.0,
            ),
            ({
                let existing = match old(self).tabs.active() {
                    Some(tab) => match transfer_session(tab) {
                        Some((_, profile_id)) => edited_already(
                            old(store).sessions@,
                            profile_id,
                            target.path@,
                        ),
                        None => None,
                    },
                    None => None,
                };
                if abandoned(existing, live_tabs@) {
                    &&& r.1@ == old(store).sessions@.filter(of_tab(existing->0.tab_id))
                    &&& final(store).sessions@ == old(store).sessions@.filter(
                        not_of_tab(existing->0.tab_id),
                    )
                    &&& final(store).next_id == old(store).next_id
                    &&& final(store).next_check_id == old(store).next_check_id
                } else {
                    r.1@.len() == 0 && *final(store) == *old(store)
                }
            }),
    {
        let mut dropped: Vec<EditSession> = Vec::new();
        let i: usize = match self.tabs.active_position() {
            Some(i) => i,
            None => return (EditStart::Nothing, dropped),
        };
        let tab_id = self.tabs.tabs[i].id;
        let (session_epoch, profile_id) = match connected_transfer_session(&self.tabs.tabs[i]) {
            Some(session) => session,
            None => {
                self.status_message = Some("Connect before editing".to_string());
                return (EditStart::Nothing, dropped);
            },
        };
        if let Some(k) = store.find_active(profile_id, target.path.as_str()) {
            let existing = store.sessions[k].clone();
            if holds_tab(live_tabs, existing.tab_id) {
                return match busy_text(existing.phase) {
                    None => (
                        EditStart::Reopen {
                            temp_path: existing.local_temp_path,
                            editor: config.editor(),
                        },
                        dropped,
                    ),
                    Some(text) => {
                        self.status_message = Some(text);
                        (EditStart::Nothing, dropped)
                    },
                };
            }
            dropped = store.remove_for_tab(existing.tab_id);
        }
        let large = match target.size {
            Some(size) => size > EDIT_SIZE_WARN_THRESHOLD,
            None => false,
        };
        let pending = PendingEdit {
            remote_path: target.path,
            size: target.size,
            modified_at: target.modified_at,
            session_epoch,
            profile_id,
            tab_id,
        };
        if large {
            self.large_edit_confirm = Some(pending);
            (EditStart::Asked, dropped)
        } else {
            (EditStart::Download(pending), dropped)
        }
    }

    /// Follows an attempt to show a file again that is open already.
    pub fn edit_reopened(&mut self, opened: bool)
        ensures
            *final(self) == (Workspace { status_message: final(self).status_message, ..*old(self) }),
            string_of(final(self).status_message) == Some(
                if opened {
                    "Reopened file for editing"@
                } else {
                    "Could not open file for editing"@
                },
            ),
    {
        self.status_message = Some(
            if opened {
                "Reopened file for editing".to_string()
            } else {
                "Could not open file for editing".to_string()
            },
        );
    }

    /// Follows the request to fetch a file for editing, of which `outcome` came. Where it was not
    /// sent the session is dropped again, and its temporary files are to be deleted.
    pub fn edit_download_sent(
        &mut self,
        id: EditSessionId,
        store: &mut EditSessionStore,
        outcome: Dispatch,
    ) -> (r: Option<EditSession>)
        requires
            old(store).wf(),
        ensures
            final(store).wf(),
            *final(self) == (Workspace { status_message: final(self).status_message, ..*old(self) }),
            string_of(final(self).status_message) == if outcome is Sent {
                Some("Opening for edit…"@)
            } else {
                dispatch_status(outcome)
            },
            outcome is Sent ==> r is None && *final(store) == *old(store),
            !(outcome is Sent) ==> {
                &&& r == old(store).session(id)
                &&& r is None ==> *final(store) == *old(store)
                &&& r is Some ==> final(store).sessions@ == old(store).sessions@.remove(
                    session_index(old(store).sessions@, id),
                )
                &&& final(store).next_id == old(store).next_id
                &&& final(store).next_check_id == old(store).next_check_id
            },
    {
        if self.note_dispatch(outcome) {
            self.status_message = Some("Opening for edit…".to_string());
            None
        } else {
            store.remove(id)
        }
    }

    /// Follows the request to write a file back over a changed one, of which `outcome` came.
    /// Where it was not sent the decision is awaited again.
    pub fn edit_upload_sent(
        &mut self,
        id: EditSessionId,
        store: &mut EditSessionStore,
        outcome: Dispatch,
    ) -> (r: bool)
        requires
            old(store).wf(),
            old(store).session(id) matches Some(session) ==> session.phase is UploadingBack,
        ensures
            final(store).wf(),
            r == (outcome is Sent),
            r ==> *final(self) == *old(self) && *final(store) == *old(store),
            !r ==> {
                &&& *final(self) == (Workspace {
                    status_message: final(self).status_message,
                    ..*old(self)
                })
                &&& string_of(final(self).status_message) == dispatch_status(outcome)
                &&& final(store).sessions@ == in_phase_now(
                    old(store).sessions@,
                    id,
                    EditPhase::RemoteConflict,
                )
                &&& final(store).next_id == old(store).next_id
                &&& final(store).next_check_id == old(store).next_check_id
            },
    {
        if self.note_dispatch(outcome) {
            return true;
        }
        store.set_phase(id, EditPhase::RemoteConflict);
        false
    }

    /// The user agreed to fetch a large file: gives what is to be fetched, under the connection
    /// that its tab has now.
    pub fn confirm_large_edit(&mut self) -> (r: Option<PendingEdit>)
        ensures
            match old(self).large_edit_confirm {
                None => r is None && *final(self) == *old(self),
                Some(pending) => {
                    let live = if has_tab(old(self).tabs.tabs@, pending.tab_id) {
                        transfer_session(
                            old(self).tabs.tabs@[tab_index(
                                old(self).tabs.tabs@,
                                pending.tab_id,
                            )],
                        )
                    } else {
                        None
                    };
                    match live {
                        Some((session_epoch, profile_id)) => {
                            &&& *final(self) == (Workspace {
                                large_edit_confirm: None,
                                ..*old(self)
                            })
                            &&& r == Some(PendingEdit { session_epoch, profile_id, ..pending })
                        },
                        None => {
                            &&& r is None
                            &&& *final(self) == (Workspace {
                                large_edit_confirm: None,
                                status_message: final(self).status_message,
                                ..*old(self)
                            })
                            &&& string_of(final(self).status_message) == Some(
                                "Connect before editing"@,
                            )
                        },
                    }
                },
            },
    {
        let mut pending = match self.large_edit_confirm.take() {
            Some(pending) => pending,
            None => return None,
        };
        let live = match self.tabs.position(pending.tab_id) {
            Some(i) => connected_transfer_session(&self.tabs.tabs[i]),
            None => None,
        };
        match live {
            Some((session_epoch, profile_id)) => {
                pending.session_epoch = session_epoch;
                pending.profile_id = profile_id;
                Some(pending)
            },
            None => {
                self.status_message = Some("Connect before editing".to_string());
                None
            },
        }
    }

    /// The user declined to fetch a large file.
    pub fn cancel_large_edit(&mut self)
        ensures
            *final(self) == (Workspace { large_edit_confirm: None, ..*old(self) }),
    {
        self.large_edit_confirm = None;
    }
}

/// A fetch that could not be asked for leaves no session behind: the sessions are those from
/// before it.
pub proof fn law_unsent_download_leaves_no_session(
    before: Seq<EditSession>,
    session: EditSession,
)
    requires
        !has_session(before, session.id),
    ensures
        before.push(session).remove(session_index(before.push(session), session.id)) == before,
{
    let all = before.push(session);
    crate::edit_sessions::lemma_session_index(before, session.id);
    assert forall|k: int| 0 <= k < before.len() implies (#[trigger] all[k]).id != session.id by {
        assert(all[k] == before[k]);
    }
    crate::edit_sessions::lemma_session_index_is(all, session.id, before.len() as int);
    assert(all.remove(before.len() as int) =~= before);
}

}
