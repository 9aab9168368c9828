use macsftp_app::dispatch::{owner_of, tab_remote_is_ready};
use macsftp_app::edit_sessions::{
    EditPhase, EditSession, EditSessionStore, TempLook, WatchStep, EDIT_MISSING_TICKS_LIMIT,
};
use macsftp_app::model::{
    CheckRemoteEditSnapshotCommand, ConnectionState, DisconnectReason, Dispatch, EditCheckId,
    EditSessionId, FileEntry, FileKind, ProfileId, RemoteSnapshot, SessionId, TabId, Timestamp,
    WindowSessionId,
};
use macsftp_app::resources::TabIdCounter;
use macsftp_app::workspace::Workspace;

const REMOTE_FILE: &str = "/srv/a.txt";

/// The process as the watcher sees it: the windows, the sessions, and what the runtime got.
struct Process {
    windows: Vec<Workspace>,
    sessions: EditSessionStore,
    sent: Vec<CheckRemoteEditSnapshotCommand>,
    removed: Vec<String>,
    channel_is_full: bool,
}

fn at(secs: u64) -> Timestamp {
    Timestamp::from_secs_since_epoch(secs)
}

/// When the temporary file was written last.
fn written() -> TempLook {
    TempLook::Present { modified: Some(at(500)) }
}

fn snapshot() -> RemoteSnapshot {
    RemoteSnapshot { size: Some(20), modified_at: Some(at(100)) }
}

fn seed_remote_entry(window: &mut Workspace, session: u64) {
    let tab = &mut window.tabs.tabs[0];
    tab.session_epoch = 1;
    tab.connection = ConnectionState::Connected { session_id: SessionId(session), session_epoch: 1 };
    tab.remote.path = Some("/srv".to_string());
    tab.remote.entries = vec![FileEntry {
        name: "a.txt".to_string(),
        path: REMOTE_FILE.to_string(),
        kind: FileKind::File,
        size: snapshot().size,
        modified_at: snapshot().modified_at,
    }];
}

fn process(with_window: bool) -> Process {
    let mut windows = Vec::new();
    if with_window {
        let mut ids = TabIdCounter::new();
        let mut window =
            Workspace::new(WindowSessionId(1), "/home".to_string(), false, None, &mut ids);
        seed_remote_entry(&mut window, 1);
        windows.push(window);
    }
    Process {
        windows,
        sessions: EditSessionStore::new(),
        sent: Vec::new(),
        removed: Vec::new(),
        channel_is_full: false,
    }
}

impl Process {
    fn seed_editing_session(&mut self, local_mtime: Option<Timestamp>) -> EditSessionId {
        let id = self.sessions.allocate_id();
        self.sessions.register(EditSession {
            id,
            remote_path: REMOTE_FILE.to_string(),
            tab_id: TabId(1),
            session_epoch: 1,
            profile_id: ProfileId(1),
            local_temp_path: "/edits/run/1/edited.txt".to_string(),
            phase: EditPhase::Editing,
            remote_snapshot: snapshot(),
            local_mtime,
            active_transfer: None,
            pending_check_id: None,
            checking_local_mtime: None,
            missing_ticks: 0,
        });
        id
    }

    fn session(&self, id: EditSessionId) -> Option<&EditSession> {
        self.sessions.position(id).map(|i| &self.sessions.sessions[i])
    }

    fn session_mut(&mut self, id: EditSessionId) -> &mut EditSession {
        let i = self.sessions.position(id).expect("session exists");
        &mut self.sessions.sessions[i]
    }

    fn phase(&self, id: EditSessionId) -> EditPhase {
        self.session(id).expect("session survives poll").phase
    }

    fn poll(&mut self, look: TempLook) {
        let ids = self.sessions.watch_candidates();
        let looks: Vec<(TempLook, bool)> = ids
            .iter()
            .map(|id| {
                let session = self.session(*id).expect("candidate exists");
                (look, tab_remote_is_ready(&self.windows, session.tab_id))
            })
            .collect();
        for step in self.sessions.poll_edit_sessions(&looks) {
            match step {
                WatchStep::Nothing => {}
                WatchStep::Reaped { temp_path, .. } => self.removed.push(temp_path),
                WatchStep::Check(command) => {
                    let id = command.edit_session_id;
                    let last_mtime = self.session(id).expect("checked session exists").local_mtime;
                    let outcome = owner_of(&self.windows, command.tab_id).map(|_| {
                        if self.channel_is_full {
                            Dispatch::ChannelFull
                        } else {
                            Dispatch::Sent
                        }
                    });
                    if outcome == Some(Dispatch::Sent) {
                        self.sent.push(command);
                    }
                    self.sessions.edit_command_sent(id, last_mtime, outcome);
                }
            }
        }
    }
}

#[test]
fn poll_dispatches_remote_check_before_upload() {
    let mut process = process(true);
    // An old age, so that the file reads as changed.
    let id = process.seed_editing_session(Some(at(1)));

    process.poll(written());

    assert_eq!(
        process.phase(id),
        EditPhase::CheckingRemote,
        "a changed local file with a ready tab must move the session to CheckingRemote"
    );
    assert_eq!(process.sent.len(), 1, "a check command must be dispatched");
    let command = &process.sent[0];
    assert_eq!(command.tab_id, TabId(1));
    assert_eq!(command.session_epoch, 1);
    assert_eq!(command.edit_session_id, id);
    assert_eq!(command.check_id, EditCheckId(1), "first allocated check id");
    assert_eq!(command.path, REMOTE_FILE);
}

#[test]
fn poll_does_not_dispatch_duplicate_check_while_checking() {
    let mut process = process(true);
    let id = process.seed_editing_session(Some(at(1)));

    process.poll(written());
    assert_eq!(process.phase(id), EditPhase::CheckingRemote);
    assert_eq!(
        process.sent.len(),
        1,
        "only one check command may be dispatched before a result arrives"
    );

    process.poll(written());
    assert_eq!(
        process.phase(id),
        EditPhase::CheckingRemote,
        "the session must remain CheckingRemote while the check is in flight"
    );
    assert_eq!(
        process.sent.len(),
        1,
        "a duplicate check must not be dispatched while CheckingRemote"
    );
}

#[test]
fn poll_ignores_unchanged_files() {
    let mut process = process(true);
    let id = process.seed_editing_session(None);
    // The age that is known is the age of the file.
    process.session_mut(id).local_mtime = Some(at(500));

    process.poll(written());

    assert_eq!(
        process.phase(id),
        EditPhase::Editing,
        "an unchanged file must leave the session in Editing"
    );
    assert!(
        process.sent.is_empty(),
        "no command may be dispatched when the file is unchanged"
    );
}

#[test]
fn poll_reverts_to_editing_when_owning_window_closed() {
    let mut process = process(false);
    let id = process.seed_editing_session(Some(at(1)));

    process.poll(written());

    assert_eq!(
        process.phase(id),
        EditPhase::Editing,
        "a window-less upload dispatch must revert the session to Editing"
    );
}

#[test]
fn poll_defers_changed_file_until_disconnected_tab_is_ready() {
    let mut process = process(true);
    let baseline = at(1);
    let id = process.seed_editing_session(Some(baseline));
    {
        let tab = &mut process.windows[0].tabs.tabs[0];
        tab.connection = ConnectionState::Disconnected { reason: DisconnectReason::ConnectionLost };
        tab.remote.path = None;
        tab.remote.entries.clear();
    }

    process.poll(written());

    assert_eq!(process.phase(id), EditPhase::Editing);
    assert_eq!(
        process.session(id).expect("session survives disconnect").local_mtime,
        Some(baseline),
        "deferring must preserve the old mtime so reconnect retries the save"
    );
    assert!(process.sent.is_empty());

    seed_remote_entry(&mut process.windows[0], 2);

    process.poll(written());

    assert_eq!(
        process.phase(id),
        EditPhase::CheckingRemote,
        "once the tab is ready again the watcher must dispatch the authoritative check"
    );
    assert_eq!(
        process.sent.len(),
        1,
        "the deferred save must dispatch a remote check once the tab is ready again"
    );
}

#[test]
fn poll_reverts_to_editing_when_check_dispatch_fails() {
    let mut process = process(true);
    let baseline = at(1);
    let id = process.seed_editing_session(Some(baseline));
    process.channel_is_full = true;

    process.poll(written());

    assert_eq!(
        process.phase(id),
        EditPhase::Editing,
        "a channel-full check dispatch must revert the session to Editing, not strand it"
    );
    let session = process.session(id).expect("session survives");
    assert_eq!(
        session.local_mtime,
        Some(baseline),
        "the pre-save mtime must be restored so the next poll retries the check"
    );
    assert_eq!(
        (session.pending_check_id, session.checking_local_mtime),
        (None, None),
        "the pending check fields must be cleared on a failed dispatch"
    );

    // The next look tells the save again.
    process.channel_is_full = false;
    process.poll(written());
    assert_eq!(process.phase(id), EditPhase::CheckingRemote);
    assert_eq!(process.sent[0].check_id, EditCheckId(2));
}

#[test]
fn poll_tolerates_transient_stat_miss_then_reaps_after_limit() {
    let mut process = process(true);
    let id = process.seed_editing_session(None);

    for tick in 1..EDIT_MISSING_TICKS_LIMIT {
        process.poll(TempLook::Missing);
        assert_eq!(
            process.session(id).map(|session| session.missing_ticks),
            Some(tick),
            "tick {tick}: session must survive a transient miss and count it"
        );
    }

    process.poll(written());
    assert_eq!(
        process.session(id).map(|session| session.missing_ticks),
        Some(0),
        "a successful stat must reset the miss counter"
    );

    for _ in 0..EDIT_MISSING_TICKS_LIMIT {
        process.poll(TempLook::Missing);
    }
    assert!(
        process.session(id).is_none(),
        "a genuinely deleted temp (LIMIT consecutive misses) must reap the session"
    );
}

#[test]
fn poll_reaps_remote_conflict_after_temp_file_is_deleted() {
    let mut process = process(false);
    let id = process.seed_editing_session(None);
    process.session_mut(id).phase = EditPhase::RemoteConflict;

    for _ in 0..EDIT_MISSING_TICKS_LIMIT {
        process.poll(TempLook::Missing);
    }

    assert!(
        process.session(id).is_none(),
        "a conflict whose temp file is gone must be reaped"
    );
    assert_eq!(
        process.removed,
        vec!["/edits/run/1/edited.txt".to_string()],
        "reaping the session must remove only its isolated directory"
    );
}

#[test]
fn poll_keeps_present_remote_conflict_unchanged() {
    let mut process = process(false);
    let baseline = at(1);
    let id = process.seed_editing_session(Some(baseline));
    process.session_mut(id).phase = EditPhase::RemoteConflict;

    process.poll(written());

    let session = process.session(id).expect("present conflict survives");
    assert_eq!(session.phase, EditPhase::RemoteConflict);
    assert_eq!(session.local_mtime, Some(baseline));
}

#[test]
fn a_poll_treats_each_session_for_itself() {
    let mut process = process(true);
    let saved = process.seed_editing_session(Some(at(1)));
    let same = process.seed_editing_session(Some(at(500)));
    let gone = process.seed_editing_session(Some(at(1)));
    let asked = process.seed_editing_session(Some(at(1)));
    process.session_mut(asked).phase = EditPhase::RemoteConflict;
    process.session_mut(asked).missing_ticks = 1;
    let busy = process.seed_editing_session(Some(at(1)));
    process.session_mut(busy).phase = EditPhase::UploadingBack;
    assert_eq!(process.sessions.watch_candidates(), vec![saved, same, gone, asked]);

    let looks = vec![
        (written(), true),
        (written(), true),
        (TempLook::Missing, true),
        (written(), true),
    ];
    let steps = process.sessions.poll_edit_sessions(&looks);

    assert!(matches!(&steps[0], WatchStep::Check(command) if command.edit_session_id == saved));
    assert_eq!(steps[1..], [WatchStep::Nothing, WatchStep::Nothing, WatchStep::Nothing]);
    assert_eq!(process.phase(saved), EditPhase::CheckingRemote);
    assert_eq!(process.phase(same), EditPhase::Editing);
    assert_eq!(process.session(gone).map(|session| session.missing_ticks), Some(1));
    assert_eq!(process.session(asked).map(|session| session.missing_ticks), Some(0));
    assert_eq!(process.phase(asked), EditPhase::RemoteConflict);
    assert_eq!(process.phase(busy), EditPhase::UploadingBack);
}

#[test]
fn check_ids_go_round() {
    let mut process = process(true);
    let id = process.seed_editing_session(Some(at(1)));
    process.sessions.next_check_id = u64::MAX;
    process.poll(written());
    assert_eq!(process.sent[0].check_id, EditCheckId(u64::MAX));
    assert_eq!(process.phase(id), EditPhase::CheckingRemote);
    assert_eq!(process.sessions.next_check_id, 0);
}
