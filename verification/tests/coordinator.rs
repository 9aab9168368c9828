use macsftp_app::dispatch::{
    dispatch_event, live_tabs, sync_listing, tell_owner, DispatchStep, RuntimeEvent,
};
use macsftp_app::edit_sessions::{EditAdvance, EditPhase, EditSession, EditSessionStore, TempStat};
use macsftp_app::event_coordinator::present_orphaned_transfer_conflicts;
use macsftp_app::events::AppEvent;
use macsftp_app::model::{
    ConflictRequest, ConflictRequestId, EditSessionId, EntryPath, FileEntry, FileKind, PlanId,
    ProfileId, RemoteSnapshot, TabId, Timestamp, TransferDirection, TransferId, TransferJob,
    TransferState, WindowSessionId,
};
use macsftp_app::resources::{ResidualTemp, TabIdCounter, TransferReport};
use macsftp_app::workspace::{AppearancePreference, Config, Workspace};

const TEMP: &str = "/edits/run/1/a.txt";

fn at(secs: u64) -> Timestamp {
    Timestamp::from_secs_since_epoch(secs)
}

fn window(id: u64, ids: &mut TabIdCounter) -> Workspace {
    Workspace::new(WindowSessionId(id), "/home".to_string(), false, None, ids)
}

/// A window whose tab lists the edited file, at an old size and age.
fn window_with_stale_remote_entry(size: Option<u64>, modified_at: Option<Timestamp>) -> Workspace {
    let mut window = window(1, &mut TabIdCounter::new());
    window.tabs.tabs[0].remote.entries = vec![FileEntry {
        name: "a.txt".to_string(),
        path: "/srv/a.txt".to_string(),
        kind: FileKind::File,
        size,
        modified_at,
    }];
    window
}

fn seed_edit(
    store: &mut EditSessionStore,
    phase: EditPhase,
    transfer_id: TransferId,
    remote_snapshot: RemoteSnapshot,
) -> (EditSessionId, TransferJob) {
    let id = store.allocate_id();
    store.register(EditSession {
        id,
        remote_path: "/srv/a.txt".to_string(),
        tab_id: TabId(1),
        session_epoch: 1,
        profile_id: ProfileId(1),
        local_temp_path: TEMP.to_string(),
        phase,
        remote_snapshot,
        local_mtime: None,
        active_transfer: Some(transfer_id),
        pending_check_id: None,
        checking_local_mtime: None,
        missing_ticks: 0,
    });
    let remote = EntryPath::Remote("/srv/a.txt".to_string());
    let local = EntryPath::Local(TEMP.to_string());
    let job = if phase == EditPhase::Downloading {
        job(transfer_id, TransferDirection::Download, remote, local)
    } else {
        job(transfer_id, TransferDirection::Upload, local, remote)
    };
    (id, job)
}

fn job(
    id: TransferId,
    direction: TransferDirection,
    source: EntryPath,
    destination: EntryPath,
) -> TransferJob {
    TransferJob {
        id,
        direction,
        source,
        destination,
        state: TransferState::Queued,
        warnings: Vec::new(),
    }
}

fn session(store: &EditSessionStore, id: EditSessionId) -> Option<&EditSession> {
    store.position(id).map(|i| &store.sessions[i])
}

fn config() -> Config {
    Config {
        show_hidden_files: false,
        confirm_delete: true,
        appearance: AppearancePreference::System,
        external_editor: Some("TextMate".to_string()),
    }
}

#[test]
fn download_completion_moves_edit_session_to_editing() {
    let mut store = EditSessionStore::new();
    let before = RemoteSnapshot { size: Some(15), modified_at: Some(at(10)) };
    let (id, job) = seed_edit(&mut store, EditPhase::Downloading, TransferId(42), before);

    let stat = TempStat { size: 15, modified: Some(at(20)) };
    let advance = store.advance_edit_sessions(&job, true, Some(stat), &config());

    let session = session(&store, id).expect("edit session survives completion");
    assert_eq!(session.phase, EditPhase::Editing);
    assert!(
        session.local_mtime.is_some(),
        "watch baseline mtime recorded"
    );
    assert_eq!(session.active_transfer, None, "active transfer cleared");
    assert_eq!(
        advance,
        EditAdvance::OpenEditor {
            temp_path: TEMP.to_string(),
            editor: Some("TextMate".to_string()),
        },
        "editor opened exactly once on success"
    );
}

#[test]
fn unrelated_transfer_sharing_temp_path_does_not_drive_edit_session() {
    let mut store = EditSessionStore::new();
    let before = RemoteSnapshot { size: Some(15), modified_at: Some(at(10)) };
    let (id, _job) = seed_edit(&mut store, EditPhase::Downloading, TransferId(60), before);

    let unrelated = job(
        TransferId(61),
        TransferDirection::Upload,
        EntryPath::Local(TEMP.to_string()),
        EntryPath::Remote("/srv/unrelated.txt".to_string()),
    );
    let advance = store.advance_edit_sessions(&unrelated, true, None, &config());

    let session = session(&store, id).expect("edit session must survive an unrelated transfer");
    assert_eq!(
        session.phase,
        EditPhase::Downloading,
        "an unrelated transfer sharing the temp path must not advance the edit session"
    );
    assert_eq!(
        advance,
        EditAdvance::Nothing,
        "the editor must not open for an unrelated transfer"
    );
}

#[test]
fn download_failure_removes_session_and_surfaces_error() {
    let mut windows = vec![window_with_stale_remote_entry(Some(15), None)];
    let mut store = EditSessionStore::new();
    let before = RemoteSnapshot { size: Some(15), modified_at: Some(at(10)) };
    let (id, job) = seed_edit(&mut store, EditPhase::Downloading, TransferId(43), before);

    match store.advance_edit_sessions(&job, false, None, &config()) {
        EditAdvance::DownloadFailed { temp_path, tab_id, message } => {
            assert_eq!(
                temp_path, TEMP,
                "the session's temp directory must be cleaned up on failure"
            );
            assert!(tell_owner(&mut windows, tab_id, &message));
        }
        advance => panic!("editor is not opened on failure, got {advance:?}"),
    }

    assert!(
        session(&store, id).is_none(),
        "a failed download must remove the session, not park it as Failed"
    );
    let status = windows[0]
        .status_message
        .clone()
        .expect("failure surfaces a status message");
    assert!(
        status.contains("a.txt"),
        "status names the file, was {status:?}"
    );
    assert_eq!(status, "Could not download a.txt for editing");
}

#[test]
fn upload_back_completion_rebases_snapshot_and_returns_to_editing() {
    let stale = RemoteSnapshot { size: Some(1), modified_at: Some(at(1)) };
    let mut windows = vec![window_with_stale_remote_entry(stale.size, stale.modified_at)];
    let mut store = EditSessionStore::new();
    let (id, job) = seed_edit(&mut store, EditPhase::UploadingBack, TransferId(50), stale);
    let disk_len = 23;

    let stat = TempStat { size: disk_len, modified: Some(at(900)) };
    match store.advance_edit_sessions(&job, true, Some(stat), &config()) {
        EditAdvance::Uploaded { tab_id, remote_path, refreshed } => {
            let snapshot = refreshed.expect("the file could be read");
            assert!(sync_listing(&mut windows, tab_id, &remote_path, snapshot));
        }
        advance => panic!("upload-back must not reopen the editor, got {advance:?}"),
    }

    let session = session(&store, id).expect("session survives upload completion");
    assert_eq!(
        session.phase,
        EditPhase::Editing,
        "successful upload-back returns to Editing"
    );
    assert_eq!(session.active_transfer, None, "active transfer cleared");
    assert_eq!(
        session.remote_snapshot.size,
        Some(disk_len),
        "remote snapshot is rebased to the uploaded file's size"
    );
    assert!(
        session.remote_snapshot != stale,
        "the stale baseline must be replaced"
    );
    let synced = windows[0]
        .remote_entry_snapshot(TabId(1), "/srv/a.txt")
        .expect("listing still holds the edited file");
    assert_eq!(
        synced, session.remote_snapshot,
        "the listing entry must be rebased to match the session snapshot"
    );
    assert!(
        synced != stale,
        "the stale listing baseline must be replaced"
    );
}

#[test]
fn upload_back_truncates_rebased_snapshot_mtime_to_whole_seconds() {
    let stale = RemoteSnapshot { size: Some(1), modified_at: Some(at(1)) };
    let mut windows = vec![window_with_stale_remote_entry(stale.size, stale.modified_at)];
    let mut store = EditSessionStore::new();
    let (id, job) = seed_edit(&mut store, EditPhase::UploadingBack, TransferId(52), stale);

    let sub_second = Timestamp(1_234 * 1_000_000_000 + 837_000_000);
    let stat = TempStat { size: 23, modified: Some(sub_second) };
    if let EditAdvance::Uploaded { tab_id, remote_path, refreshed: Some(snapshot) } =
        store.advance_edit_sessions(&job, true, Some(stat), &config())
    {
        assert!(sync_listing(&mut windows, tab_id, &remote_path, snapshot));
    }

    let session = session(&store, id).expect("session survives upload completion");
    let modified = session
        .remote_snapshot
        .modified_at
        .expect("rebased snapshot carries a mtime");
    assert_eq!(
        modified,
        modified.truncated_to_secs(),
        "rebased snapshot mtime must be truncated to whole seconds"
    );
    assert_eq!(
        modified,
        Timestamp::from_secs_since_epoch(1_234),
        "the whole-second part of the local mtime is preserved"
    );
    let synced = windows[0]
        .remote_entry_snapshot(TabId(1), "/srv/a.txt")
        .expect("listing still holds the edited file");
    assert_eq!(
        synced.modified_at,
        Some(Timestamp::from_secs_since_epoch(1_234)),
        "the listing baseline is also whole-second"
    );
}

#[test]
fn upload_back_failure_returns_to_editing_without_rebasing() {
    let baseline = RemoteSnapshot { size: Some(7), modified_at: Some(at(70)) };
    let mut store = EditSessionStore::new();
    let (id, job) = seed_edit(&mut store, EditPhase::UploadingBack, TransferId(51), baseline);

    let stat = TempStat { size: 23, modified: Some(at(900)) };
    store.advance_edit_sessions(&job, false, Some(stat), &config());

    let session = session(&store, id).expect("session survives upload failure");
    assert_eq!(
        session.phase,
        EditPhase::Editing,
        "failed upload-back returns to Editing so the user can retry"
    );
    assert_eq!(
        session.remote_snapshot, baseline,
        "a failed upload must not rebase the remote snapshot"
    );
}

#[test]
fn transfer_events_are_reduced_once_and_conflict_has_one_window_owner() {
    let mut ids = TabIdCounter::new();
    let mut windows = vec![window(1, &mut ids), window(2, &mut ids)];
    let pending = vec![ConflictRequest {
        id: ConflictRequestId(7),
        plan_id: PlanId(1),
        transfer_id: TransferId(2),
        source: EntryPath::Local("/tmp/source/a.txt".to_string()),
        destination: EntryPath::Remote("/srv/source/a.txt".to_string()),
        source_size: Some(4),
        source_modified_at: Some(at(10)),
    }];
    let names = vec!["a copy.txt".to_string()];
    for _ in 0..2 {
        let report = TransferReport::Conflict(pending[0].clone());
        for step in dispatch_event(RuntimeEvent::Transfer(report)) {
            if step == DispatchStep::PresentConflicts {
                present_orphaned_transfer_conflicts(&mut windows, None, &pending, &names);
            }
        }
    }

    let asks = |window: &Workspace| window.has_transfer_conflict_modal(ConflictRequestId(7));
    let owner_count = windows.iter().filter(|window| asks(window)).count();
    assert_eq!(owner_count, 1);
    assert_eq!(windows.iter().map(|window| window.modals.len()).sum::<usize>(), 1);

    let owner = windows.iter().position(|window| asks(window)).expect("one window asks");
    assert_eq!(windows[owner].conflict_rename, "a copy.txt");
    let closed = windows.remove(owner);
    assert!(asks(&closed));
    present_orphaned_transfer_conflicts(&mut windows, None, &pending, &names);
    assert!(asks(&windows[0]));
}

#[test]
fn what_concerns_the_process_is_done_once() {
    assert_eq!(
        dispatch_event(RuntimeEvent::Transfer(TransferReport::Completed {
            transfer_id: TransferId(3)
        })),
        vec![
            DispatchStep::NoteTransfer,
            DispatchStep::AdvanceEdits { transfer_id: TransferId(3), succeeded: true },
            DispatchStep::RefreshWindows,
        ]
    );
    assert_eq!(
        dispatch_event(RuntimeEvent::Transfer(TransferReport::Skipped {
            transfer_id: TransferId(3)
        })),
        vec![DispatchStep::NoteTransfer, DispatchStep::RefreshWindows]
    );
    let record = || ResidualTemp {
        transfer_id: TransferId(4),
        path: "/tmp/.part".to_string(),
        is_local: true,
    };
    assert_eq!(
        dispatch_event(RuntimeEvent::Window(AppEvent::ResidualTempCreated(record()))),
        vec![DispatchStep::RememberTemp(record()), DispatchStep::SaveTemps]
    );
    assert_eq!(
        dispatch_event(RuntimeEvent::Window(AppEvent::Other)),
        vec![DispatchStep::TellWindows(AppEvent::Other)]
    );
}

#[test]
fn only_the_owner_is_told() {
    let mut ids = TabIdCounter::new();
    let mut windows = vec![window(1, &mut ids), window(2, &mut ids)];
    assert_eq!(live_tabs(&windows), vec![TabId(1), TabId(2)]);
    assert!(tell_owner(&mut windows, TabId(2), "done"));
    assert_eq!(windows[0].status_message, None);
    assert_eq!(windows[1].status_message, Some("done".to_string()));
    assert!(!tell_owner(&mut windows, TabId(3), "nobody"));
}
