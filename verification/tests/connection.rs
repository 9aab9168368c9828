use macsftp_app::edit_sessions::EditSessionStore;
use macsftp_app::events::{
    AppEvent, ConnectedTab, DisconnectedTab, EventStep, FsFailure, LoadingDirectory, RefusedTab,
    RemoteDirectory, RemoteFailure,
};
use macsftp_app::model::{
    AuthCredential, ConflictDecision, ConflictRequestId, ConnectionPoolIdentity,
    ConnectionSettings, ConnectionState, DisconnectReason, Dispatch, EntryPath, ErrorCode,
    FileEntry, FileKind, FsScope, HostKeyMismatch, HostKeyPrompt, PlanId, ProfileId,
    RemoteEventScope, SessionId, TabId, TransferConflictPrompt, TransferId, TrustRequestId,
    UserFacingError, WindowSessionId,
};
use macsftp_app::recents::CallOff;
use macsftp_app::resources::TabIdCounter;
use macsftp_app::tab_actions::ConnectRequest;
use macsftp_app::workspace::{FocusTarget, Workspace};

fn settings() -> ConnectionSettings {
    ConnectionSettings {
        host: "example.org".to_string(),
        port: 22,
        username: "alex".to_string(),
        auth: AuthCredential::Password { password: "pw".to_string() },
    }
}

fn error(title: &str) -> UserFacingError {
    UserFacingError {
        code: ErrorCode::Unknown,
        title: title.to_string(),
        message: "why".to_string(),
        detail: None,
    }
}

fn window() -> Workspace {
    Workspace::new(
        WindowSessionId(1),
        "/home".to_string(),
        false,
        None,
        &mut TabIdCounter::new(),
    )
}

/// A window whose tab is being connected.
fn connecting() -> (Workspace, RemoteEventScope) {
    let mut window = window();
    let mut edits = EditSessionStore::new();
    window.connect_with(settings(), None, &mut edits, Dispatch::Sent);
    let scope = RemoteEventScope {
        tab_id: TabId(1),
        session_id: SessionId(1),
        session_epoch: window.tabs.tabs[0].session_epoch,
    };
    (window, scope)
}

fn connected() -> (Workspace, RemoteEventScope) {
    let (mut window, scope) = connecting();
    let step = window.handle_app_event(AppEvent::TabConnected(ConnectedTab {
        scope,
        remote_root: "/root".to_string(),
    }));
    assert_eq!(
        step,
        EventStep::ReadRemote { tab_id: TabId(1), path: "/root".to_string() }
    );
    (window, scope)
}

fn prompt(scope: RemoteEventScope) -> HostKeyPrompt {
    HostKeyPrompt {
        scope,
        request_id: TrustRequestId(5),
        host: "example.org".to_string(),
        port: 22,
        algorithm: "ssh-ed25519".to_string(),
        fingerprint_sha256: "SHA256:abc".to_string(),
    }
}

fn entry(name: &str) -> FileEntry {
    FileEntry {
        path: format!("/root/{name}"),
        name: name.to_string(),
        kind: FileKind::File,
        size: Some(3),
        modified_at: None,
    }
}

#[test]
fn connecting_bumps_the_epoch_and_names_the_tab() {
    let window = window();
    assert_eq!(window.request_connect(), ConnectRequest::AskForm);
    let command = window.connect_command(&settings(), None, None).expect("a tab");
    assert_eq!(command.tab_id, TabId(1));
    assert_eq!(command.session_id, SessionId(1));
    assert_eq!(command.session_epoch, 1);
    assert_eq!(command.profile_id, ProfileId(0));
    assert_eq!(command.pool_identity, ConnectionPoolIdentity::Ephemeral(SessionId(1)));

    let (window, _) = connecting();
    let tab = &window.tabs.tabs[0];
    assert_eq!(tab.session_epoch, 1);
    assert_eq!(tab.title, "example.org");
    assert_eq!(
        tab.connection,
        ConnectionState::Connecting { session_id: SessionId(1), session_epoch: 1 }
    );
    assert_eq!(window.next_session_id, 2);
    assert_eq!(window.request_connect(), ConnectRequest::Nothing);
}

#[test]
fn a_refused_command_leaves_the_tab_unconnected() {
    let mut window = window();
    let mut edits = EditSessionStore::new();
    window.connect_with(settings(), None, &mut edits, Dispatch::ChannelClosed);
    assert_eq!(window.tabs.tabs[0].connection, ConnectionState::Empty);
    assert_eq!(
        window.status_message,
        Some("Connection service is unavailable.".to_string())
    );
}

#[test]
fn stale_events_change_nothing() {
    let (mut window, scope) = connected();
    let stale = RemoteEventScope { session_epoch: 0, ..scope };
    let step = window.handle_app_event(AppEvent::RemoteDirLoaded(RemoteDirectory {
        scope: stale,
        path: "/root".to_string(),
        entries: vec![entry("old")],
    }));
    assert_eq!(step, EventStep::Stale);
    assert!(window.tabs.tabs[0].remote.entries.is_empty());
}

#[test]
fn listings_of_the_shown_directory_are_taken() {
    let (mut window, scope) = connected();
    window.handle_app_event(AppEvent::RemoteDirLoading(LoadingDirectory {
        scope,
        path: "/root".to_string(),
    }));
    assert!(window.tabs.tabs[0].remote.is_refreshing);
    window.handle_app_event(AppEvent::RemoteDirLoaded(RemoteDirectory {
        scope,
        path: "/elsewhere".to_string(),
        entries: vec![entry("other")],
    }));
    assert!(window.tabs.tabs[0].remote.entries.is_empty());
    window.handle_app_event(AppEvent::RemoteDirLoaded(RemoteDirectory {
        scope,
        path: "/root".to_string(),
        entries: vec![entry("a")],
    }));
    assert_eq!(window.tabs.tabs[0].remote.entries, vec![entry("a")]);
    assert!(!window.tabs.tabs[0].remote.is_refreshing);
    window.handle_app_event(AppEvent::RemoteOperationFailed(RemoteFailure {
        scope,
        path: Some("/root".to_string()),
        error: error("Denied"),
    }));
    assert_eq!(window.tabs.tabs[0].remote.error, Some(error("Denied")));
    assert_eq!(window.status_message, Some("Denied: why".to_string()));
}

#[test]
fn file_failures_reach_the_status_of_their_tab_only() {
    let (mut window, scope) = connected();
    window.handle_app_event(AppEvent::FsOperationFailed(FsFailure {
        scope: FsScope::Remote { tab_id: TabId(1), session_epoch: 0 },
        failure: error("Old"),
    }));
    assert_eq!(window.status_message, None);
    window.handle_app_event(AppEvent::FsOperationFailed(FsFailure {
        scope: FsScope::Remote { tab_id: TabId(1), session_epoch: scope.session_epoch },
        failure: error("New"),
    }));
    assert_eq!(window.status_message, Some("New: why".to_string()));
}

#[test]
fn a_lost_connection_keeps_its_place() {
    let (mut window, scope) = connected();
    window.tabs.tabs[0].remote.path = Some("/root/deep".to_string());
    let before = window.build_session_snapshot();
    window.handle_app_event(AppEvent::TabDisconnected(DisconnectedTab {
        scope,
        reason: DisconnectReason::ConnectionLost,
    }));
    assert_eq!(window.tabs.tabs[0].remote.path, None);
    assert_eq!(window.build_session_snapshot(), before);

    let mut edits = EditSessionStore::new();
    match window.request_connect() {
        ConnectRequest::Connect(settings, profile) => {
            window.connect_with(settings, profile, &mut edits, Dispatch::Sent)
        }
        request => panic!("the settings are known, got {request:?}"),
    }
    let scope = RemoteEventScope {
        tab_id: TabId(1),
        session_id: SessionId(2),
        session_epoch: window.tabs.tabs[0].session_epoch,
    };
    let step = window.handle_app_event(AppEvent::TabConnected(ConnectedTab {
        scope,
        remote_root: "/root".to_string(),
    }));
    assert_eq!(
        step,
        EventStep::ReadRemote { tab_id: TabId(1), path: "/root/deep".to_string() }
    );
}

#[test]
fn an_unknown_host_key_is_asked_about() {
    let (mut window, scope) = connecting();
    window.handle_app_event(AppEvent::HostKeyUnknown(prompt(scope)));
    assert_eq!(window.focus, FocusTarget::Modal);
    let view = window.host_key_view().expect("the dialog is open");
    assert_eq!(view.host, "example.org:22");
    assert_eq!(view.key_type, "ssh-ed25519");
    assert_eq!(view.saves_to, "~/Library/Application Support/macSFTP/known_hosts");
    assert_eq!(window.cancel_connect_step(), CallOff::RejectKey(TrustRequestId(5)));

    assert!(!window.accept_host_key(TrustRequestId(5), Dispatch::ChannelFull));
    assert!(window.host_key_view().is_some());
    assert!(window.accept_host_key(TrustRequestId(5), Dispatch::Sent));
    assert!(window.host_key_view().is_none());
    assert_eq!(
        window.tabs.tabs[0].connection,
        ConnectionState::Connecting { session_id: SessionId(1), session_epoch: 1 }
    );
}

#[test]
fn a_rejected_host_key_ends_the_session() {
    let (mut window, scope) = connecting();
    window.handle_app_event(AppEvent::HostKeyUnknown(prompt(scope)));
    assert!(window.reject_host_key(TrustRequestId(5), Dispatch::Sent));
    assert!(window.modals.is_empty());
    assert_eq!(
        window.tabs.tabs[0].connection,
        ConnectionState::Disconnected { reason: DisconnectReason::UserRequested }
    );
}

#[test]
fn a_changed_host_key_blocks_the_connection() {
    let (mut window, scope) = connecting();
    window.handle_app_event(AppEvent::HostKeyMismatch(HostKeyMismatch {
        scope,
        host: "example.org".to_string(),
        port: 2222,
        expected_fingerprint_sha256: None,
        actual_fingerprint_sha256: "SHA256:xyz".to_string(),
    }));
    match &window.tabs.tabs[0].connection {
        ConnectionState::Failed { error } => {
            assert_eq!(error.code, ErrorCode::HostKeyMismatch);
            assert_eq!(
                error.message,
                "The key presented by example.org:2222 does not match the stored key. \
                 This can indicate a man-in-the-middle attack. Connection blocked."
            );
            assert_eq!(
                error.detail.as_deref(),
                Some(
                    "Expected (unknown), got SHA256:xyz. Stored entries: \
                     ~/Library/Application Support/macSFTP/known_hosts and \
                     ~/.ssh/known_hosts."
                )
            );
        }
        state => panic!("the tab must fail, got {state:?}"),
    }
}

#[test]
fn refused_credentials_fail_the_tab_and_drop_its_questions() {
    let (mut window, scope) = connecting();
    window.handle_app_event(AppEvent::HostKeyUnknown(prompt(scope)));
    window.handle_app_event(AppEvent::AuthFailed(RefusedTab { scope, reason: error("Refused") }));
    assert_eq!(
        window.tabs.tabs[0].connection,
        ConnectionState::Failed { error: error("Refused") }
    );
    assert!(window.modals.is_empty());
    assert_eq!(window.focus, FocusTarget::LocalPane);
}

#[test]
fn an_existing_file_is_asked_about_until_answered() {
    let mut window = window();
    let question = |n: u64| TransferConflictPrompt {
        plan_id: PlanId(1),
        request_id: ConflictRequestId(n),
        transfer_id: TransferId(n),
        source: EntryPath::Local("/tmp/a.txt".to_string()),
        destination: EntryPath::Remote("/srv/a.txt".to_string()),
        source_size: Some(4),
        source_modified_at: None,
    };
    window.present_transfer_conflict(question(1), "a copy.txt".to_string());
    window.present_transfer_conflict(question(2), "b copy.txt".to_string());
    let view = window.conflict_view().expect("the dialog is open");
    assert_eq!(view.source, "/tmp/a.txt");
    assert_eq!(view.destination, "/srv/a.txt");
    assert_eq!(view.new_name, "b copy.txt");
    assert_eq!(view.buttons.len(), 7);
    assert_eq!(view.buttons[2].label(), "Skip All");
    assert_eq!(
        view.buttons[2].decision(),
        Some(ConflictDecision::Skip { apply_to_all: true })
    );

    window.conflict_rename = "  ".to_string();
    assert_eq!(window.submit_transfer_rename(false), None);
    assert!(window.conflict_rename_error.is_some());
    window.conflict_rename = " new.txt ".to_string();
    let command = window.submit_transfer_rename(true).expect("a name");
    assert_eq!(command.request_id, ConflictRequestId(2));
    assert_eq!(
        command.decision,
        ConflictDecision::Rename { new_name: "new.txt".to_string(), apply_to_all: true }
    );
    assert!(!window.resolve_transfer_conflict(
        ConflictRequestId(2),
        "a copy.txt".to_string(),
        Dispatch::ChannelFull
    ));
    assert!(window.has_transfer_conflict_modal(ConflictRequestId(2)));
    assert!(window.resolve_transfer_conflict(
        ConflictRequestId(2),
        "a copy.txt".to_string(),
        Dispatch::Sent
    ));
    assert!(!window.has_transfer_conflict_modal(ConflictRequestId(2)));
    assert_eq!(window.conflict_rename, "a copy.txt");
}
