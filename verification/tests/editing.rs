use macsftp_app::edit_sessions::{file_name_of, EditPhase, EditSessionStore};
use macsftp_app::model::{
    ConflictPolicy, ConnectionState, Dispatch, EditSessionId, EntryPath, FileEntry, FileKind, PaneSide,
    ProfileId, SessionId, TabId, TransferDirection, WindowSessionId,
};
use macsftp_app::nav::parent_of;
use macsftp_app::remote_edit::{
    edit_temp_path, ConflictChoice, ConflictStep, EditStart, EditTarget, EDIT_SIZE_WARN_THRESHOLD,
};
use macsftp_app::resources::TabIdCounter;
use macsftp_app::workspace::{AppearancePreference, Config, Workspace};

fn target(size: Option<u64>) -> EditTarget {
    EditTarget { path: "/srv/a.txt".to_string(), size, modified_at: None }
}

fn config() -> Config {
    Config {
        show_hidden_files: false,
        confirm_delete: true,
        appearance: AppearancePreference::System,
        external_editor: Some("TextMate".to_string()),
    }
}

fn connected() -> Workspace {
    let mut window = Workspace::new(
        WindowSessionId(1),
        "/home".to_string(),
        false,
        None,
        &mut TabIdCounter::new(),
    );
    let tab = &mut window.tabs.tabs[0];
    tab.connection = ConnectionState::Connected { session_id: SessionId(1), session_epoch: 0 };
    tab.profile_id = Some(ProfileId(3));
    tab.remote.path = Some("/srv".to_string());
    tab.remote.entries = vec![
        FileEntry {
            path: "/srv/d".to_string(),
            name: "d".to_string(),
            kind: FileKind::Directory,
            size: None,
            modified_at: None,
        },
        FileEntry {
            path: "/srv/a.txt".to_string(),
            name: "a.txt".to_string(),
            kind: FileKind::File,
            size: Some(9),
            modified_at: None,
        },
    ];
    window
}

#[test]
fn a_file_is_fetched_once() {
    let mut window = connected();
    let mut store = EditSessionStore::new();
    let live = vec![TabId(1)];
    let (start, dropped) = window.begin_edit(target(Some(9)), &mut store, &live, &config());
    assert!(dropped.is_empty());
    let pending = match start {
        EditStart::Download(pending) => pending,
        start => panic!("a small file is fetched, got {start:?}"),
    };
    let (id, command) = store.start_edit_download(&pending, "/edits", "run");
    assert_eq!(command.direction, TransferDirection::Download);
    assert_eq!(command.sources, vec![EntryPath::Remote("/srv/a.txt".to_string())]);
    assert_eq!(command.destination, EntryPath::Local("/edits/run/1/a.txt".to_string()));
    assert_eq!(command.profile_id, ProfileId(3));
    assert_eq!(command.conflict_policy, ConflictPolicy::OverwriteAll);
    assert_eq!(window.edit_download_sent(id, &mut store, Dispatch::Sent), None);

    // While it is fetched, asking again only tells so.
    let (start, _) = window.begin_edit(target(Some(9)), &mut store, &live, &config());
    assert_eq!(start, EditStart::Nothing);
    assert!(window.status_message.is_some());
    // Once it is open, its copy is shown again.
    store.sessions[0].phase = EditPhase::Editing;
    let (start, _) = window.begin_edit(target(Some(9)), &mut store, &live, &config());
    assert_eq!(
        start,
        EditStart::Reopen {
            temp_path: "/edits/run/1/a.txt".to_string(),
            editor: Some("TextMate".to_string()),
        }
    );
    // A session whose tab is gone is dropped, and the file is fetched anew.
    let (start, dropped) = window.begin_edit(target(Some(9)), &mut store, &Vec::new(), &config());
    assert!(matches!(start, EditStart::Download(_)));
    assert_eq!(dropped.len(), 1);
    assert!(store.sessions.is_empty());
}

#[test]
fn a_large_file_is_asked_about() {
    let mut window = connected();
    let mut store = EditSessionStore::new();
    let live = vec![TabId(1)];
    let limit = Some(EDIT_SIZE_WARN_THRESHOLD);
    assert!(matches!(
        window.begin_edit(target(limit), &mut store, &live, &config()).0,
        EditStart::Download(_)
    ));
    let over = Some(EDIT_SIZE_WARN_THRESHOLD + 1);
    assert_eq!(window.begin_edit(target(over), &mut store, &live, &config()).0, EditStart::Asked);
    assert_eq!(
        window.large_edit_view("100.0 MB"),
        Some("This file is large (100.0 MB). Download it for editing?".to_string())
    );
    window.cancel_large_edit();
    assert_eq!(window.large_edit_view("100.0 MB"), None);
    assert_eq!(window.begin_edit(target(over), &mut store, &live, &config()).0, EditStart::Asked);
    let pending = window.confirm_large_edit().expect("the tab is still connected");
    assert_eq!(pending.tab_id, TabId(1));
    assert!(window.large_edit_confirm.is_none());
}

#[test]
fn an_unconnected_tab_edits_nothing() {
    let mut window = connected();
    window.tabs.tabs[0].connection = ConnectionState::Empty;
    let mut store = EditSessionStore::new();
    let (start, _) = window.begin_edit(target(None), &mut store, &vec![TabId(1)], &config());
    assert_eq!(start, EditStart::Nothing);
    assert_eq!(window.status_message, Some("Connect before editing".to_string()));
}

#[test]
fn an_unsent_download_leaves_no_session() {
    let mut window = connected();
    let mut store = EditSessionStore::new();
    let (start, _) = window.begin_edit(target(None), &mut store, &vec![TabId(1)], &config());
    let pending = match start {
        EditStart::Download(pending) => pending,
        start => panic!("a file of unknown size is fetched, got {start:?}"),
    };
    let (id, _) = store.start_edit_download(&pending, "/edits", "run");
    let dropped = window.edit_download_sent(id, &mut store, Dispatch::ChannelFull);
    assert!(dropped.is_some());
    assert!(store.sessions.is_empty());
}

#[test]
fn a_conflict_is_resolved_once() {
    let mut window = connected();
    let mut store = EditSessionStore::new();
    let (start, _) = window.begin_edit(target(Some(9)), &mut store, &vec![TabId(1)], &config());
    let pending = match start {
        EditStart::Download(pending) => pending,
        start => panic!("a small file is fetched, got {start:?}"),
    };
    let (id, _) = store.start_edit_download(&pending, "/edits", "run");
    assert_eq!(store.resolve_edit_conflict(id, ConflictChoice::Overwrite), ConflictStep::Nothing);
    store.sessions[0].phase = EditPhase::RemoteConflict;
    assert_eq!(window.edit_conflict_session(&store), Some(id));
    match store.resolve_edit_conflict(id, ConflictChoice::Overwrite) {
        ConflictStep::Upload(command) => {
            assert_eq!(command.direction, TransferDirection::Upload);
            assert_eq!(command.sources, vec![EntryPath::Local("/edits/run/1/a.txt".to_string())]);
            assert_eq!(command.destination, EntryPath::Remote("/srv/a.txt".to_string()));
        }
        step => panic!("the copy goes over the file, got {step:?}"),
    }
    assert_eq!(store.sessions[0].phase, EditPhase::UploadingBack);
    assert_eq!(store.resolve_edit_conflict(id, ConflictChoice::Later), ConflictStep::Nothing);
    assert_eq!(window.edit_conflict_session(&store), None);

    store.sessions[0].phase = EditPhase::RemoteConflict;
    store.resolve_edit_conflict(id, ConflictChoice::Later);
    assert_eq!(store.sessions[0].phase, EditPhase::Editing);
    store.sessions[0].phase = EditPhase::RemoteConflict;
    assert!(matches!(
        store.resolve_edit_conflict(id, ConflictChoice::DiscardLocal),
        ConflictStep::Redownload { .. }
    ));
    assert!(store.sessions.is_empty());
}

#[test]
fn the_first_selected_file_is_edited() {
    let mut window = connected();
    window.focused_side = PaneSide::Remote;
    window.tabs.tabs[0].selected_paths = vec![
        EntryPath::Remote("/srv/d".to_string()),
        EntryPath::Remote("/srv/a.txt".to_string()),
    ];
    assert_eq!(
        window.request_edit_selection().map(|target| target.path),
        Some("/srv/a.txt".to_string())
    );
    window.tabs.tabs[0].selected_paths = vec![EntryPath::Remote("/srv/d".to_string())];
    assert_eq!(window.request_edit_selection(), None);
}

#[test]
fn closed_tabs_leave_no_sessions() {
    let mut window = connected();
    let mut store = EditSessionStore::new();
    let (start, _) = window.begin_edit(target(Some(9)), &mut store, &vec![TabId(1)], &config());
    if let EditStart::Download(pending) = start {
        store.start_edit_download(&pending, "/edits", "run");
    }
    let closed = window.close_tab_by_id(TabId(1), &mut store, Dispatch::Sent).expect("a tab");
    assert_eq!(closed.edits.len(), 1);
    assert!(store.sessions.is_empty());
    assert!(store.remove_orphaned(&Vec::new()).is_empty());
}

#[test]
fn names_of_edited_files() {
    assert_eq!(file_name_of("/srv/a.txt"), "a.txt");
    assert_eq!(file_name_of("a.txt"), "a.txt");
    assert_eq!(file_name_of("/srv/"), "/srv/");
    assert_eq!(
        edit_temp_path("/edits", "run", EditSessionId(7), "/srv/b.md"),
        "/edits/run/7/b.md"
    );
}

#[test]
fn a_copy_has_its_own_directory() {
    let copy = edit_temp_path("/edits", "run", EditSessionId(7), "/srv/a.txt");
    assert_eq!(copy, "/edits/run/7/a.txt");
    assert_eq!(parent_of(&copy), Some("/edits/run/7".to_string()));
}
