use macsftp_app::model::{TabId, WindowSessionId};
use macsftp_app::resources::TabIdCounter;
use macsftp_app::session_coordinator::{
    checkpoint_after_window_closed, checkpoint_before_quit, restored_active_window, SaveAction,
    SessionCoordinator, SessionFile,
};
use macsftp_app::workspace::Workspace;

fn setup_two_windows() -> (SessionCoordinator, Vec<Workspace>) {
    let mut coordinator = SessionCoordinator::new(SessionFile::empty());
    coordinator.register_window(WindowSessionId(10));
    coordinator.register_window(WindowSessionId(20));
    let mut ids = TabIdCounter::new();
    let mut windows = Vec::new();
    for (id, name) in [(10, "first"), (20, "second")] {
        let mut window =
            Workspace::new(WindowSessionId(id), "/home".to_string(), false, None, &mut ids);
        let tab = &mut window.tabs.tabs[0];
        tab.title = format!("{name}.example");
        tab.local.path = Some(format!("/tmp/{name}"));
        tab.remote.path = Some(format!("/srv/{name}"));
        windows.push(window);
    }
    (coordinator, windows)
}

fn snapshots(windows: &[Workspace]) -> Vec<macsftp_app::session_coordinator::SessionWindowSnapshot> {
    windows.iter().map(|window| window.build_session_snapshot()).collect()
}

#[test]
fn quit_checkpoint_preserves_every_window_and_ignores_late_closes() {
    let (mut coordinator, mut windows) = setup_two_windows();

    let saved = checkpoint_before_quit(
        &mut coordinator,
        snapshots(&windows),
        Some(WindowSessionId(20)),
        false,
    );
    assert_eq!(saved.action, SaveAction::Save);
    let file = &saved.file;
    assert_eq!(file.windows.len(), 2);
    assert_eq!(file.active_window_index, 1);
    assert_eq!(file.windows[0].id, WindowSessionId(10));
    assert_eq!(file.windows[0].tabs[0].title, "first.example");
    assert_eq!(
        file.windows[0].tabs[0].remote_path.as_deref(),
        Some("/srv/first")
    );
    assert_eq!(file.windows[1].id, WindowSessionId(20));
    assert_eq!(file.windows[1].tabs[0].title, "second.example");

    windows[0].tabs.tabs[0].title = "late-change".to_string();
    windows.remove(0);
    let late =
        checkpoint_after_window_closed(&mut coordinator, snapshots(&windows), None, false);
    assert_eq!(
        late, None,
        "window-close callbacks must not overwrite the pre-quit snapshot"
    );
    windows.remove(0);
    let late =
        checkpoint_after_window_closed(&mut coordinator, snapshots(&windows), None, false);
    assert_eq!(late, None);
    let again = checkpoint_before_quit(&mut coordinator, Vec::new(), None, false);
    assert_eq!(again.action, SaveAction::Keep);
}

#[test]
fn normal_window_closes_save_only_survivors_then_empty() {
    let (mut coordinator, mut windows) = setup_two_windows();

    windows.remove(0);
    let one_window =
        checkpoint_after_window_closed(&mut coordinator, snapshots(&windows), None, false)
            .expect("normal close should checkpoint survivors");
    assert_eq!(one_window.file.windows.len(), 1);
    assert_eq!(one_window.file.windows[0].id, WindowSessionId(20));
    assert_eq!(one_window.file.windows[0].tabs[0].title, "second.example");

    windows.remove(0);
    let empty = checkpoint_after_window_closed(&mut coordinator, snapshots(&windows), None, false)
        .expect("last close should save an empty session");
    assert!(empty.file.windows.is_empty());
}

#[test]
fn coordinator_recovers_corrupt_session_before_checkpointing() {
    let mut coordinator = SessionCoordinator::new(SessionFile::empty());
    assert_eq!(
        coordinator.save(&SessionFile::empty(), false, true),
        SaveAction::RecoverAndSave
    );
    assert_eq!(
        coordinator.save(&SessionFile::empty(), false, false),
        SaveAction::Save
    );
}

#[test]
fn closed_windows_let_their_tabs_go() {
    let (mut coordinator, mut windows) = setup_two_windows();
    coordinator.register_runtime_tabs(WindowSessionId(10), &vec![TabId(1), TabId(3), TabId(1)]);
    coordinator.register_runtime_tabs(WindowSessionId(20), &vec![TabId(2)]);
    coordinator.mark_runtime_tab_released(WindowSessionId(10), TabId(1));
    windows.remove(0);
    let done = checkpoint_after_window_closed(&mut coordinator, snapshots(&windows), None, false)
        .expect("a checkpoint");
    assert_eq!(done.released.len(), 1);
    assert_eq!(done.released[0].window_id, WindowSessionId(10));
    assert_eq!(done.released[0].tab_ids, vec![TabId(3)]);
    assert_eq!(coordinator.runtime_sessions.len(), 1);
}

#[test]
fn saved_order_stands_whatever_order_windows_come_in() {
    let (mut coordinator, windows) = setup_two_windows();
    let mut shuffled = snapshots(&windows);
    shuffled.reverse();
    let saved =
        checkpoint_before_quit(&mut coordinator, shuffled, Some(WindowSessionId(10)), false);
    assert_eq!(saved.file.windows[0].id, WindowSessionId(10));
    assert_eq!(saved.file.active_window_index, 0);
}

#[test]
fn new_windows_get_fresh_ids() {
    let (mut coordinator, windows) = setup_two_windows();
    let file = checkpoint_before_quit(&mut coordinator, snapshots(&windows), None, false).file;
    let mut next = SessionCoordinator::new(file);
    assert_eq!(next.allocate_window_id(), WindowSessionId(21));
    assert_eq!(next.allocate_window_id(), WindowSessionId(22));
    assert_eq!(next.id_for_window(Some(WindowSessionId(10))), WindowSessionId(10));
    assert_eq!(next.id_for_window(None), WindowSessionId(23));
    let restored = next.take_restore_session();
    assert_eq!(restored.windows.len(), 2);
    assert!(next.take_restore_session().windows.is_empty());
    assert_eq!(restored_active_window(&restored), Some(0));
    assert_eq!(restored_active_window(&SessionFile::empty()), None);
}

#[test]
fn a_restored_window_saves_what_it_was_restored_from() {
    let (_, windows) = setup_two_windows();
    let saved = windows[0].build_session_snapshot();
    let mut ids = TabIdCounter::new();
    let restored = Workspace::new(
        WindowSessionId(10),
        "/home".to_string(),
        false,
        Some(&saved),
        &mut ids,
    );
    assert_eq!(restored.build_session_snapshot(), saved);
    assert_eq!(restored.tabs.tabs[0].title, "first.example");
}
