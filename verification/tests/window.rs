use macsftp_app::edit_sessions::EditSessionStore;
use macsftp_app::front::{CancelStep, Layer, PathFound};
use macsftp_app::keys::{FieldKey, Keystroke, Modifiers};
use macsftp_app::model::{
    ConnectionState, Dispatch, EntryPath, FileEntry, FileKind, FileSortField, HistoryOp, PaneSide,
    SessionId, SortDirection, SortSpec, TabId, WindowSessionId, WorkspaceSurface,
};
use macsftp_app::navigation::{next_sort, DirectoryRead};
use macsftp_app::resources::TabIdCounter;
use macsftp_app::selection::{visible_indices, EntryAction};
use macsftp_app::workspace::{
    AppearancePreference, Config, FocusTarget, Workspace,
};

fn config(show_hidden_files: bool) -> Config {
    Config {
        show_hidden_files,
        confirm_delete: true,
        appearance: AppearancePreference::System,
        external_editor: None,
    }
}

fn entry(directory: &str, name: &str, kind: FileKind) -> FileEntry {
    FileEntry {
        path: format!("{directory}/{name}"),
        name: name.to_string(),
        kind,
        size: Some(1),
        modified_at: None,
    }
}

fn local(path: &str) -> EntryPath {
    EntryPath::Local(path.to_string())
}

fn stroke(key: &str) -> Keystroke {
    Keystroke { key: key.to_string(), key_char: None, modifiers: Modifiers::none() }
}

/// A window with one tab, whose local pane shows five entries, one of them hidden.
fn window() -> (Workspace, TabIdCounter) {
    let mut ids = TabIdCounter::new();
    let mut window = Workspace::new(WindowSessionId(1), "/home".to_string(), false, None, &mut ids);
    window.set_local_path(
        "/home".to_string(),
        DirectoryRead::Entries(vec![
            entry("/home", ".hidden", FileKind::File),
            entry("/home", "docs", FileKind::Directory),
            entry("/home", "a.txt", FileKind::File),
            entry("/home", "B.txt", FileKind::File),
            entry("/home", "c.md", FileKind::File),
        ]),
    );
    (window, ids)
}

fn selected(window: &Workspace) -> Vec<EntryPath> {
    window.tabs.tabs[0].selected_paths.clone()
}

#[test]
fn a_new_window_opens_with_one_empty_tab() {
    let (window, _) = window();
    assert_eq!(window.tabs.tabs.len(), 1);
    assert_eq!(window.tabs.active_tab_id, Some(TabId(1)));
    assert_eq!(window.tabs.tabs[0].title, "New Connection");
    assert_eq!(window.tabs.tabs[0].connection, ConnectionState::Empty);
    assert_eq!(window.surface, WorkspaceSurface::Files);
    assert!(window.drawer_open);
    assert_eq!(window.title(), "New Connection — macSFTP");
    assert_eq!(Workspace::window_title_for_active_tab(None), "macSFTP");
}

#[test]
fn hidden_entries_and_the_filter_decide_what_is_shown() {
    let (mut window, _) = window();
    assert_eq!(window.visible_indices(PaneSide::Local, &config(false)), vec![1, 2, 3, 4]);
    assert_eq!(window.visible_indices(PaneSide::Local, &config(true)), vec![0, 1, 2, 3, 4]);
    window.local_filter.query = "TXT".to_string();
    assert_eq!(window.visible_indices(PaneSide::Local, &config(false)), vec![2, 3]);
    assert_eq!(window.count_after_hidden(PaneSide::Local, &config(false)), 4);
    assert_eq!(window.entry_count(PaneSide::Local, &config(false)), 2);
    assert_eq!(
        window.entry_path_at(PaneSide::Local, 1, &config(false)),
        Some(local("/home/B.txt"))
    );
    let entries = vec![entry("/", "ÄB", FileKind::File)];
    assert_eq!(visible_indices(&entries, false, "äb"), vec![0]);
}

#[test]
fn selection_moves_and_stretches() {
    let (mut window, _) = window();
    let config = config(false);
    window.move_selection(PaneSide::Local, 1, &config);
    assert_eq!(selected(&window), vec![local("/home/docs")]);
    window.move_selection(PaneSide::Local, 1, &config);
    assert_eq!(window.selected_index(PaneSide::Local, &config), Some(1));
    window.extend_selection_to(PaneSide::Local, 3, &config);
    assert_eq!(
        selected(&window),
        vec![local("/home/a.txt"), local("/home/B.txt"), local("/home/c.md")]
    );
    window.extend_selection_to(PaneSide::Local, 0, &config);
    assert_eq!(
        selected(&window),
        vec![local("/home/docs"), local("/home/a.txt")]
    );
    window.select_all_visible(PaneSide::Local, &config);
    assert_eq!(selected(&window).len(), 4);
    window.select_last(PaneSide::Local, &config);
    assert_eq!(selected(&window), vec![local("/home/c.md")]);
    window.page_selection(PaneSide::Local, -1, &config);
    assert_eq!(selected(&window), vec![local("/home/docs")]);
    window.move_selection(PaneSide::Local, -1, &config);
    assert_eq!(selected(&window), vec![local("/home/docs")]);
}

#[test]
fn opening_an_entry_enters_directories_only_on_this_side() {
    let (window, _) = window();
    let config = config(false);
    assert_eq!(
        window.open_entry_at(PaneSide::Local, 0, &config),
        EntryAction::OpenLocal("/home/docs".to_string())
    );
    assert_eq!(window.open_entry_at(PaneSide::Local, 1, &config), EntryAction::Nothing);
    assert_eq!(window.open_entry_at(PaneSide::Local, 9, &config), EntryAction::Nothing);
}

#[test]
fn local_navigation_goes_back_and_forward() {
    let (mut window, _) = window();
    let target = window.navigate_pane_local("/home/docs", HistoryOp::Push).expect("a step");
    window.set_local_path(target, DirectoryRead::Entries(Vec::new()));
    assert!(window.pane_can_navigate_back(PaneSide::Local));
    assert_eq!(window.parent_directory(PaneSide::Local), Some("/home".to_string()));
    let target = window.navigate_pane_local("", HistoryOp::Back).expect("a step back");
    assert_eq!(target, "/home");
    window.set_local_path(target, DirectoryRead::Failed("gone".to_string()));
    assert_eq!(window.status_message, Some("Cannot open /home: gone".to_string()));
    assert!(window.tabs.tabs[0].local.entries.is_empty());
    assert!(window.pane_can_navigate_forward(PaneSide::Local));
    let target = window.navigate_pane_local("", HistoryOp::Forward).expect("a step forward");
    assert_eq!(target, "/home/docs");
    assert_eq!(window.navigate_pane_local("", HistoryOp::Forward), None);
}

#[test]
fn remote_navigation_waits_for_the_runtime() {
    let (mut window, _) = window();
    window.tabs.tabs[0].remote.path = Some("/srv".to_string());
    assert!(!window.navigate_pane_remote("/srv/a", HistoryOp::Push, Dispatch::ChannelFull));
    assert_eq!(window.status_message, Some("Busy — try again in a moment.".to_string()));
    assert!(!window.pane_can_navigate_back(PaneSide::Remote));
    assert!(window.navigate_pane_remote("/srv/a", HistoryOp::Push, Dispatch::Sent));
    assert_eq!(window.tabs.tabs[0].remote.path, Some("/srv/a".to_string()));
    assert!(window.tabs.tabs[0].remote.is_refreshing);
    assert_eq!(window.remote_step("", HistoryOp::Back), Some("/srv".to_string()));
    assert!(window.navigate_pane_remote("", HistoryOp::Back, Dispatch::Sent));
    assert_eq!(window.tabs.tabs[0].remote.path, Some("/srv".to_string()));
    assert!(window.pane_can_navigate_forward(PaneSide::Remote));
}

#[test]
fn choosing_a_column_twice_turns_it_over() {
    let name = SortSpec { field: FileSortField::Name, direction: SortDirection::Ascending };
    let turned = next_sort(name, FileSortField::Name);
    assert_eq!(turned.direction, SortDirection::Descending);
    assert_eq!(next_sort(turned, FileSortField::Name), name);
    assert_eq!(
        next_sort(turned, FileSortField::Size),
        SortSpec { field: FileSortField::Size, direction: SortDirection::Ascending }
    );
}

#[test]
fn the_filter_takes_typed_keys_in_a_pane() {
    let (mut window, _) = window();
    let typed = |key: &str| Keystroke {
        key: key.to_string(),
        key_char: Some(key.to_string()),
        modifiers: Modifiers::none(),
    };
    window.handle_filter_key(PaneSide::Local, &typed("m"), None);
    assert_eq!(window.local_filter.query, "m");
    assert_eq!(window.entry_count(PaneSide::Local, &config(false)), 1);
    window.handle_filter_key(PaneSide::Local, &stroke("backspace"), None);
    assert_eq!(window.local_filter.query, "");
    window.open_filter_pane();
    assert!(window.local_filter.explicit_focus);
    window.handle_filter_key(PaneSide::Local, &stroke("x"), Some("x".to_string()));
    assert_eq!(window.local_filter.query, "x");
    window.handle_filter_key(PaneSide::Local, &stroke("escape"), None);
    assert_eq!(window.local_filter.query, "");
    assert!(!window.local_filter.explicit_focus);
}

#[test]
fn tabs_open_close_and_switch() {
    let (mut window, mut ids) = window();
    let mut edits = EditSessionStore::new();
    window.open_new_tab(ids.next_tab_id());
    window.open_new_tab(ids.next_tab_id());
    assert_eq!(window.tab_ids(), vec![TabId(1), TabId(2), TabId(3)]);
    assert_eq!(window.tabs.active_tab_id, Some(TabId(3)));
    assert_eq!(window.tabs.mru, vec![TabId(3), TabId(2), TabId(1)]);
    assert!(window.activate_tab_in_direction(1));
    assert_eq!(window.tabs.active_tab_id, Some(TabId(1)));
    window.tab_switcher_next();
    assert!(window.tabs.switcher_open);
    window.confirm_tab_switcher();
    assert_eq!(window.tabs.active_tab_id, Some(TabId(3)));
    assert!(window.close_tab_command(TabId(9)).is_none());
    let closed = window.close_tab_by_id(TabId(3), &mut edits, Dispatch::Sent).expect("a tab");
    assert!(closed.released);
    assert_eq!(window.tab_ids(), vec![TabId(1), TabId(2)]);
    let closed =
        window.close_tab_by_id(TabId(2), &mut edits, Dispatch::ChannelFull).expect("a tab");
    assert!(!closed.released);
    window.close_tab_by_id(TabId(1), &mut edits, Dispatch::Sent).expect("a tab");
    assert_eq!(window.tabs.active_tab_id, None);
    assert_eq!(window.title(), "macSFTP");
}

#[test]
fn escape_uncovers_one_layer_at_a_time() {
    let (mut window, _) = window();
    assert_eq!(window.front(), Layer::Files);
    window.show_about();
    // The path field takes the place of the dialog about the client.
    window.open_go_to_path();
    window.open_command_palette();
    assert_eq!(window.front(), Layer::Palette);
    assert_eq!(window.cancel_active_modal(), CancelStep::Done);
    assert_eq!(window.front(), Layer::GoToPath);
    window.cancel_active_modal();
    assert_eq!(window.front(), Layer::Files);
    window.show_about();
    assert_eq!(window.front(), Layer::About);
    window.cancel_active_modal();
    assert_eq!(window.front(), Layer::Files);
    window.open_settings();
    assert_eq!(window.front(), Layer::Settings);
    window.cancel_active_modal();
    assert_eq!(window.surface, WorkspaceSurface::Files);
    assert_eq!(window.focus, FocusTarget::LocalPane);
}

#[test]
fn go_to_path_expands_home_and_tells_what_is_missing() {
    let (mut window, _) = window();
    window.open_go_to_path();
    assert_eq!(window.go_to_path_title(), Some("Go to Path (Local)".to_string()));
    assert_eq!(
        window.handle_go_to_path_key(&stroke("a"), Some(" ~/docs ".to_string())),
        FieldKey::Edited(" ~/docs ".to_string())
    );
    assert_eq!(window.handle_go_to_path_key(&stroke("enter"), None), FieldKey::Submit);
    assert_eq!(
        window.go_to_path_target(Some("/home")),
        Some((PaneSide::Local, "/home/docs".to_string()))
    );
    assert!(!window.submit_go_to_path(PathFound::Nothing));
    assert_eq!(window.go_to_path_error, Some("Path not found".to_string()));
    assert!(!window.submit_go_to_path(PathFound::Other));
    assert_eq!(window.go_to_path_error, Some("Not a directory".to_string()));
    assert!(window.submit_go_to_path(PathFound::Directory));
    assert!(!window.go_to_path_open);
    window.open_go_to_path();
    window.handle_go_to_path_key(&stroke("a"), Some("  ".to_string()));
    assert_eq!(window.go_to_path_target(Some("/home")), None);
}

#[test]
fn only_a_connected_tab_is_ready() {
    let (mut window, _) = window();
    assert!(!window.tab_remote_is_ready(TabId(1)));
    window.tabs.tabs[0].connection =
        ConnectionState::Connected { session_id: SessionId(1), session_epoch: 0 };
    window.tabs.tabs[0].remote.path = Some("/srv".to_string());
    assert!(window.tab_remote_is_ready(TabId(1)));
    window.tabs.tabs[0].remote.is_refreshing = true;
    assert!(!window.tab_remote_is_ready(TabId(1)));
    assert!(!window.tab_remote_is_ready(TabId(2)));
}
