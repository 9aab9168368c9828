use macsftp_app::command_palette::{palette_action, PaletteAction, PaletteKey, PaletteStep};
use macsftp_app::dialogs::{delete_key, DeleteKey, MainArea, Overlay};
use macsftp_app::drawer_height::{TransferDrawerResize, DEFAULT_DRAWER_HEIGHT};
use macsftp_app::drawer_view::{
    group_positions, order_history, plan_of, transfer_job_row, HistoryRecord, HistoryStatus,
    JobGroup, PlanLine,
    RowTone, SizeTexts,
};
use macsftp_app::edit_sessions::EditSessionStore;
use macsftp_app::file_actions::InlineKey;
use macsftp_app::file_ops::ContextItem;
use macsftp_app::keys::{Keystroke, Modifiers};
use macsftp_app::model::{
    ConnectionState, DisconnectReason, EntryPath, ErrorCode, FileEntry, FileKind, FsOp, FsScope,
    PaneSide, RecentEntry, SessionId, TabId, Timestamp, TransferDirection, TransferId,
    TransferJob, TransferState, UserFacingError, WindowSessionId,
};
use macsftp_app::navigation::DirectoryRead;
use macsftp_app::palette_commands::all_palette_commands;
use macsftp_app::pane_view::{
    drag_label, dropped_on, path_crumbs, Crumb, DropAction, PaneButton, PaneContent, PaneKeyTarget,
};
use macsftp_app::rate_sampler::TransferRateBook;
use macsftp_app::resources::TabIdCounter;
use macsftp_app::workspace::{AppearancePreference, Config, Workspace};

fn config() -> Config {
    Config {
        show_hidden_files: false,
        confirm_delete: true,
        appearance: AppearancePreference::System,
        external_editor: None,
    }
}

fn stroke(key: &str) -> Keystroke {
    Keystroke { key: key.to_string(), key_char: None, modifiers: Modifiers::none() }
}

fn window() -> Workspace {
    let mut window = Workspace::new(
        WindowSessionId(1),
        "/home".to_string(),
        false,
        None,
        &mut TabIdCounter::new(),
    );
    let entry = |name: &str, kind: FileKind| FileEntry {
        path: format!("/home/{name}"),
        name: name.to_string(),
        kind,
        size: Some(1),
        modified_at: None,
    };
    window.set_local_path(
        "/home".to_string(),
        DirectoryRead::Entries(vec![entry("docs", FileKind::Directory), entry("a.txt", FileKind::File)]),
    );
    window
}

fn recents() -> Vec<RecentEntry> {
    vec![RecentEntry {
        id: 1,
        host: "example.org".to_string(),
        port: 22,
        username: "alex".to_string(),
        profile_id: None,
        display_name: None,
        last_remote_path: None,
    }]
}

fn job(id: u64, state: TransferState) -> TransferJob {
    TransferJob {
        id: TransferId(id),
        direction: TransferDirection::Upload,
        source: EntryPath::Local("/tmp/a".to_string()),
        destination: EntryPath::Remote("/srv/a".to_string()),
        state,
        warnings: Vec::new(),
    }
}

#[test]
fn the_local_pane_shows_its_rows() {
    let mut window = window();
    let view = window.pane_view(PaneSide::Local, &config(), &recents());
    assert_eq!(view.pane_name, "Local");
    assert_eq!(view.content, PaneContent::Rows(2));
    assert!(!view.can_back);
    assert_eq!(view.hidden_tooltip, "Show Hidden Files (⌘⇧.)");
    let rows = window.pane_rows(PaneSide::Local, &config());
    assert_eq!(rows.len(), 2);
    assert_eq!(rows[0].name, "docs");
    assert!(!rows[0].selected);
    window.on_row_clicked(PaneSide::Local, 1, false, 1, &config());
    assert!(window.pane_rows(PaneSide::Local, &config())[1].selected);
    assert_eq!(window.focused_selection_count(), 1);
    window.local_filter.query = "zzz".to_string();
    let view = window.pane_view(PaneSide::Local, &config(), &recents());
    assert_eq!(view.content, PaneContent::NoMatches);
    assert_eq!(view.filter.map(|bar| bar.count_label()), Some("· 0/2".to_string()));
}

#[test]
fn the_remote_pane_tells_the_state_of_its_connection() {
    let mut window = window();
    let shown = |window: &Workspace| {
        match window.pane_view(PaneSide::Remote, &config(), &recents()).content {
            PaneContent::Instead(placeholder) => (placeholder.message, placeholder.buttons),
            content => panic!("a placeholder, got {content:?}"),
        }
    };
    assert_eq!(shown(&window), ("Not connected".to_string(), vec![PaneButton::Connect]));
    let view = window.pane_view(PaneSide::Remote, &config(), &recents());
    assert_eq!(view.recents[0].label, "alex@example.org:22");
    window.tabs.tabs[0].connection =
        ConnectionState::Disconnected { reason: DisconnectReason::ConnectionLost };
    assert_eq!(
        shown(&window),
        (
            "Disconnected".to_string(),
            vec![PaneButton::Reconnect, PaneButton::EditConnection]
        )
    );
    window.tabs.tabs[0].connection =
        ConnectionState::Connected { session_id: SessionId(1), session_epoch: 0 };
    let view = window.pane_view(PaneSide::Remote, &config(), &recents());
    assert_eq!(view.content, PaneContent::EmptyDirectory);
    let view = window.pane_view(PaneSide::Local, &config(), &recents());
    assert!(view.recents.is_empty());
}

#[test]
fn crumbs_lead_to_each_directory() {
    let directory = |label: &str, path: &str| Crumb::Directory {
        label: label.to_string(),
        path: path.to_string(),
    };
    assert_eq!(path_crumbs("/"), vec![directory("/", "/")]);
    let crumbs = path_crumbs("/a/b/c/d/e");
    assert_eq!(crumbs[0], directory("/", "/"));
    assert!(crumbs.contains(&Crumb::Gap));
    assert_eq!(crumbs[crumbs.len() - 1], directory("e", "/a/b/c/d/e"));
}

#[test]
fn dropped_entries_go_to_the_other_side() {
    let local = EntryPath::Local("/tmp/a.txt".to_string());
    let remote = EntryPath::Remote("/srv/b.txt".to_string());
    assert_eq!(
        dropped_on(PaneSide::Remote, &local),
        DropAction::Upload("/tmp/a.txt".to_string())
    );
    assert_eq!(
        dropped_on(PaneSide::Local, &remote),
        DropAction::Download("/srv/b.txt".to_string())
    );
    assert_eq!(dropped_on(PaneSide::Local, &local), DropAction::Nothing);
    assert_eq!(drag_label(&local), "a.txt");
}

#[test]
fn transfers_are_grouped() {
    let failed = UserFacingError {
        code: ErrorCode::Unknown,
        title: "No".to_string(),
        message: "space".to_string(),
        detail: None,
    };
    let jobs = vec![
        job(1, TransferState::Running { bytes_done: 1, bytes_total: Some(2) }),
        job(2, TransferState::Queued),
        job(3, TransferState::Completed),
        job(4, TransferState::Failed { error: failed }),
        job(5, TransferState::Skipped),
    ];
    assert_eq!(group_positions(&jobs, JobGroup::Active), vec![0]);
    assert_eq!(group_positions(&jobs, JobGroup::Queued), vec![1]);
    assert_eq!(group_positions(&jobs, JobGroup::Completed), vec![2, 4]);
    assert_eq!(group_positions(&jobs, JobGroup::Failed), vec![3]);
    let mut window = window();
    let rates = TransferRateBook::new();
    let view = window.drawer_view(&jobs, 0, &rates, 0);
    assert!(!view.empty);
    assert_eq!(view.sections.len(), 4);
    window.toggle_section(JobGroup::Completed);
    let sizes = SizeTexts { done: "1 B".to_string(), total: Some("2 B".to_string()) };
    let row = transfer_job_row(&jobs[0], &Vec::new(), &sizes, &rates, 0);
    assert_eq!(row.progress, Some((1, 2)));
    assert!(row.can_cancel && !row.can_retry);
    let row = transfer_job_row(&jobs[3], &Vec::new(), &sizes, &rates, 0);
    assert_eq!(row.tone, RowTone::Error);
    assert!(row.can_retry && !row.can_cancel);
}

#[test]
fn history_comes_latest_first() {
    let record = |id: u64, at: u64| HistoryRecord {
        id,
        status: HistoryStatus::Completed,
        last_updated: Timestamp::from_secs_since_epoch(at),
        retryable: false,
    };
    let ordered = order_history(vec![record(1, 5), record(2, 9), record(3, 5)]);
    let ids: Vec<u64> = ordered.iter().map(|record| record.id).collect();
    assert_eq!(ids, vec![2, 1, 3]);
}

#[test]
fn the_rows_of_the_history_come_latest_first() {
    let record = |id: u64, at: u64, status: HistoryStatus| HistoryRecord {
        id,
        status,
        last_updated: Timestamp::from_secs_since_epoch(at),
        retryable: true,
    };
    let rows = window().history_rows(vec![
        record(1, 5, HistoryStatus::Completed),
        record(2, 9, HistoryStatus::Cancelled),
        record(3, 7, HistoryStatus::Completed),
    ]);
    let shown: Vec<(u64, &str)> =
        rows.iter().map(|row| (row.id, row.state_label)).collect();
    assert_eq!(shown, vec![(2, "Cancelled"), (3, "Completed"), (1, "Completed")]);
    // Nothing is connected.
    assert!(rows.iter().all(|row| !row.can_retry));
    assert!(window().history_rows(Vec::new()).is_empty());
}

#[test]
fn a_plan_is_found_by_its_root() {
    let line = |planned_count: usize| PlanLine { planned_count, size_text: "4 B".to_string() };
    let plans = vec![
        (TransferId(8), line(1)),
        (TransferId(9), line(2)),
        (TransferId(9), line(3)),
    ];
    assert_eq!(plan_of(&plans, TransferId(9)), Some(1));
    assert_eq!(plan_of(&plans, TransferId(7)), None);
    let rates = TransferRateBook::new();
    let sizes = SizeTexts { done: String::new(), total: None };
    let row = |id: u64, state: TransferState| {
        transfer_job_row(&job(id, state), &plans, &sizes, &rates, 0)
    };
    assert_eq!(row(9, TransferState::Planning).detail, "2 items · 4 B");
    assert_eq!(row(7, TransferState::Planning).detail, "Planning…");
    assert!(row(9, TransferState::Planning).can_cancel);
    assert!(!row(9, TransferState::Queued).can_cancel);
    assert!(row(7, TransferState::Queued).can_cancel);
}

#[test]
fn the_frame_draws_what_is_open() {
    let mut window = window();
    let edits = EditSessionStore::new();
    let frame = window.frame(&edits, &Vec::new());
    assert_eq!(frame.main, MainArea::Panes);
    assert!(frame.drawer);
    assert!(frame.overlays.is_empty());
    window.open_context_menu(PaneSide::Local, Some(1), &config());
    window.open_command_palette();
    let frame = window.frame(&edits, &Vec::new());
    assert_eq!(frame.overlays, vec![Overlay::ContextMenu, Overlay::Palette]);
    window.choose_context_item(ContextItem::Rename);
    window.close_command_palette();
    window.open_settings();
    let frame = window.frame(&edits, &Vec::new());
    assert_eq!(frame.main, MainArea::Settings);
    assert!(!frame.drawer && frame.overlays.is_empty());
    assert!(!window.end_drawer_drag());
}

#[test]
fn every_palette_command_does_something() {
    for command in all_palette_commands() {
        assert!(palette_action(command.id).is_some(), "no action for {}", command.id);
    }
    assert_eq!(palette_action("NotACommand"), None);
    let mut window = window();
    window.open_command_palette();
    let rows = window.palette_rows().expect("the palette is open");
    assert!(rows[0].selected);
    window.move_palette_selection(-1);
    assert_eq!(window.palette.selected, rows.len() - 1);
    window.move_palette_selection(1);
    assert_eq!(
        window.handle_command_palette_key(&stroke("d"), Some("jobs".to_string())),
        PaletteKey::Used
    );
    assert_eq!(
        window.handle_command_palette_key(&stroke("enter"), None),
        PaletteKey::Run(PaletteAction::ShowTransferDrawer)
    );
    assert!(window.palette_rows().is_none());
    let open = window.drawer_open;
    assert_eq!(
        window.dispatch_palette_id(PaletteAction::ShowTransferDrawer),
        PaletteStep::Done
    );
    assert_eq!(window.drawer_open, !open);
}

#[test]
fn deleting_asks_first_and_can_stop_asking() {
    let mut window = window();
    window.on_row_clicked(PaneSide::Local, 1, false, 1, &config());
    assert_eq!(window.request_delete_selection(&config()), None);
    let view = window.delete_view(&config()).expect("the question is asked");
    assert_eq!(view.presentation.title, "Delete “a.txt”?");
    assert_eq!(view.dont_ask_again, Some(false));
    assert_eq!(view.more, None);
    assert!(!window.stops_asking());
    window.toggle_dont_ask_again();
    assert!(window.stops_asking());
    assert_eq!(
        window.delete_view(&config()).and_then(|view| view.dont_ask_again),
        Some(true)
    );
    assert_eq!(delete_key(&stroke("enter")), DeleteKey::Unused);
    assert_eq!(delete_key(&stroke("escape")), DeleteKey::Cancel);
    let mut confirm = stroke("enter");
    confirm.modifiers.platform = true;
    assert_eq!(delete_key(&confirm), DeleteKey::Confirm);
    let command = window.confirm_delete(true).expect("a command");
    assert_eq!(command.scope, FsScope::Local { tab_id: TabId(1) });
    assert!(matches!(command.op, FsOp::Delete { ref entries } if entries.len() == 1));
    assert!(window.delete_confirm.is_none() && !window.stops_asking());
    let quiet = Config { confirm_delete: false, ..config() };
    assert!(window.request_delete_selection(&quiet).is_some());
}

#[test]
fn renaming_refuses_bad_names() {
    let mut window = window();
    window.on_row_clicked(PaneSide::Local, 1, false, 1, &config());
    window.begin_rename_selection();
    let refused = |window: &mut Workspace, name: &str| {
        assert_eq!(
            window.handle_inline_edit_key(&stroke("x"), Some(name.to_string())),
            InlineKey::Edited
        );
        assert_eq!(window.submit_inline_edit(), None);
        window.inline_edit.as_ref().and_then(|edit| edit.error.clone())
    };
    assert!(refused(&mut window, "a/b").is_some());
    assert!(refused(&mut window, "docs").is_some());
    window.handle_inline_edit_key(&stroke("x"), Some("b.txt".to_string()));
    let command = window.submit_inline_edit().expect("a free name");
    assert_eq!(
        command.op,
        FsOp::Rename {
            from: EntryPath::Local("/home/a.txt".to_string()),
            to: EntryPath::Local("/home/b.txt".to_string()),
        }
    );
    assert!(window.inline_edit.is_none());
    window.begin_new_folder();
    window.handle_inline_edit_key(&stroke("x"), Some("new".to_string()));
    let command = window.submit_inline_edit().expect("a free name");
    assert_eq!(
        command.op,
        FsOp::CreateDirectory {
            parent: EntryPath::Local("/home".to_string()),
            name: "new".to_string(),
        }
    );
    window.begin_new_folder();
    assert_eq!(
        window.handle_inline_edit_key(&stroke("escape"), None),
        InlineKey::Cancelled
    );
    assert!(window.inline_edit.is_none());
}

#[test]
fn a_pane_takes_what_is_done_in_it() {
    let mut window = window();
    window.turn_to(PaneSide::Remote);
    assert_eq!(window.focused_side, PaneSide::Remote);
    window.on_blank_right_clicked(PaneSide::Local, &config());
    assert_eq!(window.focused_side, PaneSide::Local);
    assert_eq!(window.context_menu.as_ref().map(|menu| menu.entry_index), Some(None));
    assert_eq!(window.pane_key_target(PaneSide::Local), PaneKeyTarget::Filter);
    window.begin_new_folder();
    assert_eq!(window.pane_key_target(PaneSide::Local), PaneKeyTarget::NameField);
    assert_eq!(window.pane_key_target(PaneSide::Remote), PaneKeyTarget::Filter);
}

#[test]
fn a_remote_directory_is_read_again() {
    let mut window = window();
    assert_eq!(window.retry_directory(), None);
    assert_eq!(window.focused_side, PaneSide::Remote);
    window.tabs.tabs[0].remote.path = Some("/srv".to_string());
    let tab_id = window.tabs.tabs[0].id;
    assert_eq!(window.retry_directory(), Some((tab_id, "/srv".to_string())));
}

#[test]
fn a_cleared_filter_shows_everything() {
    let mut window = window();
    window.local_filter.query = "doc".to_string();
    assert_eq!(window.visible_indices(PaneSide::Local, &config()), vec![0]);
    window.clear_filter(PaneSide::Local);
    assert_eq!(window.visible_indices(PaneSide::Local, &config()), vec![0, 1]);
}

#[test]
fn a_transfer_of_unknown_size_has_no_share() {
    let rates = TransferRateBook::new();
    let sizes = SizeTexts { done: "much".to_string(), total: None };
    for bytes_total in [None, Some(0)] {
        let running = TransferState::Running { bytes_done: u64::MAX, bytes_total };
        let row = transfer_job_row(&job(1, running), &Vec::new(), &sizes, &rates, 0);
        assert_eq!(row.state_label, "Running");
        assert_eq!(row.progress, Some((0, 1)));
    }
}

#[test]
fn the_drawer_follows_the_window() {
    let mut window = window();
    // A window of 864 pixels has a content area of 800, and a drawer of at most 400.
    window.set_drawer_height(900_000, 864_000);
    assert_eq!(window.drawer_height, 800_000);
    // One of 264 pixels: at most 100.
    window.reclamp_drawer_height(264_000);
    assert_eq!(window.drawer_height, 200_000);
    window.reset_drawer_height(864_000);
    assert_eq!(window.drawer_height, DEFAULT_DRAWER_HEIGHT);
    window.drag_drawer(0, 864_000);
    assert_eq!(window.drawer_height, DEFAULT_DRAWER_HEIGHT);
    window.drawer_resize =
        Some(TransferDrawerResize { start_height: window.drawer_height, start_y: 500_000 });
    // Up by ten pixels.
    window.drag_drawer(490_000, 864_000);
    assert_eq!(window.drawer_height, DEFAULT_DRAWER_HEIGHT + 20_000);
}
