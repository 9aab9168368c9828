use macsftp_app::palette_commands::{
    all_palette_commands, filter_palette_commands, keybinding_for, labeled_shortcut,
    PaletteCommand, PaletteContext,
};

#[test]
fn filter_matches_title_case_insensitive() {
    let ctx = PaletteContext {
        has_tabs: true,
        has_active_tab: true,
        remote_connected: false,
    };
    let hits = filter_palette_commands("new ta", &ctx);
    assert!(hits.iter().any(|c| c.id == "NewTab"));
}

#[test]
fn filter_hides_when_predicate_fails() {
    let ctx = PaletteContext {
        has_tabs: false,
        has_active_tab: false,
        remote_connected: false,
    };
    let hits = filter_palette_commands("download", &ctx);
    assert!(!hits.iter().any(|c| c.id == "DownloadSelection"));
}

#[test]
fn empty_query_returns_only_when_matching() {
    let ctx = PaletteContext {
        has_tabs: true,
        has_active_tab: false,
        remote_connected: false,
    };
    let hits = filter_palette_commands("", &ctx);
    assert!(hits.iter().any(|c| c.id == "NewTab"));
    assert!(hits.iter().any(|c| c.id == "CloseTab"));
    assert!(!hits.iter().any(|c| c.id == "RefreshPane"));
    assert!(!hits.iter().any(|c| c.id == "DownloadSelection"));
}

#[test]
fn filter_matches_keywords() {
    let ctx = PaletteContext {
        has_tabs: true,
        has_active_tab: true,
        remote_connected: true,
    };
    let hits = filter_palette_commands("mkdir", &ctx);
    assert!(hits.iter().any(|c| c.id == "NewFolder"));
    let profile_hits = filter_palette_commands("credentials", &ctx);
    assert!(profile_hits.iter().any(|c| c.id == "OpenProfiles"));
}

#[test]
fn registry_includes_required_mvp_ids() {
    let commands = all_palette_commands();
    let by_id: std::collections::HashMap<&str, &PaletteCommand> = commands
        .iter()
        .map(|command| (command.id, command))
        .collect();
    let required = [
        ("NewTab", Some("⌘T")),
        ("CloseTab", Some("⌘W")),
        ("RefreshPane", Some("⌘R")),
        ("FocusLocalPane", Some("⌘1")),
        ("FocusRemotePane", Some("⌘2")),
        ("UploadSelection", Some("⌘U")),
        ("DownloadSelection", Some("⌘D")),
        ("ShowTransferDrawer", Some("⌘J")),
        ("OpenSettings", Some("⌘,")),
        ("OpenProfiles", None),
        ("ShowAbout", None),
        ("DeleteSelection", Some("⌘⌫")),
        ("RenameEntry", Some("F2")),
        ("NewFolder", Some("⌘⇧N")),
        ("FilterPane", Some("⌘F")),
        ("GoToPath", Some("⌘⇧G")),
        ("NavigateBack", Some("⌘[")),
        ("NavigateForward", Some("⌘]")),
        ("ParentDirectory", Some("⌘↑")),
        ("ToggleHiddenFiles", Some("⌘⇧.")),
        ("CopyPath", Some("⌘⇧C")),
        ("ReconnectTab", Some("⌘⇧R")),
        ("OpenLogFolder", None),
        ("OpenCommandPalette", Some("⌘⇧P")),
    ];
    for (id, keybinding) in required {
        let command = by_id.get(id).unwrap_or_else(|| panic!("missing id: {id}"));
        assert_eq!(command.keybinding, keybinding, "keybinding for {id}");
    }
}

#[test]
fn labeled_shortcut_matches_registry_for_toolbar_tooltips() {
    // The tooltips of the path bar and the status bar show the same chords as the palette rows.
    let cases = [
        ("New Tab", "NewTab", "New Tab (⌘T)"),
        ("Refresh", "RefreshPane", "Refresh (⌘R)"),
        (
            "Parent Directory",
            "ParentDirectory",
            "Parent Directory (⌘↑)",
        ),
        ("Back", "NavigateBack", "Back (⌘[)"),
        ("Forward", "NavigateForward", "Forward (⌘])"),
        ("New Folder", "NewFolder", "New Folder (⌘⇧N)"),
        (
            "Delete Selection",
            "DeleteSelection",
            "Delete Selection (⌘⌫)",
        ),
        (
            "Toggle Transfers",
            "ShowTransferDrawer",
            "Toggle Transfers (⌘J)",
        ),
        (
            "Show Hidden Files",
            "ToggleHiddenFiles",
            "Show Hidden Files (⌘⇧.)",
        ),
        (
            "Hide Hidden Files",
            "ToggleHiddenFiles",
            "Hide Hidden Files (⌘⇧.)",
        ),
        (
            "Upload Selection",
            "UploadSelection",
            "Upload Selection (⌘U)",
        ),
        (
            "Download Selection",
            "DownloadSelection",
            "Download Selection (⌘D)",
        ),
        ("Copy Path", "CopyPath", "Copy Path (⌘⇧C)"),
        ("Reconnect", "ReconnectTab", "Reconnect (⌘⇧R)"),
    ];
    for (label, id, expected) in cases {
        assert_eq!(labeled_shortcut(label, id), expected, "tooltip for {id}");
        assert!(keybinding_for(id).is_some(), "key present for {id}");
    }
}

#[test]
fn labeled_shortcut_falls_back_without_key() {
    assert_eq!(
        labeled_shortcut("About macSFTP", "ShowAbout"),
        "About macSFTP"
    );
    assert_eq!(labeled_shortcut("Unknown", "NotACommand"), "Unknown");
}

#[test]
fn query_is_trimmed_and_keeps_the_order_of_the_registry() {
    let ctx = PaletteContext {
        has_tabs: true,
        has_active_tab: true,
        remote_connected: true,
    };
    let all = filter_palette_commands("", &ctx);
    let all_ids: Vec<&str> = all.iter().map(|c| c.id).collect();
    let registry = all_palette_commands();
    let registry_ids: Vec<&str> = registry.iter().map(|c| c.id).collect();
    assert_eq!(all_ids, registry_ids);
    let hits = filter_palette_commands("  FOCUS ", &ctx);
    let ids: Vec<&str> = hits.iter().map(|c| c.id).collect();
    assert_eq!(ids, vec!["FocusLocalPane", "FocusRemotePane"]);
}

#[test]
fn unicode_query_is_lowered() {
    let ctx = PaletteContext {
        has_tabs: true,
        has_active_tab: true,
        remote_connected: true,
    };
    // The Kelvin sign lowers to a plain k, which "Back" holds.
    let hits = filter_palette_commands("BAC\u{212a}", &ctx);
    assert!(hits.iter().any(|c| c.id == "NavigateBack"));
}
