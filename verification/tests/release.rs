use macsftp_app::about::{
    is_semver, theme_for, version_info, version_label, ThemeChoice, VERSION,
};
use macsftp_app::app_actions::{key_bindings, Action, KeyContext};
use macsftp_app::assets::{icon_names, Assets, IconName};
use macsftp_app::workspace::AppearancePreference;

#[test]
fn m7_package_version_is_well_formed() {
    let version = VERSION;
    assert!(
        is_semver(version),
        "the version ({version}) must be in x.y.z form"
    );
}

#[test]
fn versions_are_three_numbers() {
    assert!(is_semver("10.20.30"));
    assert!(!is_semver(""));
    assert!(!is_semver("1.2"));
    assert!(!is_semver("1.2.3.4"));
    assert!(!is_semver("1..3"));
    assert!(!is_semver(".1.2"));
    assert!(!is_semver("1.2."));
    assert!(!is_semver("1.2.3-beta"));
    assert!(!is_semver("1.2.\u{664}"));
}

#[test]
fn version_texts() {
    assert_eq!(version_info("1.2.3", "aarch64"), "macSFTP 1.2.3 (aarch64)");
    assert_eq!(version_label("1.2.3"), "Version 1.2.3");
    assert_eq!(theme_for(AppearancePreference::System), ThemeChoice::FollowSystem);
    assert_eq!(theme_for(AppearancePreference::Light), ThemeChoice::OneLight);
    assert_eq!(theme_for(AppearancePreference::Dark), ThemeChoice::OneDark);
}

#[test]
fn every_icon_name_resolves_to_an_embedded_asset() {
    let icons = [
        IconName::Plus,
        IconName::Close,
        IconName::ArrowUp,
        IconName::Refresh,
        IconName::Copy,
        IconName::Upload,
        IconName::Download,
        IconName::Folder,
        IconName::File,
        IconName::Symlink,
        IconName::Trash,
        IconName::ChevronDown,
        IconName::ChevronLeft,
        IconName::ChevronRight,
        IconName::Transfers,
        IconName::Server,
    ];

    for icon in icons {
        let loaded = Assets.load(icon.path());
        assert!(loaded.is_some(), "missing embedded asset for {icon:?}");
        assert_eq!(loaded, Some(icon));
    }
    assert_eq!(icon_names(), icons.to_vec());
}

#[test]
fn assets_are_listed_below_a_path() {
    assert_eq!(Assets.list("icons/").len(), 16);
    assert_eq!(
        Assets.list("icons/chevron"),
        vec![
            "icons/chevron_down.svg",
            "icons/chevron_left.svg",
            "icons/chevron_right.svg",
        ]
    );
    assert!(Assets.list("sounds/").is_empty());
    assert_eq!(Assets.load("icons/missing.svg"), None);
}

#[test]
fn keymap_is_unambiguous() {
    let bindings = key_bindings();
    assert_eq!(bindings.len(), 29);
    for (i, a) in bindings.iter().enumerate() {
        for b in &bindings[i + 1..] {
            assert!(a.chord != b.chord || a.context != b.context, "{a:?} and {b:?}");
        }
    }
    let find = |action: Action| {
        bindings
            .iter()
            .find(|binding| binding.action == action)
            .map(|binding| (binding.chord.text(), binding.context.name()))
    };
    assert_eq!(find(Action::NewWindow), Some(("cmd-n".to_string(), None)));
    assert_eq!(
        find(Action::ActivateNextTab),
        Some(("cmd-shift-]".to_string(), Some("Workspace")))
    );
    assert_eq!(
        find(Action::RenameEntry),
        Some(("f2".to_string(), Some("FilePane")))
    );
    assert_eq!(find(Action::ShowAbout), None);
    assert_eq!(
        bindings.iter().filter(|b| b.action == Action::CancelActiveModal).count(),
        6
    );
    assert_eq!(KeyContext::Anywhere.name(), None);
}
