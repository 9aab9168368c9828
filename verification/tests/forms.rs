use macsftp_app::connect_actions::{ConnectKey, ProfileRemoval, SavedSecret};
use macsftp_app::connect_form::{port_of, ConnectField, ConnectForm, FormError};
use macsftp_app::form_views::{ProfileDetail, ProfileList, SettingsPage};
use macsftp_app::helpers::{append_remote_name, expand_home, format_recent_label};
use macsftp_app::keys::{Keystroke, Modifiers};
use macsftp_app::model::{
    AuthCredential, AuthMethod, AuthMethodKind, ConnectionProfile, ConnectionSettings, ProfileId,
    RecentEntry, TabId, WindowSessionId, WorkspaceSurface,
};
use macsftp_app::profiles::{
    filtered_profiles, next_profile_id, profile_list_label, ProfileAuthUpdate, ProfileEditorField,
    ProfileEditorState, SaveRefusal, SettingsSection,
};
use macsftp_app::recents::RecentStep;
use macsftp_app::resources::TabIdCounter;
use macsftp_app::settings_actions::{EditorKey, ProfileSaved};
use macsftp_app::workspace::{AppearancePreference, Config, Workspace};

fn profile(id: u64, name: &str, auth: AuthMethod) -> ConnectionProfile {
    ConnectionProfile {
        id: ProfileId(id),
        name: name.to_string(),
        host: format!("{name}.example"),
        port: 2222,
        username: "alex".to_string(),
        auth,
        default_remote_path: None,
    }
}

fn profiles() -> Vec<ConnectionProfile> {
    vec![
        profile(1, "alpha", AuthMethod::Password),
        profile(4, "beta", AuthMethod::PrivateKey { key_path: "~/.ssh/id".to_string() }),
    ]
}

fn window() -> Workspace {
    Workspace::new(
        WindowSessionId(1),
        "/home".to_string(),
        false,
        None,
        &mut TabIdCounter::new(),
    )
}

fn config() -> Config {
    Config {
        show_hidden_files: false,
        confirm_delete: true,
        appearance: AppearancePreference::Dark,
        external_editor: None,
    }
}

fn stroke(key: &str) -> Keystroke {
    Keystroke { key: key.to_string(), key_char: None, modifiers: Modifiers::none() }
}

#[test]
fn ports_default_and_are_bounded() {
    assert_eq!(port_of("  "), Some(22));
    assert_eq!(port_of(" 2222 "), Some(2222));
    assert_eq!(port_of("+80"), Some(80));
    assert_eq!(port_of("0"), None);
    assert_eq!(port_of("65535"), Some(65535));
    assert_eq!(port_of("65536"), None);
    assert_eq!(port_of("ssh"), None);
}

#[test]
fn each_missing_field_is_told_in_turn() {
    let mut form = ConnectForm::empty();
    assert_eq!(form.build_settings(None), Err(FormError::HostRequired));
    form.host = " example.org ".to_string();
    form.port = "x".to_string();
    assert_eq!(form.build_settings(None), Err(FormError::PortInvalid));
    form.port = String::new();
    assert_eq!(form.build_settings(None), Err(FormError::UsernameRequired));
    form.username = "alex".to_string();
    assert_eq!(
        form.build_settings(None),
        Ok(ConnectionSettings {
            host: "example.org".to_string(),
            port: 22,
            username: "alex".to_string(),
            auth: AuthCredential::Password { password: String::new() },
        })
    );
    assert!(!form.can_auto_connect(None));
    form.password = "pw".to_string();
    assert!(form.can_auto_connect(None));
    form.set_auth_method(AuthMethodKind::PrivateKey);
    assert_eq!(form.build_settings(None), Err(FormError::KeyPathRequired));
    form.key_path = "~/.ssh/id".to_string();
    assert_eq!(
        form.build_settings(Some("/home/alex")).map(|settings| settings.auth),
        Ok(AuthCredential::PrivateKey {
            key_path: "/home/alex/.ssh/id".to_string(),
            passphrase: None
        })
    );
    assert_eq!(FormError::HostRequired.message(), "Host is required.");
    assert_eq!(
        FormError::PortInvalid.message(),
        "Port must be a number between 1 and 65535."
    );
    assert_eq!(FormError::UsernameRequired.message(), "Username is required.");
    assert_eq!(FormError::KeyPathRequired.message(), "Private key path is required.");
}

#[test]
fn focus_goes_round_the_fields() {
    let mut form = ConnectForm::empty();
    let start = form.focused_field;
    for _ in 0..form.field_order().len() {
        form.cycle_focus(false);
    }
    assert_eq!(form.focused_field, start);
    form.cycle_focus(false);
    form.cycle_focus(true);
    assert_eq!(form.focused_field, start);
    form.focused_field = ConnectField::Password;
    form.set_auth_method(AuthMethodKind::PrivateKey);
    assert_eq!(form.focused_field, ConnectField::KeyPath);
}

#[test]
fn the_form_is_submitted_with_its_profile() {
    let mut window = window();
    window.open_connect_form(&profiles());
    assert!(window.connect_form.is_some());
    assert_eq!(window.submit_connect_form(None), None);
    assert_eq!(
        window.connect_form.as_ref().and_then(|form| form.error.clone()),
        Some("Host is required.".to_string())
    );
    window.select_connect_profile(
        ProfileId(1),
        &profiles(),
        &SavedSecret::Password("pw".to_string()),
    );
    let view = window.connect_form_view(&profiles()).expect("the form is open");
    assert_eq!(view.trigger_label, "alpha");
    assert_eq!(view.auth_method, AuthMethodKind::Password);
    let (settings, profile_id) = window.submit_connect_form(None).expect("a complete form");
    assert_eq!(settings.host, "alpha.example");
    assert_eq!(settings.port, 2222);
    assert_eq!(settings.auth, AuthCredential::Password { password: "pw".to_string() });
    assert_eq!(profile_id, Some(ProfileId(1)));
    assert!(window.connect_form.is_none());
}

#[test]
fn a_missing_secret_is_told() {
    let mut window = window();
    window.open_connect_form(&profiles());
    window.use_profile(
        ProfileId(1),
        &profiles(),
        &SavedSecret::Missing(AuthMethodKind::Password),
    );
    assert_eq!(
        window.status_message,
        Some("Saved password not found — re-enter it.".to_string())
    );
    window.use_profile(ProfileId(4), &profiles(), &SavedSecret::Unreadable);
    assert_eq!(
        window.status_message,
        Some("Could not read saved credentials — re-enter them.".to_string())
    );
}

#[test]
fn keys_of_the_form() {
    let mut window = window();
    window.open_connect_form(&profiles());
    assert_eq!(
        window.handle_connect_form_key(&profiles(), &stroke("a"), Some("a".to_string())),
        ConnectKey::Edited
    );
    assert_eq!(
        window.handle_connect_form_key(&profiles(), &stroke("tab"), None),
        ConnectKey::Moved
    );
    assert_eq!(
        window.handle_connect_form_key(&profiles(), &stroke("enter"), None),
        ConnectKey::Submit
    );
    window.toggle_profile_picker();
    assert_eq!(
        window.handle_connect_form_key(&profiles(), &stroke("b"), Some("bet".to_string())),
        ConnectKey::Edited
    );
    let picked: Vec<ProfileId> =
        window.filtered_connect_profiles(&profiles()).iter().map(|p| p.id).collect();
    assert_eq!(picked, vec![ProfileId(4)]);
    assert_eq!(
        window.handle_connect_form_key(&profiles(), &stroke("enter"), None),
        ConnectKey::Take(Some(ProfileId(4)))
    );
}

#[test]
fn the_form_asks_for_the_connection_alone() {
    let mut window = window();
    window.open_connect_form(&profiles());
    let labels = |window: &Workspace| -> Vec<&'static str> {
        let view = window.connect_form_view(&profiles()).expect("an open form");
        view.rows.iter().map(|row| row.label).collect()
    };
    assert_eq!(labels(&window), vec!["Host", "Port", "Username", "Password"]);
    if let Some(form) = &mut window.connect_form {
        form.set_auth_method(AuthMethodKind::PrivateKey);
    }
    assert_eq!(labels(&window), vec!["Host", "Port", "Username", "Key path", "Passphrase"]);
    window.manage_profiles(&profiles(), false);
    assert!(window.connect_form.is_none());
    assert_eq!(window.surface, WorkspaceSurface::Settings);
    assert_eq!(window.settings_section, SettingsSection::Profiles);
}

#[test]
fn profile_lists_are_filtered_and_labelled() {
    let all = profiles();
    assert_eq!(profile_list_label(&all[0]), "alpha · alex@alpha.example:2222");
    let names = |query: &str| -> Vec<String> {
        filtered_profiles(&all, query).into_iter().map(|profile| profile.name).collect()
    };
    assert_eq!(names("BETA"), vec!["beta".to_string()]);
    assert!(names(" beta").is_empty());
    assert_eq!(names("  ").len(), 2);
    assert_eq!(names("alex"), vec!["alpha".to_string(), "beta".to_string()]);
    assert_eq!(names(""), vec!["alpha".to_string(), "beta".to_string()]);
    assert!(names("zzz").is_empty());
    assert_eq!(next_profile_id(&all), Some(ProfileId(5)));
    assert_eq!(next_profile_id(&Vec::new()), Some(ProfileId(1)));
    let last = vec![profile(u64::MAX, "last", AuthMethod::Password)];
    assert_eq!(next_profile_id(&last), None);
}

#[test]
fn the_editor_keeps_a_saved_password_that_is_not_retyped() {
    let editor = ProfileEditorState::from_profile(&profiles()[0], true);
    assert_eq!(editor.password, "");
    let request = editor.save_request(&profiles(), None).expect("a complete editor");
    assert_eq!(request.profile_id, ProfileId(1));
    assert_eq!(request.auth, ProfileAuthUpdate::Password { password: None });
    let mut editor = ProfileEditorState::blank();
    assert_eq!(
        editor.save_request(&profiles(), None),
        Err(SaveRefusal::Form(FormError::HostRequired))
    );
    editor.host = "new.example".to_string();
    editor.username = "kim".to_string();
    editor.password = "pw".to_string();
    let request = editor.save_request(&profiles(), None).expect("a complete editor");
    assert_eq!(request.profile_id, ProfileId(5));
    assert_eq!(request.name, "kim@new.example");
    assert_eq!(
        request.auth,
        ProfileAuthUpdate::Password { password: Some("pw".to_string()) }
    );
    let last = vec![profile(u64::MAX, "last", AuthMethod::Password)];
    assert_eq!(editor.save_request(&last, None), Err(SaveRefusal::NoFreeId));
    editor.focused_field = ProfileEditorField::Password;
    editor.set_auth_method(AuthMethodKind::PrivateKey);
    assert_eq!(editor.focused_field, ProfileEditorField::KeyPath);
}

#[test]
fn settings_show_and_save_a_profile() {
    let mut window = window();
    window.open_profiles(&profiles(), true);
    assert_eq!(window.surface, WorkspaceSurface::Settings);
    assert_eq!(window.settings_section, SettingsSection::Profiles);
    match window.settings_page(&config(), &profiles()) {
        SettingsPage::Profiles(page) => {
            match page.list {
                ProfileList::Rows(rows) => {
                    assert_eq!(rows.len(), 2);
                    assert!(rows[0].selected && !rows[1].selected);
                }
                list => panic!("two profiles, got {list:?}"),
            }
            match page.detail {
                ProfileDetail::Editor(editor) => {
                    assert_eq!(editor.rows[0].text, "alpha");
                    assert!(editor.keeps_secret);
                }
                detail => panic!("an editor, got {detail:?}"),
            }
        }
        page => panic!("the profiles, got {page:?}"),
    }
    assert_eq!(
        window.handle_profile_editor_key(&stroke("x"), Some("gamma.example".to_string())),
        EditorKey::Edited
    );
    let request = window.save_profile_editor(&profiles(), None).expect("a request");
    assert_eq!(request.name, "alpha");
    assert_eq!(request.host, "gamma.example");
    window.profile_editor_saved(&request.name, &ProfileSaved::PasswordRequired);
    assert!(window.profile_editor.as_ref().is_some_and(|editor| editor.error.is_some()));
    let mut saved = profile(1, "alpha", AuthMethod::Password);
    saved.host = "gamma.example".to_string();
    window.profile_editor_saved(
        "alpha",
        &ProfileSaved::Saved { profile: saved, secret_present: true },
    );
    assert!(window.profile_editor.as_ref().is_some_and(|editor| editor.error.is_none()));
    window.set_settings_section(SettingsSection::General, &profiles(), false);
    assert_eq!(
        window.settings_page(&config(), &profiles()),
        SettingsPage::General { appearance: AppearancePreference::Dark, config_error: None }
    );
}

#[test]
fn a_deleted_profile_is_forgotten() {
    let mut window = window();
    window.tabs.tabs[0].profile_id = Some(ProfileId(1));
    window.open_profiles(&profiles(), false);
    window.request_delete_profile(ProfileId(1));
    assert_eq!(
        window.profile_delete_view(&profiles()),
        Some(
            "Delete \"alpha\" (alex@alpha.example)? This cannot be undone.".to_string()
        )
    );
    let rest = vec![profiles().remove(1)];
    window.confirm_delete_profile(&ProfileRemoval::Deleted, &rest, false);
    assert_eq!(window.profile_delete_confirm, None);
    assert_eq!(window.tabs.tabs[0].profile_id, None);
    assert_eq!(window.selected_profile_id, Some(ProfileId(4)));
}

#[test]
fn a_recent_connection_asks_for_a_missing_password() {
    let recent = |profile_id: Option<u64>| RecentEntry {
        id: 7,
        host: "alpha.example".to_string(),
        port: 2222,
        username: "alex".to_string(),
        profile_id: profile_id.map(ProfileId),
        display_name: None,
        last_remote_path: Some("/srv".to_string()),
    };
    let mut window = window();
    let step = window.open_recent_connection(
        8,
        &vec![recent(Some(1))],
        &profiles(),
        &SavedSecret::Unreadable,
        None,
    );
    assert_eq!(step, RecentStep::Nothing);
    assert!(window.connect_form.is_none());
    let step = window.open_recent_connection(
        7,
        &vec![recent(Some(1))],
        &profiles(),
        &SavedSecret::Missing(AuthMethodKind::Password),
        None,
    );
    assert_eq!(step, RecentStep::Form);
    assert!(window.connect_form.is_some());
    let step = window.open_recent_connection(
        7,
        &vec![recent(Some(1))],
        &profiles(),
        &SavedSecret::Password("pw".to_string()),
        None,
    );
    match step {
        RecentStep::Connect(settings, profile_id) => {
            assert_eq!(settings.host, "alpha.example");
            assert_eq!(profile_id, Some(ProfileId(1)));
        }
        other => panic!("the password is known: {:?}", other),
    }
    assert_eq!(window.tabs.tabs[0].remote.path, Some("/srv".to_string()));
    assert_eq!(window.record_recent_for_tab(TabId(9), &profiles(), 1), None);
    assert_eq!(format_recent_label(&recent(None)), "alex@alpha.example:2222");
}

#[test]
fn paths_of_the_home_directory() {
    assert_eq!(expand_home("~", Some("/home/a")), "~");
    assert_eq!(expand_home("~/x", Some("/home/a/")), "/home/a/x");
    assert_eq!(expand_home("~x", Some("/home/a")), "~x");
    assert_eq!(expand_home("~/x", None), "~/x");
    assert_eq!(
        append_remote_name("/srv", "/tmp/a.txt"),
        Some("/srv/a.txt".to_string())
    );
}

#[test]
fn a_new_profile_starts_blank() {
    let mut window = window();
    window.open_profiles(&profiles(), true);
    window.start_new_profile();
    assert_eq!(window.selected_profile_id, None);
    assert_eq!(
        window.profile_editor,
        Some(ProfileEditorState {
            is_new: true,
            profile_id: None,
            name: String::new(),
            host: String::new(),
            port: "22".to_string(),
            username: String::new(),
            auth_method: AuthMethodKind::Password,
            password: String::new(),
            key_path: String::new(),
            passphrase: String::new(),
            default_remote_path: String::new(),
            error: None,
            secret_present_hint: false,
            focused_field: ProfileEditorField::Host,
        })
    );
}
