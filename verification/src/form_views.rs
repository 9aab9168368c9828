//! What the connect form, the profile editor and the settings show.

use vstd::prelude::*;

use crate::connect_form::{connect_fields, profile_with_id, ConnectField, ConnectForm};
use crate::model::{AuthMethodKind, ConnectionProfile, ProfileId, WorkspaceSurface};
use crate::profiles::{
    editor_fields, filtered_profiles, list_label, matching, profile_list_label,
    ProfileEditorField, ProfileEditorState, SettingsSection,
};
use crate::settings_actions::section_shown;
use crate::text::{trim, trimmed};
use crate::workspace::{AppearancePreference, Config, FocusTarget, Workspace};

verus! {

/// A field of the connect form with what is written beside it.
#[derive(PartialEq, Eq, Debug)]
pub struct ConnectRow {
    pub field: ConnectField,
    pub label: &'static str,
    pub text: String,
    pub placeholder: &'static str,
    pub masked: bool,
    pub focused: bool,
}

/// What is written beside a field.
pub open spec fn connect_label(field: ConnectField) -> Seq<char> {
    match field {
        ConnectField::Host => "Host"@,
        ConnectField::Port => "Port"@,
        ConnectField::Username => "Username"@,
        ConnectField::Password => "Password"@,
        ConnectField::KeyPath => "Key path"@,
        ConnectField::Passphrase => "Passphrase"@,
    }
}

/// What a blank field shows.
pub open spec fn connect_placeholder(field: ConnectField) -> Seq<char> {
    match field {
        ConnectField::Host => "example.com"@,
        ConnectField::Port => "22"@,
        ConnectField::Username => "user"@,
        ConnectField::Password => ""@,
        ConnectField::KeyPath => "~/.ssh/id_ed25519"@,
        ConnectField::Passphrase => ""@,
    }
}

/// The text of a field.
pub open spec fn connect_text(form: ConnectForm, field: ConnectField) -> String {
    match field {
        ConnectField::Host => form.host,
        ConnectField::Port => form.port,
        ConnectField::Username => form.username,
        ConnectField::Password => form.password,
        ConnectField::KeyPath => form.key_path,
        ConnectField::Passphrase => form.passphrase,
    }
}

/// A row shows a field of the form; secrets are masked.
pub open spec fn connect_row_shows(row: ConnectRow, form: ConnectForm, field: ConnectField) -> bool {
    &&& row.field == field
    &&& row.label@ == connect_label(field)
    &&& row.text == connect_text(form, field)
    &&& row.placeholder@ == connect_placeholder(field)
    &&& row.masked == (field is Password || field is Passphrase)
    &&& row.focused == (form.focused_field == field)
}

fn connect_row(form: &ConnectForm, field: ConnectField) -> (r: ConnectRow)
    ensures
        connect_row_shows(r, *form, field),
{
    let (label, placeholder, text) = match field {
        ConnectField::Host => ("Host", "example.com", form.host.clone()),
        ConnectField::Port => ("Port", "22", form.port.clone()),
        ConnectField::Username => ("Username", "user", form.username.clone()),
        ConnectField::Password => ("Password", "", form.password.clone()),
        ConnectField::KeyPath => ("Key path", "~/.ssh/id_ed25519", form.key_path.clone()),
        ConnectField::Passphrase => ("Passphrase", "", form.passphrase.clone()),
    };
    ConnectRow {
        field,
        label,
        text,
        placeholder,
        masked: field == ConnectField::Password || field == ConnectField::Passphrase,
        focused: form.focused_field == field,
    }
}

/// A profile in a list.
#[derive(PartialEq, Eq, Debug)]
pub struct ProfileRow {
    pub id: ProfileId,
    pub label: String,
    pub selected: bool,
}

/// What a list of profiles shows.
#[derive(PartialEq, Eq, Debug)]
pub enum ProfileList {
    NoProfiles,
    NoMatches,
    Rows(Vec<ProfileRow>),
}

/// Rows of profiles, with one of them selected.
pub open spec fn profile_rows_show(
    rows: Seq<ProfileRow>,
    profiles: Seq<ConnectionProfile>,
    selected: Option<ProfileId>,
) -> bool {
    &&& rows.len() == profiles.len()
    &&& forall|i: int|
        0 <= i < rows.len() ==> (#[trigger] rows[i]).id == profiles[i].id && rows[i].label@
            == list_label(profiles[i]) && rows[i].selected == (selected == Some(profiles[i].id))
}

fn profile_rows(profiles: &Vec<ConnectionProfile>, selected: Option<ProfileId>) -> (r: Vec<
    ProfileRow,
>)
    ensures
        profile_rows_show(r@, profiles@, selected),
{
    let mut out: Vec<ProfileRow> = Vec::new();
    let mut i: usize = 0;
    while i < profiles.len()
        invariant
            i <= profiles@.len(),
            profile_rows_show(out@, profiles@.take(i as int), selected),
        decreases profiles@.len() - i,
    {
        let ghost before = out@;
        let id = profiles[i].id;
        out.push(
            ProfileRow {
                id,
                label: profile_list_label(&profiles[i]),
                selected: selected == Some(id),
            },
        );
        proof {
            let front = profiles@.take(i + 1);
            assert forall|k: int| 0 <= k < out@.len() implies (#[trigger] out@[k]).id == front[k].id
                && out@[k].label@ == list_label(front[k]) && out@[k].selected == (selected == Some(
                front[k].id,
            )) by {
                if k < i {
                    assert(out@[k] == before[k]);
                    assert(front[k] == profiles@.take(i as int)[k]);
                }
            }
        }
        i += 1;
    }
    assert(profiles@.take(i as int) =~= profiles@);
    out
}

/// What the connect form shows.
#[derive(PartialEq, Eq, Debug)]
pub struct ConnectFormView {
    pub error: Option<String>,
    pub trigger_label: String,
    /// The profile picker, while it is open.
    pub picker: Option<ProfileList>,
    /// The form was filled from a saved profile.
    pub saved_profile: bool,
    pub rows: Vec<ConnectRow>,
    pub auth_method: AuthMethodKind,
}

/// What the profile picker shows.
pub open spec fn picker_shows(
    list: ProfileList,
    profiles: Seq<ConnectionProfile>,
    query: Seq<char>,
) -> bool {
    let found = profiles.filter(matching(query));
    if profiles.len() == 0 {
        list is NoProfiles
    } else if found.len() == 0 {
        list is NoMatches
    } else {
        list matches ProfileList::Rows(rows) && profile_rows_show(rows@, found, None)
    }
}

/// The label of the profile picker.
pub open spec fn trigger_label(form: ConnectForm, profiles: Seq<ConnectionProfile>) -> Seq<char> {
    match form.source_profile_id {
        Some(id) => match profile_with_id(profiles, id) {
            Some(profile) => profile.name@,
            None => "Manual entry"@,
        },
        None => "Manual entry"@,
    }
}

/// The connect form shows the fields of the connection, in the order in which they take the
/// focus, and nothing that makes or changes a saved profile.
pub open spec fn connect_form_shows(
    view: ConnectFormView,
    form: ConnectForm,
    profiles: Seq<ConnectionProfile>,
) -> bool {
    let fields = connect_fields(form.auth_method);
    &&& view.error == form.error
    &&& view.trigger_label@ == trigger_label(form, profiles)
    &&& view.picker is Some <==> form.profile_picker_open
    &&& view.picker is Some ==> picker_shows(
        view.picker->0,
        profiles,
        form.profile_picker_filter@,
    )
    &&& view.saved_profile == (form.source_profile_id is Some)
    &&& view.rows@.len() == fields.len()
    &&& forall|i: int|
        0 <= i < fields.len() ==> connect_row_shows(#[trigger] view.rows@[i], form, fields[i])
    &&& view.auth_method == form.auth_method
}

fn picker_list(profiles: &Vec<ConnectionProfile>, query: &str) -> (r: ProfileList)
    ensures
        picker_shows(r, profiles@, query@),
{
    if profiles.len() == 0 {
        return ProfileList::NoProfiles;
    }
    let found = filtered_profiles(profiles, query);
    if found.len() == 0 {
        return ProfileList::NoMatches;
    }
    ProfileList::Rows(profile_rows(&found, None))
}

impl ConnectForm {
    /// What the form shows.
    pub fn form_view(&self, profiles: &Vec<ConnectionProfile>) -> (r: ConnectFormView)
        ensures
            connect_form_shows(r, *self, profiles@),
    {
        let order = self.field_order();
        let ghost fields = connect_fields(self.auth_method);
        let count: usize = order.len();
        let mut rows: Vec<ConnectRow> = Vec::new();
        let mut i: usize = 0;
        while i < count
            invariant
                i <= count,
                count == order@.len(),
                order@ == connect_fields(self.auth_method),
                fields == connect_fields(self.auth_method),
                rows@.len() == i,
                forall|k: int|
                    0 <= k < i ==> connect_row_shows(#[trigger] rows@[k], *self, fields[k]),
            decreases count - i,
        {
            rows.push(connect_row(self, order[i]));
            i += 1;
        }
        let picker = if self.profile_picker_open {
            Some(picker_list(profiles, self.profile_picker_filter.as_str()))
        } else {
            None
        };
        ConnectFormView {
            error: self.error.clone(),
            trigger_label: self.profile_trigger_label(profiles),
            picker,
            saved_profile: self.source_profile_id.is_some(),
            rows,
            auth_method: self.auth_method,
        }
    }
}

/// A field of the profile editor with what is written beside it.
#[derive(PartialEq, Eq, Debug)]
pub struct EditorRow {
    pub field: ProfileEditorField,
    pub label: &'static str,
    pub text: String,
    pub placeholder: &'static str,
    pub masked: bool,
    pub focused: bool,
}

/// What is written beside a field.
pub open spec fn editor_label(field: ProfileEditorField) -> Seq<char> {
    match field {
        ProfileEditorField::Name => "Name"@,
        ProfileEditorField::Host => "Host"@,
        ProfileEditorField::Port => "Port"@,
        ProfileEditorField::Username => "Username"@,
        ProfileEditorField::Password => "Password"@,
        ProfileEditorField::KeyPath => "Key path"@,
        ProfileEditorField::Passphrase => "Passphrase"@,
        ProfileEditorField::DefaultRemotePath => "Remote path"@,
    }
}

/// What a blank field shows: that of a secret that is kept says so.
pub open spec fn editor_placeholder(field: ProfileEditorField, secret_present: bool) -> Seq<char> {
    match field {
        ProfileEditorField::Name => "optional"@,
        ProfileEditorField::Host => "example.com"@,
        ProfileEditorField::Port => "22"@,
        ProfileEditorField::Username => "user"@,
        ProfileEditorField::Password => if secret_present {
            "leave blank to keep"@
        } else {
            ""@
        },
        ProfileEditorField::KeyPath => "~/.ssh/id_ed25519"@,
        ProfileEditorField::Passphrase => if secret_present {
            "leave blank to keep"@
        } else {
            ""@
        },
        ProfileEditorField::DefaultRemotePath => "/home/user"@,
    }
}

/// The text of a field.
pub open spec fn editor_text(editor: ProfileEditorState, field: ProfileEditorField) -> String {
    match field {
        ProfileEditorField::Name => editor.name,
        ProfileEditorField::Host => editor.host,
        ProfileEditorField::Port => editor.port,
        ProfileEditorField::Username => editor.username,
        ProfileEditorField::Password => editor.password,
        ProfileEditorField::KeyPath => editor.key_path,
        ProfileEditorField::Passphrase => editor.passphrase,
        ProfileEditorField::DefaultRemotePath => editor.default_remote_path,
    }
}

/// A row shows a field of the editor; secrets are masked.
pub open spec fn editor_row_shows(
    row: EditorRow,
    editor: ProfileEditorState,
    field: ProfileEditorField,
) -> bool {
    &&& row.field == field
    &&& row.label@ == editor_label(field)
    &&& row.text == editor_text(editor, field)
    &&& row.placeholder@ == editor_placeholder(field, editor.secret_present_hint)
    &&& row.masked == (field is Password || field is Passphrase)
    &&& row.focused == (editor.focused_field == field)
}

fn editor_row(editor: &ProfileEditorState, field: ProfileEditorField) -> (r: EditorRow)
    ensures
        editor_row_shows(r, *editor, field),
{
    let kept = if editor.secret_present_hint {
        "leave blank to keep"
    } else {
        ""
    };
    let (label, placeholder, text) = match field {
        ProfileEditorField::Name => ("Name", "optional", editor.name.clone()),
        ProfileEditorField::Host => ("Host", "example.com", editor.host.clone()),
        ProfileEditorField::Port => ("Port", "22", editor.port.clone()),
        ProfileEditorField::Username => ("Username", "user", editor.username.clone()),
        ProfileEditorField::Password => ("Password", kept, editor.password.clone()),
        ProfileEditorField::KeyPath => ("Key path", "~/.ssh/id_ed25519", editor.key_path.clone()),
        ProfileEditorField::Passphrase => ("Passphrase", kept, editor.passphrase.clone()),
        ProfileEditorField::DefaultRemotePath => (
            "Remote path",
            "/home/user",
            editor.default_remote_path.clone(),
        ),
    };
    EditorRow {
        field,
        label,
        text,
        placeholder,
        masked: field == ProfileEditorField::Password || field == ProfileEditorField::Passphrase,
        focused: editor.focused_field == field,
    }
}

/// What the profile editor shows.
#[derive(PartialEq, Eq, Debug)]
pub struct EditorView {
    pub title: &'static str,
    pub error: Option<String>,
    pub rows: Vec<EditorRow>,
    pub auth_method: AuthMethodKind,
    /// A secret of the profile is kept already.
    pub keeps_secret: bool,
    /// The profile can be deleted.
    pub can_delete: bool,
}

/// The editor shows its fields in the order in which they take the focus.
pub open spec fn editor_shows(view: EditorView, editor: ProfileEditorState) -> bool {
    let fields = editor_fields(editor.auth_method);
    &&& view.title@ == if editor.is_new {
        "New Profile"@
    } else {
        "Edit Profile"@
    }
    &&& view.error == editor.error
    &&& view.rows@.len() == fields.len()
    &&& forall|i: int|
        0 <= i < fields.len() ==> editor_row_shows(#[trigger] view.rows@[i], editor, fields[i])
    &&& view.auth_method == editor.auth_method
    &&& view.keeps_secret == editor.secret_present_hint
    &&& view.can_delete == !editor.is_new
}

impl ProfileEditorState {
    /// What the editor shows.
    pub fn editor_view(&self) -> (r: EditorView)
        ensures
            editor_shows(r, *self),
    {
        let order = self.field_order();
        let ghost fields = editor_fields(self.auth_method);
        let mut rows: Vec<EditorRow> = Vec::new();
        let mut i: usize = 0;
        while i < order.len()
            invariant
                i <= order@.len(),
                order@ == fields,
                rows@.len() == i,
                forall|k: int|
                    0 <= k < i ==> editor_row_shows(#[trigger] rows@[k], *self, fields[k]),
            decreases order@.len() - i,
        {
            rows.push(editor_row(self, order[i]));
            i += 1;
        }
        EditorView {
            title: if self.is_new {
                "New Profile"
            } else {
                "Edit Profile"
            },
            error: self.error.clone(),
            rows,
            auth_method: self.auth_method,
            keeps_secret: self.secret_present_hint,
            can_delete: !self.is_new,
        }
    }
}

/// What stands beside the list of profiles.
#[derive(PartialEq, Eq, Debug)]
pub enum ProfileDetail {
    Editor(EditorView),
    /// There is no profile yet.
    CreateFirst,
    /// None is selected.
    SelectOne,
}

/// The page of profiles.
#[derive(PartialEq, Eq, Debug)]
pub struct ProfilesPage {
    pub filter: String,
    pub filter_focused: bool,
    pub list: ProfileList,
    pub detail: ProfileDetail,
}

/// The page of the settings that is shown.
#[derive(PartialEq, Eq, Debug)]
pub enum SettingsPage {
    General { appearance: AppearancePreference, config_error: Option<String> },
    Profiles(ProfilesPage),
}

/// The page of profiles shows those that match, the selected one marked unless a new one is made.
pub open spec fn profiles_page_shows(
    page: ProfilesPage,
    w: Workspace,
    profiles: Seq<ConnectionProfile>,
) -> bool {
    let found = profiles.filter(matching(w.profile_filter@));
    let makes_new = w.profile_editor is Some && w.profile_editor->0.is_new;
    &&& page.filter == w.profile_filter
    &&& page.filter_focused == w.profile_filter_focused
    &&& if profiles.len() == 0 {
        page.list is NoProfiles
    } else if found.len() == 0 && trimmed(w.profile_filter@).len() > 0 {
        page.list is NoMatches
    } else {
        page.list matches ProfileList::Rows(rows) && profile_rows_show(
            rows@,
            found,
            if makes_new {
                None
            } else {
                w.selected_profile_id
            },
        )
    }
    &&& match w.profile_editor {
        Some(editor) => page.detail matches ProfileDetail::Editor(view) && editor_shows(
            view,
            editor,
        ),
        None => if profiles.len() == 0 {
            page.detail is CreateFirst
        } else {
            page.detail is SelectOne
        },
    }
}

impl Workspace {
    /// What the connect form shows, while it is open.
    pub fn connect_form_view(&self, profiles: &Vec<ConnectionProfile>) -> (r: Option<
        ConnectFormView,
    >)
        ensures
            r is Some <==> self.connect_form is Some,
            r is Some ==> connect_form_shows(r->0, self.connect_form->0, profiles@),
    {
        match &self.connect_form {
            Some(form) => Some(form.form_view(profiles)),
            None => None,
        }
    }

    fn profiles_page(&self, profiles: &Vec<ConnectionProfile>) -> (r: ProfilesPage)
        ensures
            profiles_page_shows(r, *self, profiles@),
    {
        let found = self.filtered_profiles(profiles);
        let makes_new = match &self.profile_editor {
            Some(editor) => editor.is_new,
            None => false,
        };
        let filtering = !trim(self.profile_filter.as_str()).as_str().is_empty();
        let list = if profiles.len() == 0 {
            ProfileList::NoProfiles
        } else if found.len() == 0 && filtering {
            ProfileList::NoMatches
        } else {
            let marked = if makes_new {
                None
            } else {
                self.selected_profile_id
            };
            ProfileList::Rows(profile_rows(&found, marked))
        };
        let detail = match &self.profile_editor {
            Some(editor) => ProfileDetail::Editor(editor.editor_view()),
            None => if profiles.len() == 0 {
                ProfileDetail::CreateFirst
            } else {
                ProfileDetail::SelectOne
            },
        };
        ProfilesPage {
            filter: self.profile_filter.clone(),
            filter_focused: self.profile_filter_focused,
            list,
            detail,
        }
    }

    /// The page of the settings that is shown.
    pub fn settings_page(&self, config: &Config, profiles: &Vec<ConnectionProfile>) -> (r:
        SettingsPage)
        ensures
            match self.settings_section {
                SettingsSection::General => r == (SettingsPage::General {
                    appearance: config.appearance,
                    config_error: self.config_error,
                }),
                SettingsSection::Profiles => r matches SettingsPage::Profiles(page)
                    && profiles_page_shows(page, *self, profiles@),
            },
    {
        match self.settings_section {
            SettingsSection::General => SettingsPage::General {
                appearance: config.appearance,
                config_error: self.config_error.clone(),
            },
            SettingsSection::Profiles => SettingsPage::Profiles(self.profiles_page(profiles)),
        }
    }

    /// Gives a field of the connect form the focus.
    pub fn focus_connect_field(&mut self, field: ConnectField)
        ensures
            *final(self) == (Workspace {
                connect_form: match old(self).connect_form {
                    Some(form) => Some(ConnectForm { focused_field: field, ..form }),
                    None => None,
                },
                ..*old(self)
            }),
    {
        if let Some(mut form) = self.connect_form.take() {
            form.focused_field = field;
            self.connect_form = Some(form);
        }
    }

    /// Opens or closes the profile picker.
    pub fn toggle_profile_picker(&mut self)
        ensures
            *final(self) == (Workspace {
                connect_form: match old(self).connect_form {
                    Some(form) => Some(
                        ConnectForm { profile_picker_open: !form.profile_picker_open, ..form },
                    ),
                    None => None,
                },
                ..*old(self)
            }),
    {
        if let Some(mut form) = self.connect_form.take() {
            form.profile_picker_open = !form.profile_picker_open;
            self.connect_form = Some(form);
        }
    }

    /// Leaves the connect form for the list of profiles in the settings.
    pub fn manage_profiles(&mut self, profiles: &Vec<ConnectionProfile>, secret_present: bool)
        ensures
            section_shown(
                Workspace {
                    connect_form: None,
                    about_open: false,
                    surface: WorkspaceSurface::Settings,
                    focus: FocusTarget::Workspace,
                    ..*old(self)
                },
                *final(self),
                SettingsSection::Profiles,
                profiles@,
                secret_present,
            ),
    {
        self.connect_form = None;
        self.about_open = false;
        self.surface = WorkspaceSurface::Settings;
        self.focus = FocusTarget::Workspace;
        self.set_settings_section(SettingsSection::Profiles, profiles, secret_present);
    }

    /// Gives a field of the profile editor the focus.
    pub fn focus_editor_field(&mut self, field: ProfileEditorField)
        ensures
            *final(self) == (Workspace {
                profile_filter_focused: false,
                profile_editor: match old(self).profile_editor {
                    Some(editor) => Some(ProfileEditorState { focused_field: field, ..editor }),
                    None => None,
                },
                focus: FocusTarget::Modal,
                ..*old(self)
            }),
    {
        self.profile_filter_focused = false;
        if let Some(mut editor) = self.profile_editor.take() {
            editor.focused_field = field;
            self.profile_editor = Some(editor);
        }
        self.focus = FocusTarget::Modal;
    }

    /// The profile that the delete button of the editor is about.
    pub fn profile_to_delete(&self) -> (r: Option<ProfileId>)
        ensures
            r == match self.profile_editor {
                Some(editor) => if editor.is_new {
                    None
                } else {
                    match editor.profile_id {
                        Some(id) => Some(id),
                        None => self.selected_profile_id,
                    }
                },
                None => None,
            },
    {
        match &self.profile_editor {
            Some(editor) => if editor.is_new {
                None
            } else {
                match editor.profile_id {
                    Some(id) => Some(id),
                    None => self.selected_profile_id,
                }
            },
            None => None,
        }
    }
}

}
