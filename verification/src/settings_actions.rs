//! What a window does in its settings: the list of profiles, the editor, and deleting profiles.

use vstd::prelude::*;

use crate::connect_actions::{no_free_id, no_free_id_text, profile_removed, ProfileRemoval};
use crate::connect_form::{find_profile, profile_with_id};
use crate::front::focus_below_profile_delete;
use crate::helpers::{string_of, text_of};
use crate::keys::Keystroke;
use crate::model::{ConnectionProfile, ProfileId};
use crate::profiles::{
    filtered_profiles, matching, next_editor_field, ProfileEditorState, ProfileSaveRequest,
    SaveRefusal, SettingsSection,
};
use crate::text::{joined, joined3};
use crate::workspace::{FocusTarget, Workspace};

verus! {

/// What became of saving a profile.
#[derive(PartialEq, Eq, Debug)]
pub enum ProfileSaved {
    Saved { profile: ConnectionProfile, secret_present: bool },
    PasswordRequired,
    Failed(String),
}

/// What a key does in the profile editor.
#[derive(Clone, Copy, PartialEq, Eq, Structural, Debug)]
pub enum EditorKey {
    Save,
    Moved,
    Edited,
    Unused,
}

/// The profile that the settings show: the selected one, where it still exists, or else the
/// first.
pub open spec fn profile_to_show(selected: Option<ProfileId>, profiles: Seq<ConnectionProfile>)
    -> Option<ProfileId> {
    let kept = match selected {
        Some(id) => profile_with_id(profiles, id) is Some,
        None => false,
    };
    if kept {
        selected
    } else if profiles.len() > 0 {
        Some(profiles[0].id)
    } else {
        None
    }
}

/// The editor shows a profile, where there is one; a new one that is being made stays otherwise.
pub open spec fn editor_for(
    before: Option<ProfileEditorState>,
    after: Option<ProfileEditorState>,
    shown: Option<ProfileId>,
    profiles: Seq<ConnectionProfile>,
    secret_present: bool,
) -> bool {
    match shown {
        Some(id) => after is Some && after->0.shows(
            profile_with_id(profiles, id)->0,
            secret_present,
        ),
        None => after == match before {
            Some(editor) => if editor.is_new {
                Some(editor)
            } else {
                None
            },
            None => None,
        },
    }
}

/// The settings show a section. The list of profiles shows one of them in the editor.
pub open spec fn section_shown(
    before: Workspace,
    after: Workspace,
    section: SettingsSection,
    profiles: Seq<ConnectionProfile>,
    secret_present: bool,
) -> bool {
    if section is Profiles {
        &&& after == (Workspace {
            settings_section: section,
            selected_profile_id: profile_to_show(before.selected_profile_id, profiles),
            profile_editor: after.profile_editor,
            ..before
        })
        &&& editor_for(
            before.profile_editor,
            after.profile_editor,
            after.selected_profile_id,
            profiles,
            secret_present,
        )
    } else {
        after == (Workspace { settings_section: section, ..before })
    }
}

fn new_editor_kept(editor: Option<ProfileEditorState>) -> (r: Option<ProfileEditorState>)
    ensures
        r == match editor {
            Some(editor) => if editor.is_new {
                Some(editor)
            } else {
                None
            },
            None => None,
        },
{
    match editor {
        Some(editor) => if editor.is_new {
            Some(editor)
        } else {
            None
        },
        None => None,
    }
}

proof fn lemma_first_profile(profiles: Seq<ConnectionProfile>)
    requires
        profiles.len() > 0,
    ensures
        profile_with_id(profiles, profiles[0].id) is Some,
{
}

impl Workspace {
    /// The profile whose secret is looked up before the list of profiles is shown.
    pub fn settings_profile(&self, profiles: &Vec<ConnectionProfile>) -> (r: Option<ProfileId>)
        ensures
            r == profile_to_show(self.selected_profile_id, profiles@),
            r matches Some(id) ==> profile_with_id(profiles@, id) is Some,
    {
        if let Some(id) = self.selected_profile_id {
            if find_profile(profiles, id).is_some() {
                return Some(id);
            }
        }
        if profiles.len() > 0 {
            proof {
                lemma_first_profile(profiles@);
            }
            Some(profiles[0].id)
        } else {
            None
        }
    }

    /// Shows a section of the settings; `secret_present` is of the profile that is then shown.
    pub fn set_settings_section(
        &mut self,
        section: SettingsSection,
        profiles: &Vec<ConnectionProfile>,
        secret_present: bool,
    )
        ensures
            section_shown(*old(self), *final(self), section, profiles@, secret_present),
    {
        self.settings_section = section;
        if section == SettingsSection::Profiles {
            let shown = self.settings_profile(profiles);
            self.selected_profile_id = shown;
            let editor = match shown {
                Some(id) => match find_profile(profiles, id) {
                    Some(i) => Some(ProfileEditorState::from_profile(&profiles[i], secret_present)),
                    None => None,
                },
                None => new_editor_kept(self.profile_editor.take()),
            };
            self.profile_editor = editor;
        }
    }

    /// Shows a profile in the editor, where it exists.
    pub fn load_profile_editor(
        &mut self,
        id: ProfileId,
        profiles: &Vec<ConnectionProfile>,
        secret_present: bool,
    )
        ensures
            match profile_with_id(profiles@, id) {
                None => *final(self) == *old(self),
                Some(profile) => {
                    &&& *final(self) == (Workspace {
                        profile_filter_focused: false,
                        selected_profile_id: Some(id),
                        profile_editor: final(self).profile_editor,
                        ..*old(self)
                    })
                    &&& final(self).profile_editor is Some
                    &&& final(self).profile_editor->0.shows(profile, secret_present)
                },
            },
    {
        if let Some(i) = find_profile(profiles, id) {
            self.profile_filter_focused = false;
            self.selected_profile_id = Some(id);
            self.profile_editor = Some(
                ProfileEditorState::from_profile(&profiles[i], secret_present),
            );
        }
    }

    /// The user chose a profile of the list.
    pub fn select_profile_in_settings(
        &mut self,
        id: ProfileId,
        profiles: &Vec<ConnectionProfile>,
        secret_present: bool,
    )
        ensures
            match profile_with_id(profiles@, id) {
                None => *final(self) == (Workspace { profile_filter_focused: false, ..*old(self) }),
                Some(profile) => {
                    &&& *final(self) == (Workspace {
                        profile_filter_focused: false,
                        selected_profile_id: Some(id),
                        profile_editor: final(self).profile_editor,
                        ..*old(self)
                    })
                    &&& final(self).profile_editor is Some
                    &&& final(self).profile_editor->0.shows(profile, secret_present)
                },
            },
    {
        self.profile_filter_focused = false;
        self.load_profile_editor(id, profiles, secret_present);
    }

    /// Opens the editor for a new profile.
    pub fn start_new_profile(&mut self)
        ensures
            *final(self) == (Workspace {
                profile_filter_focused: false,
                selected_profile_id: None,
                profile_editor: final(self).profile_editor,
                ..*old(self)
            }),
            final(self).profile_editor is Some,
            final(self).profile_editor->0.is_blank(),
    {
        self.profile_filter_focused = false;
        self.selected_profile_id = None;
        self.profile_editor = Some(ProfileEditorState::blank());
    }

    /// The request that saves the editor; where it cannot be saved, the editor, or the status,
    /// says why.
    pub fn save_profile_editor(&mut self, profiles: &Vec<ConnectionProfile>, home: Option<&str>)
        -> (r: Option<ProfileSaveRequest>)
        ensures
            match old(self).profile_editor {
                None => r is None && *final(self) == *old(self),
                Some(editor) => match editor.refusal(profiles@, text_of(home)) {
                    None => {
                        &&& *final(self) == *old(self)
                        &&& r is Some
                        &&& editor.asks(profiles@, text_of(home), r->0)
                    },
                    Some(SaveRefusal::Form(problem)) => {
                        &&& r is None
                        &&& *final(self) == (Workspace {
                            profile_editor: final(self).profile_editor,
                            ..*old(self)
                        })
                        &&& editor_says(editor, final(self).profile_editor, problem.text())
                    },
                    Some(SaveRefusal::NoFreeId) => {
                        &&& r is None
                        &&& *final(self) == (Workspace {
                            status_message: final(self).status_message,
                            ..*old(self)
                        })
                        &&& string_of(final(self).status_message) == Some(no_free_id())
                    },
                },
            },
    {
        let mut editor = match self.profile_editor.take() {
            Some(editor) => editor,
            None => return None,
        };
        match editor.save_request(profiles, home) {
            Ok(request) => {
                self.profile_editor = Some(editor);
                Some(request)
            },
            Err(SaveRefusal::Form(problem)) => {
                editor.error = Some(problem.message());
                self.profile_editor = Some(editor);
                None
            },
            Err(SaveRefusal::NoFreeId) => {
                self.profile_editor = Some(editor);
                self.status_message = Some(no_free_id_text());
                None
            },
        }
    }

    /// Follows the saving of the editor as a profile of a name.
    pub fn profile_editor_saved(&mut self, name: &str, saved: &ProfileSaved)
        ensures
            match *saved {
                ProfileSaved::Saved { profile, secret_present } => {
                    &&& *final(self) == (Workspace {
                        selected_profile_id: Some(profile.id),
                        profile_editor: final(self).profile_editor,
                        status_message: final(self).status_message,
                        ..*old(self)
                    })
                    &&& final(self).profile_editor is Some
                    &&& final(self).profile_editor->0.shows(profile, secret_present)
                    &&& string_of(final(self).status_message) == Some(
                        "Saved profile '"@ + name@ + "'."@,
                    )
                },
                _ => {
                    &&& *final(self) == (Workspace {
                        profile_editor: final(self).profile_editor,
                        status_message: final(self).status_message,
                        ..*old(self)
                    })
                    &&& string_of(final(self).status_message) == Some(save_failure(*saved))
                    &&& match old(self).profile_editor {
                        None => final(self).profile_editor is None,
                        Some(editor) => editor_says(
                            editor,
                            final(self).profile_editor,
                            save_failure(*saved),
                        ),
                    }
                },
            },
    {
        match saved {
            ProfileSaved::Saved { profile, secret_present } => {
                self.selected_profile_id = Some(profile.id);
                self.profile_editor = Some(
                    ProfileEditorState::from_profile(profile, *secret_present),
                );
                self.status_message = Some(joined3("Saved profile '", name, "'."));
            },
            ProfileSaved::PasswordRequired => {
                self.report_save_failure("Password is required.".to_string());
            },
            ProfileSaved::Failed(error) => {
                self.report_save_failure(joined("Could not save profile: ", error.as_str()));
            },
        }
    }

    fn report_save_failure(&mut self, message: String)
        ensures
            *final(self) == (Workspace {
                profile_editor: final(self).profile_editor,
                status_message: Some(message),
                ..*old(self)
            }),
            match old(self).profile_editor {
                None => final(self).profile_editor is None,
                Some(editor) => editor_says(editor, final(self).profile_editor, message@),
            },
    {
        if let Some(mut editor) = self.profile_editor.take() {
            editor.error = Some(message.clone());
            self.profile_editor = Some(editor);
        }
        self.status_message = Some(message);
    }

    /// The profiles that the settings list.
    pub fn filtered_profiles(&self, profiles: &Vec<ConnectionProfile>) -> (r: Vec<
        ConnectionProfile,
    >)
        ensures
            r@ == profiles@.filter(matching(self.profile_filter@)),
    {
        filtered_profiles(profiles, self.profile_filter.as_str())
    }

    /// Gives the filter of the list of profiles the keyboard.
    pub fn focus_profile_filter(&mut self)
        ensures
            *final(self) == (Workspace {
                profile_filter_focused: true,
                focus: FocusTarget::Workspace,
                ..*old(self)
            }),
    {
        self.profile_filter_focused = true;
        self.focus = FocusTarget::Workspace;
    }

    /// A key typed in the settings; `typed` is what the filter then holds. Says whether the filter
    /// of the list of profiles took it.
    pub fn handle_profile_filter_key(&mut self, typed: Option<String>) -> (r: bool)
        ensures
            r == (old(self).profile_filter_focused && typed is Some),
            *final(self) == if r {
                Workspace { profile_filter: typed->0, ..*old(self) }
            } else {
                *old(self)
            },
    {
        if !self.profile_filter_focused {
            return false;
        }
        match typed {
            Some(text) => {
                self.profile_filter = text;
                true
            },
            None => false,
        }
    }

    /// Asks whether a profile is to be deleted.
    pub fn request_delete_profile(&mut self, id: ProfileId)
        ensures
            *final(self) == (Workspace {
                profile_delete_confirm: Some(id),
                focus: FocusTarget::Modal,
                ..*old(self)
            }),
    {
        self.profile_delete_confirm = Some(id);
        self.focus = FocusTarget::Modal;
    }

    /// The user agreed to delete a profile, and `removal` came of it. `profiles` are those that
    /// are left; where the deleted one was shown another takes its place.
    pub fn confirm_delete_profile(
        &mut self,
        removal: &ProfileRemoval,
        profiles: &Vec<ConnectionProfile>,
        secret_present: bool,
    )
        requires
            old(self).wf(),
        ensures
            final(self).wf(),
            match old(self).profile_delete_confirm {
                None => *final(self) == *old(self),
                Some(id) => exists|gone: Workspace| #[trigger]
                    profile_removed(unasked(*old(self)), gone, id, *removal) && reshown(
                        gone,
                        *final(self),
                        id,
                        profiles@,
                        secret_present,
                    ),
            },
    {
        let id = match self.profile_delete_confirm.take() {
            Some(id) => id,
            None => return,
        };
        self.delete_profile(id, removal);
        let ghost gone = *self;
        self.reshow_profiles(id, profiles, secret_present);
        assert(profile_removed(unasked(*old(self)), gone, id, *removal));
    }

    fn reshow_profiles(
        &mut self,
        id: ProfileId,
        profiles: &Vec<ConnectionProfile>,
        secret_present: bool,
    )
        requires
            old(self).wf(),
        ensures
            final(self).wf(),
            reshown(*old(self), *final(self), id, profiles@, secret_present),
    {
        if self.selected_profile_id == Some(id) {
            self.selected_profile_id = None;
            self.profile_editor = None;
            let section = self.settings_section;
            if section == SettingsSection::Profiles {
                self.set_settings_section(section, profiles, secret_present);
            }
        }
        self.restore_focus_after_profile_delete();
    }

    /// A key typed in the profile editor. Says what it does.
    pub fn handle_profile_editor_key(&mut self, stroke: &Keystroke, typed: Option<String>) -> (r:
        EditorKey)
        ensures
            match old(self).profile_editor {
                Some(editor) if !old(self).profile_filter_focused => {
                    &&& *final(self) == (Workspace {
                        profile_editor: Some(
                            editor_keyed(editor, *stroke, typed).0,
                        ),
                        ..*old(self)
                    })
                    &&& r == editor_keyed(editor, *stroke, typed).1
                },
                _ => r is Unused && *final(self) == *old(self),
            },
    {
        if self.profile_filter_focused {
            return EditorKey::Unused;
        }
        let mut editor = match self.profile_editor.take() {
            Some(editor) => editor,
            None => return EditorKey::Unused,
        };
        let what = editor.take_key(stroke, typed);
        self.profile_editor = Some(editor);
        what
    }
}

/// The window without the question whether a profile is to be deleted.
pub open spec fn unasked(w: Workspace) -> Workspace {
    Workspace { profile_delete_confirm: None, ..w }
}

/// The editor after a key, and what the key does.
pub open spec fn editor_keyed(
    editor: ProfileEditorState,
    stroke: Keystroke,
    typed: Option<String>,
) -> (ProfileEditorState, EditorKey) {
    if stroke.is_plain("enter"@) {
        (editor, EditorKey::Save)
    } else if stroke.key@ == "tab"@ {
        (
            ProfileEditorState {
                focused_field: next_editor_field(
                    editor.auth_method,
                    editor.focused_field,
                    stroke.modifiers.shift,
                ),
                ..editor
            },
            EditorKey::Moved,
        )
    } else {
        match typed {
            Some(text) => (
                ProfileEditorState {
                    error: None,
                    ..editor.with_field(editor.focused_field, text)
                },
                EditorKey::Edited,
            ),
            None => (editor, EditorKey::Unused),
        }
    }
}

impl ProfileEditorState {
    /// Takes a key; `typed` is what the focused field then holds.
    pub fn take_key(&mut self, stroke: &Keystroke, typed: Option<String>) -> (r: EditorKey)
        ensures
            *final(self) == editor_keyed(*old(self), *stroke, typed).0,
            r == editor_keyed(*old(self), *stroke, typed).1,
    {
        if stroke.plain("enter") {
            return EditorKey::Save;
        }
        if stroke.named("tab") {
            self.cycle_focus(stroke.modifiers.shift);
            return EditorKey::Moved;
        }
        match typed {
            Some(text) => {
                let field = self.focused_field;
                self.set_field(field, text);
                self.error = None;
                EditorKey::Edited
            },
            None => EditorKey::Unused,
        }
    }
}

/// The editor says why it could not be saved, and is otherwise unchanged.
pub open spec fn editor_says(
    before: ProfileEditorState,
    after: Option<ProfileEditorState>,
    text: Seq<char>,
) -> bool {
    &&& after is Some
    &&& after->0 == (ProfileEditorState { error: after->0.error, ..before })
    &&& string_of(after->0.error) == Some(text)
}

/// What is said of a profile that could not be saved.
pub open spec fn save_failure(saved: ProfileSaved) -> Seq<char> {
    match saved {
        ProfileSaved::Failed(error) => "Could not save profile: "@ + error@,
        _ => "Password is required."@,
    }
}

/// The settings after a profile is gone: where it was shown another takes its place, and what
/// stands behind the question has the keyboard.
pub open spec fn reshown(
    before: Workspace,
    after: Workspace,
    id: ProfileId,
    profiles: Seq<ConnectionProfile>,
    secret_present: bool,
) -> bool {
    let focus = focus_below_profile_delete(before);
    if before.selected_profile_id != Some(id) {
        after == (Workspace { focus, ..before })
    } else {
        let blank = Workspace { selected_profile_id: None, profile_editor: None, focus, ..before };
        if before.settings_section is Profiles {
            section_shown(blank, after, SettingsSection::Profiles, profiles, secret_present)
        } else {
            after == blank
        }
    }
}

/// Once a profile is gone from the list, the settings do not show it.
pub proof fn law_deleted_profile_is_not_shown(
    before: Workspace,
    after: Workspace,
    id: ProfileId,
    profiles: Seq<ConnectionProfile>,
    secret_present: bool,
)
    requires
        reshown(before, after, id, profiles, secret_present),
        forall|i: int| 0 <= i < profiles.len() ==> (#[trigger] profiles[i]).id != id,
    ensures
        after.selected_profile_id != Some(id),
{
}

}
