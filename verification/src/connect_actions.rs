//! What a window does with the connect form and with saved profiles.

use vstd::prelude::*;

use crate::connect_form::{
    find_profile, next_connect_field, picker_closed, profile_with_id, ConnectForm, FormError,
};
use crate::helpers::{string_of, text_of};
use crate::keys::Keystroke;
use crate::model::{
    AuthMethodKind, ConnectionProfile, ConnectionSettings, ProfileId, RestoredTabTarget,
};
use crate::profiles::{filtered_profiles, matching};
use crate::tabs::{lemma_store_with_tab, TabState, TabStore};
use crate::text::{decimal, decimal_text, joined};
use crate::workspace::{pane_focus, FocusTarget, Workspace};

verus! {

/// The form that is opened for a tab: for the connection that it had, or for the saved profile or
/// the host that it was restored from, or blank.
pub open spec fn form_for(
    tab: Option<TabState>,
    profiles: Seq<ConnectionProfile>,
    form: ConnectForm,
) -> bool {
    match tab {
        None => form.is_blank(),
        Some(tab) => match (tab.connection_settings, tab.restored_target) {
            (Some(settings), _) => prefilled_with(form, settings),
            (None, Some(target)) => restored_form(form, target, profiles),
            (None, None) => form.is_blank(),
        },
    }
}

/// The form holds settings, but for their secrets.
pub open spec fn prefilled_with(form: ConnectForm, settings: ConnectionSettings) -> bool {
    &&& form.host == settings.host
    &&& form.port@ == decimal(settings.port as nat)
    &&& form.username == settings.username
    &&& form.source_profile_id is None
    &&& form.has_fresh_ui()
    &&& form.password@.len() == 0
    &&& form.passphrase@.len() == 0
    &&& match settings.auth {
        crate::model::AuthCredential::Password { .. } => form.auth_method is Password
            && form.key_path@.len() == 0,
        crate::model::AuthCredential::PrivateKey { key_path, .. } => form.auth_method is PrivateKey
            && form.key_path == key_path,
    }
}

/// The form holds what a tab was restored from: its profile, where it still exists, or else its
/// host.
pub open spec fn restored_form(
    form: ConnectForm,
    target: RestoredTabTarget,
    profiles: Seq<ConnectionProfile>,
) -> bool {
    let saved = match target.profile_id {
        Some(id) => profile_with_id(profiles, id),
        None => None,
    };
    match saved {
        Some(profile) => form.shows_profile(profile) && form.password@.len() == 0
            && form.passphrase@.len() == 0,
        None => {
            &&& form.host == target.host
            &&& form.port@ == decimal(target.port as nat)
            &&& form.username == target.username
            &&& form.source_profile_id == target.profile_id
            &&& form.auth_method is Password
            &&& form.password@.len() == 0
            &&& form.key_path@.len() == 0
            &&& form.passphrase@.len() == 0
            &&& form.has_fresh_ui()
        },
    }
}

fn form_of_target(target: &RestoredTabTarget, profiles: &Vec<ConnectionProfile>) -> (r: ConnectForm)
    ensures
        restored_form(r, *target, profiles@),
{
    if let Some(id) = target.profile_id {
        if let Some(i) = find_profile(profiles, id) {
            return ConnectForm::from_profile(&profiles[i]);
        }
    }
    let mut form = ConnectForm::empty();
    form.host = target.host.clone();
    form.port = decimal_text(target.port as u64);
    form.username = target.username.clone();
    form.source_profile_id = target.profile_id;
    form
}

/// What the store of secrets has for a profile.
#[derive(PartialEq, Eq, Debug)]
pub enum SavedSecret {
    Password(String),
    Passphrase(Option<String>),
    Missing(AuthMethodKind),
    Unreadable,
}

/// The form holds a profile and the secret that was read for it.
pub open spec fn filled_from(form: ConnectForm, profile: ConnectionProfile, secret: SavedSecret) -> bool {
    &&& form.shows_profile(profile)
    &&& match secret {
        SavedSecret::Password(password) => form.password == password && form.passphrase@.len() == 0,
        SavedSecret::Passphrase(Some(passphrase)) => form.password@.len() == 0 && form.passphrase
            == passphrase,
        _ => form.password@.len() == 0 && form.passphrase@.len() == 0,
    }
}

/// What is said where no secret was read.
pub open spec fn secret_status(secret: SavedSecret) -> Option<Seq<char>> {
    match secret {
        SavedSecret::Password(_) => None,
        SavedSecret::Passphrase(_) => None,
        SavedSecret::Missing(AuthMethodKind::Password) => Some(
            "Saved password not found — re-enter it."@,
        ),
        SavedSecret::Missing(AuthMethodKind::PrivateKey) => Some(
            "Saved passphrase not found — re-enter it."@,
        ),
        SavedSecret::Unreadable => Some("Could not read saved credentials — re-enter them."@),
    }
}

fn fill_form(profile: &ConnectionProfile, secret: &SavedSecret) -> (r: ConnectForm)
    ensures
        filled_from(r, *profile, *secret),
{
    let mut form = ConnectForm::from_profile(profile);
    match secret {
        SavedSecret::Password(password) => {
            form.password = password.clone();
        },
        SavedSecret::Passphrase(Some(passphrase)) => {
            form.passphrase = passphrase.clone();
        },
        _ => {},
    }
    form
}

fn status_of_secret(secret: &SavedSecret) -> (r: Option<String>)
    ensures
        string_of(r) == secret_status(*secret),
{
    match secret {
        SavedSecret::Password(_) => None,
        SavedSecret::Passphrase(_) => None,
        SavedSecret::Missing(AuthMethodKind::Password) => Some(
            "Saved password not found — re-enter it.".to_string(),
        ),
        SavedSecret::Missing(AuthMethodKind::PrivateKey) => Some(
            "Saved passphrase not found — re-enter it.".to_string(),
        ),
        SavedSecret::Unreadable => Some(
            "Could not read saved credentials — re-enter them.".to_string(),
        ),
    }
}

/// What became of deleting a profile.
#[derive(PartialEq, Eq, Debug)]
pub enum ProfileRemoval {
    Deleted,
    NotFound,
    Failed(String),
}

/// A tab that no longer refers to a profile.
pub open spec fn forgets(id: ProfileId) -> spec_fn(TabState) -> TabState {
    |tab: TabState|
        TabState {
            profile_id: if tab.profile_id == Some(id) {
                None
            } else {
                tab.profile_id
            },
            restored_target: match tab.restored_target {
                Some(target) => Some(
                    if target.profile_id == Some(id) {
                        RestoredTabTarget { profile_id: None, ..target }
                    } else {
                        target
                    },
                ),
                None => None,
            },
            ..tab
        }
}

/// No tab refers to a profile once it is forgotten.
pub proof fn law_deleted_profile_is_forgotten(tab: TabState, id: ProfileId)
    ensures
        forgets(id)(tab).profile_id != Some(id),
        forgets(id)(tab).restored_target is Some ==> forgets(id)(tab).restored_target->0.profile_id
            != Some(id),
        tab.profile_id != Some(id) && (tab.restored_target is None
            || tab.restored_target->0.profile_id != Some(id)) ==> forgets(id)(tab) == tab,
{
}

impl TabStore {
    /// Makes every tab forget a profile.
    pub fn forget_profile(&mut self, id: ProfileId)
        requires
            old(self).wf(),
        ensures
            final(self).wf(),
            *final(self) == (TabStore { tabs: final(self).tabs, ..*old(self) }),
            final(self).tabs@ == old(self).tabs@.map_values(forgets(id)),
    {
        let ghost before = *self;
        let ghost change = forgets(id);
        let count: usize = self.tabs.len();
        let mut i: usize = 0;
        while i < count
            invariant
                i <= count,
                count == before.tabs@.len(),
                before == *old(self),
                change == forgets(id),
                self.tabs@.len() == count,
                self.wf(),
                *self == (TabStore { tabs: self.tabs, ..before }),
                forall|k: int| 0 <= k < i ==> #[trigger] self.tabs@[k] == change(before.tabs@[k]),
                forall|k: int| i <= k < count ==> #[trigger] self.tabs@[k] == before.tabs@[k],
            decreases count - i,
        {
            let ghost held = *self;
            if self.tabs[i].profile_id == Some(id) {
                self.tabs[i].profile_id = None;
            }
            let target = self.tabs[i].restored_target.take();
            let target = match target {
                Some(mut target) => {
                    if target.profile_id == Some(id) {
                        target.profile_id = None;
                    }
                    Some(target)
                },
                None => None,
            };
            self.tabs[i].restored_target = target;
            proof {
                assert(self.tabs@ =~= held.tabs@.update(i as int, self.tabs@[i as int]));
                lemma_store_with_tab(held, *self, i as int);
                assert(self.tabs@[i as int] == change(before.tabs@[i as int]));
            }
            i += 1;
        }
        assert(self.tabs@ =~= before.tabs@.map_values(change));
    }
}

/// What a key does in the connect form.
#[derive(Clone, Copy, PartialEq, Eq, Structural, Debug)]
pub enum ConnectKey {
    /// The profile picker closed.
    PickerClosed,
    /// A profile of the picker is to be taken, or none is there to take.
    Take(Option<ProfileId>),
    Submit,
    /// Another field has the focus.
    Moved,
    /// The focused field, or the filter of the picker, holds other text.
    Edited,
    Unused,
}

/// The connect form after a key.
pub open spec fn form_keyed(
    form: ConnectForm,
    profiles: Seq<ConnectionProfile>,
    stroke: Keystroke,
    typed: Option<String>,
    after: ConnectForm,
    what: ConnectKey,
) -> bool {
    if stroke.key@ == "escape"@ {
        if form.profile_picker_open {
            what is PickerClosed && picker_closed(form, after)
        } else {
            what is Unused && after == form
        }
    } else if stroke.is_plain("enter"@) {
        let shown = profiles.filter(matching(form.profile_picker_filter@));
        &&& after == form
        &&& what == if !form.profile_picker_open {
            ConnectKey::Submit
        } else if shown.len() > 0 {
            ConnectKey::Take(Some(shown[0].id))
        } else {
            ConnectKey::Take(None)
        }
    } else if stroke.key@ == "tab"@ {
        &&& what is Moved
        &&& after == (ConnectForm {
            focused_field: next_connect_field(
                form.auth_method,
                form.focused_field,
                stroke.modifiers.shift,
            ),
            ..form
        })
    } else {
        match typed {
            None => what is Unused && after == form,
            Some(text) => {
                &&& what is Edited
                &&& after == if form.profile_picker_open {
                    ConnectForm { profile_picker_filter: text, ..form }
                } else if stroke.is_paste() {
                    form.with_field(form.focused_field, text)
                } else {
                    ConnectForm { error: None, ..form.with_field(form.focused_field, text) }
                }
            },
        }
    }
}

impl ConnectForm {
    /// Takes a key; `typed` is what the field that takes text then holds.
    pub fn take_key(
        &mut self,
        profiles: &Vec<ConnectionProfile>,
        stroke: &Keystroke,
        typed: Option<String>,
    ) -> (r: ConnectKey)
        ensures
            form_keyed(*old(self), profiles@, *stroke, typed, *final(self), r),
    {
        if stroke.named("escape") {
            if self.profile_picker_open {
                self.close_profile_picker();
                return ConnectKey::PickerClosed;
            }
            return ConnectKey::Unused;
        }
        if stroke.plain("enter") {
            if !self.profile_picker_open {
                return ConnectKey::Submit;
            }
            let shown = filtered_profiles(profiles, self.profile_picker_filter.as_str());
            return ConnectKey::Take(
                if shown.len() > 0 {
                    Some(shown[0].id)
                } else {
                    None
                },
            );
        }
        if stroke.named("tab") {
            self.cycle_focus(stroke.modifiers.shift);
            return ConnectKey::Moved;
        }
        match typed {
            None => ConnectKey::Unused,
            Some(text) => {
                if self.profile_picker_open {
                    self.profile_picker_filter = text;
                } else {
                    let field = self.focused_field;
                    self.set_field(field, text);
                    if !stroke.pastes() {
                        self.error = None;
                    }
                }
                ConnectKey::Edited
            },
        }
    }
}

impl Workspace {
    /// Opens the connect form for the active tab.
    pub fn open_connect_form(&mut self, profiles: &Vec<ConnectionProfile>)
        ensures
            *final(self) == (Workspace {
                connect_form: final(self).connect_form,
                focus: FocusTarget::ConnectForm,
                ..*old(self)
            }),
            final(self).connect_form is Some,
            form_for(old(self).tabs.active(), profiles@, final(self).connect_form->0),
    {
        let form = match self.tabs.active_position() {
            Some(i) => {
                let tab = &self.tabs.tabs[i];
                match (&tab.connection_settings, &tab.restored_target) {
                    (Some(settings), _) => ConnectForm::prefilled(settings),
                    (None, Some(target)) => form_of_target(target, profiles),
                    (None, None) => ConnectForm::empty(),
                }
            },
            None => ConnectForm::empty(),
        };
        self.connect_form = Some(form);
        self.focus = FocusTarget::ConnectForm;
    }

    /// Submits the connect form: gives the settings to connect with, or says in the form why it
    /// does not describe a connection.
    pub fn submit_connect_form(&mut self, home: Option<&str>) -> (r: Option<
        (ConnectionSettings, Option<ProfileId>),
    >)
        ensures
            match old(self).connect_form {
                None => r is None && *final(self) == *old(self),
                Some(form) => match form.problem(text_of(home)) {
                    None => {
                        &&& r matches Some((settings, profile_id))
                        &&& form.describes(text_of(home), settings)
                        &&& profile_id == form.source_profile_id
                        &&& *final(self) == (Workspace {
                            connect_form: None,
                            focus: pane_focus(old(self).focused_side),
                            ..*old(self)
                        })
                    },
                    Some(problem) => {
                        &&& r is None
                        &&& *final(self) == (Workspace {
                            connect_form: final(self).connect_form,
                            ..*old(self)
                        })
                        &&& form_refused(form, final(self).connect_form, problem)
                    },
                },
            },
    {
        let mut form = match self.connect_form.take() {
            Some(form) => form,
            None => return None,
        };
        match form.build_settings(home) {
            Ok(settings) => {
                let profile_id = form.source_profile_id;
                let side = self.focused_side;
                self.focus_pane(side);
                Some((settings, profile_id))
            },
            Err(problem) => {
                form.error = Some(problem.message());
                self.connect_form = Some(form);
                None
            },
        }
    }

    /// Fills the form from a saved profile and the secret that was read for it; where there is no
    /// secret the user is asked for it.
    pub fn use_profile(
        &mut self,
        profile_id: ProfileId,
        profiles: &Vec<ConnectionProfile>,
        secret: &SavedSecret,
    )
        ensures
            match profile_with_id(profiles@, profile_id) {
                None => *final(self) == *old(self),
                Some(profile) => {
                    &&& *final(self) == (Workspace {
                        connect_form: final(self).connect_form,
                        status_message: final(self).status_message,
                        ..*old(self)
                    })
                    &&& final(self).connect_form is Some
                    &&& filled_from(final(self).connect_form->0, profile, *secret)
                    &&& match secret_status(*secret) {
                        Some(text) => string_of(final(self).status_message) == Some(text),
                        None => final(self).status_message == old(self).status_message,
                    }
                },
            },
    {
        let i: usize = match find_profile(profiles, profile_id) {
            Some(i) => i,
            None => return,
        };
        self.connect_form = Some(fill_form(&profiles[i], secret));
        let status = status_of_secret(secret);
        if status.is_some() {
            self.status_message = status;
        }
    }

    /// Takes a profile of the picker: fills the form from it, and the picker closes.
    pub fn select_connect_profile(
        &mut self,
        profile_id: ProfileId,
        profiles: &Vec<ConnectionProfile>,
        secret: &SavedSecret,
    )
        ensures
            match profile_with_id(profiles@, profile_id) {
                None => match old(self).connect_form {
                    None => *final(self) == *old(self),
                    Some(form) => {
                        &&& *final(self) == (Workspace {
                            connect_form: final(self).connect_form,
                            ..*old(self)
                        })
                        &&& final(self).connect_form is Some
                        &&& picker_closed(form, final(self).connect_form->0)
                    },
                },
                Some(profile) => {
                    &&& *final(self) == (Workspace {
                        connect_form: final(self).connect_form,
                        status_message: final(self).status_message,
                        ..*old(self)
                    })
                    &&& final(self).connect_form is Some
                    &&& filled_from(final(self).connect_form->0, profile, *secret)
                    &&& match secret_status(*secret) {
                        Some(text) => string_of(final(self).status_message) == Some(text),
                        None => final(self).status_message == old(self).status_message,
                    }
                },
            },
    {
        self.use_profile(profile_id, profiles, secret);
        if let Some(mut form) = self.connect_form.take() {
            form.close_profile_picker();
            self.connect_form = Some(form);
        }
    }

    /// The profiles that the picker of the connect form shows.
    pub fn filtered_connect_profiles(&self, profiles: &Vec<ConnectionProfile>) -> (r: Vec<
        ConnectionProfile,
    >)
        ensures
            r@ == profiles@.filter(
                matching(
                    match self.connect_form {
                        Some(form) => form.profile_picker_filter@,
                        None => ""@,
                    },
                ),
            ),
    {
        match &self.connect_form {
            Some(form) => filtered_profiles(profiles, form.profile_picker_filter.as_str()),
            None => filtered_profiles(profiles, ""),
        }
    }

    /// Follows the deletion of a profile: nothing in the window refers to it any more.
    pub fn delete_profile(&mut self, profile_id: ProfileId, removal: &ProfileRemoval)
        requires
            old(self).wf(),
        ensures
            final(self).wf(),
            profile_removed(*old(self), *final(self), profile_id, *removal),
    {
        match removal {
            ProfileRemoval::Failed(error) => {
                self.status_message = Some(joined("Could not delete profile: ", error.as_str()));
            },
            ProfileRemoval::NotFound => {
                self.connect_form = unlink(self.connect_form.take(), profile_id);
            },
            ProfileRemoval::Deleted => {
                self.connect_form = unlink(self.connect_form.take(), profile_id);
                self.tabs.forget_profile(profile_id);
                self.status_message = Some("Deleted profile.".to_string());
            },
        }
    }

    /// A key typed in the connect form. Says what it does.
    pub fn handle_connect_form_key(
        &mut self,
        profiles: &Vec<ConnectionProfile>,
        stroke: &Keystroke,
        typed: Option<String>,
    ) -> (r: ConnectKey)
        ensures
            match old(self).connect_form {
                None => r is Unused && *final(self) == *old(self),
                Some(form) => {
                    &&& *final(self) == (Workspace {
                        connect_form: final(self).connect_form,
                        ..*old(self)
                    })
                    &&& final(self).connect_form is Some
                    &&& form_keyed(
                        form,
                        profiles@,
                        *stroke,
                        typed,
                        final(self).connect_form->0,
                        r,
                    )
                },
            },
    {
        let mut form = match self.connect_form.take() {
            Some(form) => form,
            None => return ConnectKey::Unused,
        };
        let what = form.take_key(profiles, stroke, typed);
        self.connect_form = Some(form);
        what
    }
}

/// The form after it was found not to describe a connection.
pub open spec fn form_refused(before: ConnectForm, after: Option<ConnectForm>, problem: FormError)
    -> bool {
    &&& after is Some
    &&& after->0 == (ConnectForm { error: after->0.error, ..before })
    &&& string_of(after->0.error) == Some(problem.text())
}

/// What is said where no id is left for a profile. The words are chosen here.
pub open spec fn no_free_id() -> Seq<char> {
    "Could not allocate profile id: all profile ids are in use."@
}

pub(crate) fn no_free_id_text() -> (r: String)
    ensures
        r@ == no_free_id(),
{
    "Could not allocate profile id: all profile ids are in use.".to_string()
}

/// The window after a profile was deleted, or could not be.
pub open spec fn profile_removed(
    before: Workspace,
    after: Workspace,
    id: ProfileId,
    removal: ProfileRemoval,
) -> bool {
    match removal {
        ProfileRemoval::Failed(error) => {
            &&& after == (Workspace { status_message: after.status_message, ..before })
            &&& string_of(after.status_message) == Some("Could not delete profile: "@ + error@)
        },
        ProfileRemoval::NotFound => after == (Workspace {
            connect_form: unlinked(before.connect_form, id),
            ..before
        }),
        ProfileRemoval::Deleted => {
            &&& after == (Workspace {
                connect_form: unlinked(before.connect_form, id),
                tabs: after.tabs,
                status_message: after.status_message,
                ..before
            })
            &&& after.tabs == (TabStore { tabs: after.tabs.tabs, ..before.tabs })
            &&& after.tabs.tabs@ == before.tabs.tabs@.map_values(forgets(id))
            &&& string_of(after.status_message) == Some("Deleted profile."@)
        },
    }
}

fn unlink(form: Option<ConnectForm>, id: ProfileId) -> (r: Option<ConnectForm>)
    ensures
        r == unlinked(form, id),
{
    match form {
        Some(mut form) => {
            if form.source_profile_id == Some(id) {
                form.source_profile_id = None;
            }
            Some(form)
        },
        None => None,
    }
}

/// A form that does not come from a profile.
pub open spec fn unlinked(form: Option<ConnectForm>, id: ProfileId) -> Option<ConnectForm> {
    match form {
        Some(form) => Some(
            if form.source_profile_id == Some(id) {
                ConnectForm { source_profile_id: None, ..form }
            } else {
                form
            },
        ),
        None => None,
    }
}

}
