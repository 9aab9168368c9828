//! Saved profiles: how a list of them is filtered and labelled, and the editor of one.

use vstd::prelude::*;

use crate::connect_form::{find_profile, port_of, port_value, profile_with_id, FormError};
use crate::helpers::{endpoint, endpoint_text, expand_home, home_expanded, string_of, text_of};
use crate::lists::{lemma_filter_take, wrapped_index};
use crate::model::{AuthMethod, AuthMethodKind, ConnectionProfile, ProfileId};
use crate::text::{
    contains_text, decimal, decimal_text, has_text, joined3, lowercase, to_lowercase, trim, trimmed,
};

verus! {

/// A section of the settings.
#[derive(Clone, Copy, PartialEq, Eq, Structural, Debug)]
pub enum SettingsSection {
    General,
    Profiles,
}

/// A field of the profile editor.
#[derive(Clone, Copy, PartialEq, Eq, Structural, Debug)]
pub enum ProfileEditorField {
    Name,
    Host,
    Port,
    Username,
    Password,
    KeyPath,
    Passphrase,
    DefaultRemotePath,
}

/// A profile that matches a filter: a blank filter matches all, any other one must occur in the
/// name, the host or the user name, in any case.
pub open spec fn matches_filter(profile: ConnectionProfile, query: Seq<char>) -> bool {
    ||| trimmed(query).len() == 0
    ||| has_text(lowercase(profile.name@), lowercase(query))
    ||| has_text(lowercase(profile.host@), lowercase(query))
    ||| has_text(lowercase(profile.username@), lowercase(query))
}

/// Whether a profile matches a filter.
pub fn profile_matches_filter(profile: &ConnectionProfile, query: &str) -> (r: bool)
    ensures
        r == matches_filter(*profile, query@),
{
    if trim(query).as_str().is_empty() {
        return true;
    }
    let q = to_lowercase(query);
    contains_text(to_lowercase(profile.name.as_str()).as_str(), q.as_str()) || contains_text(
        to_lowercase(profile.host.as_str()).as_str(),
        q.as_str(),
    ) || contains_text(to_lowercase(profile.username.as_str()).as_str(), q.as_str())
}

/// The predicate of [`matches_filter`] for one filter.
pub open spec fn matching(query: Seq<char>) -> spec_fn(ConnectionProfile) -> bool {
    |profile: ConnectionProfile| matches_filter(profile, query)
}

/// The profiles that match a filter, in their order.
pub fn filtered_profiles(profiles: &Vec<ConnectionProfile>, query: &str) -> (r: Vec<
    ConnectionProfile,
>)
    ensures
        r@ == profiles@.filter(matching(query@)),
{
    let ghost keep = matching(query@);
    let mut out: Vec<ConnectionProfile> = Vec::new();
    let mut i: usize = 0;
    assert(profiles@.take(0).filter(keep) =~= Seq::<ConnectionProfile>::empty()) by {
        reveal(Seq::filter);
    }
    while i < profiles.len()
        invariant
            i <= profiles@.len(),
            keep == matching(query@),
            out@ == profiles@.take(i as int).filter(keep),
        decreases profiles@.len() - i,
    {
        proof {
            lemma_filter_take(profiles@, keep, i as int);
        }
        if profile_matches_filter(&profiles[i], query) {
            out.push(profiles[i].clone());
        }
        i += 1;
    }
    assert(profiles@.take(i as int) =~= profiles@);
    out
}

/// The line that a list shows for a profile.
pub open spec fn list_label(profile: ConnectionProfile) -> Seq<char> {
    profile.name@ + " · "@ + endpoint(profile.username@, profile.host@, profile.port)
}

/// The line that a list shows for a profile.
pub fn profile_list_label(profile: &ConnectionProfile) -> (r: String)
    ensures
        r@ == list_label(*profile),
{
    let place = endpoint_text(profile.username.as_str(), profile.host.as_str(), profile.port);
    joined3(profile.name.as_str(), " · ", place.as_str())
}

/// The largest id in use; zero where there is none.
pub open spec fn largest_id(profiles: Seq<ConnectionProfile>) -> int
    decreases profiles.len(),
{
    if profiles.len() == 0 {
        0
    } else if profiles.last().id.0 > largest_id(profiles.drop_last()) {
        profiles.last().id.0 as int
    } else {
        largest_id(profiles.drop_last())
    }
}

/// The id after the largest in use, where there is one.
pub fn next_profile_id(profiles: &Vec<ConnectionProfile>) -> (r: Option<ProfileId>)
    ensures
        r is Some <==> largest_id(profiles@) < u64::MAX,
        r matches Some(id) ==> id.0 == largest_id(profiles@) + 1,
{
    let mut largest: u64 = 0;
    let mut i: usize = 0;
    while i < profiles.len()
        invariant
            i <= profiles@.len(),
            largest == largest_id(profiles@.take(i as int)),
        decreases profiles@.len() - i,
    {
        assert(profiles@.take(i + 1).drop_last() =~= profiles@.take(i as int));
        if profiles[i].id.0 > largest {
            largest = profiles[i].id.0;
        }
        i += 1;
    }
    assert(profiles@.take(i as int) =~= profiles@);
    if largest == u64::MAX {
        None
    } else {
        Some(ProfileId(largest + 1))
    }
}

/// The id after the largest in use is not in use.
pub proof fn law_next_profile_id_is_fresh(profiles: Seq<ConnectionProfile>, i: int)
    requires
        0 <= i < profiles.len(),
    ensures
        profiles[i].id.0 != largest_id(profiles) + 1,
        profiles[i].id.0 <= largest_id(profiles),
    decreases profiles.len(),
{
    if i < profiles.len() - 1 {
        law_next_profile_id_is_fresh(profiles.drop_last(), i);
    }
}

/// The profile that is being written in the settings. Secrets are never filled in; left blank on
/// an existing profile they stay as they are.
#[derive(PartialEq, Eq, Debug)]
pub struct ProfileEditorState {
    pub is_new: bool,
    pub profile_id: Option<ProfileId>,
    pub name: String,
    pub host: String,
    pub port: String,
    pub username: String,
    pub auth_method: AuthMethodKind,
    pub password: String,
    pub key_path: String,
    pub passphrase: String,
    pub default_remote_path: String,
    pub error: Option<String>,
    pub secret_present_hint: bool,
    pub focused_field: ProfileEditorField,
}

/// The secrets that a save hands over; `None` keeps what is stored.
#[derive(PartialEq, Eq, Debug)]
pub enum ProfileAuthUpdate {
    Password { password: Option<String> },
    PrivateKey { key_path: String, passphrase: Option<String> },
}

/// What a save hands to the store of profiles.
#[derive(PartialEq, Eq, Debug)]
pub struct ProfileSaveRequest {
    pub profile_id: ProfileId,
    pub name: String,
    pub host: String,
    pub port: u16,
    pub username: String,
    pub auth: ProfileAuthUpdate,
    pub default_remote_path: Option<String>,
}

/// Why an editor cannot be saved.
#[derive(Clone, Copy, PartialEq, Eq, Structural, Debug)]
pub enum SaveRefusal {
    Form(FormError),
    NoFreeId,
}

/// The fields of the editor in the order in which they take the focus.
pub open spec fn editor_fields(method: AuthMethodKind) -> Seq<ProfileEditorField> {
    match method {
        AuthMethodKind::Password => seq![
            ProfileEditorField::Name,
            ProfileEditorField::Host,
            ProfileEditorField::Port,
            ProfileEditorField::Username,
            ProfileEditorField::Password,
            ProfileEditorField::DefaultRemotePath,
        ],
        AuthMethodKind::PrivateKey => seq![
            ProfileEditorField::Name,
            ProfileEditorField::Host,
            ProfileEditorField::Port,
            ProfileEditorField::Username,
            ProfileEditorField::KeyPath,
            ProfileEditorField::Passphrase,
            ProfileEditorField::DefaultRemotePath,
        ],
    }
}

/// The position of a field in an order; the first where the field is not in it.
pub open spec fn editor_field_position(
    order: Seq<ProfileEditorField>,
    field: ProfileEditorField,
) -> int
    decreases order.len(),
{
    if order.len() == 0 || order[0] == field {
        0
    } else if order.drop_first().contains(field) {
        1 + editor_field_position(order.drop_first(), field)
    } else {
        0
    }
}

/// The field that takes the focus next, or before.
pub open spec fn next_editor_field(
    method: AuthMethodKind,
    field: ProfileEditorField,
    backwards: bool,
) -> ProfileEditorField {
    let order = editor_fields(method);
    let offset: int = if backwards {
        -1
    } else {
        1
    };
    order[(editor_field_position(order, field) + offset) % (order.len() as int)]
}

/// The name that a profile gets: what was entered, or else the user and the host.
pub open spec fn profile_name(
    entered: Seq<char>,
    username: Seq<char>,
    host: Seq<char>,
) -> Seq<char> {
    if entered.len() == 0 {
        username + "@"@ + host
    } else {
        entered
    }
}

/// The name that a profile gets: what was entered, or else the user and the host.
pub fn profile_name_or_default(entered: String, username: &str, host: &str) -> (r: String)
    ensures
        r@ == profile_name(entered@, username@, host@),
{
    if entered.as_str().is_empty() {
        joined3(username, "@", host)
    } else {
        entered
    }
}

/// The text, unless it is empty.
pub open spec fn unless_empty(text: String) -> Option<String> {
    if text@.len() == 0 {
        None
    } else {
        Some(text)
    }
}

fn non_empty(text: String) -> (r: Option<String>)
    ensures
        r == unless_empty(text),
{
    if text.as_str().is_empty() {
        None
    } else {
        Some(text)
    }
}

impl ProfileEditorState {
    /// The editor of a new profile, with nothing entered but the usual port.
    pub open spec fn is_blank(&self) -> bool {
        &&& self.is_new
        &&& self.profile_id is None
        &&& self.name@.len() == 0
        &&& self.host@.len() == 0
        &&& self.port@ == "22"@
        &&& self.username@.len() == 0
        &&& self.auth_method is Password
        &&& self.key_path@.len() == 0
        &&& self.default_remote_path@.len() == 0
        &&& !self.secret_present_hint
        &&& self.is_untouched()
    }

    /// The editor of a new profile.
    pub fn blank() -> (r: Self)
        ensures
            r.is_blank(),
    {
        ProfileEditorState {
            is_new: true,
            profile_id: None,
            name: String::new(),
            host: String::new(),
            port: "22".to_string(),
            username: String::new(),
            auth_method: AuthMethodKind::Password,
            password: String::new(),
            key_path: String::new(),
            passphrase: String::new(),
            default_remote_path: String::new(),
            error: None,
            secret_present_hint: false,
            focused_field: ProfileEditorField::Host,
        }
    }

    /// No secret is in the editor, there is no error, and the host has the focus.
    pub open spec fn is_untouched(&self) -> bool {
        &&& self.password@.len() == 0
        &&& self.passphrase@.len() == 0
        &&& self.error is None
        &&& self.focused_field is Host
    }

    /// The editor shows what is saved of a profile.
    pub open spec fn shows(&self, profile: ConnectionProfile, secret_present: bool) -> bool {
        &&& !self.is_new
        &&& self.profile_id == Some(profile.id)
        &&& self.name == profile.name
        &&& self.host == profile.host
        &&& self.port@ == decimal(profile.port as nat)
        &&& self.username == profile.username
        &&& self.secret_present_hint == secret_present
        &&& match profile.default_remote_path {
            Some(path) => self.default_remote_path == path,
            None => self.default_remote_path@.len() == 0,
        }
        &&& match profile.auth {
            AuthMethod::Password => self.auth_method is Password && self.key_path@.len() == 0,
            AuthMethod::PrivateKey { key_path } => self.auth_method is PrivateKey && self.key_path
                == key_path,
        }
        &&& self.is_untouched()
    }

    /// The editor of a saved profile.
    pub fn from_profile(profile: &ConnectionProfile, secret_present: bool) -> (r: Self)
        ensures
            r.shows(*profile, secret_present),
    {
        let mut editor = ProfileEditorState::blank();
        editor.is_new = false;
        editor.profile_id = Some(profile.id);
        editor.name = profile.name.clone();
        editor.host = profile.host.clone();
        editor.port = decimal_text(profile.port as u64);
        editor.username = profile.username.clone();
        editor.secret_present_hint = secret_present;
        if let Some(path) = &profile.default_remote_path {
            editor.default_remote_path = path.clone();
        }
        if let AuthMethod::PrivateKey { key_path } = &profile.auth {
            editor.auth_method = AuthMethodKind::PrivateKey;
            editor.key_path = key_path.clone();
        }
        editor
    }

    /// The fields in the order in which they take the focus.
    pub fn field_order(&self) -> (r: Vec<ProfileEditorField>)
        ensures
            r@ == editor_fields(self.auth_method),
    {
        let mut out: Vec<ProfileEditorField> = Vec::new();
        out.push(ProfileEditorField::Name);
        out.push(ProfileEditorField::Host);
        out.push(ProfileEditorField::Port);
        out.push(ProfileEditorField::Username);
        match self.auth_method {
            AuthMethodKind::Password => {
                out.push(ProfileEditorField::Password);
            },
            AuthMethodKind::PrivateKey => {
                out.push(ProfileEditorField::KeyPath);
                out.push(ProfileEditorField::Passphrase);
            },
        }
        out.push(ProfileEditorField::DefaultRemotePath);
        assert(out@ =~= editor_fields(self.auth_method));
        out
    }

    /// The editor with the given text in one field.
    pub open spec fn with_field(
        self,
        field: ProfileEditorField,
        text: String,
    ) -> ProfileEditorState {
        match field {
            ProfileEditorField::Name => ProfileEditorState { name: text, ..self },
            ProfileEditorField::Host => ProfileEditorState { host: text, ..self },
            ProfileEditorField::Port => ProfileEditorState { port: text, ..self },
            ProfileEditorField::Username => ProfileEditorState { username: text, ..self },
            ProfileEditorField::Password => ProfileEditorState { password: text, ..self },
            ProfileEditorField::KeyPath => ProfileEditorState { key_path: text, ..self },
            ProfileEditorField::Passphrase => ProfileEditorState { passphrase: text, ..self },
            ProfileEditorField::DefaultRemotePath => ProfileEditorState {
                default_remote_path: text,
                ..self
            },
        }
    }

    /// Puts text into a field.
    pub fn set_field(&mut self, field: ProfileEditorField, text: String)
        ensures
            *final(self) == old(self).with_field(field, text),
    {
        match field {
            ProfileEditorField::Name => self.name = text,
            ProfileEditorField::Host => self.host = text,
            ProfileEditorField::Port => self.port = text,
            ProfileEditorField::Username => self.username = text,
            ProfileEditorField::Password => self.password = text,
            ProfileEditorField::KeyPath => self.key_path = text,
            ProfileEditorField::Passphrase => self.passphrase = text,
            ProfileEditorField::DefaultRemotePath => self.default_remote_path = text,
        }
    }

    /// Changes how the profile signs in. A focus on a field that goes moves to the first field of
    /// the new way.
    pub fn set_auth_method(&mut self, method: AuthMethodKind)
        ensures
            *final(self) == (ProfileEditorState {
                auth_method: method,
                focused_field: if editor_fields(method).contains(old(self).focused_field) {
                    old(self).focused_field
                } else {
                    match method {
                        AuthMethodKind::Password => ProfileEditorField::Password,
                        AuthMethodKind::PrivateKey => ProfileEditorField::KeyPath,
                    }
                },
                ..*old(self)
            }),
    {
        self.auth_method = method;
        let order = self.field_order();
        if !holds_field(&order, self.focused_field) {
            self.focused_field = match method {
                AuthMethodKind::Password => ProfileEditorField::Password,
                AuthMethodKind::PrivateKey => ProfileEditorField::KeyPath,
            };
        }
    }

    /// The focus goes to the next field, or to the one before, round the ends.
    pub fn cycle_focus(&mut self, backwards: bool)
        ensures
            *final(self) == (ProfileEditorState {
                focused_field: next_editor_field(
                    old(self).auth_method,
                    old(self).focused_field,
                    backwards,
                ),
                ..*old(self)
            }),
    {
        let order = self.field_order();
        let current: usize = field_position(&order, self.focused_field);
        let offset: isize = if backwards {
            -1
        } else {
            1
        };
        let next: usize = wrapped_index(current, offset, order.len());
        self.focused_field = order[next];
    }

    /// The id that a save goes to: that of the profile being edited, while it exists, or else a
    /// new one.
    pub open spec fn target_id(&self, profiles: Seq<ConnectionProfile>) -> Option<ProfileId> {
        if !self.is_new && self.profile_id is Some && profile_with_id(
            profiles,
            self.profile_id->0,
        ) is Some {
            self.profile_id
        } else if largest_id(profiles) < u64::MAX {
            Some(ProfileId((largest_id(profiles) + 1) as u64))
        } else {
            None
        }
    }

    /// Why the editor cannot be saved, where it cannot.
    pub open spec fn refusal(
        &self,
        profiles: Seq<ConnectionProfile>,
        home: Option<Seq<char>>,
    ) -> Option<SaveRefusal> {
        if trimmed(self.host@).len() == 0 {
            Some(SaveRefusal::Form(FormError::HostRequired))
        } else if port_value(self.port@) is None {
            Some(SaveRefusal::Form(FormError::PortInvalid))
        } else if trimmed(self.username@).len() == 0 {
            Some(SaveRefusal::Form(FormError::UsernameRequired))
        } else if self.target_id(profiles) is None {
            Some(SaveRefusal::NoFreeId)
        } else if self.auth_method is PrivateKey && home_expanded(
            trimmed(self.key_path@),
            home,
        ).len() == 0 {
            Some(SaveRefusal::Form(FormError::KeyPathRequired))
        } else {
            None
        }
    }

    /// A request asks for what the editor says.
    pub open spec fn asks(
        &self,
        profiles: Seq<ConnectionProfile>,
        home: Option<Seq<char>>,
        request: ProfileSaveRequest,
    ) -> bool {
        &&& Some(request.profile_id) == self.target_id(profiles)
        &&& request.host@ == trimmed(self.host@)
        &&& Some(request.port) == port_value(self.port@)
        &&& request.username@ == trimmed(self.username@)
        &&& request.name@ == profile_name(trimmed(self.name@), request.username@, request.host@)
        &&& string_of(request.default_remote_path) == if trimmed(self.default_remote_path@).len()
            == 0 {
            None
        } else {
            Some(trimmed(self.default_remote_path@))
        }
        &&& match self.auth_method {
            AuthMethodKind::Password => request.auth == (ProfileAuthUpdate::Password {
                password: unless_empty(self.password),
            }),
            AuthMethodKind::PrivateKey => {
                &&& request.auth is PrivateKey
                &&& request.auth->key_path@ == home_expanded(trimmed(self.key_path@), home)
                &&& request.auth->passphrase == unless_empty(self.passphrase)
            },
        }
    }

    /// The request that saves the editor, or the first reason why it cannot be saved.
    pub fn save_request(&self, profiles: &Vec<ConnectionProfile>, home: Option<&str>) -> (r: Result<
        ProfileSaveRequest,
        SaveRefusal,
    >)
        ensures
            match r {
                Ok(request) => self.refusal(profiles@, text_of(home)) is None && self.asks(
                    profiles@,
                    text_of(home),
                    request,
                ),
                Err(refusal) => self.refusal(profiles@, text_of(home)) == Some(refusal),
            },
    {
        let host = trim(self.host.as_str());
        if host.as_str().is_empty() {
            return Err(SaveRefusal::Form(FormError::HostRequired));
        }
        let port: u16 = match port_of(self.port.as_str()) {
            Some(port) => port,
            None => return Err(SaveRefusal::Form(FormError::PortInvalid)),
        };
        let username = trim(self.username.as_str());
        if username.as_str().is_empty() {
            return Err(SaveRefusal::Form(FormError::UsernameRequired));
        }
        let existing = match self.profile_id {
            Some(id) => !self.is_new && find_profile(profiles, id).is_some(),
            None => false,
        };
        let target = if existing {
            self.profile_id
        } else {
            next_profile_id(profiles)
        };
        let profile_id = match target {
            Some(id) => id,
            None => return Err(SaveRefusal::NoFreeId),
        };
        let name = profile_name_or_default(
            trim(self.name.as_str()),
            username.as_str(),
            host.as_str(),
        );
        let default_remote_path = non_empty(trim(self.default_remote_path.as_str()));
        let auth = match self.auth_method {
            AuthMethodKind::Password => ProfileAuthUpdate::Password {
                password: non_empty(self.password.clone()),
            },
            AuthMethodKind::PrivateKey => {
                let key_path = expand_home(trim(self.key_path.as_str()).as_str(), home);
                if key_path.as_str().is_empty() {
                    return Err(SaveRefusal::Form(FormError::KeyPathRequired));
                }
                ProfileAuthUpdate::PrivateKey {
                    key_path,
                    passphrase: non_empty(self.passphrase.clone()),
                }
            },
        };
        Ok(
            ProfileSaveRequest {
                profile_id,
                name,
                host,
                port,
                username,
                auth,
                default_remote_path,
            },
        )
    }
}

fn holds_field(order: &Vec<ProfileEditorField>, field: ProfileEditorField) -> (r: bool)
    ensures
        r == order@.contains(field),
{
    let mut i: usize = 0;
    while i < order.len()
        invariant
            i <= order@.len(),
            forall|j: int| 0 <= j < i ==> order@[j] != field,
        decreases order@.len() - i,
    {
        if order[i] == field {
            assert(order@[i as int] == field);
            return true;
        }
        i += 1;
    }
    false
}

fn field_position(order: &Vec<ProfileEditorField>, field: ProfileEditorField) -> (r: usize)
    requires
        order@.len() > 0,
    ensures
        r == editor_field_position(order@, field),
        r < order@.len(),
{
    if !holds_field(order, field) {
        proof {
            assert forall|x: ProfileEditorField| order@.drop_first().contains(
                x,
            ) implies order@.contains(x) by {
                let rest = order@.drop_first();
                let k = choose|k: int| 0 <= k < rest.len() && rest[k] == x;
                assert(order@[k + 1] == x);
            }
        }
        return 0;
    }
    let count: usize = order.len();
    let mut i: usize = 0;
    assert(order@.skip(0) =~= order@);
    while order[i] != field
        invariant
            count == order@.len(),
            i < count,
            order@.skip(i as int).contains(field),
            editor_field_position(order@, field) == i + editor_field_position(
                order@.skip(i as int),
                field,
            ),
        decreases order@.len() - i,
    {
        let ghost rest = order@.skip(i as int);
        assert(rest.drop_first() =~= order@.skip(i + 1));
        proof {
            let k = choose|k: int| 0 <= k < rest.len() && rest[k] == field;
            assert(k > 0);
            assert(rest.drop_first()[k - 1] == field);
        }
        i += 1;
    }
    i
}

proof fn lemma_position_of(order: Seq<ProfileEditorField>, k: int)
    requires
        0 <= k < order.len(),
        forall|i: int| 0 <= i < k ==> #[trigger] order[i] != order[k],
    ensures
        editor_field_position(order, order[k]) == k,
    decreases k,
{
    if k > 0 {
        let rest = order.drop_first();
        assert(rest[k - 1] == order[k]);
        assert forall|i: int| 0 <= i < k - 1 implies #[trigger] rest[i] != rest[k - 1] by {
            assert(order[i + 1] != order[k]);
        }
        lemma_position_of(rest, k - 1);
    }
}

/// The next field and then the one before is the field itself, for every field of the order.
pub proof fn law_editor_focus_returns(method: AuthMethodKind, field: ProfileEditorField)
    requires
        editor_fields(method).contains(field),
    ensures
        next_editor_field(method, next_editor_field(method, field, false), true) == field,
        next_editor_field(method, next_editor_field(method, field, true), false) == field,
        editor_fields(method).contains(next_editor_field(method, field, false)),
        editor_fields(method).contains(next_editor_field(method, field, true)),
{
    let order = editor_fields(method);
    let n = order.len() as int;
    let k = choose|k: int| 0 <= k < order.len() && order[k] == field;
    lemma_position_of(order, k);
    lemma_position_of(order, (k + 1) % n);
    lemma_position_of(order, (k - 1) % n);
    crate::lists::law_wrapping_is_undone(k, 1, n);
    crate::lists::law_wrapping_is_undone(k, -1, n);
    assert(order[(k + 1) % n] == next_editor_field(method, field, false));
    assert(order[(k - 1) % n] == next_editor_field(method, field, true));
}

}
