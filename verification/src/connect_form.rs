//! The connect form: its fields, the order in which they take the focus, and what it makes of
//! them.

use vstd::prelude::*;

use crate::helpers::{expand_home, home_expanded, text_of};
use crate::lists::wrapped_index;
use crate::model::{
    AuthCredential, AuthMethod, AuthMethodKind, ConnectionProfile, ConnectionSettings, ProfileId,
};
use crate::text::{decimal, decimal_text, number_of, parse_port, trim, trimmed};

verus! {

/// A field of the connect form.
#[derive(Clone, Copy, PartialEq, Eq, Structural, Debug)]
pub enum ConnectField {
    Host,
    Port,
    Username,
    Password,
    KeyPath,
    Passphrase,
}

/// Why a form does not describe a connection.
#[derive(Clone, Copy, PartialEq, Eq, Structural, Debug)]
pub enum FormError {
    HostRequired,
    PortInvalid,
    UsernameRequired,
    KeyPathRequired,
}

impl FormError {
    /// The sentence that the user reads.
    pub open spec fn text(self) -> Seq<char> {
        match self {
            FormError::HostRequired => "Host is required."@,
            FormError::PortInvalid => "Port must be a number between 1 and 65535."@,
            FormError::UsernameRequired => "Username is required."@,
            FormError::KeyPathRequired => "Private key path is required."@,
        }
    }

    /// The sentence that the user reads.
    pub fn message(self) -> (r: String)
        ensures
            r@ == self.text(),
    {
        match self {
            FormError::HostRequired => "Host is required.".to_string(),
            FormError::PortInvalid => "Port must be a number between 1 and 65535.".to_string(),
            FormError::UsernameRequired => "Username is required.".to_string(),
            FormError::KeyPathRequired => "Private key path is required.".to_string(),
        }
    }
}

/// The port that a field denotes: the usual one where it is blank.
pub open spec fn port_value(text: Seq<char>) -> Option<u16> {
    let t = trimmed(text);
    if t.len() == 0 {
        Some(22)
    } else if number_of(t) is Some && 1 <= number_of(t)->0 <= 65535 {
        Some(number_of(t)->0 as u16)
    } else {
        None
    }
}

/// The port that a field denotes: the usual one where it is blank.
pub fn port_of(text: &str) -> (r: Option<u16>)
    ensures
        r == port_value(text@),
{
    let t = trim(text);
    if t.as_str().is_empty() {
        return Some(22);
    }
    match parse_port(t.as_str()) {
        Some(port) => {
            if port > 0 {
                Some(port)
            } else {
                None
            }
        },
        None => None,
    }
}

/// The contents of the connect form.
#[derive(PartialEq, Eq, Debug)]
pub struct ConnectForm {
    pub host: String,
    pub port: String,
    pub username: String,
    pub auth_method: AuthMethodKind,
    pub password: String,
    pub key_path: String,
    pub passphrase: String,
    pub focused_field: ConnectField,
    pub error: Option<String>,
    /// The profile that filled the form.
    pub source_profile_id: Option<ProfileId>,
    pub profile_picker_open: bool,
    pub profile_picker_filter: String,
}

/// The fields in the order in which they take the focus.
pub open spec fn connect_fields(method: AuthMethodKind) -> Seq<ConnectField> {
    match method {
        AuthMethodKind::Password => seq![
            ConnectField::Host,
            ConnectField::Port,
            ConnectField::Username,
            ConnectField::Password,
        ],
        AuthMethodKind::PrivateKey => seq![
            ConnectField::Host,
            ConnectField::Port,
            ConnectField::Username,
            ConnectField::KeyPath,
            ConnectField::Passphrase,
        ],
    }
}

/// The position of a field in an order; the first where the field is not in it.
pub open spec fn connect_field_position(order: Seq<ConnectField>, field: ConnectField) -> int
    decreases order.len(),
{
    if order.len() == 0 || order[0] == field {
        0
    } else if order.drop_first().contains(field) {
        1 + connect_field_position(order.drop_first(), field)
    } else {
        0
    }
}

/// The field that takes the focus next, or before.
pub open spec fn next_connect_field(
    method: AuthMethodKind,
    field: ConnectField,
    backwards: bool,
) -> ConnectField {
    let order = connect_fields(method);
    let offset: int = if backwards {
        -1
    } else {
        1
    };
    order[(connect_field_position(order, field) + offset) % (order.len() as int)]
}

impl ConnectForm {
    /// The form has nothing in it but the usual port.
    pub open spec fn is_blank(&self) -> bool {
        &&& self.host@.len() == 0
        &&& self.port@ == "22"@
        &&& self.username@.len() == 0
        &&& self.auth_method is Password
        &&& self.key_path@.len() == 0
        &&& self.source_profile_id is None
        &&& self.has_fresh_ui()
        &&& self.password@.len() == 0
        &&& self.passphrase@.len() == 0
    }

    /// Nothing was typed into the form yet: the first field has the focus, there is no error, and
    /// the profile picker is closed.
    pub open spec fn has_fresh_ui(&self) -> bool {
        &&& self.focused_field is Host
        &&& self.error is None
        &&& !self.profile_picker_open
        &&& self.profile_picker_filter@.len() == 0
    }

    pub fn empty() -> (r: Self)
        ensures
            r.is_blank(),
    {
        ConnectForm {
            host: String::new(),
            port: "22".to_string(),
            username: String::new(),
            auth_method: AuthMethodKind::Password,
            password: String::new(),
            key_path: String::new(),
            passphrase: String::new(),
            focused_field: ConnectField::Host,
            error: None,
            source_profile_id: None,
            profile_picker_open: false,
            profile_picker_filter: String::new(),
        }
    }

    /// The label of the profile picker: the name of the profile that filled the form.
    pub fn profile_trigger_label(&self, profiles: &Vec<ConnectionProfile>) -> (r: String)
        ensures
            r@ == match self.source_profile_id {
                Some(id) => match profile_with_id(profiles@, id) {
                    Some(profile) => profile.name@,
                    None => "Manual entry"@,
                },
                None => "Manual entry"@,
            },
    {
        if let Some(id) = self.source_profile_id {
            if let Some(i) = find_profile(profiles, id) {
                return profiles[i].name.clone();
            }
        }
        "Manual entry".to_string()
    }

    /// The form for a connection whose settings are known. Secrets are left blank.
    pub fn prefilled(settings: &ConnectionSettings) -> (r: Self)
        ensures
            r.host == settings.host,
            r.port@ == decimal(settings.port as nat),
            r.username == settings.username,
            r.source_profile_id is None,
            r.has_fresh_ui(),
            r.password@.len() == 0,
            r.passphrase@.len() == 0,
            match settings.auth {
                AuthCredential::Password { .. } => r.auth_method is Password && r.key_path@.len()
                    == 0,
                AuthCredential::PrivateKey { key_path, .. } => r.auth_method is PrivateKey
                    && r.key_path == key_path,
            },
    {
        let mut form = ConnectForm::empty();
        form.host = settings.host.clone();
        form.port = decimal_text(settings.port as u64);
        form.username = settings.username.clone();
        if let AuthCredential::PrivateKey { key_path, .. } = &settings.auth {
            form.auth_method = AuthMethodKind::PrivateKey;
            form.key_path = key_path.clone();
        }
        form
    }

    /// The form for a saved profile. Secrets are left blank.
    pub fn from_profile(profile: &ConnectionProfile) -> (r: Self)
        ensures
            r.shows_profile(*profile),
            r.password@.len() == 0,
            r.passphrase@.len() == 0,
    {
        let mut form = ConnectForm::empty();
        form.host = profile.host.clone();
        form.port = decimal_text(profile.port as u64);
        form.username = profile.username.clone();
        form.source_profile_id = Some(profile.id);
        if let AuthMethod::PrivateKey { key_path } = &profile.auth {
            form.auth_method = AuthMethodKind::PrivateKey;
            form.key_path = key_path.clone();
        }
        form
    }

    /// The form holds what is saved of a profile, but for its secrets.
    pub open spec fn shows_profile(&self, profile: ConnectionProfile) -> bool {
        &&& self.host == profile.host
        &&& self.port@ == decimal(profile.port as nat)
        &&& self.username == profile.username
        &&& self.source_profile_id == Some(profile.id)
        &&& self.has_fresh_ui()
        &&& match profile.auth {
            AuthMethod::Password => self.auth_method is Password && self.key_path@.len() == 0,
            AuthMethod::PrivateKey { key_path } => self.auth_method is PrivateKey && self.key_path
                == key_path,
        }
    }

    /// The fields in the order in which they take the focus.
    pub fn field_order(&self) -> (r: Vec<ConnectField>)
        ensures
            r@ == connect_fields(self.auth_method),
    {
        let mut out: Vec<ConnectField> = Vec::new();
        out.push(ConnectField::Host);
        out.push(ConnectField::Port);
        out.push(ConnectField::Username);
        match self.auth_method {
            AuthMethodKind::Password => {
                out.push(ConnectField::Password);
            },
            AuthMethodKind::PrivateKey => {
                out.push(ConnectField::KeyPath);
                out.push(ConnectField::Passphrase);
            },
        }
        assert(out@ =~= connect_fields(self.auth_method));
        out
    }

    /// Puts text into a field.
    pub fn set_field(&mut self, field: ConnectField, text: String)
        ensures
            *final(self) == old(self).with_field(field, text),
    {
        match field {
            ConnectField::Host => self.host = text,
            ConnectField::Port => self.port = text,
            ConnectField::Username => self.username = text,
            ConnectField::Password => self.password = text,
            ConnectField::KeyPath => self.key_path = text,
            ConnectField::Passphrase => self.passphrase = text,
        }
    }

    /// The form with the given text in one field.
    pub open spec fn with_field(self, field: ConnectField, text: String) -> ConnectForm {
        match field {
            ConnectField::Host => ConnectForm { host: text, ..self },
            ConnectField::Port => ConnectForm { port: text, ..self },
            ConnectField::Username => ConnectForm { username: text, ..self },
            ConnectField::Password => ConnectForm { password: text, ..self },
            ConnectField::KeyPath => ConnectForm { key_path: text, ..self },
            ConnectField::Passphrase => ConnectForm { passphrase: text, ..self },
        }
    }

    /// The focus goes to the next field, or to the one before, round the ends.
    pub fn cycle_focus(&mut self, backwards: bool)
        ensures
            *final(self) == (ConnectForm {
                focused_field: next_connect_field(
                    old(self).auth_method,
                    old(self).focused_field,
                    backwards,
                ),
                ..*old(self)
            }),
    {
        let order = self.field_order();
        let current: usize = field_position(&order, self.focused_field);
        let offset: isize = if backwards {
            -1
        } else {
            1
        };
        let next: usize = wrapped_index(current, offset, order.len());
        self.focused_field = order[next];
    }

    /// Changes how the user signs in. A focus on a field that goes moves to the first field of
    /// the new way.
    pub fn set_auth_method(&mut self, method: AuthMethodKind)
        ensures
            *final(self) == (ConnectForm {
                auth_method: method,
                focused_field: if connect_fields(method).contains(old(self).focused_field) {
                    old(self).focused_field
                } else {
                    match method {
                        AuthMethodKind::Password => ConnectField::Password,
                        AuthMethodKind::PrivateKey => ConnectField::KeyPath,
                    }
                },
                ..*old(self)
            }),
    {
        self.auth_method = method;
        let order = self.field_order();
        if !holds_field(&order, self.focused_field) {
            self.focused_field = match method {
                AuthMethodKind::Password => ConnectField::Password,
                AuthMethodKind::PrivateKey => ConnectField::KeyPath,
            };
        }
    }

    /// What is wrong with the form, where anything is.
    pub open spec fn problem(&self, home: Option<Seq<char>>) -> Option<FormError> {
        if trimmed(self.host@).len() == 0 {
            Some(FormError::HostRequired)
        } else if port_value(self.port@) is None {
            Some(FormError::PortInvalid)
        } else if trimmed(self.username@).len() == 0 {
            Some(FormError::UsernameRequired)
        } else if self.auth_method is PrivateKey && home_expanded(
            trimmed(self.key_path@),
            home,
        ).len() == 0 {
            Some(FormError::KeyPathRequired)
        } else {
            None
        }
    }

    /// The settings say what the form says.
    pub open spec fn describes(&self, home: Option<Seq<char>>, settings: ConnectionSettings) -> bool {
        &&& settings.host@ == trimmed(self.host@)
        &&& Some(settings.port) == port_value(self.port@)
        &&& settings.username@ == trimmed(self.username@)
        &&& match self.auth_method {
            AuthMethodKind::Password => settings.auth == (AuthCredential::Password {
                password: self.password,
            }),
            AuthMethodKind::PrivateKey => {
                &&& settings.auth is PrivateKey
                &&& settings.auth->key_path@ == home_expanded(trimmed(self.key_path@), home)
                &&& settings.auth->passphrase == if self.passphrase@.len() == 0 {
                    None
                } else {
                    Some(self.passphrase)
                }
            },
        }
    }

    /// The settings that the form describes, or the first thing that is wrong with it.
    pub fn build_settings(&self, home: Option<&str>) -> (r: Result<ConnectionSettings, FormError>)
        ensures
            match r {
                Ok(settings) => self.problem(text_of(home)) is None && self.describes(
                    text_of(home),
                    settings,
                ),
                Err(error) => self.problem(text_of(home)) == Some(error),
            },
    {
        let host = trim(self.host.as_str());
        if host.as_str().is_empty() {
            return Err(FormError::HostRequired);
        }
        let port: u16 = match port_of(self.port.as_str()) {
            Some(port) => port,
            None => return Err(FormError::PortInvalid),
        };
        let username = trim(self.username.as_str());
        if username.as_str().is_empty() {
            return Err(FormError::UsernameRequired);
        }
        let auth = match self.auth_method {
            AuthMethodKind::Password => AuthCredential::Password { password: self.password.clone() },
            AuthMethodKind::PrivateKey => {
                let key_path = expand_home(trim(self.key_path.as_str()).as_str(), home);
                if key_path.as_str().is_empty() {
                    return Err(FormError::KeyPathRequired);
                }
                let passphrase = if self.passphrase.as_str().is_empty() {
                    None
                } else {
                    Some(self.passphrase.clone())
                };
                AuthCredential::PrivateKey { key_path, passphrase }
            },
        };
        Ok(ConnectionSettings { host, port, username, auth })
    }

    /// Whether the form can be submitted without the user: it is in order, and a password, where
    /// one is used, is there.
    pub fn can_auto_connect(&self, home: Option<&str>) -> (r: bool)
        ensures
            r == (self.problem(text_of(home)) is None && (self.auth_method is Password
                ==> self.password@.len() > 0)),
    {
        if self.build_settings(home).is_err() {
            return false;
        }
        match self.auth_method {
            AuthMethodKind::Password => !self.password.as_str().is_empty(),
            AuthMethodKind::PrivateKey => true,
        }
    }

    /// Parts the form from its profile and forgets its secrets; the rest stays for editing.
    pub fn switch_to_manual_entry(&mut self)
        ensures
            *final(self) == (ConnectForm {
                source_profile_id: None,
                password: final(self).password,
                passphrase: final(self).passphrase,
                profile_picker_open: false,
                profile_picker_filter: final(self).profile_picker_filter,
                ..*old(self)
            }),
            final(self).password@.len() == 0,
            final(self).passphrase@.len() == 0,
            final(self).profile_picker_filter@.len() == 0,
    {
        self.source_profile_id = None;
        self.password = String::new();
        self.passphrase = String::new();
        self.close_profile_picker();
    }

    /// Closes the profile picker and forgets its filter.
    pub fn close_profile_picker(&mut self)
        ensures
            picker_closed(*old(self), *final(self)),
    {
        self.profile_picker_open = false;
        self.profile_picker_filter = String::new();
    }
}

/// The profile picker closed and its filter is forgotten.
pub open spec fn picker_closed(before: ConnectForm, after: ConnectForm) -> bool {
    &&& after == (ConnectForm {
        profile_picker_open: false,
        profile_picker_filter: after.profile_picker_filter,
        ..before
    })
    &&& after.profile_picker_filter@.len() == 0
}

impl Default for ConnectForm {
    fn default() -> (r: Self)
        ensures
            r.is_blank(),
    {
        ConnectForm::empty()
    }
}

fn field_position(order: &Vec<ConnectField>, field: ConnectField) -> (r: usize)
    requires
        order@.len() > 0,
    ensures
        r == connect_field_position(order@, field),
        r < order@.len(),
{
    if !holds_field(order, field) {
        proof {
            lemma_field_position(order@, field);
        }
        return 0;
    }
    let count: usize = order.len();
    let mut i: usize = 0;
    assert(order@.skip(0) =~= order@);
    while order[i] != field
        invariant
            count == order@.len(),
            i < count,
            order@.skip(i as int).contains(field),
            connect_field_position(order@, field) == i + connect_field_position(
                order@.skip(i as int),
                field,
            ),
        decreases order@.len() - i,
    {
        let ghost rest = order@.skip(i as int);
        assert(rest.drop_first() =~= order@.skip(i + 1));
        proof {
            let k = choose|k: int| 0 <= k < rest.len() && rest[k] == field;
            assert(k > 0);
            assert(rest.drop_first()[k - 1] == field);
        }
        i += 1;
    }
    i
}

proof fn lemma_field_position(order: Seq<ConnectField>, field: ConnectField)
    requires
        !order.contains(field),
    ensures
        connect_field_position(order, field) == 0,
{
    if order.len() > 0 {
        assert forall|x: ConnectField| order.drop_first().contains(x) implies order.contains(x) by {
            let k = choose|k: int| 0 <= k < order.drop_first().len() && order.drop_first()[k] == x;
            assert(order[k + 1] == x);
        }
    }
}

fn holds_field(order: &Vec<ConnectField>, field: ConnectField) -> (r: bool)
    ensures
        r == order@.contains(field),
{
    let mut i: usize = 0;
    while i < order.len()
        invariant
            i <= order@.len(),
            forall|j: int| 0 <= j < i ==> order@[j] != field,
        decreases order@.len() - i,
    {
        if order[i] == field {
            assert(order@[i as int] == field);
            return true;
        }
        i += 1;
    }
    false
}

/// The first profile with the given id.
pub open spec fn profile_with_id(profiles: Seq<ConnectionProfile>, id: ProfileId) -> Option<
    ConnectionProfile,
>
    decreases profiles.len(),
{
    if profiles.len() == 0 {
        None
    } else if profiles[0].id == id {
        Some(profiles[0])
    } else {
        profile_with_id(profiles.drop_first(), id)
    }
}

/// The position of the first profile with the given id.
pub fn find_profile(profiles: &Vec<ConnectionProfile>, id: ProfileId) -> (r: Option<usize>)
    ensures
        r is Some <==> profile_with_id(profiles@, id) is Some,
        r is Some ==> r->0 < profiles@.len() && profile_with_id(profiles@, id) == Some(
            profiles@[r->0 as int],
        ),
{
    let mut i: usize = 0;
    assert(profiles@.skip(0) =~= profiles@);
    while i < profiles.len()
        invariant
            i <= profiles@.len(),
            profile_with_id(profiles@, id) == profile_with_id(profiles@.skip(i as int), id),
        decreases profiles@.len() - i,
    {
        assert(profiles@.skip(i as int).drop_first() =~= profiles@.skip(i + 1));
        if profiles[i].id == id {
            return Some(i);
        }
        i += 1;
    }
    None
}

/// The next field and then the one before is the field itself, for every field of the order.
pub proof fn law_focus_returns(method: AuthMethodKind, field: ConnectField)
    requires
        connect_fields(method).contains(field),
    ensures
        next_connect_field(method, next_connect_field(method, field, false), true) == field,
        next_connect_field(method, next_connect_field(method, field, true), false) == field,
        connect_fields(method).contains(next_connect_field(method, field, false)),
        connect_fields(method).contains(next_connect_field(method, field, true)),
{
    let order = connect_fields(method);
    reveal_with_fuel(connect_field_position, 7);
    let k = choose|k: int| 0 <= k < order.len() && order[k] == field;
    lemma_connect_positions(method);
    assert(connect_field_position(order, order[k]) == k);
    let n = order.len() as int;
    assert(connect_field_position(order, order[(k + 1) % n]) == (k + 1) % n);
    assert(connect_field_position(order, order[(k - 1) % n]) == (k - 1) % n);
    crate::lists::law_wrapping_is_undone(k, 1, n);
    crate::lists::law_wrapping_is_undone(k, -1, n);
    assert(order[(k + 1) % n] == next_connect_field(method, field, false));
    assert(order[(k - 1) % n] == next_connect_field(method, field, true));
}

proof fn lemma_connect_positions(method: AuthMethodKind)
    ensures
        forall|k: int|
            0 <= k < connect_fields(method).len() ==> connect_field_position(
                connect_fields(method),
                #[trigger] connect_fields(method)[k],
            ) == k,
{
    let order = connect_fields(method);
    assert forall|k: int| 0 <= k < order.len() implies connect_field_position(
        order,
        #[trigger] order[k],
    ) == k by {
        lemma_position_of(order, k);
    }
}

proof fn lemma_position_of(order: Seq<ConnectField>, k: int)
    requires
        0 <= k < order.len(),
        forall|i: int| 0 <= i < k ==> #[trigger] order[i] != order[k],
    ensures
        connect_field_position(order, order[k]) == k,
    decreases k,
{
    if k > 0 {
        let rest = order.drop_first();
        assert(rest[k - 1] == order[k]);
        assert forall|i: int| 0 <= i < k - 1 implies #[trigger] rest[i] != rest[k - 1] by {
            assert(order[i + 1] != order[k]);
        }
        lemma_position_of(rest, k - 1);
    }
}

}
