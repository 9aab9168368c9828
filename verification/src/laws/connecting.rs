//! From a form or a saved profile to a connection, and what of it a tab keeps.

use vstd::prelude::*;

use super::common::{lemma_shown, lemma_tab_at, shows};
use super::texts::lemma_decimal_reads_back;
use crate::connect_actions::SavedSecret;
use crate::connect_form::{port_of, profile_with_id, ConnectField, ConnectForm, FormError};
use crate::edit_sessions::{EditSession, EditSessionStore};
use crate::helpers::expand_home;
use crate::model::{
    AuthCredential, ConnectCommand, ConnectionPoolIdentity, ConnectionProfile, ConnectionSettings,
    Dispatch, ProfileId, RecentEntry, RemoteEventScope,
};
use crate::recents::{CallOff, RecentEntryInput, RecentStep};
use crate::tab_actions::ConnectRequest;
use crate::text::{parse_port, trim};
use crate::workspace::Workspace;

verus! {

/// A blank port is the usual one; any other text is the number that it denotes, where that is a
/// port.
pub proof fn law_port_is_what_was_typed(
    text: &str,
    cut: String,
    t: &str,
    number: Option<u16>,
    port: Option<u16>,
)
    requires
        call_ensures(trim, (text,), cut),
        t@ == cut@,
        call_ensures(parse_port, (t,), number),
        call_ensures(port_of, (text,), port),
    ensures
        cut@.len() == 0 ==> port == Some(22u16),
        cut@.len() > 0 && number != Some(0u16) ==> port == number,
        cut@.len() > 0 && number == Some(0u16) ==> port is None,
{
}

/// A form makes the connection that was typed into it: host and user without the blanks round
/// them, the port, and the password, or the key with the passphrase, where one was typed. What is
/// missing is told, the first thing first, and nothing else keeps a form from being taken.
pub proof fn law_form_builds_what_was_typed(
    form: ConnectForm,
    home: Option<&str>,
    r: Result<ConnectionSettings, FormError>,
    typed_host: &str,
    host: String,
    typed_port: &str,
    port: Option<u16>,
    typed_user: &str,
    user: String,
    typed_key: &str,
    cut_key: String,
    key_text: &str,
    key: String,
)
    requires
        call_ensures(ConnectForm::build_settings, (&form, home), r),
        typed_host@ == form.host@,
        call_ensures(trim, (typed_host,), host),
        typed_port@ == form.port@,
        call_ensures(port_of, (typed_port,), port),
        typed_user@ == form.username@,
        call_ensures(trim, (typed_user,), user),
        typed_key@ == form.key_path@,
        call_ensures(trim, (typed_key,), cut_key),
        key_text@ == cut_key@,
        call_ensures(expand_home, (key_text, home), key),
    ensures
        ({
            let keyed = form.auth_method is PrivateKey;
            if host@.len() == 0 {
                r == Err::<ConnectionSettings, FormError>(FormError::HostRequired)
            } else if port is None {
                r == Err::<ConnectionSettings, FormError>(FormError::PortInvalid)
            } else if user@.len() == 0 {
                r == Err::<ConnectionSettings, FormError>(FormError::UsernameRequired)
            } else if keyed && key@.len() == 0 {
                r == Err::<ConnectionSettings, FormError>(FormError::KeyPathRequired)
            } else {
                &&& r matches Ok(s)
                &&& s.host@ == host@
                &&& Some(s.port) == port
                &&& s.username@ == user@
                &&& !keyed ==> (s.auth matches AuthCredential::Password { password } && password@
                    == form.password@)
                &&& keyed ==> {
                    &&& s.auth matches AuthCredential::PrivateKey { key_path, passphrase }
                    &&& key_path@ == key@
                    &&& form.passphrase@.len() == 0 ==> passphrase is None
                    &&& form.passphrase@.len() > 0 ==> passphrase is Some && passphrase->0@
                        == form.passphrase@
                }
            }
        }),
{
}

/// Two forms that differ in the secret that is typed make different connections.
pub proof fn law_secret_makes_a_difference(
    a: ConnectForm,
    b: ConnectForm,
    home: Option<&str>,
    r: Result<ConnectionSettings, FormError>,
    s: Result<ConnectionSettings, FormError>,
)
    requires
        call_ensures(ConnectForm::build_settings, (&a, home), r),
        call_ensures(ConnectForm::build_settings, (&b, home), s),
        a.auth_method == b.auth_method,
        a.auth_method is Password ==> a.password@ != b.password@,
        a.auth_method is PrivateKey ==> a.passphrase@ != b.passphrase@,
        r is Ok,
        s is Ok,
    ensures
        r->Ok_0.auth != s->Ok_0.auth,
{
    assert(a.passphrase@.len() == 0 && b.passphrase@.len() == 0 ==> a.passphrase@
        =~= b.passphrase@);
}

/// Text put into a field is what a form is built from: each field holds what was last put into it,
/// and the others hold what they did.
pub proof fn law_fields_hold_what_is_put_in(
    form: &mut ConnectForm,
    field: ConnectField,
    text: String,
)
    requires
        call_ensures(ConnectForm::set_field, (form, field, text), ()),
    ensures
        final(form).host == if field is Host { text } else { old(form).host },
        final(form).port == if field is Port { text } else { old(form).port },
        final(form).username == if field is Username { text } else { old(form).username },
        final(form).password == if field is Password { text } else { old(form).password },
        final(form).key_path == if field is KeyPath { text } else { old(form).key_path },
        final(form).passphrase == if field is Passphrase { text } else { old(form).passphrase },
        final(form).auth_method == old(form).auth_method,
        final(form).source_profile_id == old(form).source_profile_id,
{
}

/// The form of a connection, with its secret typed in again, makes that connection.
pub proof fn law_form_of_a_connection_makes_it_again(
    settings: ConnectionSettings,
    blank: ConnectForm,
    form: &mut ConnectForm,
    secret: String,
    home: Option<&str>,
    r: Result<ConnectionSettings, FormError>,
    h: &str,
    host: String,
    u: &str,
    user: String,
    k: &str,
    key: String,
    kept: String,
)
    requires
        call_ensures(ConnectForm::prefilled, (&settings,), blank),
        *old(form) == blank,
        call_ensures(
            ConnectForm::set_field,
            (
                form,
                if settings.auth is Password {
                    ConnectField::Password
                } else {
                    ConnectField::Passphrase
                },
                secret,
            ),
            (),
        ),
        secret@.len() > 0,
        call_ensures(ConnectForm::build_settings, (&*final(form), home), r),
        // The host, the user and the key are such as a form gives them.
        h@ == settings.host@,
        call_ensures(trim, (h,), host),
        host@ == h@,
        h@.len() > 0,
        u@ == settings.username@,
        call_ensures(trim, (u,), user),
        user@ == u@,
        u@.len() > 0,
        settings.port > 0,
        settings.auth is PrivateKey ==> {
            &&& k@ == settings.auth->key_path@
            &&& k@.len() > 0
            &&& call_ensures(trim, (k,), key)
            &&& key@ == k@
            &&& call_ensures(expand_home, (k, home), kept)
            &&& kept@ == k@
        },
    ensures
        r is Ok,
        r->Ok_0.host@ == settings.host@,
        r->Ok_0.port == settings.port,
        r->Ok_0.username@ == settings.username@,
        match settings.auth {
            AuthCredential::Password { .. } => r->Ok_0.auth matches AuthCredential::Password {
                password,
            } && password@ == secret@,
            AuthCredential::PrivateKey { key_path, .. } => {
                &&& r->Ok_0.auth matches AuthCredential::PrivateKey { key_path: path, passphrase }
                &&& path@ == key_path@
                &&& passphrase is Some
                &&& passphrase->0@ == secret@
            },
        },
        blank.password@.len() == 0,
        blank.passphrase@.len() == 0,
        blank.source_profile_id is None,
{
    lemma_decimal_reads_back(settings.port as nat);
}

/// The profile at `k` is the first of the list with its id.
pub open spec fn is_first(profiles: Seq<ConnectionProfile>, k: int) -> bool {
    &&& 0 <= k < profiles.len()
    &&& forall|j: int| 0 <= j < k ==> (#[trigger] profiles[j]).id != profiles[k].id
}

pub(crate) proof fn lemma_found(profiles: Seq<ConnectionProfile>, k: int)
    requires
        is_first(profiles, k),
    ensures
        profile_with_id(profiles, profiles[k].id) == Some(profiles[k]),
    decreases k,
{
    if k > 0 {
        let rest = profiles.drop_first();
        assert(profiles[0].id != profiles[k].id);
        assert(rest[k - 1] == profiles[k]);
        assert forall|j: int| 0 <= j < k - 1 implies (#[trigger] rest[j]).id != rest[k - 1].id by {
            assert(profiles[j + 1].id != profiles[k].id);
        }
        lemma_found(rest, k - 1);
    }
}

pub(crate) proof fn lemma_not_found(profiles: Seq<ConnectionProfile>, id: ProfileId)
    requires
        forall|j: int| 0 <= j < profiles.len() ==> (#[trigger] profiles[j]).id != id,
    ensures
        profile_with_id(profiles, id) is None,
    decreases profiles.len(),
{
    if profiles.len() > 0 {
        let rest = profiles.drop_first();
        assert(profiles[0].id != id);
        assert forall|j: int| 0 <= j < rest.len() implies (#[trigger] rest[j]).id != id by {
            assert(profiles[j + 1].id != id);
        }
        lemma_not_found(rest, id);
    }
}

/// The host and the user of a profile are such as a form gives them.
pub open spec fn is_tidy(
    profile: ConnectionProfile,
    h: &str,
    host: String,
    u: &str,
    user: String,
) -> bool {
    &&& h@ == profile.host@
    &&& call_ensures(trim, (h,), host)
    &&& host@ == h@
    &&& h@.len() > 0
    &&& u@ == profile.username@
    &&& call_ensures(trim, (u,), user)
    &&& user@ == u@
    &&& u@.len() > 0
    &&& profile.port > 0
}

/// Choosing a saved profile and submitting the form connects to that profile's host and port as
/// its user, with the secret that was stored for it, and in its name.
pub proof fn law_chosen_profile_is_connected_to(
    w: &mut Workspace,
    v: &mut Workspace,
    profiles: Vec<ConnectionProfile>,
    k: int,
    secret: SavedSecret,
    home: Option<&str>,
    r: Option<(ConnectionSettings, Option<ProfileId>)>,
    h: &str,
    host: String,
    u: &str,
    user: String,
    p: &str,
    cut: String,
    key: String,
)
    requires
        is_first(profiles@, k),
        is_tidy(profiles@[k], h, host, u, user),
        profiles@[k].auth is Password ==> secret is Password,
        profiles@[k].auth is PrivateKey ==> {
            &&& secret is Passphrase
            &&& p@ == profiles@[k].auth->key_path@
            &&& call_ensures(trim, (p,), cut)
            &&& cut@ == p@
            &&& p@.len() > 0
            &&& call_ensures(expand_home, (p, home), key)
            &&& key@ == p@
        },
        call_ensures(
            Workspace::select_connect_profile,
            (w, profiles@[k].id, &profiles, &secret),
            (),
        ),
        *old(v) == *final(w),
        call_ensures(Workspace::submit_connect_form, (v, home), r),
    ensures
        r matches Some((s, id)) && {
            &&& id == Some(profiles@[k].id)
            &&& s.host@ == profiles@[k].host@
            &&& s.port == profiles@[k].port
            &&& s.username@ == profiles@[k].username@
            &&& secret matches SavedSecret::Password(password) ==> (
            s.auth matches AuthCredential::Password { password: used } && used@ == password@)
            &&& secret matches SavedSecret::Passphrase(phrase) ==> {
                &&& s.auth matches AuthCredential::PrivateKey { key_path, passphrase }
                &&& key_path@ == profiles@[k].auth->key_path@
                &&& phrase is Some && phrase->0@.len() > 0 ==> passphrase is Some
                    && passphrase->0@ == phrase->0@
                &&& phrase is None ==> passphrase is None
            }
        },
        final(v).connect_form is None,
        final(v).tabs == old(w).tabs,
{
    lemma_found(profiles@, k);
    lemma_decimal_reads_back(profiles@[k].port as nat);
}

/// A profile that is not in the list fills no form.
pub proof fn law_unknown_profile_fills_no_form(
    w: &mut Workspace,
    profiles: Vec<ConnectionProfile>,
    id: ProfileId,
    secret: SavedSecret,
)
    requires
        forall|j: int| 0 <= j < profiles@.len() ==> (#[trigger] profiles@[j]).id != id,
        call_ensures(Workspace::use_profile, (w, id, &profiles, &secret), ()),
    ensures
        *final(w) == *old(w),
{
    lemma_not_found(profiles@, id);
}

/// The window can begin a connection in the tab that it shows.
pub open spec fn can_connect(w: Workspace, i: int) -> bool {
    &&& shows(w, i)
    &&& !(w.tabs.tabs@[i].connection is Connecting)
    &&& !(w.tabs.tabs@[i].connection is AwaitingHostKey)
    &&& !(w.tabs.tabs@[i].connection is AwaitingCredentials)
    &&& !(w.tabs.tabs@[i].connection is Reconnecting)
    &&& w.tabs.tabs@[i].session_epoch < u64::MAX
    &&& w.next_session_id < u64::MAX
}

/// A connection attempt that is sent asks for the settings that it was given, and from then on the
/// tab takes the events of that attempt, and no longer those of the one before. What it edits
/// moves on with it. One that is not sent leaves the tab as it was.
pub proof fn law_attempt_is_the_one_that_was_asked_for(
    w: &mut Workspace,
    edits: &mut EditSessionStore,
    i: int,
    settings: ConnectionSettings,
    profile_id: Option<ProfileId>,
    fingerprint: Option<u64>,
    outcome: Dispatch,
    command: Option<ConnectCommand>,
    scope: RemoteEventScope,
    taken: bool,
    before: RemoteEventScope,
    still: bool,
)
    requires
        can_connect(*old(w), i),
        old(edits).wf(),
        call_ensures(
            Workspace::connect_command,
            (&*old(w), &settings, profile_id, fingerprint),
            command,
        ),
        call_ensures(
            Workspace::connect_with,
            (w, settings, profile_id, edits, outcome),
            (),
        ),
        command is Some ==> scope == (RemoteEventScope {
            tab_id: command->0.tab_id,
            session_id: command->0.session_id,
            session_epoch: command->0.session_epoch,
        }),
        call_ensures(Workspace::accepts_remote_scope, (&*final(w), &scope), taken),
        before.tab_id == old(w).tabs.tabs@[i].id,
        before.session_epoch <= old(w).tabs.tabs@[i].session_epoch,
        call_ensures(Workspace::accepts_remote_scope, (&*final(w), &before), still),
    ensures
        command matches Some(c) && {
            &&& c.settings == settings
            &&& c.tab_id == old(w).tabs.tabs@[i].id
            &&& c.session_epoch == old(w).tabs.tabs@[i].session_epoch + 1
            &&& profile_id matches Some(id) ==> c.profile_id == id
            &&& match (profile_id, fingerprint) {
                (Some(_), Some(print)) => c.pool_identity == ConnectionPoolIdentity::Saved(print),
                _ => c.pool_identity == ConnectionPoolIdentity::Ephemeral(c.session_id),
            }
        },
        final(w).next_session_id == old(w).next_session_id + 1,
        outcome is Sent ==> {
            let tab = final(w).tabs.tabs@[i];
            &&& taken
            &&& !still
            &&& tab.connection_settings == Some(settings)
            &&& tab.profile_id == profile_id
            &&& tab.title == settings.host
            &&& tab.connection is Connecting || tab.connection is Reconnecting
            &&& forall|k: int|
                0 <= k < old(edits).sessions@.len() ==> {
                    let held = #[trigger] old(edits).sessions@[k];
                    final(edits).sessions@[k] == if held.tab_id == tab.id {
                        EditSession { session_epoch: command->0.session_epoch, ..held }
                    } else {
                        held
                    }
                }
        },
        !(outcome is Sent) ==> final(w).tabs == old(w).tabs && *final(edits) == *old(edits)
            && final(w).status_message is Some,
        forall|j: int|
            0 <= j < old(w).tabs.tabs@.len() && j != i ==> final(w).tabs.tabs@[j]
                == #[trigger] old(w).tabs.tabs@[j],
{
    lemma_shown(*old(w), i);
    if outcome is Sent {
        crate::tabs::lemma_store_with_tab(old(w).tabs, final(w).tabs, i);
        lemma_tab_at(final(w).tabs.tabs@, i);
    }
}

/// While a connection is being made, no other is begun.
pub proof fn law_one_attempt_at_a_time(
    w: Workspace,
    i: int,
    settings: ConnectionSettings,
    profile_id: Option<ProfileId>,
    fingerprint: Option<u64>,
    command: Option<ConnectCommand>,
    request: ConnectRequest,
)
    requires
        shows(w, i),
        w.tabs.tabs@[i].connection is Connecting || w.tabs.tabs@[i].connection is AwaitingHostKey
            || w.tabs.tabs@[i].connection is AwaitingCredentials
            || w.tabs.tabs@[i].connection is Reconnecting,
        call_ensures(
            Workspace::connect_command,
            (&w, &settings, profile_id, fingerprint),
            command,
        ),
        call_ensures(Workspace::request_connect, (&w,), request),
    ensures
        command is None,
        request is Nothing,
{
    lemma_shown(w, i);
}

/// Connecting again connects as before; a tab that never was connected asks for the settings.
pub proof fn law_reconnecting_connects_as_before(w: Workspace, i: int, request: ConnectRequest)
    requires
        can_connect(w, i),
        call_ensures(Workspace::request_connect, (&w,), request),
    ensures
        match w.tabs.tabs@[i].connection_settings {
            Some(settings) => request == ConnectRequest::Connect(
                settings,
                w.tabs.tabs@[i].profile_id,
            ),
            None => request is AskForm,
        },
{
    lemma_shown(w, i);
}

/// What is remembered of a connection that was made is where it led and as whom, and in whose
/// name.
pub proof fn law_recent_connection_is_the_one_made(
    w: Workspace,
    i: int,
    settings: ConnectionSettings,
    profiles: Vec<ConnectionProfile>,
    now: u64,
    r: Option<RecentEntryInput>,
)
    requires
        shows(w, i),
        w.tabs.tabs@[i].connection_settings == Some(settings),
        call_ensures(
            Workspace::record_recent_for_tab,
            (&w, w.tabs.tabs@[i].id, &profiles, now),
            r,
        ),
    ensures
        r is Some <==> settings.host@.len() > 0 && settings.username@.len() > 0,
        r matches Some(recent) ==> {
            &&& recent.host@ == settings.host@
            &&& recent.port == settings.port
            &&& recent.username@ == settings.username@
            &&& recent.last_connected_at == now
            &&& match w.tabs.tabs@[i].profile_id {
                Some(id) => recent.profile_id == Some(id.0),
                None => recent.profile_id is None && recent.display_name is None,
            }
            &&& match w.tabs.tabs@[i].remote.path {
                Some(path) => recent.last_remote_path is Some && recent.last_remote_path->0@
                    == path@,
                None => recent.last_remote_path is None,
            }
            &&& forall|k: int|
                w.tabs.tabs@[i].profile_id is Some && #[trigger] is_first(profiles@, k)
                    && profiles@[k].id == w.tabs.tabs@[i].profile_id->0
                    ==> recent.display_name is Some && recent.display_name->0@
                    == profiles@[k].name@
        },
{
    lemma_tab_at(w.tabs.tabs@, i);
    if r is Some && w.tabs.tabs@[i].profile_id is Some {
        assert forall|k: int|
            #[trigger] is_first(profiles@, k) && profiles@[k].id
                == w.tabs.tabs@[i].profile_id->0 implies r->0.display_name is Some
            && r->0.display_name->0@ == profiles@[k].name@ by {
            lemma_found(profiles@, k);
        }
    }
}

/// A recent connection without a saved profile opens the form for where it led, as whom it was
/// made; and the tab goes, once connected, where it was.
pub proof fn law_recent_connection_fills_the_form(
    w: &mut Workspace,
    i: int,
    entries: Vec<RecentEntry>,
    k: int,
    profiles: Vec<ConnectionProfile>,
    secret: SavedSecret,
    home: Option<&str>,
    r: RecentStep,
    typed: &str,
    port: Option<u16>,
)
    requires
        shows(*old(w), i),
        old(w).tabs.tabs@[i].connection_settings is None,
        0 <= k < entries@.len(),
        forall|j: int| 0 <= j < k ==> (#[trigger] entries@[j]).id != entries@[k].id,
        entries@[k].profile_id is None,
        entries@[k].port > 0,
        call_ensures(
            Workspace::open_recent_connection,
            (w, entries@[k].id, &entries, &profiles, &secret, home),
            r,
        ),
        final(w).connect_form is Some ==> typed@ == final(w).connect_form->0.port@,
        call_ensures(port_of, (typed,), port),
    ensures
        r is Form,
        final(w).connect_form matches Some(form) && {
            &&& form.host == entries@[k].host
            &&& form.username == entries@[k].username
            &&& port == Some(entries@[k].port)
            &&& form.password@.len() == 0
            &&& form.source_profile_id is None
        },
        final(w).tabs.tabs@[i].restored_target matches Some(target) && target.host
            == entries@[k].host && target.port == entries@[k].port && target.username
            == entries@[k].username && target.remote_path == entries@[k].last_remote_path,
{
    lemma_shown(*old(w), i);
    lemma_recent(entries@, k);
    lemma_decimal_reads_back(entries@[k].port as nat);
    let ready = choose|ready: Workspace| #[trigger]
        crate::recents::recalled_in(*old(w), ready, entries@[k])
            && crate::recents::recent_opened(
            ready,
            *final(w),
            crate::recents::recent_profile(entries@[k], profiles@),
            profiles@,
            secret,
            crate::helpers::text_of(home),
            r,
        );
    crate::tabs::lemma_store_with_tab(old(w).tabs, ready.tabs, i);
}

pub(crate) proof fn lemma_recent(entries: Seq<RecentEntry>, k: int)
    requires
        0 <= k < entries.len(),
        forall|j: int| 0 <= j < k ==> (#[trigger] entries[j]).id != entries[k].id,
    ensures
        crate::recents::recent_with_id(entries, entries[k].id) == Some(entries[k]),
    decreases k,
{
    if k > 0 {
        let rest = entries.drop_first();
        assert(entries[0].id != entries[k].id);
        assert(rest[k - 1] == entries[k]);
        assert forall|j: int| 0 <= j < k - 1 implies (#[trigger] rest[j]).id != rest[k - 1].id by {
            assert(entries[j + 1].id != entries[k].id);
        }
        lemma_recent(rest, k - 1);
    }
}

/// A recent connection whose profile is saved, with its password, connects to that profile at
/// once.
pub proof fn law_recent_profile_is_connected_to(
    w: &mut Workspace,
    i: int,
    entries: Vec<RecentEntry>,
    k: int,
    profiles: Vec<ConnectionProfile>,
    m: int,
    password: String,
    home: Option<&str>,
    r: RecentStep,
    h: &str,
    host: String,
    u: &str,
    user: String,
)
    requires
        shows(*old(w), i),
        0 <= k < entries@.len(),
        forall|j: int| 0 <= j < k ==> (#[trigger] entries@[j]).id != entries@[k].id,
        is_first(profiles@, m),
        entries@[k].profile_id == Some(profiles@[m].id),
        profiles@[m].auth is Password,
        password@.len() > 0,
        is_tidy(profiles@[m], h, host, u, user),
        call_ensures(
            Workspace::open_recent_connection,
            (
                w,
                entries@[k].id,
                &entries,
                &profiles,
                &SavedSecret::Password(password),
                home,
            ),
            r,
        ),
    ensures
        r matches RecentStep::Connect(s, id) && {
            &&& id == Some(profiles@[m].id)
            &&& s.host@ == profiles@[m].host@
            &&& s.port == profiles@[m].port
            &&& s.username@ == profiles@[m].username@
            &&& s.auth matches AuthCredential::Password { password: used } && used@ == password@
        },
        final(w).connect_form is None,
{
    lemma_shown(*old(w), i);
    lemma_recent(entries@, k);
    lemma_found(profiles@, m);
    lemma_decimal_reads_back(profiles@[m].port as nat);
}

/// Calling off an attempt ends it: the tab is not connected, and nothing that the attempt still
/// sends is taken.
pub proof fn law_called_off_attempt_is_over(
    w: &mut Workspace,
    i: int,
    outcome: Dispatch,
    step: CallOff,
    scope: RemoteEventScope,
    taken: bool,
)
    requires
        shows(*old(w), i),
        old(w).tabs.tabs@[i].connection is Connecting
            || old(w).tabs.tabs@[i].connection is Reconnecting,
        call_ensures(Workspace::cancel_connect_step, (&*old(w),), step),
        call_ensures(Workspace::cancel_connect, (w, outcome), ()),
        scope.tab_id == old(w).tabs.tabs@[i].id,
        call_ensures(Workspace::accepts_remote_scope, (&*final(w), &scope), taken),
    ensures
        step == CallOff::Disconnect(old(w).tabs.tabs@[i].id),
        final(w).tabs.tabs@[i].connection is Disconnected,
        final(w).tabs.tabs@[i].connection_settings == old(w).tabs.tabs@[i].connection_settings,
        !taken,
        forall|j: int|
            0 <= j < old(w).tabs.tabs@.len() && j != i ==> final(w).tabs.tabs@[j]
                == #[trigger] old(w).tabs.tabs@[j],
{
    lemma_shown(*old(w), i);
    crate::tabs::lemma_store_with_tab(old(w).tabs, final(w).tabs, i);
    lemma_tab_at(final(w).tabs.tabs@, i);
}

/// The form that opens for a tab that was connected holds that connection, but for its secret.
pub proof fn law_form_opens_on_the_connection(
    w: &mut Workspace,
    i: int,
    settings: ConnectionSettings,
    profiles: Vec<ConnectionProfile>,
    typed: &str,
    port: Option<u16>,
)
    requires
        shows(*old(w), i),
        old(w).tabs.tabs@[i].connection_settings == Some(settings),
        settings.port > 0,
        call_ensures(Workspace::open_connect_form, (w, &profiles), ()),
        final(w).connect_form is Some ==> typed@ == final(w).connect_form->0.port@,
        call_ensures(port_of, (typed,), port),
    ensures
        final(w).connect_form matches Some(form) && {
            &&& form.host == settings.host
            &&& form.username == settings.username
            &&& port == Some(settings.port)
            &&& form.password@.len() == 0
            &&& form.passphrase@.len() == 0
            &&& match settings.auth {
                AuthCredential::Password { .. } => form.auth_method is Password,
                AuthCredential::PrivateKey { key_path, .. } => form.auth_method is PrivateKey
                    && form.key_path == key_path,
            }
        },
        final(w).tabs == old(w).tabs,
{
    lemma_shown(*old(w), i);
    lemma_decimal_reads_back(settings.port as nat);
}

}
