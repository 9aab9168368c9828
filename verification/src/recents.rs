//! Connections that succeeded before: what is remembered of them, and opening one again. And
//! calling off a connection that is being made.

use vstd::prelude::*;

use crate::connect_actions::{filled_from, form_for, secret_status, SavedSecret};
use crate::connect_form::{find_profile, profile_with_id, ConnectForm};
use crate::events::emptied;
use crate::helpers::{string_of, text_of};
use crate::model::{
    ConnectionProfile, ConnectionSettings, ConnectionState, DisconnectReason, Dispatch, Listing,
    ProfileId, RecentEntry, RestoredTabTarget, TabId, TrustRequestId,
};
use crate::tab_actions::status_after;
use crate::tabs::{has_tab, lemma_store_with_tab, tab_changed, tab_index, TabState, TabStore};
use crate::workspace::{
    pane_focus, still_asked, tab_endpoint, tab_host, tab_port, tab_username, FocusTarget,
    Workspace,
};

verus! {

/// What is remembered of a connection that succeeded.
#[derive(PartialEq, Eq, Debug)]
pub struct RecentEntryInput {
    pub host: String,
    pub port: u16,
    pub username: String,
    pub profile_id: Option<u64>,
    pub display_name: Option<String>,
    pub last_remote_path: Option<String>,
    pub last_connected_at: u64,
}

/// What is remembered of the connection of a tab.
pub open spec fn remembers(
    input: RecentEntryInput,
    tab: TabState,
    profiles: Seq<ConnectionProfile>,
    now: u64,
) -> bool {
    &&& input.host@ == tab_host(tab)
    &&& input.port == tab_port(tab)
    &&& input.username@ == tab_username(tab)
    &&& input.profile_id == match tab.profile_id {
        Some(id) => Some(id.0),
        None => None,
    }
    &&& string_of(input.display_name) == match tab.profile_id {
        Some(id) => match profile_with_id(profiles, id) {
            Some(profile) => Some(profile.name@),
            None => None,
        },
        None => None,
    }
    &&& string_of(input.last_remote_path) == string_of(tab.remote.path)
    &&& input.last_connected_at == now
}

/// The tab of a recent connection before it is connected: it will go where it was.
pub open spec fn recalled(tab: TabState, entry: RecentEntry) -> TabState {
    TabState {
        restored_target: Some(
            RestoredTabTarget {
                host: entry.host,
                port: entry.port,
                username: entry.username,
                profile_id: entry.profile_id,
                remote_path: entry.last_remote_path,
            },
        ),
        profile_id: entry.profile_id,
        remote: Listing {
            path: match entry.last_remote_path {
                Some(path) => Some(path),
                None => tab.remote.path,
            },
            ..tab.remote
        },
        ..tab
    }
}

/// What opening a recent connection leads to.
#[derive(PartialEq, Eq, Debug)]
pub enum RecentStep {
    /// The connection is not remembered any more.
    Nothing,
    /// Connect with what is saved.
    Connect(ConnectionSettings, Option<ProfileId>),
    /// The form is open.
    Form,
}

impl TabStore {
    fn recall(&mut self, i: usize, entry: &RecentEntry)
        requires
            old(self).wf(),
            i < old(self).tabs@.len(),
        ensures
            final(self).wf(),
            tab_changed(*old(self), *final(self), i as int),
            final(self).tabs@[i as int] == recalled(old(self).tabs@[i as int], *entry),
    {
        let ghost before = *self;
        self.tabs[i].restored_target = Some(
            RestoredTabTarget {
                host: entry.host.clone(),
                port: entry.port,
                username: entry.username.clone(),
                profile_id: entry.profile_id,
                remote_path: entry.last_remote_path.clone(),
            },
        );
        self.tabs[i].profile_id = entry.profile_id;
        if entry.last_remote_path.is_some() {
            self.tabs[i].remote.path = entry.last_remote_path.clone();
        }
        proof {
            assert(self.tabs@ =~= before.tabs@.update(i as int, self.tabs@[i as int]));
            lemma_store_with_tab(before, *self, i as int);
        }
    }

    fn call_off(&mut self, i: usize)
        requires
            old(self).wf(),
            i < old(self).tabs@.len(),
        ensures
            final(self).wf(),
            tab_changed(*old(self), *final(self), i as int),
            called_off(old(self).tabs@[i as int], final(self).tabs@[i as int]),
    {
        let ghost before = *self;
        self.tabs[i].disconnect(DisconnectReason::UserRequested);
        self.tabs[i].remote = Listing::empty();
        proof {
            assert(self.tabs@ =~= before.tabs@.update(i as int, self.tabs@[i as int]));
            lemma_store_with_tab(before, *self, i as int);
        }
    }
}

/// A tab whose connection attempt the user called off.
pub open spec fn called_off(tab: TabState, after: TabState) -> bool {
    &&& after == (TabState {
        connection: ConnectionState::Disconnected { reason: DisconnectReason::UserRequested },
        remote: after.remote,
        ..tab
    })
    &&& emptied(after.remote, None)
}

/// How a connection attempt is called off.
#[derive(Clone, Copy, PartialEq, Eq, Structural, Debug)]
pub enum CallOff {
    Nothing,
    /// The question about the host key is answered with no.
    RejectKey(TrustRequestId),
    /// The runtime is told to disconnect the tab.
    Disconnect(TabId),
}

/// How the connection attempt of the active tab is called off.
pub open spec fn call_off(tab: Option<TabState>) -> CallOff {
    match tab {
        None => CallOff::Nothing,
        Some(tab) => match tab.connection {
            ConnectionState::AwaitingHostKey { request_id, .. } => CallOff::RejectKey(request_id),
            ConnectionState::Connecting { .. } => CallOff::Disconnect(tab.id),
            ConnectionState::Reconnecting { .. } => CallOff::Disconnect(tab.id),
            _ => CallOff::Nothing,
        },
    }
}

impl Workspace {
    /// What is remembered of the connection of a tab, where it is known where it leads and as
    /// whom.
    pub fn record_recent_for_tab(
        &self,
        tab_id: TabId,
        profiles: &Vec<ConnectionProfile>,
        now: u64,
    ) -> (r: Option<RecentEntryInput>)
        ensures
            ({
                let tab = self.tabs.tabs@[tab_index(self.tabs.tabs@, tab_id)];
                &&& r is Some <==> has_tab(self.tabs.tabs@, tab_id) && tab_host(tab).len() > 0
                    && tab_username(tab).len() > 0
                &&& r is Some ==> remembers(r->0, tab, profiles@, now)
            }),
    {
        let i: usize = match self.tabs.position(tab_id) {
            Some(i) => i,
            None => return None,
        };
        let tab = &self.tabs.tabs[i];
        let (host, port, username) = tab_endpoint(tab);
        if host.as_str().is_empty() || username.as_str().is_empty() {
            return None;
        }
        let display_name = match tab.profile_id {
            Some(id) => match find_profile(profiles, id) {
                Some(k) => Some(profiles[k].name.clone()),
                None => None,
            },
            None => None,
        };
        Some(
            RecentEntryInput {
                host,
                port,
                username,
                profile_id: match tab.profile_id {
                    Some(id) => Some(id.0),
                    None => None,
                },
                display_name,
                last_remote_path: tab.remote.path.clone(),
                last_connected_at: now,
            },
        )
    }

    fn recall_recent(&mut self, entry: &RecentEntry)
        requires
            old(self).wf(),
        ensures
            final(self).wf(),
            recalled_in(*old(self), *final(self), *entry),
    {
        if let Some(i) = self.tabs.active_position() {
            self.tabs.recall(i, entry);
        }
    }

    /// Opens a recent connection in the active tab. Where its profile still exists, with
    /// everything that a connection needs, the tab is connected; otherwise the form opens with
    /// what is known. `secret` is what was read for the profile.
    pub fn open_recent_connection(
        &mut self,
        recent_id: u64,
        entries: &Vec<RecentEntry>,
        profiles: &Vec<ConnectionProfile>,
        secret: &SavedSecret,
        home: Option<&str>,
    ) -> (r: RecentStep)
        requires
            old(self).wf(),
        ensures
            final(self).wf(),
            match recent_with_id(entries@, recent_id) {
                None => r is Nothing && *final(self) == *old(self),
                Some(entry) => exists|ready: Workspace| #[trigger]
                    recalled_in(*old(self), ready, entry) && recent_opened(
                        ready,
                        *final(self),
                        recent_profile(entry, profiles@),
                        profiles@,
                        *secret,
                        text_of(home),
                        r,
                    ),
            },
    {
        let k: usize = match find_recent(entries, recent_id) {
            Some(k) => k,
            None => return RecentStep::Nothing,
        };
        let entry = &entries[k];
        self.recall_recent(entry);
        let ghost ready = *self;
        let step = self.open_recalled(entry, profiles, secret, home);
        assert(recalled_in(*old(self), ready, *entry));
        step
    }

    fn open_recalled(
        &mut self,
        entry: &RecentEntry,
        profiles: &Vec<ConnectionProfile>,
        secret: &SavedSecret,
        home: Option<&str>,
    ) -> (r: RecentStep)
        requires
            old(self).wf(),
        ensures
            final(self).wf(),
            recent_opened(
                *old(self),
                *final(self),
                recent_profile(*entry, profiles@),
                profiles@,
                *secret,
                text_of(home),
                r,
            ),
    {
        let known = match entry.profile_id {
            Some(id) => if find_profile(profiles, id).is_some() {
                Some(id)
            } else {
                None
            },
            None => None,
        };
        let profile_id = match known {
            Some(id) => id,
            None => {
                self.open_connect_form(profiles);
                return RecentStep::Form;
            },
        };
        self.use_profile(profile_id, profiles, secret);
        let auto = match &self.connect_form {
            Some(form) => form.can_auto_connect(home),
            None => false,
        };
        if auto {
            match self.submit_connect_form(home) {
                Some((settings, profile_id)) => RecentStep::Connect(settings, profile_id),
                None => RecentStep::Form,
            }
        } else {
            self.focus = FocusTarget::ConnectForm;
            RecentStep::Form
        }
    }

    /// How the connection attempt of the active tab is called off.
    pub fn cancel_connect_step(&self) -> (r: CallOff)
        ensures
            r == call_off(self.tabs.active()),
    {
        match self.tabs.active_position() {
            None => CallOff::Nothing,
            Some(i) => match &self.tabs.tabs[i].connection {
                ConnectionState::AwaitingHostKey { request_id, .. } => CallOff::RejectKey(
                    *request_id,
                ),
                ConnectionState::Connecting { .. } => CallOff::Disconnect(self.tabs.tabs[i].id),
                ConnectionState::Reconnecting { .. } => CallOff::Disconnect(self.tabs.tabs[i].id),
                _ => CallOff::Nothing,
            },
        }
    }

    /// Follows the order to disconnect a tab whose connection is being made, of which `outcome`
    /// came. The tab is not connected either way.
    pub fn cancel_connect(&mut self, outcome: Dispatch)
        requires
            old(self).wf(),
        ensures
            final(self).wf(),
            !(call_off(old(self).tabs.active()) is Disconnect) ==> *final(self) == *old(self),
            call_off(old(self).tabs.active()) is Disconnect ==> {
                let i = old(self).tabs.active_index();
                &&& *final(self) == (Workspace {
                    tabs: final(self).tabs,
                    modals: final(self).modals,
                    status_message: final(self).status_message,
                    focus: pane_focus(old(self).focused_side),
                    ..*old(self)
                })
                &&& tab_changed(old(self).tabs, final(self).tabs, i)
                &&& called_off(old(self).tabs.tabs@[i], final(self).tabs.tabs@[i])
                &&& final(self).modals@ == old(self).modals@.filter(
                    still_asked(final(self).tabs.tabs@),
                )
                &&& string_of(final(self).status_message) == status_after(
                    old(self).status_message,
                    outcome,
                )
            },
    {
        match self.cancel_connect_step() {
            CallOff::Disconnect(_) => {},
            _ => return,
        }
        if let Some(i) = self.tabs.active_position() {
            let _ = self.note_dispatch(outcome);
            self.tabs.call_off(i);
            let _ = self.drain_expired_modals();
            let side = self.focused_side;
            self.focus_pane(side);
        }
    }
}

/// The first recent connection with the given id.
pub open spec fn recent_with_id(entries: Seq<RecentEntry>, id: u64) -> Option<RecentEntry>
    decreases entries.len(),
{
    if entries.len() == 0 {
        None
    } else if entries[0].id == id {
        Some(entries[0])
    } else {
        recent_with_id(entries.drop_first(), id)
    }
}

/// The position of the first recent connection with the given id.
pub fn find_recent(entries: &Vec<RecentEntry>, id: u64) -> (r: Option<usize>)
    ensures
        r is Some <==> recent_with_id(entries@, id) is Some,
        r is Some ==> r->0 < entries@.len() && recent_with_id(entries@, id) == Some(
            entries@[r->0 as int],
        ),
{
    let mut i: usize = 0;
    assert(entries@.skip(0) =~= entries@);
    while i < entries.len()
        invariant
            i <= entries@.len(),
            recent_with_id(entries@, id) == recent_with_id(entries@.skip(i as int), id),
        decreases entries@.len() - i,
    {
        assert(entries@.skip(i as int).drop_first() =~= entries@.skip(i + 1));
        if entries[i].id == id {
            return Some(i);
        }
        i += 1;
    }
    None
}

/// The profile of a recent connection, where it still exists.
pub open spec fn recent_profile(entry: RecentEntry, profiles: Seq<ConnectionProfile>) -> Option<
    ConnectionProfile,
> {
    match entry.profile_id {
        Some(id) => profile_with_id(profiles, id),
        None => None,
    }
}

/// The active tab, where there is one, refers to a recent connection; nothing else changed.
pub open spec fn recalled_in(before: Workspace, after: Workspace, entry: RecentEntry) -> bool {
    match before.tabs.active() {
        None => after == before,
        Some(tab) => {
            let i = before.tabs.active_index();
            &&& after == (Workspace { tabs: after.tabs, ..before })
            &&& tab_changed(before.tabs, after.tabs, i)
            &&& after.tabs.tabs@[i] == recalled(tab, entry)
        },
    }
}

/// A form can be submitted without the user.
pub open spec fn submits_itself(form: ConnectForm, home: Option<Seq<char>>) -> bool {
    form.problem(home) is None && (form.auth_method is Password ==> form.password@.len() > 0)
}

/// The window after a recent connection was opened from it, and what is left to do.
pub open spec fn recent_opened(
    before: Workspace,
    after: Workspace,
    profile: Option<ConnectionProfile>,
    profiles: Seq<ConnectionProfile>,
    secret: SavedSecret,
    home: Option<Seq<char>>,
    step: RecentStep,
) -> bool {
    match profile {
        None => {
            &&& step is Form
            &&& after == (Workspace {
                connect_form: after.connect_form,
                focus: FocusTarget::ConnectForm,
                ..before
            })
            &&& after.connect_form is Some
            &&& form_for(before.tabs.active(), profiles, after.connect_form->0)
        },
        Some(profile) => {
            &&& match secret_status(secret) {
                Some(text) => string_of(after.status_message) == Some(text),
                None => after.status_message == before.status_message,
            }
            &&& exists|form: ConnectForm| #[trigger]
                filled_from(form, profile, secret) && if submits_itself(form, home) {
                    &&& after == (Workspace {
                        connect_form: None,
                        status_message: after.status_message,
                        focus: pane_focus(before.focused_side),
                        ..before
                    })
                    &&& step matches RecentStep::Connect(settings, profile_id) && form.describes(
                        home,
                        settings,
                    ) && profile_id == Some(profile.id)
                } else {
                    &&& step is Form
                    &&& after == (Workspace {
                        connect_form: Some(form),
                        status_message: after.status_message,
                        focus: FocusTarget::ConnectForm,
                        ..before
                    })
                }
        },
    }
}

/// A saved password that is missing is never replaced by a blank one: the form stays open.
pub proof fn law_missing_password_is_asked_for(
    before: Workspace,
    after: Workspace,
    profile: ConnectionProfile,
    profiles: Seq<ConnectionProfile>,
    home: Option<Seq<char>>,
    step: RecentStep,
    kind: crate::model::AuthMethodKind,
)
    requires
        profile.auth is Password,
        recent_opened(
            before,
            after,
            Some(profile),
            profiles,
            SavedSecret::Missing(kind),
            home,
            step,
        ),
    ensures
        step is Form,
        after.connect_form is Some,
{
}

}
