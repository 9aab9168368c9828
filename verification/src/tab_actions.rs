//! What a window does with its tabs: closing them, switching between them, connecting them.

use vstd::prelude::*;

use crate::edit_sessions::{at_epoch, not_of_tab, of_tab, EditSession, EditSessionStore};
use crate::helpers::{connection_in_flight, in_flight, string_of};
use crate::model::{
    AppCommand, ConnectCommand, ConnectionPoolIdentity, ConnectionSettings, ConnectionState,
    Dispatch, ProfileId, SessionId, TabId,
};
use crate::tabs::{
    has_tab, lemma_store_with_tab, next_switch, prev_switch, tab_activated, tab_changed,
    tab_index,
    tab_closed, TabState, TabStore,
};
use crate::workspace::{
    dispatch_status, pane_focus, still_asked, FocusTarget, PendingEdit, Workspace,
};

verus! {

/// What is left to do once a tab is closed.
#[derive(PartialEq, Eq, Debug)]
pub struct ClosedTab {
    /// The edit sessions whose temporary files are to be deleted.
    pub edits: Vec<EditSession>,
    /// The runtime knows that the tab is gone; otherwise it is to be told again.
    pub released: bool,
}

/// The status after a command: that of a command that was not taken, or else the one before.
pub open spec fn status_after(before: Option<String>, outcome: Dispatch) -> Option<Seq<char>> {
    match outcome {
        Dispatch::Sent => string_of(before),
        _ => dispatch_status(outcome),
    }
}

/// The large file that waits for the user, unless it is of the tab.
pub open spec fn pending_without(pending: Option<PendingEdit>, tab_id: TabId) -> Option<
    PendingEdit,
> {
    match pending {
        Some(edit) => if edit.tab_id == tab_id {
            None
        } else {
            pending
        },
        None => None,
    }
}

fn other_pending(pending: Option<PendingEdit>, tab_id: TabId) -> (r: Option<PendingEdit>)
    ensures
        r == pending_without(pending, tab_id),
{
    match pending {
        Some(edit) => if edit.tab_id == tab_id {
            None
        } else {
            Some(edit)
        },
        None => None,
    }
}

impl Workspace {
    /// What the runtime is told when a tab is closed.
    pub fn close_tab_command(&self, tab_id: TabId) -> (r: Option<AppCommand>)
        ensures
            r == if has_tab(self.tabs.tabs@, tab_id) {
                Some(AppCommand::CloseTab { tab_id })
            } else {
                None
            },
    {
        if self.owns_tab(tab_id) {
            Some(AppCommand::CloseTab { tab_id })
        } else {
            None
        }
    }

    /// Closes a tab, with its edit sessions and with the questions that only its connection could
    /// answer; `outcome` is what came of the command. Gives what is left to do, where there is
    /// such a tab.
    pub fn close_tab_by_id(
        &mut self,
        tab_id: TabId,
        edits: &mut EditSessionStore,
        outcome: Dispatch,
    ) -> (r: Option<ClosedTab>)
        requires
            old(self).wf(),
            old(edits).wf(),
        ensures
            final(self).wf(),
            final(edits).wf(),
            r is Some <==> has_tab(old(self).tabs.tabs@, tab_id),
            r is None ==> *final(self) == *old(self) && *final(edits) == *old(edits),
            r is Some ==> {
                &&& *final(self) == (Workspace {
                    tabs: final(self).tabs,
                    large_edit_confirm: pending_without(old(self).large_edit_confirm, tab_id),
                    modals: final(self).modals,
                    status_message: final(self).status_message,
                    focus: if old(self).tabs.tabs@.len() == 1 {
                        FocusTarget::Workspace
                    } else {
                        old(self).focus
                    },
                    ..*old(self)
                })
                &&& tab_closed(old(self).tabs, final(self).tabs, tab_id)
                &&& final(self).modals@ == old(self).modals@.filter(
                    still_asked(final(self).tabs.tabs@),
                )
                &&& string_of(final(self).status_message) == status_after(
                    old(self).status_message,
                    outcome,
                )
                &&& r->0.released == (outcome is Sent)
                &&& r->0.edits@ == old(edits).sessions@.filter(of_tab(tab_id))
                &&& final(edits).sessions@ == old(edits).sessions@.filter(not_of_tab(tab_id))
                &&& final(edits).next_id == old(edits).next_id
                &&& final(edits).next_check_id == old(edits).next_check_id
            },
    {
        proof {
            crate::tabs::lemma_tab_index(self.tabs.tabs@, tab_id);
        }
        if !self.tabs.close_tab(tab_id) {
            return None;
        }
        let removed = edits.remove_for_tab(tab_id);
        self.large_edit_confirm = other_pending(self.large_edit_confirm.take(), tab_id);
        let released = self.note_dispatch(outcome);
        let _ = self.drain_expired_modals();
        self.focus = if self.tabs.tabs.len() == 0 {
            FocusTarget::Workspace
        } else {
            self.focus
        };
        Some(ClosedTab { edits: removed, released })
    }

    /// The window with another tab shown: filters and the start of a selection are forgotten.
    pub open spec fn shows_tab(&self, before: Workspace, id: TabId) -> bool {
        &&& *self == (Workspace {
            tabs: self.tabs,
            local_filter: self.local_filter,
            remote_filter: self.remote_filter,
            selection_anchor: None,
            ..before
        })
        &&& self.local_filter.is_clear()
        &&& self.remote_filter.is_clear()
        &&& tab_activated(before.tabs, self.tabs, id)
    }

    /// Shows a tab, where there is such a tab.
    pub fn activate_tab(&mut self, tab_id: TabId) -> (r: bool)
        requires
            old(self).wf(),
        ensures
            final(self).wf(),
            r == has_tab(old(self).tabs.tabs@, tab_id),
            !r ==> *final(self) == *old(self),
            r ==> final(self).shows_tab(*old(self), tab_id),
    {
        if !self.tabs.activate_tab(tab_id) {
            return false;
        }
        self.clear_filters();
        self.selection_anchor = None;
        true
    }

    /// Shows the tab `offset` positions from the active one, round the ends, in the order in
    /// which tabs were opened.
    pub fn activate_tab_in_direction(&mut self, offset: isize) -> (r: bool)
        requires
            old(self).wf(),
        ensures
            final(self).wf(),
            r == (old(self).tabs.tabs@.len() > 0),
            !r ==> *final(self) == *old(self),
            r ==> final(self).shows_tab(
                *old(self),
                old(self).tabs.tabs@[(old(self).tabs.active_index() + offset) % (
                old(self).tabs.tabs@.len() as int)].id,
            ),
    {
        if !self.tabs.activate_tab_in_direction(offset) {
            return false;
        }
        self.clear_filters();
        self.selection_anchor = None;
        true
    }

    /// The switcher opens on the tab used before the active one, or moves on by one.
    pub fn tab_switcher_next(&mut self)
        requires
            old(self).wf(),
        ensures
            final(self).wf(),
            *final(self) == (Workspace {
                tabs: final(self).tabs,
                focus: if old(self).tabs.mru@.len() > 0 && !old(self).tabs.switcher_open {
                    FocusTarget::Modal
                } else {
                    old(self).focus
                },
                ..*old(self)
            }),
            final(self).tabs == (TabStore {
                switcher_open: old(self).tabs.mru@.len() > 0,
                switcher_index: next_switch(
                    old(self).tabs.switcher_open,
                    old(self).tabs.switcher_index as int,
                    old(self).tabs.mru@.len() as int,
                ) as usize,
                ..old(self).tabs
            }),
    {
        let was_open = self.tabs.switcher_open;
        let moved = self.tabs.tab_switcher_next();
        if moved && !was_open {
            self.focus = FocusTarget::Modal;
        }
    }

    /// The switcher opens on the tab used longest ago, or moves back by one.
    pub fn tab_switcher_prev(&mut self)
        requires
            old(self).wf(),
        ensures
            final(self).wf(),
            *final(self) == (Workspace {
                tabs: final(self).tabs,
                focus: if old(self).tabs.mru@.len() > 0 && !old(self).tabs.switcher_open {
                    FocusTarget::Modal
                } else {
                    old(self).focus
                },
                ..*old(self)
            }),
            final(self).tabs == (TabStore {
                switcher_open: old(self).tabs.mru@.len() > 0,
                switcher_index: prev_switch(
                    old(self).tabs.switcher_open,
                    old(self).tabs.switcher_index as int,
                    old(self).tabs.mru@.len() as int,
                ) as usize,
                ..old(self).tabs
            }),
    {
        let was_open = self.tabs.switcher_open;
        let moved = self.tabs.tab_switcher_prev();
        if moved && !was_open {
            self.focus = FocusTarget::Modal;
        }
    }

    /// The switcher, if open, closes and nothing is switched.
    pub fn close_tab_switcher(&mut self)
        requires
            old(self).wf(),
        ensures
            final(self).wf(),
            !old(self).tabs.switcher_open ==> *final(self) == *old(self),
            old(self).tabs.switcher_open ==> *final(self) == (Workspace {
                tabs: TabStore { switcher_open: false, switcher_index: 0, ..old(self).tabs },
                focus: pane_focus(old(self).focused_side),
                ..*old(self)
            }),
    {
        if self.tabs.close_tab_switcher() {
            let side = self.focused_side;
            self.focus_pane(side);
        }
    }

    /// The switcher, if open, closes and the tab that it points at is shown.
    pub fn confirm_tab_switcher(&mut self)
        requires
            old(self).wf(),
        ensures
            final(self).wf(),
            !old(self).tabs.switcher_open ==> *final(self) == *old(self),
            old(self).tabs.switcher_open ==> final(self).shows_tab(
                Workspace { focus: pane_focus(old(self).focused_side), ..*old(self) },
                old(self).tabs.mru@[old(self).tabs.switcher_index as int],
            ),
    {
        if !self.tabs.confirm_tab_switcher() {
            return;
        }
        self.clear_filters();
        self.selection_anchor = None;
        let side = self.focused_side;
        self.focus_pane(side);
    }
}

/// What the window does when the user asks for a connection.
#[derive(PartialEq, Eq, Debug)]
pub enum ConnectRequest {
    /// There is no tab, or its connection is being made already.
    Nothing,
    /// The settings are known: connect with them.
    Connect(ConnectionSettings, Option<ProfileId>),
    /// Ask for the settings.
    AskForm,
}

/// The active tab, where a connection can be begun in it.
pub open spec fn connectable(tabs: TabStore) -> Option<TabState> {
    match tabs.active() {
        Some(tab) => if in_flight(tab.connection) {
            None
        } else {
            Some(tab)
        },
        None => None,
    }
}

/// The connection attempt that a tab makes.
pub open spec fn connect_asks(
    command: ConnectCommand,
    tab: TabState,
    session_id: SessionId,
    settings: ConnectionSettings,
    profile_id: Option<ProfileId>,
    fingerprint: Option<u64>,
) -> bool {
    command == (ConnectCommand {
        tab_id: tab.id,
        session_id,
        session_epoch: (tab.session_epoch + 1) as u64,
        profile_id: match profile_id {
            Some(id) => id,
            None => ProfileId(0),
        },
        pool_identity: match (profile_id, fingerprint) {
            (Some(_), Some(print)) => ConnectionPoolIdentity::Saved(print),
            _ => ConnectionPoolIdentity::Ephemeral(session_id),
        },
        settings,
    })
}

/// A tab whose connection attempt was sent off.
pub open spec fn attempted(
    tab: TabState,
    session_id: SessionId,
    settings: ConnectionSettings,
    profile_id: Option<ProfileId>,
) -> TabState {
    let epoch = (tab.session_epoch + 1) as u64;
    TabState {
        title: settings.host,
        profile_id,
        session_epoch: epoch,
        connection: if tab.connection is Connected {
            ConnectionState::Reconnecting { session_id, session_epoch: epoch }
        } else {
            ConnectionState::Connecting { session_id, session_epoch: epoch }
        },
        connection_settings: Some(settings),
        ..tab
    }
}

impl TabStore {
    /// Begins a connection attempt in the tab at `i`.
    fn begin_attempt(
        &mut self,
        i: usize,
        session_id: SessionId,
        settings: ConnectionSettings,
        profile_id: Option<ProfileId>,
    )
        requires
            old(self).wf(),
            i < old(self).tabs@.len(),
            old(self).tabs@[i as int].session_epoch < u64::MAX,
        ensures
            final(self).wf(),
            tab_changed(*old(self), *final(self), i as int),
            final(self).tabs@[i as int] == attempted(
                old(self).tabs@[i as int],
                session_id,
                settings,
                profile_id,
            ),
    {
        let ghost before = *self;
        let is_reconnect = self.tabs[i].connection.is_connected();
        self.tabs[i].title = settings.host.clone();
        self.tabs[i].profile_id = profile_id;
        if is_reconnect {
            self.tabs[i].begin_reconnect(session_id);
        } else {
            self.tabs[i].begin_connect(session_id);
        }
        self.tabs[i].connection_settings = Some(settings);
        proof {
            assert(self.tabs@ =~= before.tabs@.update(i as int, self.tabs@[i as int]));
            lemma_store_with_tab(before, *self, i as int);
        }
    }
}

impl Workspace {
    fn connectable_position(&self) -> (r: Option<usize>)
        ensures
            r is Some <==> connectable(self.tabs) is Some,
            r is Some ==> r->0 == self.tabs.active_index() && r->0 < self.tabs.tabs@.len()
                && connectable(self.tabs) == Some(self.tabs.tabs@[r->0 as int]),
    {
        match self.tabs.active_position() {
            Some(i) => if connection_in_flight(&self.tabs.tabs[i].connection) {
                None
            } else {
                Some(i)
            },
            None => None,
        }
    }

    /// What is done when the user asks for a connection: nothing while one is being made, the
    /// same one again where the tab has been connected before, and otherwise the form.
    pub fn request_connect(&self) -> (r: ConnectRequest)
        ensures
            r == match connectable(self.tabs) {
                None => ConnectRequest::Nothing,
                Some(tab) => match tab.connection_settings {
                    Some(settings) => ConnectRequest::Connect(settings, tab.profile_id),
                    None => ConnectRequest::AskForm,
                },
            },
    {
        match self.connectable_position() {
            None => ConnectRequest::Nothing,
            Some(i) => match &self.tabs.tabs[i].connection_settings {
                Some(settings) => ConnectRequest::Connect(
                    settings.clone(),
                    self.tabs.tabs[i].profile_id,
                ),
                None => ConnectRequest::AskForm,
            },
        }
    }

    /// The connection attempt that the active tab would make now; `fingerprint` stands for the
    /// stored credentials of the profile.
    pub fn connect_command(
        &self,
        settings: &ConnectionSettings,
        profile_id: Option<ProfileId>,
        fingerprint: Option<u64>,
    ) -> (r: Option<ConnectCommand>)
        requires
            self.tabs.active() matches Some(tab) ==> tab.session_epoch < u64::MAX,
        ensures
            r is Some <==> connectable(self.tabs) is Some,
            r is Some ==> connect_asks(
                r->0,
                connectable(self.tabs)->0,
                SessionId(self.next_session_id),
                *settings,
                profile_id,
                fingerprint,
            ),
    {
        match self.connectable_position() {
            None => None,
            Some(i) => {
                let tab = &self.tabs.tabs[i];
                let session_id = SessionId(self.next_session_id);
                Some(
                    ConnectCommand {
                        tab_id: tab.id,
                        session_id,
                        session_epoch: tab.session_epoch + 1,
                        profile_id: match profile_id {
                            Some(id) => id,
                            None => ProfileId(0),
                        },
                        pool_identity: match (profile_id, fingerprint) {
                            (Some(_), Some(print)) => ConnectionPoolIdentity::Saved(print),
                            _ => ConnectionPoolIdentity::Ephemeral(session_id),
                        },
                        settings: settings.clone(),
                    },
                )
            },
        }
    }

    /// Follows the connection attempt of `connect_command`, of which `outcome` came: the session
    /// id is used up, and, where the attempt was sent, the tab and its edit sessions move on to
    /// the next epoch.
    pub fn connect_with(
        &mut self,
        settings: ConnectionSettings,
        profile_id: Option<ProfileId>,
        edits: &mut EditSessionStore,
        outcome: Dispatch,
    )
        requires
            old(self).wf(),
            old(edits).wf(),
            old(self).next_session_id < u64::MAX,
            old(self).tabs.active() matches Some(tab) ==> tab.session_epoch < u64::MAX,
        ensures
            final(self).wf(),
            final(edits).wf(),
            connectable(old(self).tabs) is None ==> *final(self) == *old(self) && *final(edits)
                == *old(edits),
            connectable(old(self).tabs) is Some && !(outcome is Sent) ==> {
                &&& *final(self) == (Workspace {
                    next_session_id: (old(self).next_session_id + 1) as u64,
                    status_message: final(self).status_message,
                    ..*old(self)
                })
                &&& string_of(final(self).status_message) == dispatch_status(outcome)
                &&& *final(edits) == *old(edits)
            },
            connectable(old(self).tabs) is Some && outcome is Sent ==> {
                let tab = connectable(old(self).tabs)->0;
                let i = old(self).tabs.active_index();
                &&& *final(self) == (Workspace {
                    next_session_id: (old(self).next_session_id + 1) as u64,
                    tabs: final(self).tabs,
                    modals: final(self).modals,
                    ..*old(self)
                })
                &&& tab_changed(old(self).tabs, final(self).tabs, i)
                &&& final(self).tabs.tabs@[i] == attempted(
                    tab,
                    SessionId(old(self).next_session_id),
                    settings,
                    profile_id,
                )
                &&& final(self).modals@ == old(self).modals@.filter(
                    still_asked(final(self).tabs.tabs@),
                )
                &&& final(edits).sessions@ == old(edits).sessions@.map_values(
                    at_epoch(tab.id, (tab.session_epoch + 1) as u64),
                )
                &&& final(edits).next_id == old(edits).next_id
                &&& final(edits).next_check_id == old(edits).next_check_id
            },
    {
        let i: usize = match self.connectable_position() {
            None => return,
            Some(i) => i,
        };
        let session_id = SessionId(self.next_session_id);
        self.next_session_id = self.next_session_id + 1;
        if !self.note_dispatch(outcome) {
            return;
        }
        let tab_id = self.tabs.tabs[i].id;
        let epoch: u64 = self.tabs.tabs[i].session_epoch + 1;
        self.tabs.begin_attempt(i, session_id, settings, profile_id);
        edits.update_epoch_for_tab(tab_id, epoch);
        let _ = self.drain_expired_modals();
    }
}

/// Nothing of an earlier connection attempt of a tab is accepted once a new one is made: the
/// epoch has moved on.
pub proof fn law_new_attempt_outdates_the_old(
    tabs: Seq<TabState>,
    i: int,
    session_id: SessionId,
    settings: ConnectionSettings,
    profile_id: Option<ProfileId>,
    scope: crate::model::RemoteEventScope,
)
    requires
        crate::tabs::distinct_tabs(tabs),
        0 <= i < tabs.len(),
        tabs[i].session_epoch < u64::MAX,
        crate::workspace::accepts(tabs, scope),
        scope.tab_id == tabs[i].id,
    ensures
        !crate::workspace::accepts(
            tabs.update(i, attempted(tabs[i], session_id, settings, profile_id)),
            scope,
        ),
{
    let after = attempted(tabs[i], session_id, settings, profile_id);
    crate::tabs::lemma_update_tab(tabs, i, after);
    crate::tabs::lemma_tab_index(tabs, scope.tab_id);
    assert(tab_index(tabs, scope.tab_id) == i) by {
        let k = tab_index(tabs, scope.tab_id);
        if k < i {
            assert(tabs[k].id != tabs[i].id);
        } else if i < k {
            assert(tabs[i].id != tabs[k].id);
        }
    }
    assert(tab_index(tabs.update(i, after), scope.tab_id) == i);
}

}
