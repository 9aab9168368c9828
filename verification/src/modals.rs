//! What stands in front of the panes: questions about host keys and existing files, the path
//! field, and the order in which escape closes them.

use vstd::prelude::*;

use crate::file_ops::{is_plain_name, plain_name};
use crate::helpers::string_of;
use crate::keys::{field_key, FieldKey, Keystroke};
use crate::lists::lemma_filter_take;
use crate::model::{
    ConflictDecision, ConflictDecisionCommand, ConflictRequestId, ConnectionState,
    DisconnectReason, Dispatch, HostKeyPrompt, ModalRequest, TabId, TransferConflictPrompt,
    TrustRequestId,
};
use crate::tabs::{lemma_store_with_tab, tab_changed, TabState, TabStore};
use crate::text::{trim, trimmed};
use crate::workspace::{dispatch_status, pane_focus, FocusTarget, Workspace};

verus! {

/// Which question an answer is for.
#[derive(Clone, Copy, PartialEq, Eq, Structural, Debug)]
pub enum ModalRequestId {
    Trust(TrustRequestId),
    Conflict(ConflictRequestId),
}

/// The id of a question.
pub open spec fn id_of(modal: ModalRequest) -> ModalRequestId {
    match modal {
        ModalRequest::HostKey(prompt) => ModalRequestId::Trust(prompt.request_id),
        ModalRequest::TransferConflict(prompt) => ModalRequestId::Conflict(prompt.request_id),
    }
}

impl ModalRequest {
    /// The id of the question.
    pub fn request_id(&self) -> (r: ModalRequestId)
        ensures
            r == id_of(*self),
    {
        match self {
            ModalRequest::HostKey(prompt) => ModalRequestId::Trust(prompt.request_id),
            ModalRequest::TransferConflict(prompt) => ModalRequestId::Conflict(prompt.request_id),
        }
    }
}

/// The other questions.
pub open spec fn other_questions(id: ModalRequestId) -> spec_fn(ModalRequest) -> bool {
    |m: ModalRequest| id_of(m) != id
}

/// A question is asked.
pub open spec fn is_asked(modals: Seq<ModalRequest>, id: ModalRequestId) -> bool {
    exists|i: int| 0 <= i < modals.len() && id_of(#[trigger] modals[i]) == id
}

/// The latest question about a host key of a tab.
pub open spec fn latest_host_key(modals: Seq<ModalRequest>, tab_id: TabId) -> Option<HostKeyPrompt>
    decreases modals.len(),
{
    if modals.len() == 0 {
        None
    } else {
        match modals.last() {
            ModalRequest::HostKey(prompt) => if prompt.scope.tab_id == tab_id {
                Some(prompt)
            } else {
                latest_host_key(modals.drop_last(), tab_id)
            },
            _ => latest_host_key(modals.drop_last(), tab_id),
        }
    }
}

/// The latest question about an existing file.
pub open spec fn latest_conflict(modals: Seq<ModalRequest>) -> Option<TransferConflictPrompt>
    decreases modals.len(),
{
    if modals.len() == 0 {
        None
    } else {
        match modals.last() {
            ModalRequest::TransferConflict(prompt) => Some(prompt),
            _ => latest_conflict(modals.drop_last()),
        }
    }
}

/// One tab changed as given, where one is active; nothing did otherwise.
pub open spec fn active_became(
    before: TabStore,
    after: TabStore,
    change: spec_fn(TabState) -> TabState,
) -> bool {
    match before.active() {
        None => after == before,
        Some(tab) => {
            &&& tab_changed(before, after, before.active_index())
            &&& after.tabs@[before.active_index()] == change(tab)
        },
    }
}

/// A tab that waits for the answer to a question.
pub open spec fn waits_for(tab: TabState, request_id: TrustRequestId) -> bool {
    tab.connection matches ConnectionState::AwaitingHostKey { request_id: pending, .. } && pending
        == request_id
}

/// A tab whose host key was accepted: its connection goes on.
pub open spec fn key_accepted(request_id: TrustRequestId) -> spec_fn(TabState) -> TabState {
    |tab: TabState|
        match tab.connection {
            ConnectionState::AwaitingHostKey { session_id, session_epoch, .. } => if waits_for(
                tab,
                request_id,
            ) {
                TabState {
                    connection: ConnectionState::Connecting { session_id, session_epoch },
                    ..tab
                }
            } else {
                tab
            },
            _ => tab,
        }
}

/// A tab whose host key was rejected: it is not connected.
pub open spec fn key_rejected(request_id: TrustRequestId) -> spec_fn(TabState) -> TabState {
    |tab: TabState|
        if waits_for(tab, request_id) {
            TabState {
                connection: ConnectionState::Disconnected {
                    reason: DisconnectReason::UserRequested,
                },
                ..tab
            }
        } else {
            tab
        }
}

impl TabStore {
    /// Gives the tab at `i` another connection state.
    pub(crate) fn set_connection(&mut self, i: usize, connection: ConnectionState)
        requires
            old(self).wf(),
            i < old(self).tabs@.len(),
        ensures
            final(self).wf(),
            tab_changed(*old(self), *final(self), i as int),
            final(self).tabs@[i as int] == (TabState { connection, ..old(self).tabs@[i as int] }),
    {
        let ghost before = *self;
        self.tabs[i].connection = connection;
        proof {
            assert(self.tabs@ =~= before.tabs@.update(i as int, self.tabs@[i as int]));
            lemma_store_with_tab(before, *self, i as int);
        }
    }

    fn accept_key(&mut self, request_id: TrustRequestId)
        requires
            old(self).wf(),
        ensures
            final(self).wf(),
            active_became(*old(self), *final(self), key_accepted(request_id)),
    {
        if let Some(i) = self.active_position() {
            let next = match &self.tabs[i].connection {
                ConnectionState::AwaitingHostKey {
                    session_id,
                    session_epoch,
                    request_id: pending,
                } => if *pending == request_id {
                    Some((*session_id, *session_epoch))
                } else {
                    None
                },
                _ => None,
            };
            if let Some((session_id, session_epoch)) = next {
                self.set_connection(i, ConnectionState::Connecting { session_id, session_epoch });
            } else {
                assert(self.tabs@ =~= self.tabs@.update(i as int, self.tabs@[i as int]));
            }
        }
    }

    fn reject_key(&mut self, request_id: TrustRequestId)
        requires
            old(self).wf(),
        ensures
            final(self).wf(),
            active_became(*old(self), *final(self), key_rejected(request_id)),
    {
        if let Some(i) = self.active_position() {
            let waits = match &self.tabs[i].connection {
                ConnectionState::AwaitingHostKey { request_id: pending, .. } => *pending
                    == request_id,
                _ => false,
            };
            if waits {
                self.set_connection(
                    i,
                    ConnectionState::Disconnected { reason: DisconnectReason::UserRequested },
                );
            } else {
                assert(self.tabs@ =~= self.tabs@.update(i as int, self.tabs@[i as int]));
            }
        }
    }
}

impl Workspace {
    /// Whether a question about an existing file is asked here.
    pub fn has_transfer_conflict_modal(&self, request_id: ConflictRequestId) -> (r: bool)
        ensures
            r == is_asked(self.modals@, ModalRequestId::Conflict(request_id)),
    {
        let id = ModalRequestId::Conflict(request_id);
        let mut i: usize = 0;
        while i < self.modals.len()
            invariant
                i <= self.modals@.len(),
                id == ModalRequestId::Conflict(request_id),
                forall|k: int| 0 <= k < i ==> id_of(#[trigger] self.modals@[k]) != id,
            decreases self.modals@.len() - i,
        {
            if self.modals[i].request_id() == id {
                assert(id_of(self.modals@[i as int]) == id);
                return true;
            }
            i += 1;
        }
        false
    }

    /// Asks a question about an existing file, unless it is asked already; `default_name` is
    /// offered as another name.
    pub fn present_transfer_conflict(
        &mut self,
        prompt: TransferConflictPrompt,
        default_name: String,
    )
        ensures
            is_asked(old(self).modals@, ModalRequestId::Conflict(prompt.request_id))
                ==> *final(self) == *old(self),
            !is_asked(old(self).modals@, ModalRequestId::Conflict(prompt.request_id)) ==> {
                &&& *final(self) == (Workspace {
                    modals: final(self).modals,
                    conflict_rename: default_name,
                    conflict_rename_error: None,
                    focus: FocusTarget::Modal,
                    ..*old(self)
                })
                &&& final(self).modals@ == old(self).modals@.push(
                    ModalRequest::TransferConflict(prompt),
                )
                &&& latest_conflict(final(self).modals@) == Some(prompt)
            },
    {
        if self.has_transfer_conflict_modal(prompt.request_id) {
            return;
        }
        self.modals.push(ModalRequest::TransferConflict(prompt));
        self.conflict_rename = default_name;
        self.conflict_rename_error = None;
        self.focus = FocusTarget::Modal;
    }

    /// The question about a host key that the active tab asks.
    pub open spec fn host_key_asked(&self) -> Option<HostKeyPrompt> {
        match self.tabs.active_tab_id {
            Some(id) => latest_host_key(self.modals@, id),
            None => None,
        }
    }

    /// The question about a host key that the active tab asks.
    pub fn active_host_key_prompt(&self) -> (r: Option<&HostKeyPrompt>)
        ensures
            r is Some <==> self.host_key_asked() is Some,
            r is Some ==> *r->0 == self.host_key_asked()->0,
    {
        let tab_id = match self.tabs.active_tab_id {
            Some(id) => id,
            None => return None,
        };
        let mut i: usize = self.modals.len();
        assert(self.modals@.take(i as int) =~= self.modals@);
        while i > 0
            invariant
                i <= self.modals@.len(),
                latest_host_key(self.modals@, tab_id) == latest_host_key(
                    self.modals@.take(i as int),
                    tab_id,
                ),
                self.tabs.active_tab_id == Some(tab_id),
            decreases i,
        {
            i -= 1;
            assert(self.modals@.take(i + 1).drop_last() =~= self.modals@.take(i as int));
            if let ModalRequest::HostKey(prompt) = &self.modals[i] {
                if prompt.scope.tab_id == tab_id {
                    return Some(prompt);
                }
            }
        }
        None
    }

    /// The question about an existing file that is asked.
    pub fn active_transfer_conflict_prompt(&self) -> (r: Option<&TransferConflictPrompt>)
        ensures
            r is Some <==> latest_conflict(self.modals@) is Some,
            r is Some ==> *r->0 == latest_conflict(self.modals@)->0,
    {
        let mut i: usize = self.modals.len();
        assert(self.modals@.take(i as int) =~= self.modals@);
        while i > 0
            invariant
                i <= self.modals@.len(),
                latest_conflict(self.modals@) == latest_conflict(self.modals@.take(i as int)),
            decreases i,
        {
            i -= 1;
            assert(self.modals@.take(i + 1).drop_last() =~= self.modals@.take(i as int));
            if let ModalRequest::TransferConflict(prompt) = &self.modals[i] {
                return Some(prompt);
            }
        }
        None
    }

    /// Drops a question.
    pub fn drop_question(&mut self, id: ModalRequestId)
        ensures
            *final(self) == (Workspace { modals: final(self).modals, ..*old(self) }),
            final(self).modals@ == old(self).modals@.filter(other_questions(id)),
    {
        let ghost all = self.modals@;
        let ghost keep = other_questions(id);
        let count: usize = self.modals.len();
        let mut kept: Vec<ModalRequest> = Vec::new();
        let mut i: usize = 0;
        assert(all.take(0).filter(keep) =~= Seq::<ModalRequest>::empty()) by {
            reveal(Seq::filter);
        }
        assert(all.skip(0) =~= all);
        while i < count
            invariant
                i <= count,
                count == all.len(),
                self.modals@ == all.skip(i as int),
                *self == (Workspace { modals: self.modals, ..*old(self) }),
                keep == other_questions(id),
                kept@ == all.take(i as int).filter(keep),
            decreases count - i,
        {
            proof {
                lemma_filter_take(all, keep, i as int);
            }
            let modal = self.modals.remove(0);
            assert(modal == all[i as int]);
            assert(self.modals@ =~= all.skip(i + 1));
            if modal.request_id() != id {
                kept.push(modal);
            }
            i += 1;
        }
        assert(all.take(i as int) =~= all);
        self.modals = kept;
    }

    /// Drops a question about a host key.
    pub fn remove_modal(&mut self, request_id: TrustRequestId)
        ensures
            *final(self) == (Workspace { modals: final(self).modals, ..*old(self) }),
            final(self).modals@ == old(self).modals@.filter(
                other_questions(ModalRequestId::Trust(request_id)),
            ),
    {
        self.drop_question(ModalRequestId::Trust(request_id));
    }

    /// Drops a question about an existing file; `next_name` is offered for the next one, where
    /// there is one.
    pub fn remove_conflict_modal(&mut self, request_id: ConflictRequestId, next_name: String)
        ensures
            *final(self) == (Workspace {
                modals: final(self).modals,
                conflict_rename: final(self).conflict_rename,
                conflict_rename_error: None,
                ..*old(self)
            }),
            final(self).modals@ == old(self).modals@.filter(
                other_questions(ModalRequestId::Conflict(request_id)),
            ),
            final(self).conflict_rename@ == if latest_conflict(final(self).modals@) is Some {
                next_name@
            } else {
                Seq::empty()
            },
    {
        self.drop_question(ModalRequestId::Conflict(request_id));
        let more = self.active_transfer_conflict_prompt().is_some();
        self.conflict_rename_error = None;
        self.conflict_rename = if more {
            next_name
        } else {
            String::new()
        };
    }

    /// The question about an existing file that is asked once another is answered: what its
    /// default name is made from.
    pub fn conflict_after(&self, request_id: ConflictRequestId) -> (r: Option<
        TransferConflictPrompt,
    >)
        ensures
            r == latest_conflict(
                self.modals@.filter(other_questions(ModalRequestId::Conflict(request_id))),
            ),
    {
        let id = ModalRequestId::Conflict(request_id);
        let ghost keep = other_questions(id);
        let mut found: Option<TransferConflictPrompt> = None;
        let mut i: usize = 0;
        assert(self.modals@.take(0).filter(keep) =~= Seq::<ModalRequest>::empty()) by {
            reveal(Seq::filter);
        }
        while i < self.modals.len()
            invariant
                i <= self.modals@.len(),
                keep == other_questions(id),
                found == latest_conflict(self.modals@.take(i as int).filter(keep)),
            decreases self.modals@.len() - i,
        {
            proof {
                lemma_filter_take(self.modals@, keep, i as int);
                let front = self.modals@.take(i as int).filter(keep);
                assert(front.push(self.modals@[i as int]).drop_last() =~= front);
            }
            if self.modals[i].request_id() != id {
                if let ModalRequest::TransferConflict(prompt) = &self.modals[i] {
                    found = Some(prompt.clone());
                }
            }
            i += 1;
        }
        assert(self.modals@.take(i as int) =~= self.modals@);
        found
    }

    /// Follows the answer to a question about an existing file, of which `outcome` came. Says
    /// whether it was sent.
    pub fn resolve_transfer_conflict(
        &mut self,
        request_id: ConflictRequestId,
        next_name: String,
        outcome: Dispatch,
    ) -> (r: bool)
        ensures
            r == (outcome is Sent),
            !r ==> *final(self) == (Workspace {
                status_message: final(self).status_message,
                ..*old(self)
            }) && string_of(final(self).status_message) == dispatch_status(outcome),
            r ==> {
                &&& *final(self) == (Workspace {
                    modals: final(self).modals,
                    conflict_rename: final(self).conflict_rename,
                    conflict_rename_error: None,
                    focus: pane_focus(old(self).focused_side),
                    ..*old(self)
                })
                &&& final(self).modals@ == old(self).modals@.filter(
                    other_questions(ModalRequestId::Conflict(request_id)),
                )
                &&& final(self).conflict_rename@ == if latest_conflict(
                    final(self).modals@,
                ) is Some {
                    next_name@
                } else {
                    Seq::empty()
                }
            },
    {
        if !self.note_dispatch(outcome) {
            return false;
        }
        self.remove_conflict_modal(request_id, next_name);
        let side = self.focused_side;
        self.focus_pane(side);
        true
    }

    /// The answer that gives the new file the name in the field; a name that cannot be one is
    /// refused in the dialog.
    pub fn submit_transfer_rename(&mut self, apply_to_all: bool) -> (r: Option<
        ConflictDecisionCommand,
    >)
        ensures
            ({
                let asked = latest_conflict(old(self).modals@);
                let name = trimmed(old(self).conflict_rename@);
                &&& r is Some <==> asked is Some && is_plain_name(name)
                &&& r is Some ==> {
                    &&& *final(self) == *old(self)
                    &&& r->0.plan_id == asked->0.plan_id
                    &&& r->0.request_id == asked->0.request_id
                    &&& r->0.decision matches ConflictDecision::Rename {
                        new_name,
                        apply_to_all: all,
                    } && new_name@ == name && all == apply_to_all
                }
                &&& asked is None ==> *final(self) == *old(self)
                &&& asked is Some && !is_plain_name(name) ==> {
                    &&& *final(self) == (Workspace {
                        conflict_rename_error: final(self).conflict_rename_error,
                        ..*old(self)
                    })
                    &&& string_of(final(self).conflict_rename_error) == Some(
                        "Enter a file name without path separators or parent-directory names."@,
                    )
                }
            }),
    {
        let (plan_id, request_id) = match self.active_transfer_conflict_prompt() {
            Some(prompt) => (prompt.plan_id, prompt.request_id),
            None => return None,
        };
        let new_name = trim(self.conflict_rename.as_str());
        if !plain_name(new_name.as_str()) {
            self.conflict_rename_error = Some(
                "Enter a file name without path separators or parent-directory names.".to_string(),
            );
            return None;
        }
        Some(
            ConflictDecisionCommand {
                plan_id,
                request_id,
                decision: ConflictDecision::Rename { new_name, apply_to_all },
            },
        )
    }

    /// A key typed while a question about an existing file is asked. Says what it does; text goes
    /// into the field for the name.
    pub fn handle_transfer_conflict_key(&mut self, stroke: &Keystroke, typed: Option<String>) -> (r:
        FieldKey)
        ensures
            ({
                let asked = latest_conflict(old(self).modals@) is Some;
                &&& !asked ==> r is Unused
                &&& asked && stroke.is_plain("enter"@) ==> r is Submit
                &&& asked && !stroke.is_plain("enter"@) ==> r == match typed {
                    Some(text) => FieldKey::Edited(text),
                    None => FieldKey::Unused,
                }
            }),
            *final(self) == match r {
                FieldKey::Edited(text) => Workspace {
                    conflict_rename: text,
                    conflict_rename_error: None,
                    ..*old(self)
                },
                _ => *old(self),
            },
    {
        if self.active_transfer_conflict_prompt().is_none() {
            return FieldKey::Unused;
        }
        let what = field_key(stroke, typed);
        if let FieldKey::Edited(text) = &what {
            self.conflict_rename = text.clone();
            self.conflict_rename_error = None;
        }
        what
    }

    /// Follows the acceptance of a host key, of which `outcome` came.
    pub fn accept_host_key(&mut self, request_id: TrustRequestId, outcome: Dispatch) -> (r: bool)
        requires
            old(self).wf(),
        ensures
            final(self).wf(),
            r == (outcome is Sent),
            !r ==> *final(self) == (Workspace {
                status_message: final(self).status_message,
                ..*old(self)
            }) && string_of(final(self).status_message) == dispatch_status(outcome),
            r ==> {
                &&& *final(self) == (Workspace {
                    modals: final(self).modals,
                    tabs: final(self).tabs,
                    focus: pane_focus(old(self).focused_side),
                    ..*old(self)
                })
                &&& final(self).modals@ == old(self).modals@.filter(
                    other_questions(ModalRequestId::Trust(request_id)),
                )
                &&& active_became(old(self).tabs, final(self).tabs, key_accepted(request_id))
            },
    {
        if !self.note_dispatch(outcome) {
            return false;
        }
        self.remove_modal(request_id);
        self.tabs.accept_key(request_id);
        let side = self.focused_side;
        self.focus_pane(side);
        true
    }

    /// Follows the rejection of a host key, of which `outcome` came.
    pub fn reject_host_key(&mut self, request_id: TrustRequestId, outcome: Dispatch) -> (r: bool)
        requires
            old(self).wf(),
        ensures
            final(self).wf(),
            r == (outcome is Sent),
            !r ==> *final(self) == (Workspace {
                status_message: final(self).status_message,
                ..*old(self)
            }) && string_of(final(self).status_message) == dispatch_status(outcome),
            r ==> {
                &&& *final(self) == (Workspace {
                    modals: final(self).modals,
                    tabs: final(self).tabs,
                    focus: pane_focus(old(self).focused_side),
                    ..*old(self)
                })
                &&& final(self).modals@ == old(self).modals@.filter(
                    other_questions(ModalRequestId::Trust(request_id)),
                )
                &&& active_became(old(self).tabs, final(self).tabs, key_rejected(request_id))
            },
    {
        if !self.note_dispatch(outcome) {
            return false;
        }
        self.remove_modal(request_id);
        self.tabs.reject_key(request_id);
        let side = self.focused_side;
        self.focus_pane(side);
        true
    }
}

/// An answered question is asked no more, and every other one still is.
pub proof fn law_answered_question_is_gone(modals: Seq<ModalRequest>, id: ModalRequestId)
    ensures
        !is_asked(modals.filter(other_questions(id)), id),
        forall|other: ModalRequestId|
            other != id ==> (is_asked(modals.filter(other_questions(id)), other) <==> is_asked(
                modals,
                other,
            )),
{
    crate::lists::lemma_filter_holds(modals, other_questions(id));
    let rest = modals.filter(other_questions(id));
    if is_asked(rest, id) {
        let i = choose|i: int| 0 <= i < rest.len() && id_of(#[trigger] rest[i]) == id;
        assert(rest.contains(rest[i]));
    }
    assert forall|other: ModalRequestId| other != id implies (is_asked(rest, other) <==> is_asked(
        modals,
        other,
    )) by {
        if is_asked(rest, other) {
            let i = choose|i: int| 0 <= i < rest.len() && id_of(#[trigger] rest[i]) == other;
            assert(rest.contains(rest[i]));
            let k = choose|k: int| 0 <= k < modals.len() && modals[k] == rest[i];
            assert(id_of(modals[k]) == other);
        }
        if is_asked(modals, other) {
            let i = choose|i: int| 0 <= i < modals.len() && id_of(#[trigger] modals[i]) == other;
            assert(modals.contains(modals[i]));
            assert(rest.contains(modals[i]));
            let k = choose|k: int| 0 <= k < rest.len() && rest[k] == modals[i];
            assert(id_of(rest[k]) == other);
        }
    }
}

/// Rejecting the key that a tab waits for leaves no live session in it: whatever the connection
/// attempt still sends is out of date.
pub proof fn law_rejected_key_ends_the_session(tab: TabState, request_id: TrustRequestId)
    requires
        waits_for(tab, request_id),
    ensures
        crate::model::live_session(key_rejected(request_id)(tab).connection) is None,
        crate::model::live_session(key_accepted(request_id)(tab).connection)
            == crate::model::live_session(tab.connection),
{
}

}
