//! What the runtime tells, and what a window makes of it.

use vstd::prelude::*;

use super::common::{lemma_shown, lemma_tab_at, shows};
use super::connecting::can_connect;
use super::sessions::same_text;
use crate::edit_sessions::EditSessionStore;
use crate::events::{
    AppEvent, ConnectedTab, DisconnectedTab, EventStep, FsFailure, LoadingDirectory,
    LocalDirectory, RefusedTab, RemoteDirectory, RemoteFailure,
};
use crate::lists::lemma_filter_holds;
use crate::modals::{latest_host_key, other_questions, ModalRequestId};
use crate::model::{
    ConnectionSettings, ConnectionState, Dispatch, FsScope, HostKeyMismatch, HostKeyPrompt,
    ModalRequest, ProfileId, RemoteEventScope, SessionId, TransferId,
};
use crate::resources::ResidualTemp;
use crate::tabs::{lemma_tab_index, TabState};
use crate::workspace::{tab_endpoint, Workspace};

verus! {

/// The session of a tab whose connection is up or being made.
pub open spec fn has_session(tab: TabState, session: SessionId) -> bool {
    match tab.connection {
        ConnectionState::Connecting { session_id, .. } => session_id == session,
        ConnectionState::AwaitingHostKey { session_id, .. } => session_id == session,
        ConnectionState::AwaitingCredentials { session_id, .. } => session_id == session,
        ConnectionState::Connected { session_id, .. } => session_id == session,
        ConnectionState::Reconnecting { session_id, .. } => session_id == session,
        _ => false,
    }
}

/// What is told under the scope is of the connection that the tab at `i` has.
pub open spec fn is_of(w: Workspace, i: int, scope: RemoteEventScope) -> bool {
    &&& w.wf()
    &&& 0 <= i < w.tabs.tabs@.len()
    &&& scope.tab_id == w.tabs.tabs@[i].id
    &&& scope.session_epoch == w.tabs.tabs@[i].session_epoch
    &&& has_session(w.tabs.tabs@[i], scope.session_id)
}

/// No tab but the one at `i` changed.
pub open spec fn others_stay(before: Workspace, after: Workspace, i: int) -> bool {
    &&& after.tabs.tabs@.len() == before.tabs.tabs@.len()
    &&& after.tabs.active_tab_id == before.tabs.active_tab_id
    &&& after.tabs.tabs@[i].id == before.tabs.tabs@[i].id
    &&& forall|j: int|
        0 <= j < before.tabs.tabs@.len() && j != i ==> #[trigger] after.tabs.tabs@[j]
            == before.tabs.tabs@[j]
}

/// What is told of a connection that the tab no longer has, or of a tab that is gone, is dropped.
pub proof fn law_what_is_out_of_date_is_dropped(
    w: &mut Workspace,
    event: AppEvent,
    scope: RemoteEventScope,
    told: Option<RemoteEventScope>,
    r: EventStep,
)
    requires
        old(w).wf(),
        call_ensures(AppEvent::scope, (&event,), told),
        told == Some(scope),
        forall|j: int|
            0 <= j < old(w).tabs.tabs@.len() && (#[trigger] old(w).tabs.tabs@[j]).id
                == scope.tab_id ==> old(w).tabs.tabs@[j].session_epoch != scope.session_epoch
                || !has_session(old(w).tabs.tabs@[j], scope.session_id),
        call_ensures(Workspace::handle_app_event, (w, event), r),
    ensures
        r is Stale,
        *final(w) == *old(w),
{
    lemma_tab_index(old(w).tabs.tabs@, scope.tab_id);
    if crate::tabs::has_tab(old(w).tabs.tabs@, scope.tab_id) {
        let j = crate::tabs::tab_index(old(w).tabs.tabs@, scope.tab_id);
        assert(old(w).tabs.tabs@[j].id == scope.tab_id);
    }
}

/// What is told under a scope is of the tab of that scope.
pub proof fn law_events_name_their_connection(
    prompt: HostKeyPrompt,
    mismatch: HostKeyMismatch,
    up: ConnectedTab,
    down: DisconnectedTab,
    refused: RefusedTab,
    loading: LoadingDirectory,
    loaded: RemoteDirectory,
    failure: RemoteFailure,
    scope: RemoteEventScope,
    event: AppEvent,
    told: Option<RemoteEventScope>,
)
    requires
        call_ensures(AppEvent::scope, (&event,), told),
    ensures
        event == AppEvent::TabConnecting(scope) ==> told == Some(scope),
        event == AppEvent::HostKeyUnknown(prompt) ==> told == Some(prompt.scope),
        event == AppEvent::HostKeyMismatch(mismatch) ==> told == Some(mismatch.scope),
        event == AppEvent::TabConnected(up) ==> told == Some(up.scope),
        event == AppEvent::TabDisconnected(down) ==> told == Some(down.scope),
        event == AppEvent::AuthFailed(refused) ==> told == Some(refused.scope),
        event == AppEvent::RemoteDirLoading(loading) ==> told == Some(loading.scope),
        event == AppEvent::RemoteDirLoaded(loaded) ==> told == Some(loaded.scope),
        event == AppEvent::RemoteOperationFailed(failure) ==> told == Some(failure.scope),
{
}

/// A tab whose connection is up reads the directory that it was in before, or else the one where
/// the server starts, and waits for it.
pub proof fn law_connected_tab_goes_where_it_was(
    w: &mut Workspace,
    i: int,
    up: ConnectedTab,
    r: EventStep,
)
    requires
        is_of(*old(w), i, up.scope),
        call_ensures(Workspace::handle_app_event, (w, AppEvent::TabConnected(up)), r),
    ensures
        others_stay(*old(w), *final(w), i),
        ({
            let tab = old(w).tabs.tabs@[i];
            let now = final(w).tabs.tabs@[i];
            let place = if tab.restored_target is Some
                && tab.restored_target->0.remote_path is Some {
                tab.restored_target->0.remote_path->0
            } else {
                up.remote_root
            };
            &&& r == (EventStep::ReadRemote { tab_id: tab.id, path: place })
            &&& now.connection == (ConnectionState::Connected {
                session_id: up.scope.session_id,
                session_epoch: up.scope.session_epoch,
            })
            &&& now.session_epoch == tab.session_epoch
            &&& now.remote.path == Some(place)
            &&& now.remote.entries@.len() == 0
            &&& now.local == tab.local
            &&& now.connection_settings == tab.connection_settings
            &&& now.profile_id == tab.profile_id
        }),
{
    lemma_tab_at(old(w).tabs.tabs@, i);
}

/// A tab that loses its connection is still of the same endpoint and place, and connected again it
/// reads the directory that it was in.
pub proof fn law_reconnected_tab_goes_where_it_was(
    a: &mut Workspace,
    b: &mut Workspace,
    c: &mut Workspace,
    edits: &mut EditSessionStore,
    i: int,
    down: DisconnectedTab,
    place: String,
    settings: ConnectionSettings,
    profile_id: Option<ProfileId>,
    was: (String, u16, String),
    stays: (String, u16, String),
    up: ConnectedTab,
    lost: EventStep,
    again: EventStep,
)
    requires
        shows(*old(a), i),
        is_of(*old(a), i, down.scope),
        old(a).tabs.tabs@[i].remote.path == Some(place),
        old(a).tabs.tabs@[i].connection_settings is Some,
        call_ensures(Workspace::handle_app_event, (a, AppEvent::TabDisconnected(down)), lost),
        call_ensures(tab_endpoint, (&old(a).tabs.tabs@[i],), was),
        call_ensures(tab_endpoint, (&final(a).tabs.tabs@[i],), stays),
        *old(b) == *final(a),
        can_connect(*old(b), i),
        old(edits).wf(),
        call_ensures(
            Workspace::connect_with,
            (b, settings, profile_id, edits, Dispatch::Sent),
            (),
        ),
        *old(c) == *final(b),
        is_of(*old(c), i, up.scope),
        call_ensures(Workspace::handle_app_event, (c, AppEvent::TabConnected(up)), again),
    ensures
        others_stay(*old(a), *final(a), i),
        final(a).tabs.tabs@[i].connection == (ConnectionState::Disconnected {
            reason: down.reason,
        }),
        final(a).tabs.tabs@[i].remote.path is None,
        final(a).tabs.tabs@[i].remote.entries@.len() == 0,
        final(a).tabs.tabs@[i].local == old(a).tabs.tabs@[i].local,
        stays.0@ == was.0@ && stays.1 == was.1 && stays.2@ == was.2@,
        again matches EventStep::ReadRemote { tab_id, path } && tab_id == old(a).tabs.tabs@[i].id
            && path@ == place@,
{
    lemma_shown(*old(a), i);
    assert(shows(*final(a), i));
    lemma_shown(*final(a), i);
    lemma_tab_at(old(c).tabs.tabs@, i);
}

/// A remote directory that was read is shown where it is still the one that the tab is in, and not
/// otherwise. While it is being read, the pane says so.
pub proof fn law_read_directory_is_shown_where_it_belongs(
    a: &mut Workspace,
    b: &mut Workspace,
    i: int,
    loading: LoadingDirectory,
    loaded: RemoteDirectory,
    r: EventStep,
    s: EventStep,
)
    requires
        is_of(*old(a), i, loading.scope),
        loaded.scope == loading.scope,
        old(a).tabs.tabs@[i].remote.path is Some,
        call_ensures(Workspace::handle_app_event, (a, AppEvent::RemoteDirLoading(loading)), r),
        is_of(*old(b), i, loaded.scope),
        old(b).tabs.tabs@[i].remote.path is Some,
        call_ensures(Workspace::handle_app_event, (b, AppEvent::RemoteDirLoaded(loaded)), s),
    ensures
        r is Done && s is Done,
        loading.path@ != old(a).tabs.tabs@[i].remote.path->0@ ==> *final(a) == *old(a),
        loading.path@ == old(a).tabs.tabs@[i].remote.path->0@ ==> {
            &&& others_stay(*old(a), *final(a), i)
            &&& final(a).tabs.tabs@[i].remote.is_refreshing
            &&& final(a).tabs.tabs@[i].remote.error is None
            &&& final(a).tabs.tabs@[i].remote.entries == old(a).tabs.tabs@[i].remote.entries
        },
        loaded.path@ != old(b).tabs.tabs@[i].remote.path->0@ ==> *final(b) == *old(b),
        loaded.path@ == old(b).tabs.tabs@[i].remote.path->0@ ==> {
            &&& others_stay(*old(b), *final(b), i)
            &&& final(b).tabs.tabs@[i].remote.entries@ == loaded.entries@
            &&& !final(b).tabs.tabs@[i].remote.is_refreshing
            &&& final(b).tabs.tabs@[i].remote.error is None
            &&& final(b).tabs.tabs@[i].remote.path == old(b).tabs.tabs@[i].remote.path
            &&& final(b).tabs.tabs@[i].selected_paths@.len() == 0
            &&& final(b).tabs.tabs@[i].connection == old(b).tabs.tabs@[i].connection
        },
{
    lemma_tab_at(old(a).tabs.tabs@, i);
    lemma_tab_at(old(b).tabs.tabs@, i);
}

/// A local directory that was read is shown in the tab that is still in it.
pub proof fn law_local_directory_is_shown_where_it_belongs(
    w: &mut Workspace,
    i: int,
    dir: LocalDirectory,
    r: EventStep,
)
    requires
        old(w).wf(),
        0 <= i < old(w).tabs.tabs@.len(),
        dir.tab_id == old(w).tabs.tabs@[i].id,
        old(w).tabs.tabs@[i].local.path is Some,
        call_ensures(Workspace::handle_app_event, (w, AppEvent::LocalDirLoaded(dir)), r),
    ensures
        dir.path@ != old(w).tabs.tabs@[i].local.path->0@ ==> *final(w) == *old(w),
        dir.path@ == old(w).tabs.tabs@[i].local.path->0@ ==> {
            &&& others_stay(*old(w), *final(w), i)
            &&& final(w).tabs.tabs@[i].local.entries@ == dir.entries@
            &&& final(w).tabs.tabs@[i].local.error is None
            &&& final(w).tabs.tabs@[i].remote == old(w).tabs.tabs@[i].remote
        },
{
    lemma_tab_at(old(w).tabs.tabs@, i);
}

/// What failed in the directory that a tab is in is told in its pane, and the listing stays; what
/// failed elsewhere is told in the status alone.
pub proof fn law_failure_is_told_where_it_belongs(
    w: &mut Workspace,
    i: int,
    failure: RemoteFailure,
    r: EventStep,
)
    requires
        is_of(*old(w), i, failure.scope),
        call_ensures(
            Workspace::handle_app_event,
            (w, AppEvent::RemoteOperationFailed(failure)),
            r,
        ),
    ensures
        r is Done,
        final(w).status_message is Some,
        failure.path is Some && !same_text(failure.path, old(w).tabs.tabs@[i].remote.path)
            ==> final(w).tabs == old(w).tabs,
        failure.path is None || same_text(failure.path, old(w).tabs.tabs@[i].remote.path) ==> {
            &&& others_stay(*old(w), *final(w), i)
            &&& final(w).tabs.tabs@[i].remote.error == Some(failure.error)
            &&& !final(w).tabs.tabs@[i].remote.is_refreshing
            &&& final(w).tabs.tabs@[i].remote.entries == old(w).tabs.tabs@[i].remote.entries
            &&& final(w).tabs.tabs@[i].remote.path == old(w).tabs.tabs@[i].remote.path
            &&& final(w).tabs.tabs@[i].connection == old(w).tabs.tabs@[i].connection
        },
{
    lemma_tab_at(old(w).tabs.tabs@, i);
}

/// A sign-in that was refused, or a host key that is not the stored one, ends the attempt: the tab
/// says why, and nothing more of it is taken.
pub proof fn law_refused_attempt_is_over(
    a: &mut Workspace,
    b: &mut Workspace,
    i: int,
    refused: RefusedTab,
    mismatch: HostKeyMismatch,
    r: EventStep,
    s: EventStep,
    taken: bool,
    still: bool,
    question: ModalRequest,
)
    requires
        is_of(*old(a), i, refused.scope),
        call_ensures(Workspace::handle_app_event, (a, AppEvent::AuthFailed(refused)), r),
        call_ensures(Workspace::accepts_remote_scope, (&*final(a), &refused.scope), taken),
        is_of(*old(b), i, mismatch.scope),
        call_ensures(Workspace::handle_app_event, (b, AppEvent::HostKeyMismatch(mismatch)), s),
        call_ensures(Workspace::accepts_remote_scope, (&*final(b), &mismatch.scope), still),
    ensures
        others_stay(*old(a), *final(a), i),
        final(a).tabs.tabs@[i].connection == (ConnectionState::Failed { error: refused.reason }),
        final(a).tabs.tabs@[i].connection_settings == old(a).tabs.tabs@[i].connection_settings,
        !taken,
        final(a).modals@.contains(question) ==> old(a).modals@.contains(question),
        old(a).modals@.contains(question) && question is TransferConflict
            ==> final(a).modals@.contains(question),
        final(a).modals@.contains(question) && question is HostKey
            ==> question->HostKey_0.scope != refused.scope,
        old(a).modals@.contains(question) && question is HostKey
            && question->HostKey_0.scope.tab_id == refused.scope.tab_id
            ==> !final(a).modals@.contains(question),
        others_stay(*old(b), *final(b), i),
        final(b).tabs.tabs@[i].connection matches ConnectionState::Failed { error }
            && error.code is HostKeyMismatch && error.detail is Some,
        !still,
{
    lemma_tab_at(old(a).tabs.tabs@, i);
    lemma_tab_at(old(b).tabs.tabs@, i);
    crate::tabs::lemma_store_with_tab(old(a).tabs, final(a).tabs, i);
    crate::tabs::lemma_store_with_tab(old(b).tabs, final(b).tabs, i);
    crate::lists::lemma_filter_holds(
        old(a).modals@,
        crate::workspace::still_asked(final(a).tabs.tabs@),
    );
    lemma_tab_at(final(a).tabs.tabs@, i);
}

/// What a transfer leaves behind is remembered, and forgotten once it is gone.
pub proof fn law_temporary_files_are_remembered(
    a: &mut Workspace,
    b: &mut Workspace,
    record: ResidualTemp,
    transfer_id: TransferId,
    path: String,
    r: EventStep,
    s: EventStep,
)
    requires
        old(a).wf(),
        old(b).wf(),
        call_ensures(Workspace::handle_app_event, (a, AppEvent::ResidualTempCreated(record)), r),
        call_ensures(
            Workspace::handle_app_event,
            (b, AppEvent::ResidualTempCleared { transfer_id, path }),
            s,
        ),
    ensures
        r == EventStep::RememberTemp(record),
        s == (EventStep::ForgetTemp { transfer_id, path }),
        *final(a) == *old(a),
        *final(b) == *old(b),
{
}

/// A file operation that failed is told while its tab is there, and on the server only while it is
/// of the same connection.
pub proof fn law_failed_operation_is_told(
    w: &mut Workspace,
    i: int,
    failure: FsFailure,
    r: EventStep,
)
    requires
        old(w).wf(),
        0 <= i < old(w).tabs.tabs@.len(),
        call_ensures(Workspace::handle_app_event, (w, AppEvent::FsOperationFailed(failure)), r),
    ensures
        final(w).tabs == old(w).tabs,
        failure.scope == (FsScope::Local { tab_id: old(w).tabs.tabs@[i].id })
            ==> final(w).status_message is Some,
        failure.scope == (FsScope::Remote {
            tab_id: old(w).tabs.tabs@[i].id,
            session_epoch: old(w).tabs.tabs@[i].session_epoch,
        }) ==> final(w).status_message is Some,
        failure.scope matches FsScope::Remote { tab_id, session_epoch } && tab_id
            == old(w).tabs.tabs@[i].id && session_epoch != old(w).tabs.tabs@[i].session_epoch
            ==> *final(w) == *old(w),
{
    lemma_tab_at(old(w).tabs.tabs@, i);
}

/// The question `prompt` is asked at `k`, and no later one of its tab.
pub open spec fn asked_last(modals: Seq<ModalRequest>, k: int, prompt: HostKeyPrompt) -> bool {
    &&& 0 <= k < modals.len()
    &&& modals[k] == ModalRequest::HostKey(prompt)
    &&& forall|j: int|
        k < j < modals.len() ==> (#[trigger] modals[j] matches ModalRequest::HostKey(later)
            ==> later.scope.tab_id != prompt.scope.tab_id)
}

pub(crate) proof fn lemma_asked_last(modals: Seq<ModalRequest>, k: int, prompt: HostKeyPrompt)
    requires
        asked_last(modals, k, prompt),
    ensures
        latest_host_key(modals, prompt.scope.tab_id) == Some(prompt),
    decreases modals.len(),
{
    if k < modals.len() - 1 {
        let front = modals.drop_last();
        assert(front[k] == modals[k]);
        assert forall|j: int| k < j < front.len() implies (#[trigger] front[j] matches ModalRequest::HostKey(
            later,
        ) ==> later.scope.tab_id != prompt.scope.tab_id) by {
            assert(front[j] == modals[j]);
        }
        lemma_asked_last(front, k, prompt);
        assert(modals[modals.len() - 1] matches ModalRequest::HostKey(later)
            ==> later.scope.tab_id != prompt.scope.tab_id);
    }
}

/// A host key that is not known is asked about in its tab, which waits. Accepted, the same attempt
/// goes on; rejected, it is over. Either way the question is gone, and no other.
pub proof fn law_unknown_host_key_is_asked_about(
    a: &mut Workspace,
    b: &mut Workspace,
    c: &mut Workspace,
    i: int,
    prompt: HostKeyPrompt,
    r: EventStep,
    yes: bool,
    no: bool,
    going: bool,
    over: bool,
    other: ModalRequest,
)
    requires
        shows(*old(a), i),
        is_of(*old(a), i, prompt.scope),
        call_ensures(Workspace::handle_app_event, (a, AppEvent::HostKeyUnknown(prompt)), r),
        *old(b) == *final(a),
        call_ensures(Workspace::accept_host_key, (b, prompt.request_id, Dispatch::Sent), yes),
        call_ensures(Workspace::accepts_remote_scope, (&*final(b), &prompt.scope), going),
        *old(c) == *final(a),
        call_ensures(Workspace::reject_host_key, (c, prompt.request_id, Dispatch::Sent), no),
        call_ensures(Workspace::accepts_remote_scope, (&*final(c), &prompt.scope), over),
        match other {
            ModalRequest::HostKey(p) => p.request_id != prompt.request_id,
            ModalRequest::TransferConflict(_) => true,
        },
    ensures
        others_stay(*old(a), *final(a), i),
        final(a).modals@ == old(a).modals@.push(ModalRequest::HostKey(prompt)),
        final(a).tabs.tabs@[i].connection == (ConnectionState::AwaitingHostKey {
            session_id: prompt.scope.session_id,
            session_epoch: prompt.scope.session_epoch,
            request_id: prompt.request_id,
        }),
        yes && no,
        final(b).tabs.tabs@[i].connection == (ConnectionState::Connecting {
            session_id: prompt.scope.session_id,
            session_epoch: prompt.scope.session_epoch,
        }),
        going,
        final(c).tabs.tabs@[i].connection is Disconnected,
        !over,
        others_stay(*old(a), *final(b), i),
        others_stay(*old(a), *final(c), i),
        !final(b).modals@.contains(ModalRequest::HostKey(prompt)),
        !final(c).modals@.contains(ModalRequest::HostKey(prompt)),
        final(b).modals@.contains(other) <==> old(a).modals@.contains(other),
        final(c).modals@.contains(other) <==> old(a).modals@.contains(other),
{
    lemma_shown(*old(a), i);
    lemma_tab_at(old(a).tabs.tabs@, i);
    crate::tabs::lemma_store_with_tab(old(a).tabs, final(a).tabs, i);
    lemma_shown(*final(a), i);
    crate::tabs::lemma_store_with_tab(old(b).tabs, final(b).tabs, i);
    crate::tabs::lemma_store_with_tab(old(c).tabs, final(c).tabs, i);
    let keep = other_questions(ModalRequestId::Trust(prompt.request_id));
    lemma_filter_holds(final(a).modals@, keep);
    let was = old(a).modals@;
    let all = final(a).modals@;
    assert(keep(other));
    assert(!keep(ModalRequest::HostKey(prompt)));
    assert(all.filter(keep).contains(other) <==> all.contains(other));
    if was.contains(other) {
        let k = choose|k: int| 0 <= k < was.len() && was[k] == other;
        assert(all[k] == other);
    }
    if all.contains(other) {
        let k = choose|k: int| 0 <= k < all.len() && all[k] == other;
        assert(k < was.len());
        assert(was[k] == other);
    }
}

/// The question that is shown is the latest about the tab that is shown. A tab with none shows
/// none.
pub proof fn law_latest_question_is_shown<'a>(
    w: &'a Workspace,
    i: int,
    k: int,
    prompt: HostKeyPrompt,
    r: Option<&'a HostKeyPrompt>,
)
    requires
        shows(*w, i),
        call_ensures(Workspace::active_host_key_prompt, (w,), r),
    ensures
        prompt.scope.tab_id == w.tabs.tabs@[i].id && asked_last(w.modals@, k, prompt) ==> r is Some
            && *r->0 == prompt,
        w.modals@.len() == 0 ==> r is None,
{
    if prompt.scope.tab_id == w.tabs.tabs@[i].id && asked_last(w.modals@, k, prompt) {
        lemma_asked_last(w.modals@, k, prompt);
    }
}

}
