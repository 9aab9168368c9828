//! What a window does with what the runtime tells it.

use vstd::prelude::*;

use crate::helpers::string_of;
use crate::model::{
    ConnectionState, DisconnectReason, ErrorCode, FileEntry, FsScope, HostKeyMismatch,
    HostKeyPrompt, Listing, ModalRequest, RemoteEventScope, RestoredTabTarget, SessionId, TabId,
    TransferId, UserFacingError,
};
use crate::resources::ResidualTemp;
use crate::tabs::{has_tab, lemma_store_with_tab, tab_changed, tab_index, TabState, TabStore};
use crate::text::{decimal, decimal_text, joined3, same_text};
use crate::workspace::{accepts, pane_focus, still_asked, FocusTarget, Workspace};

verus! {

/// A directory that was read, with its entries in the order that the tab wants.
#[derive(PartialEq, Eq, Debug)]
pub struct RemoteDirectory {
    pub scope: RemoteEventScope,
    pub path: String,
    pub entries: Vec<FileEntry>,
}

/// A local directory that was read, with its entries in the order that the tab wants.
#[derive(PartialEq, Eq, Debug)]
pub struct LocalDirectory {
    pub tab_id: TabId,
    pub path: String,
    pub entries: Vec<FileEntry>,
}

/// A remote operation that failed.
#[derive(PartialEq, Eq, Debug)]
pub struct RemoteFailure {
    pub scope: RemoteEventScope,
    /// The directory that was being read, where it was a read.
    pub path: Option<String>,
    pub error: UserFacingError,
}

/// A connection that is up.
#[derive(PartialEq, Eq, Debug)]
pub struct ConnectedTab {
    pub scope: RemoteEventScope,
    pub remote_root: String,
}

/// A connection that ended.
#[derive(PartialEq, Eq, Debug)]
pub struct DisconnectedTab {
    pub scope: RemoteEventScope,
    pub reason: DisconnectReason,
}

/// A sign-in that was refused.
#[derive(PartialEq, Eq, Debug)]
pub struct RefusedTab {
    pub scope: RemoteEventScope,
    pub reason: UserFacingError,
}

/// A remote directory that is being read.
#[derive(PartialEq, Eq, Debug)]
pub struct LoadingDirectory {
    pub scope: RemoteEventScope,
    pub path: String,
}

/// A file operation that failed.
#[derive(PartialEq, Eq, Debug)]
pub struct FsFailure {
    pub scope: FsScope,
    pub failure: UserFacingError,
}

/// What the runtime tells a window.
#[derive(PartialEq, Eq, Debug)]
pub enum AppEvent {
    TabConnecting(RemoteEventScope),
    HostKeyUnknown(HostKeyPrompt),
    HostKeyMismatch(HostKeyMismatch),
    TabConnected(ConnectedTab),
    TabDisconnected(DisconnectedTab),
    AuthFailed(RefusedTab),
    RemoteDirLoading(LoadingDirectory),
    RemoteDirLoaded(RemoteDirectory),
    RemoteOperationFailed(RemoteFailure),
    FsOperationFailed(FsFailure),
    LocalDirLoaded(LocalDirectory),
    ResidualTempCreated(ResidualTemp),
    ResidualTempCleared { transfer_id: TransferId, path: String },
    Other,
}

/// What is left to do after an event.
#[derive(PartialEq, Eq, Debug)]
pub enum EventStep {
    /// The event was out of date.
    Stale,
    Done,
    /// A tab is connected: its remote directory is to be read, what a transfer left behind is to
    /// be removed, and the connection is to be remembered.
    ReadRemote { tab_id: TabId, path: String },
    /// A temporary file is to be remembered.
    RememberTemp(ResidualTemp),
    /// A temporary file is to be forgotten.
    ForgetTemp { transfer_id: TransferId, path: String },
}

/// The connection attempt that an event is of.
pub open spec fn event_scope(event: AppEvent) -> Option<RemoteEventScope> {
    match event {
        AppEvent::TabConnecting(scope) => Some(scope),
        AppEvent::HostKeyUnknown(prompt) => Some(prompt.scope),
        AppEvent::HostKeyMismatch(mismatch) => Some(mismatch.scope),
        AppEvent::TabConnected(tab) => Some(tab.scope),
        AppEvent::TabDisconnected(tab) => Some(tab.scope),
        AppEvent::AuthFailed(tab) => Some(tab.scope),
        AppEvent::RemoteDirLoading(dir) => Some(dir.scope),
        AppEvent::RemoteDirLoaded(dir) => Some(dir.scope),
        AppEvent::RemoteOperationFailed(failure) => Some(failure.scope),
        _ => None,
    }
}

impl AppEvent {
    /// The connection attempt that the event is of.
    pub fn scope(&self) -> (r: Option<RemoteEventScope>)
        ensures
            r == event_scope(*self),
    {
        match self {
            AppEvent::TabConnecting(scope) => Some(*scope),
            AppEvent::HostKeyUnknown(prompt) => Some(prompt.scope),
            AppEvent::HostKeyMismatch(mismatch) => Some(mismatch.scope),
            AppEvent::TabConnected(tab) => Some(tab.scope),
            AppEvent::TabDisconnected(tab) => Some(tab.scope),
            AppEvent::AuthFailed(tab) => Some(tab.scope),
            AppEvent::RemoteDirLoading(dir) => Some(dir.scope),
            AppEvent::RemoteDirLoaded(dir) => Some(dir.scope),
            AppEvent::RemoteOperationFailed(failure) => Some(failure.scope),
            _ => None,
        }
    }
}

/// An event is in date: the connection attempt that it is of, if any, lives.
pub open spec fn in_date(tabs: Seq<TabState>, event: AppEvent) -> bool {
    match event_scope(event) {
        Some(scope) => accepts(tabs, scope),
        None => true,
    }
}

/// What the user reads of a host key that differs from the stored one.
pub open spec fn mismatch_told(mismatch: HostKeyMismatch, error: UserFacingError) -> bool {
    &&& error.code is HostKeyMismatch
    &&& error.title@ == "Host key mismatch"@
    &&& error.message@ == "The key presented by "@ + mismatch.host@ + ":"@ + decimal(
        mismatch.port as nat,
    )
        + " does not match the stored key. This can indicate a man-in-the-middle attack. Connection blocked."@
    &&& string_of(error.detail) == Some(
        "Expected "@ + match mismatch.expected_fingerprint_sha256 {
            Some(print) => print@,
            None => "(unknown)"@,
        } + ", got "@ + mismatch.actual_fingerprint_sha256@
            + ". Stored entries: ~/Library/Application Support/macSFTP/known_hosts and ~/.ssh/known_hosts."@,
    )
}

fn mismatch_error(mismatch: &HostKeyMismatch) -> (r: UserFacingError)
    ensures
        mismatch_told(*mismatch, r),
{
    let mut message = joined3("The key presented by ", mismatch.host.as_str(), ":");
    message.append(decimal_text(mismatch.port as u64).as_str());
    message.append(
        " does not match the stored key. This can indicate a man-in-the-middle attack. Connection blocked.",
    );
    let expected = match &mismatch.expected_fingerprint_sha256 {
        Some(print) => print.clone(),
        None => "(unknown)".to_string(),
    };
    let mut detail = joined3("Expected ", expected.as_str(), ", got ");
    detail.append(mismatch.actual_fingerprint_sha256.as_str());
    detail.append(
        ". Stored entries: ~/Library/Application Support/macSFTP/known_hosts and ~/.ssh/known_hosts.",
    );
    UserFacingError {
        code: ErrorCode::HostKeyMismatch,
        title: "Host key mismatch".to_string(),
        message,
        detail: Some(detail),
    }
}

/// The remote pane shows nothing, at a path or at none.
pub open spec fn emptied(after: Listing, path: Option<String>) -> bool {
    &&& after.path == path
    &&& after.entries@.len() == 0
    &&& !after.is_refreshing
    &&& after.error is None
}

/// Where a tab that is connected goes: where it was before, or else where the server starts.
pub open spec fn first_directory(tab: TabState, root: String) -> String {
    match tab.restored_target {
        Some(target) => match target.remote_path {
            Some(path) => path,
            None => root,
        },
        None => root,
    }
}

/// A tab that became connected. The place that it was restored to is used up.
pub open spec fn became_connected(
    tab: TabState,
    after: TabState,
    session_id: SessionId,
    root: String,
) -> bool {
    &&& after == (TabState {
        connection: ConnectionState::Connected { session_id, session_epoch: tab.session_epoch },
        remote: after.remote,
        selected_paths: after.selected_paths,
        restored_target: match tab.restored_target {
            Some(target) => Some(RestoredTabTarget { remote_path: None, ..target }),
            None => None,
        },
        ..tab
    })
    &&& emptied(after.remote, Some(first_directory(tab, root)))
    &&& after.selected_paths@.len() == 0
}

/// What a tab that lost its connection is restored to: where it was.
pub open spec fn stashed(tab: TabState) -> Option<RestoredTabTarget> {
    match (tab.remote.path, tab.restored_target, tab.connection_settings) {
        (None, target, _) => target,
        (Some(path), Some(target), _) => Some(
            RestoredTabTarget { remote_path: Some(path), ..target },
        ),
        (Some(path), None, Some(settings)) => Some(
            RestoredTabTarget {
                host: settings.host,
                port: settings.port,
                username: settings.username,
                profile_id: tab.profile_id,
                remote_path: Some(path),
            },
        ),
        (Some(_), None, None) => None,
    }
}

/// A tab that lost its connection. Where it was is kept.
pub open spec fn became_disconnected(tab: TabState, after: TabState, reason: DisconnectReason)
    -> bool {
    &&& after == (TabState {
        connection: ConnectionState::Disconnected { reason },
        remote: after.remote,
        restored_target: stashed(tab),
        ..tab
    })
    &&& emptied(after.remote, None)
}

/// What is saved of a tab survives the loss of its connection.
pub proof fn law_disconnect_keeps_the_session(
    tab: TabState,
    after: TabState,
    reason: DisconnectReason,
)
    requires
        became_disconnected(tab, after, reason),
        tab.connection_settings is Some,
    ensures
        crate::workspace::tab_snapshot(after) == crate::workspace::tab_snapshot(tab),
{
}

/// A tab that is connected again goes where it was when its connection was lost.
pub proof fn law_reconnect_returns(
    tab: TabState,
    lost: TabState,
    back: TabState,
    reason: DisconnectReason,
    session_id: SessionId,
    root: String,
)
    requires
        became_disconnected(tab, lost, reason),
        became_connected(lost, back, session_id, root),
        tab.connection_settings is Some,
        tab.remote.path is Some,
    ensures
        back.remote.path == tab.remote.path,
{
}

/// The remote pane of a tab shows a directory: the one that was asked for.
pub open spec fn is_at(tab: TabState, path: String) -> bool {
    string_of(tab.remote.path) == Some(path@)
}

/// A tab whose remote directory is being read.
pub open spec fn marked_loading(tab: TabState) -> TabState {
    TabState { remote: Listing { is_refreshing: true, error: None, ..tab.remote }, ..tab }
}

/// A tab whose remote directory was read.
pub open spec fn remote_loaded(tab: TabState, after: TabState, entries: Vec<FileEntry>) -> bool {
    &&& after == (TabState {
        remote: Listing { entries, is_refreshing: false, error: None, ..tab.remote },
        selected_paths: after.selected_paths,
        ..tab
    })
    &&& after.selected_paths@.len() == 0
}

/// A tab whose local directory was read.
pub open spec fn local_loaded(tab: TabState, after: TabState, entries: Vec<FileEntry>) -> bool {
    &&& after == (TabState {
        local: Listing { entries, error: None, ..tab.local },
        selected_paths: after.selected_paths,
        ..tab
    })
    &&& after.selected_paths@.len() == 0
}

/// A tab in whose remote pane something failed.
pub open spec fn remote_failed(tab: TabState, error: UserFacingError) -> TabState {
    TabState {
        remote: Listing { is_refreshing: false, error: Some(error), ..tab.remote },
        ..tab
    }
}

/// What the status says of an error.
pub open spec fn error_status(error: UserFacingError) -> Seq<char> {
    error.title@ + ": "@ + error.message@
}

impl TabStore {
    fn connected(&mut self, i: usize, session_id: SessionId, root: String) -> (r: String)
        requires
            old(self).wf(),
            i < old(self).tabs@.len(),
        ensures
            final(self).wf(),
            tab_changed(*old(self), *final(self), i as int),
            became_connected(
                old(self).tabs@[i as int],
                final(self).tabs@[i as int],
                session_id,
                root,
            ),
            r == first_directory(old(self).tabs@[i as int], root),
    {
        let ghost before = *self;
        let mut path = root;
        if let Some(mut target) = self.tabs[i].restored_target.take() {
            if let Some(restored) = target.remote_path.take() {
                path = restored;
            }
            self.tabs[i].restored_target = Some(target);
        }
        self.tabs[i].complete_connect(session_id);
        self.tabs[i].remote = Listing {
            path: Some(path.clone()),
            entries: Vec::new(),
            is_refreshing: false,
            error: None,
        };
        self.tabs[i].selected_paths = Vec::new();
        proof {
            assert(self.tabs@ =~= before.tabs@.update(i as int, self.tabs@[i as int]));
            lemma_store_with_tab(before, *self, i as int);
        }
        path
    }

    fn disconnected(&mut self, i: usize, reason: DisconnectReason)
        requires
            old(self).wf(),
            i < old(self).tabs@.len(),
        ensures
            final(self).wf(),
            tab_changed(*old(self), *final(self), i as int),
            became_disconnected(
                old(self).tabs@[i as int],
                final(self).tabs@[i as int],
                reason,
            ),
    {
        let ghost before = *self;
        let target = stash(&self.tabs[i]);
        self.tabs[i].restored_target = target;
        self.tabs[i].disconnect(reason);
        self.tabs[i].remote = Listing::empty();
        proof {
            assert(self.tabs@ =~= before.tabs@.update(i as int, self.tabs@[i as int]));
            lemma_store_with_tab(before, *self, i as int);
        }
    }

    fn loading(&mut self, i: usize)
        requires
            old(self).wf(),
            i < old(self).tabs@.len(),
        ensures
            final(self).wf(),
            tab_changed(*old(self), *final(self), i as int),
            final(self).tabs@[i as int] == marked_loading(old(self).tabs@[i as int]),
    {
        let ghost before = *self;
        self.tabs[i].remote.is_refreshing = true;
        self.tabs[i].remote.error = None;
        proof {
            assert(self.tabs@ =~= before.tabs@.update(i as int, self.tabs@[i as int]));
            lemma_store_with_tab(before, *self, i as int);
        }
    }

    fn remote_loaded(&mut self, i: usize, entries: Vec<FileEntry>)
        requires
            old(self).wf(),
            i < old(self).tabs@.len(),
        ensures
            final(self).wf(),
            tab_changed(*old(self), *final(self), i as int),
            remote_loaded(old(self).tabs@[i as int], final(self).tabs@[i as int], entries),
    {
        let ghost before = *self;
        self.tabs[i].remote.entries = entries;
        self.tabs[i].remote.is_refreshing = false;
        self.tabs[i].remote.error = None;
        self.tabs[i].selected_paths = Vec::new();
        proof {
            assert(self.tabs@ =~= before.tabs@.update(i as int, self.tabs@[i as int]));
            lemma_store_with_tab(before, *self, i as int);
        }
    }

    fn local_loaded(&mut self, i: usize, entries: Vec<FileEntry>)
        requires
            old(self).wf(),
            i < old(self).tabs@.len(),
        ensures
            final(self).wf(),
            tab_changed(*old(self), *final(self), i as int),
            local_loaded(old(self).tabs@[i as int], final(self).tabs@[i as int], entries),
    {
        let ghost before = *self;
        self.tabs[i].local.entries = entries;
        self.tabs[i].local.error = None;
        self.tabs[i].selected_paths = Vec::new();
        proof {
            assert(self.tabs@ =~= before.tabs@.update(i as int, self.tabs@[i as int]));
            lemma_store_with_tab(before, *self, i as int);
        }
    }

    fn remote_failed(&mut self, i: usize, error: UserFacingError)
        requires
            old(self).wf(),
            i < old(self).tabs@.len(),
        ensures
            final(self).wf(),
            tab_changed(*old(self), *final(self), i as int),
            final(self).tabs@[i as int] == remote_failed(old(self).tabs@[i as int], error),
    {
        let ghost before = *self;
        self.tabs[i].remote.is_refreshing = false;
        self.tabs[i].remote.error = Some(error);
        proof {
            assert(self.tabs@ =~= before.tabs@.update(i as int, self.tabs@[i as int]));
            lemma_store_with_tab(before, *self, i as int);
        }
    }
}

fn stash(tab: &TabState) -> (r: Option<RestoredTabTarget>)
    ensures
        r == stashed(*tab),
{
    let path = match &tab.remote.path {
        Some(path) => path.clone(),
        None => return tab.restored_target.clone(),
    };
    match (&tab.restored_target, &tab.connection_settings) {
        (Some(target), _) => {
            let mut target = target.clone();
            target.remote_path = Some(path);
            Some(target)
        },
        (None, Some(settings)) => Some(
            RestoredTabTarget {
                host: settings.host.clone(),
                port: settings.port,
                username: settings.username.clone(),
                profile_id: tab.profile_id,
                remote_path: Some(path),
            },
        ),
        (None, None) => None,
    }
}

/// A file operation that failed is still of interest: its tab is there, and on the remote side
/// under the same epoch.
pub open spec fn fs_in_date(tabs: Seq<TabState>, scope: FsScope) -> bool {
    match scope {
        FsScope::Local { tab_id } => has_tab(tabs, tab_id),
        FsScope::Remote { tab_id, session_epoch } => has_tab(tabs, tab_id) && tabs[tab_index(
            tabs,
            tab_id,
        )].session_epoch == session_epoch,
    }
}

/// But for one tab, the window is as before.
pub open spec fn tab_only(before: Workspace, after: Workspace, tab_id: TabId) -> bool {
    &&& after == (Workspace { tabs: after.tabs, ..before })
    &&& tab_changed(before.tabs, after.tabs, tab_index(before.tabs.tabs@, tab_id))
}

/// A tab of a window.
pub open spec fn tab_of(w: Workspace, tab_id: TabId) -> TabState {
    w.tabs.tabs@[tab_index(w.tabs.tabs@, tab_id)]
}

/// A tab of the window after a change that kept the positions of the tabs.
pub open spec fn tab_after(before: Workspace, after: Workspace, tab_id: TabId) -> TabState {
    after.tabs.tabs@[tab_index(before.tabs.tabs@, tab_id)]
}

/// But for one tab, and the questions that can no longer be answered, the window is as before;
/// where a question went, the pane has the keyboard.
pub open spec fn tab_only_drained(before: Workspace, after: Workspace, tab_id: TabId) -> bool {
    &&& after == (Workspace {
        tabs: after.tabs,
        modals: after.modals,
        focus: if after.modals@.len() < before.modals@.len() {
            pane_focus(before.focused_side)
        } else {
            before.focus
        },
        ..before
    })
    &&& tab_changed(before.tabs, after.tabs, tab_index(before.tabs.tabs@, tab_id))
    &&& after.modals@ == before.modals@.filter(still_asked(after.tabs.tabs@))
}

/// A question about a host key is asked, and the tab waits for the answer.
pub open spec fn key_asked(before: Workspace, after: Workspace, prompt: HostKeyPrompt) -> bool {
    let id = prompt.scope.tab_id;
    let tab = tab_of(before, id);
    &&& after == (Workspace {
        tabs: after.tabs,
        modals: after.modals,
        focus: FocusTarget::Modal,
        ..before
    })
    &&& after.modals@ == before.modals@.push(ModalRequest::HostKey(prompt))
    &&& tab_changed(before.tabs, after.tabs, tab_index(before.tabs.tabs@, id))
    &&& tab_after(before, after, id) == (TabState {
        connection: ConnectionState::AwaitingHostKey {
            session_id: prompt.scope.session_id,
            session_epoch: tab.session_epoch,
            request_id: prompt.request_id,
        },
        ..tab
    })
}

/// Something failed on the remote side: the pane says so where it shows the directory that was
/// read, and the status does in any case.
pub open spec fn failure_told(before: Workspace, after: Workspace, failure: RemoteFailure) -> bool {
    let id = failure.scope.tab_id;
    let concerned = match failure.path {
        Some(path) => is_at(tab_of(before, id), path),
        None => true,
    };
    &&& after == (Workspace {
        tabs: after.tabs,
        status_message: after.status_message,
        ..before
    })
    &&& string_of(after.status_message) == Some(error_status(failure.error))
    &&& !concerned ==> after.tabs == before.tabs
    &&& concerned ==> {
        &&& tab_changed(before.tabs, after.tabs, tab_index(before.tabs.tabs@, id))
        &&& tab_after(before, after, id) == remote_failed(tab_of(before, id), failure.error)
    }
}

/// The window after an event, and what is left to do.
pub open spec fn handled(before: Workspace, event: AppEvent, after: Workspace, step: EventStep)
    -> bool {
    if !in_date(before.tabs.tabs@, event) {
        step is Stale && after == before
    } else {
        match event {
            AppEvent::HostKeyUnknown(prompt) => step is Done && key_asked(before, after, prompt),
            AppEvent::HostKeyMismatch(mismatch) => {
                let id = mismatch.scope.tab_id;
                &&& step is Done
                &&& tab_only(before, after, id)
                &&& tab_after(before, after, id) == (TabState {
                    connection: tab_after(before, after, id).connection,
                    ..tab_of(before, id)
                })
                &&& tab_after(before, after, id).connection matches ConnectionState::Failed { error }
                    && mismatch_told(mismatch, error)
            },
            AppEvent::TabConnected(tab) => {
                let id = tab.scope.tab_id;
                &&& step == EventStep::ReadRemote {
                    tab_id: id,
                    path: first_directory(tab_of(before, id), tab.remote_root),
                }
                &&& tab_only(before, after, id)
                &&& became_connected(
                    tab_of(before, id),
                    tab_after(before, after, id),
                    tab.scope.session_id,
                    tab.remote_root,
                )
            },
            AppEvent::TabDisconnected(tab) => {
                let id = tab.scope.tab_id;
                &&& step is Done
                &&& tab_only_drained(before, after, id)
                &&& became_disconnected(
                    tab_of(before, id),
                    tab_after(before, after, id),
                    tab.reason,
                )
            },
            AppEvent::AuthFailed(tab) => {
                let id = tab.scope.tab_id;
                &&& step is Done
                &&& tab_only_drained(before, after, id)
                &&& tab_after(before, after, id) == (TabState {
                    connection: ConnectionState::Failed { error: tab.reason },
                    ..tab_of(before, id)
                })
            },
            AppEvent::RemoteDirLoading(dir) => {
                let id = dir.scope.tab_id;
                &&& step is Done
                &&& if is_at(tab_of(before, id), dir.path) {
                    &&& tab_only(before, after, id)
                    &&& tab_after(before, after, id) == marked_loading(tab_of(before, id))
                } else {
                    after == before
                }
            },
            AppEvent::RemoteDirLoaded(dir) => {
                let id = dir.scope.tab_id;
                &&& step is Done
                &&& if is_at(tab_of(before, id), dir.path) {
                    &&& tab_only(before, after, id)
                    &&& remote_loaded(
                        tab_of(before, id),
                        tab_after(before, after, id),
                        dir.entries,
                    )
                } else {
                    after == before
                }
            },
            AppEvent::RemoteOperationFailed(failure) => step is Done && failure_told(
                before,
                after,
                failure,
            ),
            AppEvent::FsOperationFailed(failure) => {
                &&& step is Done
                &&& if fs_in_date(before.tabs.tabs@, failure.scope) {
                    &&& after == (Workspace { status_message: after.status_message, ..before })
                    &&& string_of(after.status_message) == Some(error_status(failure.failure))
                } else {
                    after == before
                }
            },
            AppEvent::LocalDirLoaded(dir) => {
                &&& step is Done
                &&& if has_tab(before.tabs.tabs@, dir.tab_id) && string_of(
                    tab_of(before, dir.tab_id).local.path,
                ) == Some(dir.path@) {
                    &&& tab_only(before, after, dir.tab_id)
                    &&& local_loaded(
                        tab_of(before, dir.tab_id),
                        tab_after(before, after, dir.tab_id),
                        dir.entries,
                    )
                } else {
                    after == before
                }
            },
            AppEvent::ResidualTempCreated(record) => after == before && step
                == EventStep::RememberTemp(record),
            AppEvent::ResidualTempCleared { transfer_id, path } => after == before && step
                == EventStep::ForgetTemp { transfer_id, path },
            AppEvent::TabConnecting(_) => step is Done && after == before,
            AppEvent::Other => step is Done && after == before,
        }
    }
}

/// Whether a tab of the given position shows a remote directory.
fn shows_remote(tabs: &TabStore, i: usize, path: &str) -> (r: bool)
    requires
        i < tabs.tabs@.len(),
    ensures
        r == (string_of(tabs.tabs@[i as int].remote.path) == Some(path@)),
{
    match &tabs.tabs[i].remote.path {
        Some(at) => same_text(at.as_str(), path),
        None => false,
    }
}

fn shows_local(tabs: &TabStore, i: usize, path: &str) -> (r: bool)
    requires
        i < tabs.tabs@.len(),
    ensures
        r == (string_of(tabs.tabs@[i as int].local.path) == Some(path@)),
{
    match &tabs.tabs[i].local.path {
        Some(at) => same_text(at.as_str(), path),
        None => false,
    }
}

impl Workspace {
    fn on_host_key_unknown(&mut self, prompt: HostKeyPrompt)
        requires
            old(self).wf(),
            has_tab(old(self).tabs.tabs@, prompt.scope.tab_id),
        ensures
            final(self).wf(),
            key_asked(*old(self), *final(self), prompt),
    {
        if let Some(i) = self.tabs.position(prompt.scope.tab_id) {
            let epoch: u64 = self.tabs.tabs[i].session_epoch;
            self.tabs.set_connection(
                i,
                ConnectionState::AwaitingHostKey {
                    session_id: prompt.scope.session_id,
                    session_epoch: epoch,
                    request_id: prompt.request_id,
                },
            );
            self.modals.push(ModalRequest::HostKey(prompt));
            self.focus = FocusTarget::Modal;
        }
    }

    fn drain_and_refocus(&mut self)
        ensures
            *final(self) == (Workspace {
                modals: final(self).modals,
                focus: if final(self).modals@.len() < old(self).modals@.len() {
                    pane_focus(old(self).focused_side)
                } else {
                    old(self).focus
                },
                ..*old(self)
            }),
            final(self).modals@ == old(self).modals@.filter(still_asked(old(self).tabs.tabs@)),
    {
        if self.drain_expired_modals() {
            let side = self.focused_side;
            self.focus_pane(side);
        }
    }

    fn on_disconnected(&mut self, event: &DisconnectedTab)
        requires
            old(self).wf(),
            has_tab(old(self).tabs.tabs@, event.scope.tab_id),
        ensures
            final(self).wf(),
            tab_only_drained(*old(self), *final(self), event.scope.tab_id),
            became_disconnected(
                tab_of(*old(self), event.scope.tab_id),
                tab_after(*old(self), *final(self), event.scope.tab_id),
                event.reason,
            ),
    {
        if let Some(i) = self.tabs.position(event.scope.tab_id) {
            self.tabs.disconnected(i, event.reason);
            self.drain_and_refocus();
        }
    }

    fn on_auth_failed(&mut self, event: RefusedTab)
        requires
            old(self).wf(),
            has_tab(old(self).tabs.tabs@, event.scope.tab_id),
        ensures
            final(self).wf(),
            tab_only_drained(*old(self), *final(self), event.scope.tab_id),
            tab_after(*old(self), *final(self), event.scope.tab_id) == (TabState {
                connection: ConnectionState::Failed { error: event.reason },
                ..tab_of(*old(self), event.scope.tab_id)
            }),
    {
        if let Some(i) = self.tabs.position(event.scope.tab_id) {
            self.tabs.set_connection(i, ConnectionState::Failed { error: event.reason });
            self.drain_and_refocus();
        }
    }

    fn on_remote_failure(&mut self, failure: RemoteFailure)
        requires
            old(self).wf(),
            has_tab(old(self).tabs.tabs@, failure.scope.tab_id),
        ensures
            final(self).wf(),
            failure_told(*old(self), *final(self), failure),
    {
        let status = joined3(failure.error.title.as_str(), ": ", failure.error.message.as_str());
        if let Some(i) = self.tabs.position(failure.scope.tab_id) {
            let concerned = match &failure.path {
                Some(path) => shows_remote(&self.tabs, i, path.as_str()),
                None => true,
            };
            if concerned {
                self.tabs.remote_failed(i, failure.error);
            }
        }
        self.status_message = Some(status);
    }

    /// Takes in what the runtime tells. What is out of date is dropped. Gives what is left to do.
    pub fn handle_app_event(&mut self, event: AppEvent) -> (r: EventStep)
        requires
            old(self).wf(),
        ensures
            final(self).wf(),
            handled(*old(self), event, *final(self), r),
    {
        let stale = match event.scope() {
            Some(scope) => !self.accepts_remote_scope(&scope),
            None => false,
        };
        if stale {
            return EventStep::Stale;
        }
        match event {
            AppEvent::TabConnecting(_) => {},
            AppEvent::HostKeyUnknown(prompt) => self.on_host_key_unknown(prompt),
            AppEvent::HostKeyMismatch(mismatch) => {
                if let Some(i) = self.tabs.position(mismatch.scope.tab_id) {
                    let error = mismatch_error(&mismatch);
                    self.tabs.set_connection(i, ConnectionState::Failed { error });
                }
            },
            AppEvent::TabConnected(tab) => {
                let tab_id = tab.scope.tab_id;
                if let Some(i) = self.tabs.position(tab_id) {
                    let path = self.tabs.connected(i, tab.scope.session_id, tab.remote_root);
                    return EventStep::ReadRemote { tab_id, path };
                }
            },
            AppEvent::TabDisconnected(tab) => self.on_disconnected(&tab),
            AppEvent::AuthFailed(tab) => self.on_auth_failed(tab),
            AppEvent::RemoteDirLoading(dir) => {
                if let Some(i) = self.tabs.position(dir.scope.tab_id) {
                    if shows_remote(&self.tabs, i, dir.path.as_str()) {
                        self.tabs.loading(i);
                    }
                }
            },
            AppEvent::RemoteDirLoaded(dir) => {
                if let Some(i) = self.tabs.position(dir.scope.tab_id) {
                    if shows_remote(&self.tabs, i, dir.path.as_str()) {
                        self.tabs.remote_loaded(i, dir.entries);
                    }
                }
            },
            AppEvent::RemoteOperationFailed(failure) => self.on_remote_failure(failure),
            AppEvent::FsOperationFailed(failure) => {
                if self.fs_scope_in_date(&failure.scope) {
                    self.status_message = Some(
                        joined3(
                            failure.failure.title.as_str(),
                            ": ",
                            failure.failure.message.as_str(),
                        ),
                    );
                }
            },
            AppEvent::LocalDirLoaded(dir) => {
                if let Some(i) = self.tabs.position(dir.tab_id) {
                    if shows_local(&self.tabs, i, dir.path.as_str()) {
                        self.tabs.local_loaded(i, dir.entries);
                    }
                }
            },
            AppEvent::ResidualTempCreated(record) => return EventStep::RememberTemp(record),
            AppEvent::ResidualTempCleared { transfer_id, path } => {
                return EventStep::ForgetTemp { transfer_id, path };
            },
            AppEvent::Other => {},
        }
        EventStep::Done
    }

    fn fs_scope_in_date(&self, scope: &FsScope) -> (r: bool)
        ensures
            r == fs_in_date(self.tabs.tabs@, *scope),
    {
        match scope {
            FsScope::Local { tab_id } => self.owns_tab(*tab_id),
            FsScope::Remote { tab_id, session_epoch } => match self.tabs.position(*tab_id) {
                Some(i) => self.tabs.tabs[i].session_epoch == *session_epoch,
                None => false,
            },
        }
    }
}

/// What is out of date changes nothing: an event of a connection attempt that its tab has left
/// behind, or of a tab that is closed.
pub proof fn law_stale_events_change_nothing(
    before: Workspace,
    event: AppEvent,
    after: Workspace,
    step: EventStep,
)
    requires
        handled(before, event, after, step),
        event_scope(event) is Some,
        !accepts(before.tabs.tabs@, event_scope(event)->0),
    ensures
        after == before,
        step is Stale,
{
}

/// An event of one tab leaves every other tab as it was.
pub proof fn law_events_touch_one_tab(
    before: Workspace,
    event: AppEvent,
    after: Workspace,
    step: EventStep,
    i: int,
)
    requires
        before.wf(),
        handled(before, event, after, step),
        event_scope(event) is Some,
        0 <= i < before.tabs.tabs@.len(),
        before.tabs.tabs@[i].id != event_scope(event)->0.tab_id,
    ensures
        after.tabs.tabs@.len() == before.tabs.tabs@.len(),
        after.tabs.tabs@[i] == before.tabs.tabs@[i],
{
    let scope = event_scope(event)->0;
    crate::tabs::lemma_tab_index(before.tabs.tabs@, scope.tab_id);
}

}
