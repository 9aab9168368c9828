//! The vocabulary shared by every part of the client: identifiers, listings, connection states,
//! tabs, commands and events.

use vstd::prelude::*;

verus! {

/// A tab, unique in the process.
#[derive(Clone, Copy, PartialEq, Eq, Structural, Debug)]
pub struct TabId(pub u64);

/// A window, as the saved session names it.
#[derive(Clone, Copy, PartialEq, Eq, Structural, Debug)]
pub struct WindowSessionId(pub u64);

/// One connection attempt of one tab.
#[derive(Clone, Copy, PartialEq, Eq, Structural, Debug)]
pub struct SessionId(pub u64);

/// A saved connection profile.
#[derive(Clone, Copy, PartialEq, Eq, Structural, Debug)]
pub struct ProfileId(pub u64);

/// A transfer job.
#[derive(Clone, Copy, PartialEq, Eq, Structural, Debug)]
pub struct TransferId(pub u64);

/// A transfer plan.
#[derive(Clone, Copy, PartialEq, Eq, Structural, Debug)]
pub struct PlanId(pub u64);

/// A question about an existing destination.
#[derive(Clone, Copy, PartialEq, Eq, Structural, Debug)]
pub struct ConflictRequestId(pub u64);

/// A question about an unknown host key.
#[derive(Clone, Copy, PartialEq, Eq, Structural, Debug)]
pub struct TrustRequestId(pub u64);

/// A remote file opened for editing.
#[derive(Clone, Copy, PartialEq, Eq, Structural, Debug)]
pub struct EditSessionId(pub u64);

/// A check of a remote file before a save.
#[derive(Clone, Copy, PartialEq, Eq, Structural, Debug)]
pub struct EditCheckId(pub u64);

/// Nanoseconds since the Unix epoch.
#[derive(Clone, Copy, PartialEq, Eq, Structural, Debug)]
pub struct Timestamp(pub u128);

/// Which file pane an action targets.
#[derive(Clone, Copy, PartialEq, Eq, Structural, Debug)]
pub enum PaneSide {
    Local,
    Remote,
}

/// What fills the window: the file panes or the settings.
#[derive(Clone, Copy, PartialEq, Eq, Structural, Debug)]
pub enum WorkspaceSurface {
    Files,
    Settings,
}

/// The kind of a directory entry.
#[derive(Clone, Copy, PartialEq, Eq, Structural, Debug)]
pub enum FileKind {
    File,
    Directory,
    Symlink,
    Other,
}

/// The column that orders a listing.
#[derive(Clone, Copy, PartialEq, Eq, Structural, Debug)]
pub enum FileSortField {
    Name,
    Size,
    Modified,
}

#[derive(Clone, Copy, PartialEq, Eq, Structural, Debug)]
pub enum SortDirection {
    Ascending,
    Descending,
}

/// The order of a listing.
#[derive(Clone, Copy, PartialEq, Eq, Structural, Debug)]
pub struct SortSpec {
    pub field: FileSortField,
    pub direction: SortDirection,
}

/// How a path was reached.
#[derive(Clone, Copy, PartialEq, Eq, Structural, Debug)]
pub enum HistoryOp {
    Push,
    Replace,
    Back,
    Forward,
}

/// Whether the runtime took a command.
#[derive(Clone, Copy, PartialEq, Eq, Structural, Debug)]
pub enum Dispatch {
    Sent,
    ChannelFull,
    ChannelClosed,
}

#[derive(Clone, Copy, PartialEq, Eq, Structural, Debug)]
pub enum ErrorCode {
    HostKeyMismatch,
    Unknown,
}

#[derive(Clone, Copy, PartialEq, Eq, Structural, Debug)]
pub enum DisconnectReason {
    UserRequested,
    ConnectionLost,
}

#[derive(Clone, Copy, PartialEq, Eq, Structural, Debug)]
pub enum AuthMethodKind {
    Password,
    PrivateKey,
}

#[derive(Clone, Copy, PartialEq, Eq, Structural, Debug)]
pub enum TransferDirection {
    Upload,
    Download,
}

#[derive(Clone, Copy, PartialEq, Eq, Structural, Debug)]
pub enum ConflictPolicy {
    Ask,
    OverwriteAll,
}

/// An error as the user reads it.
#[derive(PartialEq, Eq, Debug)]
pub struct UserFacingError {
    pub code: ErrorCode,
    pub title: String,
    pub message: String,
    pub detail: Option<String>,
}

impl Clone for UserFacingError {
    fn clone(&self) -> (r: Self)
        ensures
            r == *self,
    {
        UserFacingError {
            code: self.code,
            title: self.title.clone(),
            message: self.message.clone(),
            detail: self.detail.clone(),
        }
    }
}

/// The path of an entry in one of the panes, or of one end of a transfer.
#[derive(PartialEq, Eq, Debug)]
pub enum EntryPath {
    Local(String),
    Remote(String),
}

impl Clone for EntryPath {
    fn clone(&self) -> (r: Self)
        ensures
            r == *self,
    {
        match self {
            EntryPath::Local(path) => EntryPath::Local(path.clone()),
            EntryPath::Remote(path) => EntryPath::Remote(path.clone()),
        }
    }
}

/// A path as contracts speak of it: the side that it belongs to and its text.
pub struct PathView {
    pub side: PaneSide,
    pub text: Seq<char>,
}

impl View for EntryPath {
    type V = PathView;

    open spec fn view(&self) -> PathView {
        match self {
            EntryPath::Local(path) => PathView { side: PaneSide::Local, text: path@ },
            EntryPath::Remote(path) => PathView { side: PaneSide::Remote, text: path@ },
        }
    }
}

impl EntryPath {
    /// The path on the given side.
    pub fn on(side: PaneSide, path: String) -> (r: Self)
        ensures
            r@ == (PathView { side, text: path@ }),
            side is Local ==> r == EntryPath::Local(path),
            side is Remote ==> r == EntryPath::Remote(path),
    {
        match side {
            PaneSide::Local => EntryPath::Local(path),
            PaneSide::Remote => EntryPath::Remote(path),
        }
    }

    /// The side that the path belongs to.
    pub fn side(&self) -> (r: PaneSide)
        ensures
            r == self@.side,
    {
        match self {
            EntryPath::Local(_) => PaneSide::Local,
            EntryPath::Remote(_) => PaneSide::Remote,
        }
    }

    /// The text of the path.
    pub fn as_str(&self) -> (r: &str)
        ensures
            r@ == self@.text,
    {
        match self {
            EntryPath::Local(path) => path.as_str(),
            EntryPath::Remote(path) => path.as_str(),
        }
    }

    /// Whether two paths are the same path on the same side.
    pub fn same(&self, other: &EntryPath) -> (r: bool)
        ensures
            r == (self@ == other@),
    {
        self.side() == other.side() && crate::text::same_text(self.as_str(), other.as_str())
    }
}

/// An entry of a directory listing.
#[derive(PartialEq, Eq, Debug)]
pub struct FileEntry {
    pub path: String,
    pub name: String,
    pub kind: FileKind,
    pub size: Option<u64>,
    pub modified_at: Option<Timestamp>,
}

impl Clone for FileEntry {
    fn clone(&self) -> (r: Self)
        ensures
            r == *self,
    {
        FileEntry {
            path: self.path.clone(),
            name: self.name.clone(),
            kind: self.kind,
            size: self.size,
            modified_at: self.modified_at,
        }
    }
}

/// The secret part of a connection, and how it is used.
#[derive(PartialEq, Eq, Debug)]
pub enum AuthCredential {
    Password { password: String },
    PrivateKey { key_path: String, passphrase: Option<String> },
}

impl Clone for AuthCredential {
    fn clone(&self) -> (r: Self)
        ensures
            r == *self,
    {
        match self {
            AuthCredential::Password { password } => AuthCredential::Password {
                password: password.clone(),
            },
            AuthCredential::PrivateKey { key_path, passphrase } => AuthCredential::PrivateKey {
                key_path: key_path.clone(),
                passphrase: passphrase.clone(),
            },
        }
    }
}

/// Everything that a connection attempt needs.
#[derive(PartialEq, Eq, Debug)]
pub struct ConnectionSettings {
    pub host: String,
    pub port: u16,
    pub username: String,
    pub auth: AuthCredential,
}

impl Clone for ConnectionSettings {
    fn clone(&self) -> (r: Self)
        ensures
            r == *self,
    {
        ConnectionSettings {
            host: self.host.clone(),
            port: self.port,
            username: self.username.clone(),
            auth: self.auth.clone(),
        }
    }
}

/// Where a tab of the previous session, or a recent connection, pointed.
#[derive(PartialEq, Eq, Debug)]
pub struct RestoredTabTarget {
    pub host: String,
    pub port: u16,
    pub username: String,
    pub profile_id: Option<ProfileId>,
    pub remote_path: Option<String>,
}

impl Clone for RestoredTabTarget {
    fn clone(&self) -> (r: Self)
        ensures
            r == *self,
    {
        RestoredTabTarget {
            host: self.host.clone(),
            port: self.port,
            username: self.username.clone(),
            profile_id: self.profile_id,
            remote_path: self.remote_path.clone(),
        }
    }
}

/// How a saved profile signs in; the secret itself is kept elsewhere.
#[derive(PartialEq, Eq, Debug)]
pub enum AuthMethod {
    Password,
    PrivateKey { key_path: String },
}

impl Clone for AuthMethod {
    fn clone(&self) -> (r: Self)
        ensures
            r == *self,
    {
        match self {
            AuthMethod::Password => AuthMethod::Password,
            AuthMethod::PrivateKey { key_path } => AuthMethod::PrivateKey {
                key_path: key_path.clone(),
            },
        }
    }
}

/// A saved connection.
#[derive(PartialEq, Eq, Debug)]
pub struct ConnectionProfile {
    pub id: ProfileId,
    pub name: String,
    pub host: String,
    pub port: u16,
    pub username: String,
    pub auth: AuthMethod,
    pub default_remote_path: Option<String>,
}

impl Clone for ConnectionProfile {
    fn clone(&self) -> (r: Self)
        ensures
            r == *self,
    {
        ConnectionProfile {
            id: self.id,
            name: self.name.clone(),
            host: self.host.clone(),
            port: self.port,
            username: self.username.clone(),
            auth: self.auth.clone(),
            default_remote_path: self.default_remote_path.clone(),
        }
    }
}

/// A connection that succeeded before.
#[derive(PartialEq, Eq, Debug)]
pub struct RecentEntry {
    pub id: u64,
    pub host: String,
    pub port: u16,
    pub username: String,
    pub profile_id: Option<ProfileId>,
    pub display_name: Option<String>,
    pub last_remote_path: Option<String>,
}

/// The life of a tab's connection.
#[derive(PartialEq, Eq, Debug)]
pub enum ConnectionState {
    Empty,
    Connecting { session_id: SessionId, session_epoch: u64 },
    AwaitingHostKey { session_id: SessionId, session_epoch: u64, request_id: TrustRequestId },
    AwaitingCredentials { session_id: SessionId, session_epoch: u64 },
    Connected { session_id: SessionId, session_epoch: u64 },
    Reconnecting { session_id: SessionId, session_epoch: u64 },
    Disconnected { reason: DisconnectReason },
    Failed { error: UserFacingError },
}

/// The session that a connection state belongs to, while one is alive.
pub open spec fn live_session(connection: ConnectionState) -> Option<SessionId> {
    match connection {
        ConnectionState::Connecting { session_id, .. } => Some(session_id),
        ConnectionState::AwaitingHostKey { session_id, .. } => Some(session_id),
        ConnectionState::AwaitingCredentials { session_id, .. } => Some(session_id),
        ConnectionState::Connected { session_id, .. } => Some(session_id),
        ConnectionState::Reconnecting { session_id, .. } => Some(session_id),
        _ => None,
    }
}

impl ConnectionState {
    /// The session that the state belongs to, while one is alive.
    pub fn session(&self) -> (r: Option<SessionId>)
        ensures
            r == live_session(*self),
    {
        match self {
            ConnectionState::Connecting { session_id, .. } => Some(*session_id),
            ConnectionState::AwaitingHostKey { session_id, .. } => Some(*session_id),
            ConnectionState::AwaitingCredentials { session_id, .. } => Some(*session_id),
            ConnectionState::Connected { session_id, .. } => Some(*session_id),
            ConnectionState::Reconnecting { session_id, .. } => Some(*session_id),
            _ => None,
        }
    }

    /// Whether the connection is up.
    pub fn is_connected(&self) -> (r: bool)
        ensures
            r == (*self is Connected),
    {
        match self {
            ConnectionState::Connected { .. } => true,
            _ => false,
        }
    }
}

/// One pane of a tab: the directory shown and what is in it.
#[derive(PartialEq, Eq, Debug)]
pub struct Listing {
    pub path: Option<String>,
    pub entries: Vec<FileEntry>,
    pub is_refreshing: bool,
    pub error: Option<UserFacingError>,
}

/// Where a transfer job stands.
#[derive(Clone, PartialEq, Eq, Debug)]
pub enum TransferState {
    Queued,
    Planning,
    WaitingForConflictDecision { request_id: ConflictRequestId },
    Running { bytes_done: u64, bytes_total: Option<u64> },
    Cancelling,
    Completed,
    Skipped,
    Failed { error: UserFacingError },
}

/// A transfer of one file, or the root of a plan.
#[derive(Clone, PartialEq, Eq, Debug)]
pub struct TransferJob {
    pub id: TransferId,
    pub direction: TransferDirection,
    pub source: EntryPath,
    pub destination: EntryPath,
    pub state: TransferState,
    pub warnings: Vec<String>,
}

impl Listing {
    /// A pane that shows nothing yet.
    pub fn empty() -> (r: Self)
        ensures
            r.path is None,
            r.entries@.len() == 0,
            !r.is_refreshing,
            r.error is None,
    {
        Listing { path: None, entries: Vec::new(), is_refreshing: false, error: None }
    }
}

/// One end of a remote event: the tab, and the session and epoch that it was sent under.
#[derive(Clone, Copy, PartialEq, Eq, Structural, Debug)]
pub struct RemoteEventScope {
    pub tab_id: TabId,
    pub session_id: SessionId,
    pub session_epoch: u64,
}

/// Where a file operation runs.
#[derive(Clone, Copy, PartialEq, Eq, Structural, Debug)]
pub enum FsScope {
    Local { tab_id: TabId },
    Remote { tab_id: TabId, session_epoch: u64 },
}

/// An entry that a file operation names.
#[derive(PartialEq, Eq, Debug)]
pub struct FsEntryRef {
    pub path: EntryPath,
    pub is_dir: bool,
}

impl Clone for FsEntryRef {
    fn clone(&self) -> (r: Self)
        ensures
            r == *self,
    {
        FsEntryRef { path: self.path.clone(), is_dir: self.is_dir }
    }
}

/// A file operation.
#[derive(PartialEq, Eq, Debug)]
pub enum FsOp {
    Delete { entries: Vec<FsEntryRef> },
    Rename { from: EntryPath, to: EntryPath },
    CreateDirectory { parent: EntryPath, name: String },
}

/// The size and age of a remote file.
#[derive(Clone, Copy, PartialEq, Eq, Structural, Debug)]
pub struct RemoteSnapshot {
    pub size: Option<u64>,
    pub modified_at: Option<Timestamp>,
}

/// A request to copy files between the two sides.
#[derive(PartialEq, Eq, Debug)]
pub struct StartTransferCommand {
    pub tab_id: TabId,
    pub session_epoch: u64,
    pub profile_id: ProfileId,
    pub direction: TransferDirection,
    pub sources: Vec<EntryPath>,
    pub destination: EntryPath,
    pub conflict_policy: ConflictPolicy,
}

/// Whose credentials a pooled connection uses.
#[derive(Clone, Copy, PartialEq, Eq, Structural, Debug)]
pub enum ConnectionPoolIdentity {
    Saved(u64),
    Ephemeral(SessionId),
}

/// A request to connect a tab.
#[derive(PartialEq, Eq, Debug)]
pub struct ConnectCommand {
    pub tab_id: TabId,
    pub session_id: SessionId,
    pub session_epoch: u64,
    pub profile_id: ProfileId,
    pub pool_identity: ConnectionPoolIdentity,
    pub settings: ConnectionSettings,
}

/// The answer to a question about an existing destination.
#[derive(PartialEq, Eq, Debug)]
pub enum ConflictDecision {
    CancelJob,
    Skip { apply_to_all: bool },
    Overwrite { apply_to_all: bool },
    Rename { new_name: String, apply_to_all: bool },
}

/// A file operation and where it runs.
#[derive(PartialEq, Eq, Debug)]
pub struct FsCommand {
    pub scope: FsScope,
    pub op: FsOp,
}

/// A request for the size and age of a remote file that is about to be saved over.
#[derive(PartialEq, Eq, Debug)]
pub struct CheckRemoteEditSnapshotCommand {
    pub tab_id: TabId,
    pub session_epoch: u64,
    pub edit_session_id: EditSessionId,
    pub check_id: EditCheckId,
    pub path: String,
}

/// The answer to a question about an existing destination, and which question it answers.
#[derive(PartialEq, Eq, Debug)]
pub struct ConflictDecisionCommand {
    pub plan_id: PlanId,
    pub request_id: ConflictRequestId,
    pub decision: ConflictDecision,
}

/// What the user interface asks of the runtime.
#[derive(PartialEq, Eq, Debug)]
pub enum AppCommand {
    ConnectTab(ConnectCommand),
    DisconnectTab { tab_id: TabId },
    CloseTab { tab_id: TabId },
    CloseTabs { tab_ids: Vec<TabId> },
    ReadRemoteDir { tab_id: TabId, path: String },
    Fs(FsCommand),
    StartTransfer(StartTransferCommand),
    CheckRemoteEditSnapshot(CheckRemoteEditSnapshotCommand),
    AcceptHostKey { request_id: TrustRequestId },
    RejectHostKey { request_id: TrustRequestId },
    ResolveTransferConflict(ConflictDecisionCommand),
}

/// A question about an unknown host key.
#[derive(PartialEq, Eq, Debug)]
pub struct HostKeyPrompt {
    pub scope: RemoteEventScope,
    pub request_id: TrustRequestId,
    pub host: String,
    pub port: u16,
    pub algorithm: String,
    pub fingerprint_sha256: String,
}

/// A host key that differs from the stored one.
#[derive(PartialEq, Eq, Debug)]
pub struct HostKeyMismatch {
    pub scope: RemoteEventScope,
    pub host: String,
    pub port: u16,
    pub expected_fingerprint_sha256: Option<String>,
    pub actual_fingerprint_sha256: String,
}

/// A question about an existing destination.
#[derive(PartialEq, Eq, Debug)]
pub struct TransferConflictPrompt {
    pub plan_id: PlanId,
    pub request_id: ConflictRequestId,
    pub transfer_id: TransferId,
    pub source: EntryPath,
    pub destination: EntryPath,
    pub source_size: Option<u64>,
    pub source_modified_at: Option<Timestamp>,
}

impl Clone for TransferConflictPrompt {
    fn clone(&self) -> (r: Self)
        ensures
            r == *self,
    {
        TransferConflictPrompt {
            plan_id: self.plan_id,
            request_id: self.request_id,
            transfer_id: self.transfer_id,
            source: self.source.clone(),
            destination: self.destination.clone(),
            source_size: self.source_size,
            source_modified_at: self.source_modified_at,
        }
    }
}

/// A question about an existing destination that the runtime waits for.
#[derive(Clone, PartialEq, Eq, Debug)]
pub struct ConflictRequest {
    pub id: ConflictRequestId,
    pub plan_id: PlanId,
    pub transfer_id: TransferId,
    pub source: EntryPath,
    pub destination: EntryPath,
    pub source_size: Option<u64>,
    pub source_modified_at: Option<Timestamp>,
}

/// A question that waits for the user.
#[derive(PartialEq, Eq, Debug)]
pub enum ModalRequest {
    HostKey(HostKeyPrompt),
    TransferConflict(TransferConflictPrompt),
}

}
