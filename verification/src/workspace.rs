//! A window: its tabs, its panes, and everything that can be open in front of them.

use vstd::prelude::*;

use crate::connect_form::ConnectForm;
use crate::drawer_height::{
    allowed_height, clamp_drawer_height, content_area_height_from_viewport, content_height,
    dragged_height, TransferDrawerResize, DEFAULT_DRAWER_HEIGHT,
};
use crate::file_ops::{ContextMenuState, DeleteConfirmState, InlineEditState};
use crate::lists::lemma_filter_take;
use crate::model::{
    Dispatch, EntryPath, FileEntry, Listing, ModalRequest, PaneSide, ProfileId, RemoteEventScope,
    RemoteSnapshot, RestoredTabTarget, TabId, Timestamp, WindowSessionId, WorkspaceSurface,
    live_session,
};
use crate::profiles::{ProfileEditorState, SettingsSection};
use crate::tabs::{has_tab, lemma_store_with_tab, tab_index, touched, TabState, TabStore};
use crate::helpers::{string_of, text_of};
use crate::resources::TabIdCounter;
use crate::session_coordinator::{SessionTabSnapshot, SessionWindowSnapshot};
use crate::text::{joined, same_text};

verus! {

/// What has the keyboard.
#[derive(Clone, Copy, PartialEq, Eq, Structural, Debug)]
pub enum FocusTarget {
    Workspace,
    LocalPane,
    RemotePane,
    Modal,
    ConnectForm,
}

/// The colours that the user prefers.
#[derive(Clone, Copy, PartialEq, Eq, Structural, Debug)]
pub enum AppearancePreference {
    System,
    Light,
    Dark,
}

/// The part of the configuration that the windows read.
#[derive(Clone, PartialEq, Eq, Debug)]
pub struct Config {
    pub show_hidden_files: bool,
    pub confirm_delete: bool,
    pub appearance: AppearancePreference,
    /// The program that edits remote files, where the user chose one.
    pub external_editor: Option<String>,
}

impl Config {
    /// The program that edits remote files, where the user chose one.
    pub fn editor(&self) -> (r: Option<String>)
        ensures
            r == self.external_editor,
    {
        match &self.external_editor {
            Some(editor) => Some(editor.clone()),
            None => None,
        }
    }
}

/// The filter of a pane.
#[derive(PartialEq, Eq, Debug)]
pub struct PaneFilter {
    pub query: String,
    /// What the filter field holds while it has the keyboard.
    pub input: String,
    /// The filter field has the keyboard.
    pub explicit_focus: bool,
}

impl PaneFilter {
    pub open spec fn is_clear(&self) -> bool {
        self.query@.len() == 0 && self.input@.len() == 0 && !self.explicit_focus
    }

    pub fn new() -> (r: Self)
        ensures
            r.is_clear(),
    {
        PaneFilter { query: String::new(), input: String::new(), explicit_focus: false }
    }

    /// Whether the filter bar is shown.
    pub fn is_active(&self) -> (r: bool)
        ensures
            r == (self.query@.len() > 0 || self.explicit_focus),
    {
        !self.query.as_str().is_empty() || self.explicit_focus
    }

    pub fn clear(&mut self)
        ensures
            final(self).is_clear(),
    {
        self.query = String::new();
        self.input = String::new();
        self.explicit_focus = false;
    }
}

/// The command palette.
#[derive(PartialEq, Eq, Debug)]
pub struct CommandPaletteUi {
    pub open: bool,
    pub input: String,
    pub selected: usize,
}

/// A remote file that waits for the user to agree to its size, or that is about to be fetched.
#[derive(PartialEq, Eq, Debug)]
pub struct PendingEdit {
    pub remote_path: String,
    pub size: Option<u64>,
    pub modified_at: Option<Timestamp>,
    pub session_epoch: u64,
    pub profile_id: ProfileId,
    pub tab_id: TabId,
}

/// A window.
#[derive(PartialEq, Eq, Debug)]
pub struct Workspace {
    pub window_session_id: WindowSessionId,
    pub tabs: TabStore,
    pub modals: Vec<ModalRequest>,
    pub next_session_id: u64,
    pub focus: FocusTarget,
    pub focused_side: PaneSide,
    pub surface: WorkspaceSurface,
    pub settings_section: SettingsSection,
    pub profile_filter: String,
    pub profile_filter_focused: bool,
    pub selected_profile_id: Option<ProfileId>,
    pub profile_editor: Option<ProfileEditorState>,
    pub profile_delete_confirm: Option<ProfileId>,
    pub large_edit_confirm: Option<PendingEdit>,
    pub about_open: bool,
    pub drawer_open: bool,
    pub drawer_height: i64,
    pub drawer_resize: Option<TransferDrawerResize>,
    pub completed_section_expanded: bool,
    pub failed_section_expanded: bool,
    pub default_local_path: String,
    pub status_message: Option<String>,
    pub config_error: Option<String>,
    pub connect_form: Option<ConnectForm>,
    pub conflict_rename: String,
    pub conflict_rename_error: Option<String>,
    pub delete_confirm: Option<DeleteConfirmState>,
    pub inline_edit: Option<InlineEditState>,
    pub context_menu: Option<ContextMenuState>,
    pub go_to_path_open: bool,
    pub go_to_path_input: String,
    pub go_to_path_error: Option<String>,
    pub palette: CommandPaletteUi,
    pub local_filter: PaneFilter,
    pub remote_filter: PaneFilter,
    /// Where a range of selected entries began.
    pub selection_anchor: Option<EntryPath>,
}

/// A tab lives under the scope of an event: it is there, in the epoch and the session.
pub open spec fn accepts(tabs: Seq<TabState>, scope: RemoteEventScope) -> bool {
    &&& has_tab(tabs, scope.tab_id)
    &&& tabs[tab_index(tabs, scope.tab_id)].session_epoch == scope.session_epoch
    &&& live_session(tabs[tab_index(tabs, scope.tab_id)].connection) == Some(scope.session_id)
}

/// The questions that can still be answered: those about host keys only while their connection
/// attempt lives.
pub open spec fn still_asked(tabs: Seq<TabState>) -> spec_fn(ModalRequest) -> bool {
    |m: ModalRequest|
        match m {
            ModalRequest::HostKey(prompt) => accepts(tabs, prompt.scope),
            ModalRequest::TransferConflict(_) => true,
        }
}

/// The focus of a pane.
pub open spec fn pane_focus(side: PaneSide) -> FocusTarget {
    match side {
        PaneSide::Local => FocusTarget::LocalPane,
        PaneSide::Remote => FocusTarget::RemotePane,
    }
}

/// The status that tells of a command that was not taken.
pub open spec fn dispatch_status(outcome: Dispatch) -> Option<Seq<char>> {
    match outcome {
        Dispatch::Sent => None,
        Dispatch::ChannelFull => Some("Busy — try again in a moment."@),
        Dispatch::ChannelClosed => Some("Connection service is unavailable."@),
    }
}

/// The title of a window.
pub open spec fn window_title(tab_title: Option<Seq<char>>) -> Seq<char> {
    if tab_title is Some && tab_title->0.len() > 0 {
        tab_title->0 + " — macSFTP"@
    } else {
        "macSFTP"@
    }
}

/// The first position of an entry with the given path; the length where there is none.
pub open spec fn entry_index(entries: Seq<FileEntry>, path: Seq<char>) -> int
    decreases entries.len(),
{
    if entries.len() == 0 || entries[0].path@ == path {
        0
    } else {
        1 + entry_index(entries.drop_first(), path)
    }
}

/// The position of the first entry with the given path.
pub fn find_entry(entries: &Vec<FileEntry>, path: &str) -> (r: Option<usize>)
    ensures
        r is Some <==> entry_index(entries@, path@) < entries@.len(),
        r is Some ==> r->0 == entry_index(entries@, path@) && r->0 < entries@.len()
            && entries@[r->0 as int].path@ == path@,
{
    let mut i: usize = 0;
    assert(entries@.skip(0) =~= entries@);
    while i < entries.len()
        invariant
            i <= entries@.len(),
            entry_index(entries@, path@) == i + entry_index(entries@.skip(i as int), path@),
        decreases entries@.len() - i,
    {
        assert(entries@.skip(i as int).drop_first() =~= entries@.skip(i + 1));
        if same_text(entries[i].path.as_str(), path) {
            return Some(i);
        }
        i += 1;
    }
    None
}

impl Workspace {
    /// The tabs are in order.
    pub open spec fn wf(&self) -> bool {
        self.tabs.wf()
    }

    /// The title that a window has for the title of its active tab.
    pub fn window_title_for_active_tab(tab_title: Option<&str>) -> (r: String)
        ensures
            r@ == window_title(text_of(tab_title)),
    {
        match tab_title {
            Some(title) => {
                if title.is_empty() {
                    "macSFTP".to_string()
                } else {
                    joined(title, " — macSFTP")
                }
            },
            None => "macSFTP".to_string(),
        }
    }

    /// The title of the window.
    pub fn title(&self) -> (r: String)
        ensures
            r@ == window_title(
                match self.tabs.active() {
                    Some(tab) => Some(tab.title@),
                    None => None,
                },
            ),
    {
        match self.tabs.active_position() {
            Some(i) => Self::window_title_for_active_tab(Some(self.tabs.tabs[i].title.as_str())),
            None => Self::window_title_for_active_tab(None),
        }
    }

    /// Gives a pane the keyboard.
    pub fn focus_pane(&mut self, side: PaneSide)
        ensures
            *final(self) == (Workspace {
                focused_side: side,
                focus: pane_focus(side),
                ..*old(self)
            }),
    {
        self.focused_side = side;
        self.focus = match side {
            PaneSide::Local => FocusTarget::LocalPane,
            PaneSide::Remote => FocusTarget::RemotePane,
        };
    }

    /// Takes note of whether a command was sent; one that was not is told in the status.
    pub fn note_dispatch(&mut self, outcome: Dispatch) -> (r: bool)
        ensures
            r == (outcome is Sent),
            r ==> *final(self) == *old(self),
            *final(self) == (Workspace { status_message: final(self).status_message, ..*old(self) }),
            !r ==> string_of(final(self).status_message) == dispatch_status(outcome),
    {
        match outcome {
            Dispatch::Sent => true,
            Dispatch::ChannelFull => {
                self.status_message = Some("Busy — try again in a moment.".to_string());
                false
            },
            Dispatch::ChannelClosed => {
                self.status_message = Some("Connection service is unavailable.".to_string());
                false
            },
        }
    }

    pub fn set_drawer_height(&mut self, height: i64, viewport_height: i64)
        ensures
            *final(self) == (Workspace {
                drawer_height: allowed_height(
                    height as int,
                    content_height(viewport_height) as i64,
                ) as i64,
                ..*old(self)
            }),
    {
        let content: i64 = content_area_height_from_viewport(viewport_height);
        self.drawer_height = clamp_drawer_height(height, content);
    }

    pub fn reset_drawer_height(&mut self, viewport_height: i64)
        ensures
            *final(self) == (Workspace {
                drawer_height: allowed_height(
                    DEFAULT_DRAWER_HEIGHT as int,
                    content_height(viewport_height) as i64,
                ) as i64,
                ..*old(self)
            }),
    {
        self.set_drawer_height(DEFAULT_DRAWER_HEIGHT, viewport_height);
    }

    /// Holds the drawer to what the window allows, after the window became smaller.
    pub fn reclamp_drawer_height(&mut self, viewport_height: i64)
        ensures
            *final(self) == (Workspace {
                drawer_height: allowed_height(
                    old(self).drawer_height as int,
                    content_height(viewport_height) as i64,
                ) as i64,
                ..*old(self)
            }),
    {
        let height: i64 = self.drawer_height;
        self.set_drawer_height(height, viewport_height);
    }

    /// Follows a drag of the resize handle, while there is one.
    pub fn drag_drawer(&mut self, current_y: i64, viewport_height: i64)
        ensures
            *final(self) == (Workspace {
                drawer_height: match old(self).drawer_resize {
                    Some(start) => allowed_height(
                        start.start_height + 2 * (start.start_y - current_y),
                        content_height(viewport_height) as i64,
                    ) as i64,
                    None => old(self).drawer_height,
                },
                ..*old(self)
            }),
    {
        if let Some(start) = self.drawer_resize {
            let content: i64 = content_area_height_from_viewport(viewport_height);
            self.drawer_height = dragged_height(start, current_y, content);
        }
    }

    pub fn clear_filters(&mut self)
        ensures
            *final(self) == (Workspace {
                local_filter: final(self).local_filter,
                remote_filter: final(self).remote_filter,
                ..*old(self)
            }),
            final(self).local_filter.is_clear(),
            final(self).remote_filter.is_clear(),
    {
        self.local_filter = PaneFilter::new();
        self.remote_filter = PaneFilter::new();
    }

    /// Opens a tab that is not connected, at the user's home, and shows it.
    pub fn open_new_tab(&mut self, tab_id: TabId)
        requires
            old(self).wf(),
            !has_tab(old(self).tabs.tabs@, tab_id),
        ensures
            final(self).wf(),
            *final(self) == (Workspace {
                tabs: final(self).tabs,
                local_filter: final(self).local_filter,
                remote_filter: final(self).remote_filter,
                focused_side: PaneSide::Local,
                focus: FocusTarget::LocalPane,
                ..*old(self)
            }),
            final(self).local_filter.is_clear(),
            final(self).remote_filter.is_clear(),
            final(self).tabs.tabs@ == old(self).tabs.tabs@.push(
                final(self).tabs.tabs@.last(),
            ),
            final(self).tabs.active() == Some(final(self).tabs.tabs@.last()),
            final(self).tabs.mru@ == touched(old(self).tabs.mru@, tab_id),
            final(self).tabs.switcher_open == old(self).tabs.switcher_open,
            final(self).tabs.switcher_index == old(self).tabs.switcher_index,
            ({
                let tab = final(self).tabs.tabs@.last();
                &&& tab.id == tab_id
                &&& tab.title@ == "New Connection"@
                &&& tab.is_blank()
                &&& tab.local.path == Some(old(self).default_local_path)
                &&& tab.remote.path is None
                &&& tab.profile_id is None
                &&& tab.restored_target is None
            }),
    {
        let mut tab = TabState::new(tab_id, "New Connection".to_string());
        tab.local.path = Some(self.default_local_path.clone());
        self.tabs.open_tab(tab);
        self.clear_filters();
        self.focus_pane(PaneSide::Local);
    }

    /// Drops the questions that can no longer be answered. Says whether there were any.
    pub fn drain_expired_modals(&mut self) -> (r: bool)
        ensures
            *final(self) == (Workspace { modals: final(self).modals, ..*old(self) }),
            final(self).modals@ == old(self).modals@.filter(still_asked(old(self).tabs.tabs@)),
            r == (final(self).modals@.len() < old(self).modals@.len()),
    {
        let ghost all = self.modals@;
        let ghost keep = still_asked(self.tabs.tabs@);
        let count: usize = self.modals.len();
        let mut kept: Vec<ModalRequest> = Vec::new();
        let mut i: usize = 0;
        assert(all.take(0).filter(keep) =~= Seq::<ModalRequest>::empty()) by {
            reveal(Seq::filter);
        }
        assert(all.skip(0) =~= all);
        while i < count
            invariant
                i <= count,
                count == all.len(),
                self.modals@ == all.skip(i as int),
                *self == (Workspace { modals: self.modals, ..*old(self) }),
                keep == still_asked(self.tabs.tabs@),
                kept@ == all.take(i as int).filter(keep),
                kept@.len() <= i,
            decreases count - i,
        {
            proof {
                lemma_filter_take(all, keep, i as int);
            }
            let modal = self.modals.remove(0);
            assert(modal == all[i as int]);
            assert(self.modals@ =~= all.skip(i + 1));
            let stays = match &modal {
                ModalRequest::HostKey(prompt) => self.accepts_remote_scope(&prompt.scope),
                ModalRequest::TransferConflict(_) => true,
            };
            if stays {
                kept.push(modal);
            }
            i += 1;
        }
        assert(all.take(i as int) =~= all);
        let left: usize = kept.len();
        self.modals = kept;
        left < count
    }

    /// Whether the window holds a tab.
    pub fn owns_tab(&self, tab_id: TabId) -> (r: bool)
        ensures
            r == has_tab(self.tabs.tabs@, tab_id),
    {
        self.tabs.position(tab_id).is_some()
    }

    /// Whether the listing of a tab can be trusted: it is connected, at a path, and not being
    /// read again.
    pub fn tab_remote_is_ready(&self, tab_id: TabId) -> (r: bool)
        ensures
            r == (has_tab(self.tabs.tabs@, tab_id) && remote_is_ready(
                self.tabs.tabs@[tab_index(self.tabs.tabs@, tab_id)],
            )),
    {
        match self.tabs.position(tab_id) {
            Some(i) => {
                let tab = &self.tabs.tabs[i];
                tab.connection.is_connected() && tab.remote.path.is_some()
                    && !tab.remote.is_refreshing
            },
            None => false,
        }
    }

    /// Whether a tab lives under the scope of an event.
    pub fn accepts_remote_scope(&self, scope: &RemoteEventScope) -> (r: bool)
        ensures
            r == accepts(self.tabs.tabs@, *scope),
    {
        match self.tabs.position(scope.tab_id) {
            Some(i) => {
                let tab = &self.tabs.tabs[i];
                tab.session_epoch == scope.session_epoch && tab.connection.session() == Some(
                    scope.session_id,
                )
            },
            None => false,
        }
    }

    /// The tabs of the window, in their order.
    pub fn tab_ids(&self) -> (r: Vec<TabId>)
        ensures
            r@ == self.tabs.tabs@.map_values(|t: TabState| t.id),
    {
        let ghost id_of = |t: TabState| t.id;
        let mut out: Vec<TabId> = Vec::new();
        let mut i: usize = 0;
        while i < self.tabs.tabs.len()
            invariant
                i <= self.tabs.tabs@.len(),
                out@.len() == i,
                forall|j: int| 0 <= j < i ==> out@[j] == (#[trigger] self.tabs.tabs@[j]).id,
            decreases self.tabs.tabs@.len() - i,
        {
            out.push(self.tabs.tabs[i].id);
            i += 1;
        }
        assert(out@ =~= self.tabs.tabs@.map_values(|t: TabState| t.id));
        out
    }

    /// The size and age of a remote file as the listing of a tab has them.
    pub fn remote_entry_snapshot(&self, tab_id: TabId, remote_path: &str) -> (r: Option<
        RemoteSnapshot,
    >)
        ensures
            r == listed_snapshot(self.tabs.tabs@, tab_id, remote_path@),
    {
        match self.tabs.position(tab_id) {
            Some(i) => {
                let entries = &self.tabs.tabs[i].remote.entries;
                match find_entry(entries, remote_path) {
                    Some(k) => Some(
                        RemoteSnapshot {
                            size: entries[k].size,
                            modified_at: entries[k].modified_at,
                        },
                    ),
                    None => None,
                }
            },
            None => None,
        }
    }

    /// Makes the size and age of a remote file in the listing of a tab those of the snapshot.
    /// Says whether the listing has the file.
    pub fn sync_remote_entry_snapshot(
        &mut self,
        tab_id: TabId,
        remote_path: &str,
        snapshot: RemoteSnapshot,
    ) -> (r: bool)
        requires
            old(self).wf(),
        ensures
            final(self).wf(),
            r == (listed_snapshot(old(self).tabs.tabs@, tab_id, remote_path@) is Some),
            !r ==> *final(self) == *old(self),
            r ==> listing_synced(*old(self), *final(self), tab_id, remote_path@, snapshot),
            r ==> listed_snapshot(final(self).tabs.tabs@, tab_id, remote_path@) == Some(snapshot),
    {
        let i: usize = match self.tabs.position(tab_id) {
            Some(i) => i,
            None => return false,
        };
        let k: usize = match find_entry(&self.tabs.tabs[i].remote.entries, remote_path) {
            Some(k) => k,
            None => return false,
        };
        let ghost before = self.tabs;
        self.tabs.tabs[i].remote.entries[k].size = snapshot.size;
        self.tabs.tabs[i].remote.entries[k].modified_at = snapshot.modified_at;
        proof {
            let after = self.tabs.tabs@[i as int];
            assert(self.tabs.tabs@ =~= before.tabs@.update(i as int, after));
            lemma_store_with_tab(before, self.tabs, i as int);
            let old_entries = before.tabs@[i as int].remote.entries@;
            assert(after.remote.entries@ =~= old_entries.update(
                k as int,
                after.remote.entries@[k as int],
            ));
            lemma_entry_update(old_entries, k as int, after.remote.entries@[k as int], remote_path@);
            assert(tab_index(self.tabs.tabs@, tab_id) == i) by {
                crate::tabs::lemma_update_tab(before.tabs@, i as int, after);
            }
        }
        true
    }

    /// Shows a message in the status, where the window holds the tab. Says whether it does.
    pub fn set_edit_status(&mut self, tab_id: TabId, message: String) -> (r: bool)
        ensures
            r == has_tab(old(self).tabs.tabs@, tab_id),
            !r ==> *final(self) == *old(self),
            r ==> *final(self) == (Workspace { status_message: Some(message), ..*old(self) }),
    {
        if !self.owns_tab(tab_id) {
            return false;
        }
        self.status_message = Some(message);
        true
    }
}

proof fn lemma_entry_update(entries: Seq<FileEntry>, k: int, entry: FileEntry, path: Seq<char>)
    requires
        0 <= k < entries.len(),
        entry.path == entries[k].path,
    ensures
        entry_index(entries.update(k, entry), path) == entry_index(entries, path),
    decreases entries.len(),
{
    let all = entries.update(k, entry);
    if entries[0].path@ != path {
        if k > 0 {
            assert(all.drop_first() =~= entries.drop_first().update(k - 1, entry));
            lemma_entry_update(entries.drop_first(), k - 1, entry, path);
        } else {
            assert(all.drop_first() =~= entries.drop_first());
        }
    }
}

/// Only the size and age of one remote file in the listing of one tab became those of the
/// snapshot.
pub open spec fn listing_synced(
    before: Workspace,
    after: Workspace,
    tab_id: TabId,
    path: Seq<char>,
    snapshot: RemoteSnapshot,
) -> bool {
    let i = tab_index(before.tabs.tabs@, tab_id);
    let tab = before.tabs.tabs@[i];
    let k = entry_index(tab.remote.entries@, path);
    let synced = after.tabs.tabs@[i];
    &&& after == (Workspace {
        tabs: TabStore { tabs: after.tabs.tabs, ..before.tabs },
        ..before
    })
    &&& after.tabs.tabs@ == before.tabs.tabs@.update(i, synced)
    &&& synced == (TabState {
        remote: Listing { entries: synced.remote.entries, ..tab.remote },
        ..tab
    })
    &&& synced.remote.entries@ == tab.remote.entries@.update(
        k,
        FileEntry {
            size: snapshot.size,
            modified_at: snapshot.modified_at,
            ..tab.remote.entries@[k]
        },
    )
}

/// The listing of a tab can be trusted.
pub open spec fn remote_is_ready(tab: TabState) -> bool {
    tab.connection is Connected && tab.remote.path is Some && !tab.remote.is_refreshing
}

/// The size and age of a remote file as the listing of a tab has them.
pub open spec fn listed_snapshot(tabs: Seq<TabState>, tab_id: TabId, path: Seq<char>) -> Option<
    RemoteSnapshot,
> {
    let entries = tabs[tab_index(tabs, tab_id)].remote.entries@;
    if has_tab(tabs, tab_id) && entry_index(entries, path) < entries.len() {
        let entry = entries[entry_index(entries, path)];
        Some(RemoteSnapshot { size: entry.size, modified_at: entry.modified_at })
    } else {
        None
    }
}

/// What is saved of a tab, as contracts speak of it.
pub struct TabSnapshotView {
    pub title: Seq<char>,
    pub profile_id: Option<u64>,
    pub host: Seq<char>,
    pub port: u16,
    pub username: Seq<char>,
    pub local_path: Option<Seq<char>>,
    pub remote_path: Option<Seq<char>>,
}

impl View for SessionTabSnapshot {
    type V = TabSnapshotView;

    open spec fn view(&self) -> TabSnapshotView {
        TabSnapshotView {
            title: self.title@,
            profile_id: self.profile_id,
            host: self.host@,
            port: self.port,
            username: self.username@,
            local_path: string_of(self.local_path),
            remote_path: string_of(self.remote_path),
        }
    }
}

/// The host of a tab: that of its connection, or of what it was restored from, or its title.
pub open spec fn tab_host(tab: TabState) -> Seq<char> {
    match (tab.connection_settings, tab.restored_target) {
        (Some(settings), _) => settings.host@,
        (None, Some(target)) => target.host@,
        (None, None) => tab.title@,
    }
}

/// The port of a tab: that of its connection, or of what it was restored from, or the usual one.
pub open spec fn tab_port(tab: TabState) -> u16 {
    match (tab.connection_settings, tab.restored_target) {
        (Some(settings), _) => settings.port,
        (None, Some(target)) => target.port,
        (None, None) => 22,
    }
}

/// The user of a tab: that of its connection, or of what it was restored from, or none.
pub open spec fn tab_username(tab: TabState) -> Seq<char> {
    match (tab.connection_settings, tab.restored_target) {
        (Some(settings), _) => settings.username@,
        (None, Some(target)) => target.username@,
        (None, None) => Seq::empty(),
    }
}

/// The remote path of a tab: where it is, or where it was when it was last connected.
pub open spec fn tab_remote_path(tab: TabState) -> Option<Seq<char>> {
    match (tab.remote.path, tab.restored_target) {
        (Some(path), _) => Some(path@),
        (None, Some(target)) => string_of(target.remote_path),
        (None, None) => None,
    }
}

/// What is saved of a tab.
pub open spec fn tab_snapshot(tab: TabState) -> TabSnapshotView {
    TabSnapshotView {
        title: tab.title@,
        profile_id: match tab.profile_id {
            Some(id) => Some(id.0),
            None => None,
        },
        host: tab_host(tab),
        port: tab_port(tab),
        username: tab_username(tab),
        local_path: string_of(tab.local.path),
        remote_path: tab_remote_path(tab),
    }
}

/// The tab that a snapshot is restored to: not connected, at the saved paths.
pub open spec fn restored_from(
    tab: TabState,
    id: TabId,
    snap: TabSnapshotView,
    default_local_path: Seq<char>,
) -> bool {
    &&& tab.id == id
    &&& tab.title@ == if snap.title.len() == 0 {
        snap.host
    } else {
        snap.title
    }
    &&& tab.is_blank()
    &&& tab.profile_id == match snap.profile_id {
        Some(id) => Some(ProfileId(id)),
        None => None,
    }
    &&& tab.restored_target is Some
    &&& tab.restored_target->0.host@ == snap.host
    &&& tab.restored_target->0.port == snap.port
    &&& tab.restored_target->0.username@ == snap.username
    &&& tab.restored_target->0.profile_id == tab.profile_id
    &&& string_of(tab.restored_target->0.remote_path) == snap.remote_path
    &&& string_of(tab.local.path) == Some(
        match snap.local_path {
            Some(path) => path,
            None => default_local_path,
        },
    )
    &&& string_of(tab.remote.path) == snap.remote_path
}

/// Saving a tab right after it was restored gives back what it was restored from, with the blanks
/// filled in: a missing title by the host, a missing local path by the user's home.
pub proof fn law_restored_tab_saves_the_same(
    tab: TabState,
    id: TabId,
    snap: TabSnapshotView,
    default_local_path: Seq<char>,
)
    requires
        restored_from(tab, id, snap, default_local_path),
    ensures
        tab_snapshot(tab) == (TabSnapshotView {
            title: if snap.title.len() == 0 {
                snap.host
            } else {
                snap.title
            },
            local_path: Some(
                match snap.local_path {
                    Some(path) => path,
                    None => default_local_path,
                },
            ),
            ..snap
        }),
        snap.title.len() > 0 && snap.local_path is Some ==> tab_snapshot(tab) == snap,
{
}

fn snapshot_of_tab(tab: &TabState) -> (r: SessionTabSnapshot)
    ensures
        r@ == tab_snapshot(*tab),
{
    let profile_id = match tab.profile_id {
        Some(id) => Some(id.0),
        None => None,
    };
    let (host, port, username) = tab_endpoint(tab);
    let remote_path = match &tab.remote.path {
        Some(path) => Some(path.clone()),
        None => match &tab.restored_target {
            Some(target) => target.remote_path.clone(),
            None => None,
        },
    };
    SessionTabSnapshot {
        title: tab.title.clone(),
        profile_id,
        host,
        port,
        username,
        local_path: tab.local.path.clone(),
        remote_path,
    }
}

/// The host, port and user of a tab.
pub fn tab_endpoint(tab: &TabState) -> (r: (String, u16, String))
    ensures
        r.0@ == tab_host(*tab),
        r.1 == tab_port(*tab),
        r.2@ == tab_username(*tab),
{
    match (&tab.connection_settings, &tab.restored_target) {
        (Some(settings), _) => (settings.host.clone(), settings.port, settings.username.clone()),
        (None, Some(target)) => (target.host.clone(), target.port, target.username.clone()),
        (None, None) => (tab.title.clone(), 22, String::new()),
    }
}

fn restored_tab(id: TabId, snap: &SessionTabSnapshot, default_local_path: &str) -> (r: TabState)
    ensures
        restored_from(r, id, snap@, default_local_path@),
{
    let title = if snap.title.as_str().is_empty() {
        snap.host.clone()
    } else {
        snap.title.clone()
    };
    let profile_id = match snap.profile_id {
        Some(id) => Some(ProfileId(id)),
        None => None,
    };
    let mut tab = TabState::new(id, title);
    tab.profile_id = profile_id;
    tab.restored_target = Some(
        RestoredTabTarget {
            host: snap.host.clone(),
            port: snap.port,
            username: snap.username.clone(),
            profile_id,
            remote_path: snap.remote_path.clone(),
        },
    );
    tab.local.path = Some(
        match &snap.local_path {
            Some(path) => path.clone(),
            None => default_local_path.to_string(),
        },
    );
    tab.remote.path = snap.remote_path.clone();
    tab
}

/// The ids from `first` on, in falling order.
pub open spec fn falling_ids(first: int, count: nat) -> Seq<TabId> {
    Seq::new(count, |i: int| TabId((first + count - 1 - i) as u64))
}

/// The tab that is active after a restore.
pub open spec fn restored_active(snapshot: SessionWindowSnapshot) -> int {
    if snapshot.active_tab_index < snapshot.tabs@.len() {
        snapshot.active_tab_index as int
    } else {
        snapshot.tabs@.len() - 1
    }
}

/// The tabs of a window restored from a snapshot, with ids from `first` on: each as it was saved,
/// and the active one marked.
pub open spec fn holds_restored(
    tabs: TabStore,
    snapshot: SessionWindowSnapshot,
    first: int,
    default_local_path: Seq<char>,
) -> bool {
    &&& tabs.tabs@.len() == snapshot.tabs@.len()
    &&& forall|i: int|
        0 <= i < tabs.tabs@.len() ==> restored_from(
            #[trigger] tabs.tabs@[i],
            TabId((first + i) as u64),
            snapshot.tabs@[i]@,
            default_local_path,
        )
    &&& tabs.active_tab_id == Some(TabId((first + restored_active(snapshot)) as u64))
    &&& tabs.mru@ == touched(
        falling_ids(first, snapshot.tabs@.len()),
        TabId((first + restored_active(snapshot)) as u64),
    )
    &&& !tabs.switcher_open
}

impl Workspace {
    /// A window with nothing in it.
    fn blank(
        window_session_id: WindowSessionId,
        default_local_path: String,
        config_failed: bool,
    ) -> (r: Self)
        ensures
            r.is_fresh(window_session_id, default_local_path, config_failed),
            r.tabs.wf(),
            r.tabs.tabs@.len() == 0,
            !r.tabs.switcher_open,
    {
        let config_error = if config_failed {
            Some("Could not load config.json; using defaults.".to_string())
        } else {
            None
        };
        Workspace {
            window_session_id,
            tabs: TabStore::new(),
            modals: Vec::new(),
            next_session_id: 1,
            focus: FocusTarget::LocalPane,
            focused_side: PaneSide::Local,
            surface: WorkspaceSurface::Files,
            settings_section: SettingsSection::General,
            profile_filter: String::new(),
            profile_filter_focused: false,
            selected_profile_id: None,
            profile_editor: None,
            profile_delete_confirm: None,
            large_edit_confirm: None,
            about_open: false,
            drawer_open: true,
            drawer_height: DEFAULT_DRAWER_HEIGHT,
            drawer_resize: None,
            completed_section_expanded: false,
            failed_section_expanded: false,
            default_local_path,
            status_message: None,
            config_error,
            connect_form: None,
            conflict_rename: String::new(),
            conflict_rename_error: None,
            delete_confirm: None,
            inline_edit: None,
            context_menu: None,
            go_to_path_open: false,
            go_to_path_input: String::new(),
            go_to_path_error: None,
            palette: CommandPaletteUi { open: false, input: String::new(), selected: 0 },
            local_filter: PaneFilter::new(),
            remote_filter: PaneFilter::new(),
            selection_anchor: None,
        }
    }

    /// But for its tabs, the window is as it is when it opens.
    pub open spec fn is_fresh(
        &self,
        window_session_id: WindowSessionId,
        default_local_path: String,
        config_failed: bool,
    ) -> bool {
        &&& self.window_session_id == window_session_id
        &&& self.modals@.len() == 0
        &&& self.next_session_id == 1
        &&& self.focus is LocalPane
        &&& self.focused_side is Local
        &&& self.surface is Files
        &&& self.settings_section is General
        &&& self.profile_filter@.len() == 0
        &&& !self.profile_filter_focused
        &&& self.selected_profile_id is None
        &&& self.profile_editor is None
        &&& self.profile_delete_confirm is None
        &&& self.large_edit_confirm is None
        &&& !self.about_open
        &&& self.drawer_open
        &&& self.drawer_height == DEFAULT_DRAWER_HEIGHT
        &&& self.drawer_resize is None
        &&& !self.completed_section_expanded
        &&& !self.failed_section_expanded
        &&& self.default_local_path == default_local_path
        &&& self.status_message is None
        &&& string_of(self.config_error) == if config_failed {
            Some("Could not load config.json; using defaults."@)
        } else {
            None
        }
        &&& self.connect_form is None
        &&& self.conflict_rename@.len() == 0
        &&& self.conflict_rename_error is None
        &&& self.delete_confirm is None
        &&& self.inline_edit is None
        &&& self.context_menu is None
        &&& !self.go_to_path_open
        &&& self.go_to_path_input@.len() == 0
        &&& self.go_to_path_error is None
        &&& !self.palette.open
        &&& self.palette.input@.len() == 0
        &&& self.palette.selected == 0
        &&& self.local_filter.is_clear()
        &&& self.remote_filter.is_clear()
        &&& self.selection_anchor is None
    }

    /// A window that opens: with the tabs of the saved one, or else with one new tab. Nothing is
    /// connected yet.
    pub fn new(
        window_session_id: WindowSessionId,
        default_local_path: String,
        config_failed: bool,
        restore: Option<&SessionWindowSnapshot>,
        ids: &mut TabIdCounter,
    ) -> (r: Self)
        requires
            restore is Some ==> old(ids).next + restore->0.tabs@.len() <= u64::MAX,
            old(ids).next < u64::MAX,
        ensures
            r.wf(),
            r.is_fresh(window_session_id, default_local_path, config_failed),
            restore is Some && restore->0.tabs@.len() > 0 ==> holds_restored(
                r.tabs,
                *restore->0,
                old(ids).next as int,
                default_local_path@,
            ) && final(ids).next == old(ids).next + restore->0.tabs@.len(),
            restore is None || restore->0.tabs@.len() == 0 ==> {
                &&& final(ids).next == old(ids).next + 1
                &&& r.tabs.tabs@.len() == 1
                &&& r.tabs.active() == Some(r.tabs.tabs@[0])
                &&& r.tabs.tabs@[0].id == TabId(old(ids).next)
                &&& r.tabs.tabs@[0].title@ == "New Connection"@
                &&& r.tabs.tabs@[0].is_blank()
                &&& r.tabs.tabs@[0].local.path == Some(default_local_path)
                &&& r.tabs.tabs@[0].remote.path is None
                &&& r.tabs.tabs@[0].profile_id is None
                &&& r.tabs.tabs@[0].restored_target is None
                &&& !r.tabs.switcher_open
            },
    {
        let mut workspace = Self::blank(window_session_id, default_local_path, config_failed);
        if let Some(snapshot) = restore {
            workspace.restore_session_tabs(snapshot, ids);
        }
        if workspace.tabs.tabs.len() == 0 {
            let id = ids.next_tab_id();
            proof {
                crate::tabs::lemma_has_tab(workspace.tabs.tabs@, id);
            }
            workspace.open_new_tab(id);
        }
        workspace
    }

    /// Fills a window without tabs with those of a snapshot. Nothing is connected.
    pub fn restore_session_tabs(
        &mut self,
        snapshot: &SessionWindowSnapshot,
        ids: &mut TabIdCounter,
    )
        requires
            old(self).wf(),
            old(self).tabs.tabs@.len() == 0,
            !old(self).tabs.switcher_open,
            old(ids).next + snapshot.tabs@.len() <= u64::MAX,
        ensures
            final(self).wf(),
            final(ids).next == old(ids).next + snapshot.tabs@.len(),
            snapshot.tabs@.len() == 0 ==> *final(self) == *old(self),
            snapshot.tabs@.len() > 0 ==> {
                &&& *final(self) == (Workspace {
                    tabs: final(self).tabs,
                    local_filter: final(self).local_filter,
                    remote_filter: final(self).remote_filter,
                    focused_side: PaneSide::Local,
                    focus: FocusTarget::LocalPane,
                    ..*old(self)
                })
                &&& final(self).local_filter.is_clear()
                &&& final(self).remote_filter.is_clear()
                &&& holds_restored(
                    final(self).tabs,
                    *snapshot,
                    old(ids).next as int,
                    old(self).default_local_path@,
                )
            },
    {
        let count: usize = snapshot.tabs.len();
        if count == 0 {
            return;
        }
        let ghost first = ids.next as int;
        let mut i: usize = 0;
        proof {
            lemma_no_tabs(self.tabs);
            assert(self.tabs.mru@ =~= falling_ids(first, 0));
        }
        while i < count
            invariant
                i <= count,
                count == snapshot.tabs@.len(),
                0 <= first,
                first + count <= u64::MAX,
                ids.next == first + i,
                self.wf(),
                *self == (Workspace { tabs: self.tabs, ..*old(self) }),
                !self.tabs.switcher_open,
                self.tabs.tabs@.len() == i,
                self.tabs.mru@ == falling_ids(first, i as nat),
                forall|j: int|
                    0 <= j < i ==> restored_from(
                        #[trigger] self.tabs.tabs@[j],
                        TabId((first + j) as u64),
                        snapshot.tabs@[j]@,
                        old(self).default_local_path@,
                    ),
            decreases count - i,
        {
            let id = ids.next_tab_id();
            let tab = restored_tab(id, &snapshot.tabs[i], self.default_local_path.as_str());
            proof {
                crate::tabs::lemma_has_tab(self.tabs.tabs@, id);
                let before = falling_ids(first, i as nat);
                assert(!before.contains(id)) by {
                    if before.contains(id) {
                        let k = choose|k: int| 0 <= k < before.len() && before[k] == id;
                        assert(before[k] == TabId((first + i - 1 - k) as u64));
                    }
                }
                crate::tabs::lemma_filter_all(before, id);
                assert(falling_ids(first, (i + 1) as nat) =~= touched(before, id));
            }
            self.tabs.open_tab(tab);
            i += 1;
        }
        let active: usize = if snapshot.active_tab_index < count {
            snapshot.active_tab_index
        } else {
            count - 1
        };
        let active_id = self.tabs.tabs[active].id;
        proof {
            assert(restored_from(
                self.tabs.tabs@[active as int],
                TabId((first + active) as u64),
                snapshot.tabs@[active as int]@,
                old(self).default_local_path@,
            ));
            crate::tabs::lemma_has_tab(self.tabs.tabs@, active_id);
        }
        let _ = self.tabs.activate_tab(active_id);
        self.clear_filters();
        self.focus_pane(PaneSide::Local);
    }

    /// What is saved of the window.
    pub fn build_session_snapshot(&self) -> (r: SessionWindowSnapshot)
        ensures
            r.id == self.window_session_id,
            r.tabs@.len() == self.tabs.tabs@.len(),
            forall|i: int|
                0 <= i < r.tabs@.len() ==> (#[trigger] r.tabs@[i])@ == tab_snapshot(
                    self.tabs.tabs@[i],
                ),
            r.active_tab_index == if self.tabs.active() is Some {
                self.tabs.active_index()
            } else {
                0
            },
    {
        let mut tabs: Vec<SessionTabSnapshot> = Vec::new();
        let mut i: usize = 0;
        while i < self.tabs.tabs.len()
            invariant
                i <= self.tabs.tabs@.len(),
                tabs@.len() == i,
                forall|j: int|
                    0 <= j < i ==> (#[trigger] tabs@[j])@ == tab_snapshot(self.tabs.tabs@[j]),
            decreases self.tabs.tabs@.len() - i,
        {
            tabs.push(snapshot_of_tab(&self.tabs.tabs[i]));
            i += 1;
        }
        let active_tab_index: usize = match self.tabs.active_position() {
            Some(i) => i,
            None => 0,
        };
        SessionWindowSnapshot { id: self.window_session_id, active_tab_index, tabs }
    }
}

proof fn lemma_no_tabs(store: TabStore)
    requires
        store.wf(),
        store.tabs@.len() == 0,
    ensures
        store.mru@.len() == 0,
{
    if store.mru@.len() > 0 {
        assert(store.mru@.contains(store.mru@[0]));
        crate::tabs::lemma_tab_index(store.tabs@, store.mru@[0]);
    }
}

}
