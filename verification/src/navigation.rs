//! Moving through directories, and the filter of a pane.

use vstd::prelude::*;

use crate::helpers::string_of;
use crate::model::{
    AppCommand, Dispatch, FileEntry, FileSortField, HistoryOp, Listing, PaneSide, SortDirection,
    SortSpec, TabId,
};
use crate::nav::{after_back, after_forward, after_push, parent, parent_of, PathHistory};
use crate::tabs::{has_tab, lemma_store_with_tab, tab_changed, tab_index, TabState, TabStore};
use crate::text::{joined, joined3};
use crate::workspace::{dispatch_status, PaneFilter, Workspace};

verus! {

/// What reading a local directory gave: its entries in the order wanted, or why it failed.
#[derive(PartialEq, Eq, Debug)]
pub enum DirectoryRead {
    Entries(Vec<FileEntry>),
    Failed(String),
}

/// The local pane of a tab after a directory was read.
pub open spec fn local_read(before: Listing, path: String, read: DirectoryRead, after: Listing) -> bool {
    match read {
        DirectoryRead::Entries(entries) => {
            &&& after == (Listing { path: Some(path), entries: after.entries, error: None, ..before })
            &&& after.entries == entries
        },
        DirectoryRead::Failed(_) => {
            &&& after == (Listing { path: Some(path), entries: after.entries, ..before })
            &&& after.entries@.len() == 0
        },
    }
}

/// The history of one side of a tab.
pub open spec fn history(tab: TabState, side: PaneSide) -> PathHistory {
    match side {
        PaneSide::Local => tab.local_history,
        PaneSide::Remote => tab.remote_history,
    }
}

/// Where one side of a tab is.
pub open spec fn place(tab: TabState, side: PaneSide) -> Option<Seq<char>> {
    match side {
        PaneSide::Local => string_of(tab.local.path),
        PaneSide::Remote => string_of(tab.remote.path),
    }
}

/// Where a step leads: to the given path, or to the last place before or ahead.
pub open spec fn step_target(history: PathHistory, path: Seq<char>, op: HistoryOp) -> Option<
    Seq<char>,
> {
    match op {
        HistoryOp::Push => Some(path),
        HistoryOp::Replace => Some(path),
        HistoryOp::Back => if history.past().len() > 0 {
            Some(history.past().last())
        } else {
            None
        },
        HistoryOp::Forward => if history.ahead().len() > 0 {
            Some(history.ahead().last())
        } else {
            None
        },
    }
}

/// The history after a step that was taken from a place.
pub open spec fn stepped(
    before: PathHistory,
    after: PathHistory,
    from: Option<Seq<char>>,
    target: Seq<char>,
    op: HistoryOp,
) -> bool {
    match from {
        None => after == before,
        Some(from) => match op {
            HistoryOp::Push => after.at(target) == after_push(before.at(from), target),
            HistoryOp::Replace => after == before,
            HistoryOp::Back => after.at(target) == after_back(before.at(from)),
            HistoryOp::Forward => after.at(target) == after_forward(before.at(from)),
        },
    }
}

impl PathHistory {
    /// Where a step leads.
    pub fn target(&self, path: &str, op: HistoryOp) -> (r: Option<String>)
        ensures
            string_of(r) == step_target(*self, path@, op),
    {
        match op {
            HistoryOp::Push => Some(path.to_string()),
            HistoryOp::Replace => Some(path.to_string()),
            HistoryOp::Back => {
                let count: usize = self.back.len();
                if count == 0 {
                    None
                } else {
                    assert(self.past().last() == self.back@[count - 1]@);
                    Some(self.back[count - 1].clone())
                }
            },
            HistoryOp::Forward => {
                let count: usize = self.forward.len();
                if count == 0 {
                    None
                } else {
                    assert(self.ahead().last() == self.forward@[count - 1]@);
                    Some(self.forward[count - 1].clone())
                }
            },
        }
    }

    /// Takes note of a step to a target.
    pub fn step(&mut self, from: Option<&str>, target: &str, op: HistoryOp)
        requires
            step_target(*old(self), target@, op) == Some(target@),
        ensures
            stepped(
                *old(self),
                *final(self),
                match from {
                    Some(from) => Some(from@),
                    None => None,
                },
                target@,
                op,
            ),
    {
        if let Some(from) = from {
            match op {
                HistoryOp::Push => self.push_navigating_from(Some(from), target),
                HistoryOp::Replace => {},
                HistoryOp::Back => {
                    let _ = self.go_back(from);
                },
                HistoryOp::Forward => {
                    let _ = self.go_forward(from);
                },
            }
        }
    }
}

/// A step back and a step forward again, each taken, lead back to the same place with the same
/// history.
pub proof fn law_steps_undo_each_other(
    before: PathHistory,
    between: PathHistory,
    after: PathHistory,
    from: Seq<char>,
    target: Seq<char>,
)
    requires
        step_target(before, from, HistoryOp::Back) == Some(target),
        stepped(before, between, Some(from), target, HistoryOp::Back),
        stepped(between, after, Some(target), from, HistoryOp::Forward),
    ensures
        step_target(between, target, HistoryOp::Forward) == Some(from),
        after.at(from) == before.at(from),
{
    crate::nav::law_forward_undoes_back(before.at(from));
    assert(between.at(target).ahead == before.at(from).ahead.push(from));
    assert(before.at(from).past.last() == target);
    assert(between.at(target) == after_back(before.at(from)));
}

impl TabStore {
    /// Takes note of a step in one side of the tab at `i`.
    fn step(&mut self, i: usize, side: PaneSide, target: &str, op: HistoryOp)
        requires
            old(self).wf(),
            i < old(self).tabs@.len(),
            step_target(history(old(self).tabs@[i as int], side), target@, op) == Some(target@),
        ensures
            final(self).wf(),
            tab_changed(*old(self), *final(self), i as int),
            ({
                let tab = old(self).tabs@[i as int];
                let after = final(self).tabs@[i as int];
                &&& after == match side {
                    PaneSide::Local => TabState { local_history: after.local_history, ..tab },
                    PaneSide::Remote => TabState { remote_history: after.remote_history, ..tab },
                }
                &&& stepped(
                    history(tab, side),
                    history(after, side),
                    place(tab, side),
                    target@,
                    op,
                )
            }),
    {
        let ghost before = *self;
        match side {
            PaneSide::Local => {
                let from = self.tabs[i].local.path.clone();
                match &from {
                    Some(from) => self.tabs[i].local_history.step(Some(from.as_str()), target, op),
                    None => {},
                }
            },
            PaneSide::Remote => {
                let from = self.tabs[i].remote.path.clone();
                match &from {
                    Some(from) => self.tabs[i].remote_history.step(
                        Some(from.as_str()),
                        target,
                        op,
                    ),
                    None => {},
                }
            },
        }
        proof {
            assert(self.tabs@ =~= before.tabs@.update(i as int, self.tabs@[i as int]));
            lemma_store_with_tab(before, *self, i as int);
        }
    }

    /// Shows what was read of a local directory in the tab at `i`.
    fn show_local(&mut self, i: usize, path: String, read: DirectoryRead)
        requires
            old(self).wf(),
            i < old(self).tabs@.len(),
        ensures
            final(self).wf(),
            tab_changed(*old(self), *final(self), i as int),
            ({
                let tab = old(self).tabs@[i as int];
                let after = final(self).tabs@[i as int];
                &&& after == (TabState {
                    local: after.local,
                    selected_paths: after.selected_paths,
                    ..tab
                })
                &&& after.selected_paths@.len() == 0
                &&& local_read(tab.local, path, read, after.local)
            }),
    {
        let ghost before = *self;
        self.tabs[i].local.path = Some(path);
        match read {
            DirectoryRead::Entries(entries) => {
                self.tabs[i].local.entries = entries;
                self.tabs[i].local.error = None;
            },
            DirectoryRead::Failed(_) => {
                self.tabs[i].local.entries = Vec::new();
            },
        }
        self.tabs[i].selected_paths = Vec::new();
        proof {
            assert(self.tabs@ =~= before.tabs@.update(i as int, self.tabs@[i as int]));
            lemma_store_with_tab(before, *self, i as int);
        }
    }

    /// The remote listing of the tab at `i` is being read; what it shows stays until it is there.
    pub(crate) fn await_remote(&mut self, i: usize, path: String)
        requires
            old(self).wf(),
            i < old(self).tabs@.len(),
        ensures
            final(self).wf(),
            tab_changed(*old(self), *final(self), i as int),
            awaits_remote(old(self).tabs@[i as int], final(self).tabs@[i as int], path),
    {
        let ghost before = *self;
        self.tabs[i].remote.path = Some(path);
        self.tabs[i].remote.is_refreshing = true;
        self.tabs[i].remote.error = None;
        self.tabs[i].selected_paths = Vec::new();
        proof {
            assert(self.tabs@ =~= before.tabs@.update(i as int, self.tabs@[i as int]));
            lemma_store_with_tab(before, *self, i as int);
        }
    }
}

/// A tab whose remote listing is being read.
pub open spec fn awaits_remote(tab: TabState, after: TabState, path: String) -> bool {
    &&& after == (TabState {
        remote: Listing { path: Some(path), is_refreshing: true, error: None, ..tab.remote },
        selected_paths: after.selected_paths,
        ..tab
    })
    &&& after.selected_paths@.len() == 0
}

impl Workspace {
    /// Takes a step in the local pane, where there is one to take: the history takes note of it,
    /// and the filter and the start of the selection are forgotten. Gives the directory to read.
    pub fn navigate_pane_local(&mut self, path: &str, op: HistoryOp) -> (r: Option<String>)
        requires
            old(self).wf(),
        ensures
            final(self).wf(),
            string_of(r) == old(self).local_target(path@, op),
            r is None ==> *final(self) == *old(self),
            r is Some ==> {
                let i = old(self).tabs.active_index();
                let tab = old(self).tabs.tabs@[i];
                let after = final(self).tabs.tabs@[i];
                &&& *final(self) == (Workspace {
                    tabs: final(self).tabs,
                    local_filter: final(self).local_filter,
                    selection_anchor: None,
                    ..*old(self)
                })
                &&& final(self).local_filter.is_clear()
                &&& tab_changed(old(self).tabs, final(self).tabs, i)
                &&& after == (TabState { local_history: after.local_history, ..tab })
                &&& stepped(
                    tab.local_history,
                    after.local_history,
                    string_of(tab.local.path),
                    r->0@,
                    op,
                )
            },
    {
        let i: usize = match self.tabs.active_position() {
            Some(i) => i,
            None => return None,
        };
        match op {
            HistoryOp::Back | HistoryOp::Forward => {
                if self.tabs.tabs[i].local.path.is_none() {
                    return None;
                }
            },
            HistoryOp::Push | HistoryOp::Replace => {},
        }
        let target = match self.tabs.tabs[i].local_history.target(path, op) {
            Some(target) => target,
            None => return None,
        };
        self.tabs.step(i, PaneSide::Local, target.as_str(), op);
        self.local_filter = PaneFilter::new();
        self.selection_anchor = None;
        Some(target)
    }

    /// Where a step in the local pane leads: back and forward only from a place.
    pub open spec fn local_target(&self, path: Seq<char>, op: HistoryOp) -> Option<Seq<char>> {
        match self.tabs.active() {
            Some(tab) => if tab.local.path is None && (op is Back || op is Forward) {
                None
            } else {
                step_target(tab.local_history, path, op)
            },
            None => None,
        }
    }

    /// Shows what was read of a local directory in the active tab; a failure is told in the
    /// status.
    pub fn set_local_path(&mut self, path: String, read: DirectoryRead)
        requires
            old(self).wf(),
        ensures
            final(self).wf(),
            old(self).tabs.active() is None ==> *final(self) == *old(self),
            old(self).tabs.active() is Some ==> {
                let i = old(self).tabs.active_index();
                let tab = old(self).tabs.tabs@[i];
                let after = final(self).tabs.tabs@[i];
                &&& *final(self) == (Workspace {
                    tabs: final(self).tabs,
                    status_message: final(self).status_message,
                    ..*old(self)
                })
                &&& tab_changed(old(self).tabs, final(self).tabs, i)
                &&& after == (TabState {
                    local: after.local,
                    selected_paths: after.selected_paths,
                    ..tab
                })
                &&& after.selected_paths@.len() == 0
                &&& local_read(tab.local, path, read, after.local)
                &&& match read {
                    DirectoryRead::Entries(_) => final(self).status_message == old(
                        self,
                    ).status_message,
                    DirectoryRead::Failed(error) => string_of(final(self).status_message) == Some(
                        "Cannot open "@ + path@ + ": "@ + error@,
                    ),
                }
            },
    {
        let i: usize = match self.tabs.active_position() {
            Some(i) => i,
            None => return,
        };
        let status = match &read {
            DirectoryRead::Entries(_) => self.status_message.clone(),
            DirectoryRead::Failed(error) => {
                let mut text = joined3("Cannot open ", path.as_str(), ": ");
                text.append(error.as_str());
                Some(text)
            },
        };
        self.status_message = status;
        self.tabs.show_local(i, path, read);
    }

    /// What is asked of the runtime for a remote directory.
    pub fn remote_directory_command(tab_id: TabId, path: &str) -> (r: AppCommand)
        ensures
            r matches AppCommand::ReadRemoteDir { tab_id: id, path: p } && id == tab_id && p@
                == path@,
    {
        AppCommand::ReadRemoteDir { tab_id, path: path.to_string() }
    }

    /// Follows the request for a remote directory, of which `outcome` came. Says whether it was
    /// sent.
    pub fn request_remote_directory(&mut self, tab_id: TabId, path: String, outcome: Dispatch) -> (r:
        bool)
        requires
            old(self).wf(),
        ensures
            final(self).wf(),
            r == (outcome is Sent),
            !r ==> *final(self) == (Workspace {
                status_message: final(self).status_message,
                ..*old(self)
            }) && string_of(final(self).status_message) == dispatch_status(outcome),
            r && !has_tab(old(self).tabs.tabs@, tab_id) ==> *final(self) == *old(self),
            r && has_tab(old(self).tabs.tabs@, tab_id) ==> {
                let i = tab_index(old(self).tabs.tabs@, tab_id);
                &&& *final(self) == (Workspace { tabs: final(self).tabs, ..*old(self) })
                &&& tab_changed(old(self).tabs, final(self).tabs, i)
                &&& awaits_remote(old(self).tabs.tabs@[i], final(self).tabs.tabs@[i], path)
            },
    {
        if !self.note_dispatch(outcome) {
            return false;
        }
        if let Some(i) = self.tabs.position(tab_id) {
            self.tabs.await_remote(i, path);
        }
        true
    }

    /// Where a step in the remote pane leads.
    pub open spec fn remote_target(&self, path: Seq<char>, op: HistoryOp) -> Option<Seq<char>> {
        match self.tabs.active() {
            Some(tab) => step_target(tab.remote_history, path, op),
            None => None,
        }
    }

    /// The remote directory that a step asks for.
    pub fn remote_step(&self, path: &str, op: HistoryOp) -> (r: Option<String>)
        ensures
            string_of(r) == self.remote_target(path@, op),
    {
        match self.tabs.active_position() {
            Some(i) => self.tabs.tabs[i].remote_history.target(path, op),
            None => None,
        }
    }

    /// Follows a step in the remote pane whose directory was asked for, of which `outcome` came.
    /// The history takes note of the step only where the request was sent.
    pub fn navigate_pane_remote(&mut self, path: &str, op: HistoryOp, outcome: Dispatch) -> (r: bool)
        requires
            old(self).wf(),
        ensures
            final(self).wf(),
            r == (old(self).remote_target(path@, op) is Some && outcome is Sent),
            old(self).remote_target(path@, op) is None ==> *final(self) == *old(self),
            old(self).remote_target(path@, op) is Some && !(outcome is Sent) ==> *final(self) == (
            Workspace { status_message: final(self).status_message, ..*old(self) }) && string_of(
                final(self).status_message,
            ) == dispatch_status(outcome),
            r ==> {
                let i = old(self).tabs.active_index();
                let tab = old(self).tabs.tabs@[i];
                let after = final(self).tabs.tabs@[i];
                let target = old(self).remote_target(path@, op)->0;
                let lost = tab.remote.path is None && (op is Back || op is Forward);
                &&& *final(self) == (Workspace {
                    tabs: final(self).tabs,
                    remote_filter: final(self).remote_filter,
                    selection_anchor: if lost {
                        old(self).selection_anchor
                    } else {
                        None
                    },
                    ..*old(self)
                })
                &&& if lost {
                    final(self).remote_filter == old(self).remote_filter
                } else {
                    final(self).remote_filter.is_clear()
                }
                &&& tab_changed(old(self).tabs, final(self).tabs, i)
                &&& after == (TabState {
                    remote: Listing {
                        path: after.remote.path,
                        is_refreshing: true,
                        error: None,
                        ..tab.remote
                    },
                    selected_paths: after.selected_paths,
                    remote_history: after.remote_history,
                    ..tab
                })
                &&& string_of(after.remote.path) == Some(target)
                &&& after.selected_paths@.len() == 0
                &&& stepped(
                    tab.remote_history,
                    after.remote_history,
                    string_of(tab.remote.path),
                    target,
                    op,
                )
            },
    {
        let target = match self.remote_step(path, op) {
            Some(target) => target,
            None => return false,
        };
        if !self.note_dispatch(outcome) {
            return false;
        }
        let i: usize = match self.tabs.active_position() {
            Some(i) => i,
            None => return false,
        };
        let lost = self.tabs.tabs[i].remote.path.is_none() && match op {
            HistoryOp::Back | HistoryOp::Forward => true,
            HistoryOp::Push | HistoryOp::Replace => false,
        };
        let ghost before = self.tabs;
        self.tabs.step(i, PaneSide::Remote, target.as_str(), op);
        self.tabs.await_remote(i, target);
        assert(self.tabs.tabs@ =~= before.tabs@.update(i as int, self.tabs.tabs@[i as int]));
        if !lost {
            self.remote_filter = PaneFilter::new();
            self.selection_anchor = None;
        }
        true
    }

    /// The directory above the one that a pane of the active tab shows.
    pub fn parent_directory(&self, side: PaneSide) -> (r: Option<String>)
        ensures
            string_of(r) == match self.tabs.active() {
                Some(tab) => match place(tab, side) {
                    Some(path) => parent(path),
                    None => None,
                },
                None => None,
            },
    {
        match self.tabs.active_position() {
            Some(i) => {
                let path = match side {
                    PaneSide::Local => &self.tabs.tabs[i].local.path,
                    PaneSide::Remote => &self.tabs.tabs[i].remote.path,
                };
                match path {
                    Some(path) => parent_of(path.as_str()),
                    None => None,
                }
            },
            None => None,
        }
    }

    /// The directory that a pane of the active tab shows: what is read again for a refresh, and
    /// what is copied as its path.
    pub fn current_directory(&self, side: PaneSide) -> (r: Option<String>)
        ensures
            string_of(r) == match self.tabs.active() {
                Some(tab) => place(tab, side),
                None => None,
            },
    {
        match self.tabs.active_position() {
            Some(i) => match side {
                PaneSide::Local => self.tabs.tabs[i].local.path.clone(),
                PaneSide::Remote => self.tabs.tabs[i].remote.path.clone(),
            },
            None => None,
        }
    }

    /// Copies the path of the focused pane: gives the text for the clipboard, and tells of it in
    /// the status.
    pub fn copy_focused_path(&mut self) -> (r: Option<String>)
        requires
            old(self).wf(),
        ensures
            string_of(r) == match old(self).tabs.active() {
                Some(tab) => place(tab, old(self).focused_side),
                None => None,
            },
            r is None ==> *final(self) == *old(self),
            *final(self) == (Workspace { status_message: final(self).status_message, ..*old(self) }),
            r is Some ==> string_of(final(self).status_message) == Some("Copied "@ + r->0@),
    {
        let path = self.current_directory(self.focused_side);
        if let Some(text) = &path {
            self.status_message = Some(joined("Copied ", text.as_str()));
        }
        path
    }

    /// Whether a pane of the active tab can go back.
    pub fn pane_can_navigate_back(&self, side: PaneSide) -> (r: bool)
        ensures
            r == (self.tabs.active() is Some && history(
                self.tabs.active()->0,
                side,
            ).past().len() > 0),
    {
        match self.tabs.active_position() {
            Some(i) => match side {
                PaneSide::Local => self.tabs.tabs[i].local_history.can_back(),
                PaneSide::Remote => self.tabs.tabs[i].remote_history.can_back(),
            },
            None => false,
        }
    }

    /// Whether a pane of the active tab can go forward.
    pub fn pane_can_navigate_forward(&self, side: PaneSide) -> (r: bool)
        ensures
            r == (self.tabs.active() is Some && history(
                self.tabs.active()->0,
                side,
            ).ahead().len() > 0),
    {
        match self.tabs.active_position() {
            Some(i) => match side {
                PaneSide::Local => self.tabs.tabs[i].local_history.can_forward(),
                PaneSide::Remote => self.tabs.tabs[i].remote_history.can_forward(),
            },
            None => false,
        }
    }
}

/// The order after the user chose a column: the other direction where it is the column already,
/// and upwards otherwise.
pub open spec fn sorted_by(sort: SortSpec, field: FileSortField) -> SortSpec {
    SortSpec {
        field,
        direction: if sort.field == field && sort.direction is Ascending {
            SortDirection::Descending
        } else {
            SortDirection::Ascending
        },
    }
}

/// The order after the user chose a column.
pub fn next_sort(sort: SortSpec, field: FileSortField) -> (r: SortSpec)
    ensures
        r == sorted_by(sort, field),
{
    let descending = sort.field == field && sort.direction == SortDirection::Ascending;
    SortSpec {
        field,
        direction: if descending {
            SortDirection::Descending
        } else {
            SortDirection::Ascending
        },
    }
}

/// Choosing a column twice turns its direction over.
pub proof fn law_choosing_twice_turns_over(sort: SortSpec, field: FileSortField)
    ensures
        sorted_by(sorted_by(sort, field), field).field == field,
        sorted_by(sorted_by(sort, field), field).direction != sorted_by(sort, field).direction,
        sort.field == field ==> sorted_by(sorted_by(sort, field), field) == sort,
{
}

impl Workspace {
    /// Orders the active tab by a column; `local` and `remote` are its listings in the new order.
    pub fn apply_sort_field(
        &mut self,
        field: FileSortField,
        local: Vec<FileEntry>,
        remote: Vec<FileEntry>,
    )
        requires
            old(self).wf(),
        ensures
            final(self).wf(),
            old(self).tabs.active() is None ==> *final(self) == *old(self),
            old(self).tabs.active() is Some ==> {
                let i = old(self).tabs.active_index();
                let tab = old(self).tabs.tabs@[i];
                &&& *final(self) == (Workspace { tabs: final(self).tabs, ..*old(self) })
                &&& tab_changed(old(self).tabs, final(self).tabs, i)
                &&& final(self).tabs.tabs@[i] == (TabState {
                    sort: sorted_by(tab.sort, field),
                    local: Listing { entries: local, ..tab.local },
                    remote: Listing { entries: remote, ..tab.remote },
                    ..tab
                })
            },
    {
        let i: usize = match self.tabs.active_position() {
            Some(i) => i,
            None => return,
        };
        let ghost before = self.tabs;
        let sort = next_sort(self.tabs.tabs[i].sort, field);
        self.tabs.tabs[i].sort = sort;
        self.tabs.tabs[i].local.entries = local;
        self.tabs.tabs[i].remote.entries = remote;
        proof {
            assert(self.tabs.tabs@ =~= before.tabs@.update(i as int, self.tabs.tabs@[i as int]));
            lemma_store_with_tab(before, self.tabs, i as int);
        }
    }

    /// Takes note of whether the configuration could be written.
    pub fn note_config_saved(&mut self, saved: bool)
        ensures
            *final(self) == (Workspace { config_error: final(self).config_error, ..*old(self) }),
            saved ==> final(self).config_error is None,
            !saved ==> string_of(final(self).config_error) == Some(
                "Could not write config.json. Check file permissions."@,
            ),
    {
        self.config_error = if saved {
            None
        } else {
            Some("Could not write config.json. Check file permissions.".to_string())
        };
    }
}

}
