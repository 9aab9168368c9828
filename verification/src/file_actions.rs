//! What a window does with files: the selection that an operation is about, the questions and
//! fields that come first, and what is told of it.

use vstd::prelude::*;

use crate::file_ops::{
    is_plain_name, plain_name, ContextMenuState, DeleteConfirmState, InlineEditKind,
    InlineEditState,
};
use crate::helpers::string_of;
use crate::keys::Keystroke;
use crate::lists::lemma_filter_take;
use crate::model::{
    ConnectionState, Dispatch, EntryPath, FileEntry, FileKind, FsCommand, FsEntryRef, FsOp,
    FsScope, PaneSide, PathView, UserFacingError,
};
use crate::nav::{child, child_of, parent, parent_of};
use crate::navigation::place;
use crate::selection::{pane_entries, position_in, views};
use crate::tabs::TabState;
use crate::text::{file_name, file_name_in, joined3, same_text, trim, trimmed};
use crate::workspace::{dispatch_status, pane_focus, Config, FocusTarget, Workspace};

verus! {

/// An entry as contracts speak of it: its path and whether it is a directory.
pub open spec fn entry_view(entry: FsEntryRef) -> (PathView, bool) {
    (entry.path@, entry.is_dir)
}

/// Entries as contracts speak of them.
pub open spec fn entry_views(entries: Seq<FsEntryRef>) -> Seq<(PathView, bool)> {
    entries.map_values(|e: FsEntryRef| entry_view(e))
}

/// The entry is among the selected paths.
pub open spec fn is_selected(side: PaneSide, selected: Seq<PathView>) -> spec_fn(FileEntry) -> bool {
    |e: FileEntry| selected.contains(PathView { side, text: e.path@ })
}

/// How an operation names an entry of a listing.
pub open spec fn named(side: PaneSide) -> spec_fn(FileEntry) -> (PathView, bool) {
    |e: FileEntry| (PathView { side, text: e.path@ }, e.kind is Directory)
}

/// The selected entries of a listing, in its order.
pub open spec fn chosen(
    entries: Seq<FileEntry>,
    side: PaneSide,
    selected: Seq<PathView>,
) -> Seq<(PathView, bool)> {
    entries.filter(is_selected(side, selected)).map_values(named(side))
}

pub(crate) fn contains_path(paths: &Vec<EntryPath>, path: &EntryPath) -> (r: bool)
    ensures
        r == views(paths@).contains(path@),
{
    let found = position_in(paths, path);
    proof {
        let all = views(paths@);
        crate::selection::lemma_position_of(all, path@);
        if all.contains(path@) {
            let k = choose|k: int| 0 <= k < all.len() && all[k] == path@;
            assert(crate::selection::position_of(all, path@) <= k);
        }
        if found is Some {
            assert(all[found->0 as int] == path@);
        }
    }
    found.is_some()
}

fn chosen_entries(entries: &Vec<FileEntry>, side: PaneSide, selected: &Vec<EntryPath>) -> (r: Vec<
    FsEntryRef,
>)
    ensures
        entry_views(r@) == chosen(entries@, side, views(selected@)),
{
    let ghost all = entries@;
    let ghost keep = is_selected(side, views(selected@));
    let mut out: Vec<FsEntryRef> = Vec::new();
    let mut i: usize = 0;
    assert(all.take(0).filter(keep) =~= Seq::<FileEntry>::empty()) by {
        reveal(Seq::filter);
    }
    assert(entry_views(out@) =~= all.take(0).filter(keep).map_values(named(side)));
    while i < entries.len()
        invariant
            i <= entries@.len(),
            all == entries@,
            keep == is_selected(side, views(selected@)),
            entry_views(out@) == all.take(i as int).filter(keep).map_values(named(side)),
        decreases entries@.len() - i,
    {
        let ghost front = all.take(i as int).filter(keep);
        let ghost before = out@;
        proof {
            lemma_filter_take(all, keep, i as int);
            assert(front.push(all[i as int]).map_values(named(side)) =~= front.map_values(
                named(side),
            ).push(named(side)(all[i as int])));
        }
        let path = EntryPath::on(side, entries[i].path.clone());
        if contains_path(selected, &path) {
            out.push(FsEntryRef { path, is_dir: entries[i].kind == FileKind::Directory });
            assert(entry_views(out@) =~= entry_views(before).push(
                named(side)(all[i as int]),
            ));
        }
        i += 1;
    }
    assert(all.take(i as int) =~= all);
    out
}

/// Where operations of a side of a tab run: the remote side only while it is connected.
pub open spec fn scope_of(tab: TabState, side: PaneSide) -> Option<FsScope> {
    match (side, tab.connection) {
        (PaneSide::Local, _) => Some(FsScope::Local { tab_id: tab.id }),
        (PaneSide::Remote, ConnectionState::Connected { session_epoch, .. }) => Some(
            FsScope::Remote { tab_id: tab.id, session_epoch },
        ),
        (PaneSide::Remote, _) => None,
    }
}

/// What a key does while a name is edited in place.
#[derive(Clone, Copy, PartialEq, Eq, Structural, Debug)]
pub enum InlineKey {
    Cancelled,
    Submit,
    Edited,
    Unused,
}

/// Why a name is refused.
#[derive(Clone, Copy, PartialEq, Eq, Structural, Debug)]
pub enum NameRefusal {
    NotAName,
    Taken,
    NotConnected,
    Root,
}

/// What is said of a refused name.
pub open spec fn refusal_text(refusal: NameRefusal) -> Seq<char> {
    match refusal {
        NameRefusal::NotAName => "Enter a name without path separators."@,
        NameRefusal::Taken => "An item with that name already exists."@,
        NameRefusal::NotConnected => "Not connected"@,
        NameRefusal::Root => "Cannot rename the filesystem root."@,
    }
}

impl NameRefusal {
    /// What is said of the refused name.
    pub fn text(&self) -> (r: String)
        ensures
            r@ == refusal_text(*self),
    {
        match self {
            NameRefusal::NotAName => "Enter a name without path separators.".to_string(),
            NameRefusal::Taken => "An item with that name already exists.".to_string(),
            NameRefusal::NotConnected => "Not connected".to_string(),
            NameRefusal::Root => "Cannot rename the filesystem root.".to_string(),
        }
    }
}

/// The operation does what a name was typed for: the entry gets the name, or a directory of the
/// name is made.
pub open spec fn carries_out(edit: InlineEditState, op: FsOp) -> bool {
    let name = trimmed(edit.input@);
    match edit.kind {
        InlineEditKind::Rename { entry } => {
            &&& op matches FsOp::Rename { from, to }
            &&& from == entry.path
            &&& to@ == (PathView {
                side: entry.path@.side,
                text: child(parent(entry.path@.text)->0, name),
            })
        },
        InlineEditKind::NewFolder { parent } => {
            &&& op matches FsOp::CreateDirectory { parent: within, name: new_name }
            &&& within == parent
            &&& new_name@ == name
        },
    }
}

fn operation_of(edit: InlineEditState) -> (r: FsOp)
    requires
        edit.kind matches InlineEditKind::Rename { entry } ==> parent(entry.path@.text) is Some,
    ensures
        carries_out(edit, r),
{
    let name = trim(edit.input.as_str());
    match edit.kind {
        InlineEditKind::Rename { entry } => {
            let side = entry.path.side();
            let within = match parent_of(entry.path.as_str()) {
                Some(within) => within,
                None => String::new(),
            };
            FsOp::Rename {
                from: entry.path,
                to: EntryPath::on(side, child_of(within.as_str(), name.as_str())),
            }
        },
        InlineEditKind::NewFolder { parent } => FsOp::CreateDirectory { parent, name },
    }
}

/// A listing has an entry of the name.
pub open spec fn has_name(entries: Seq<FileEntry>, name: Seq<char>) -> bool {
    exists|i: int| 0 <= i < entries.len() && (#[trigger] entries[i]).name@ == name
}

fn holds_name(entries: &Vec<FileEntry>, name: &str) -> (r: bool)
    ensures
        r == has_name(entries@, name@),
{
    let mut i: usize = 0;
    while i < entries.len()
        invariant
            i <= entries@.len(),
            forall|k: int| 0 <= k < i ==> (#[trigger] entries@[k]).name@ != name@,
        decreases entries@.len() - i,
    {
        if same_text(entries[i].name.as_str(), name) {
            assert(entries@[i as int].name@ == name@);
            return true;
        }
        i += 1;
    }
    false
}

impl Workspace {
    /// The selected entries of a pane.
    pub open spec fn chosen(&self, side: PaneSide) -> Seq<(PathView, bool)> {
        match self.tabs.active() {
            Some(tab) => chosen(pane_entries(tab, side), side, views(tab.selected_paths@)),
            None => Seq::empty(),
        }
    }

    /// The selected entries of a pane, in the order of its listing.
    pub fn selected_fs_entries(&self, side: PaneSide) -> (r: Vec<FsEntryRef>)
        ensures
            entry_views(r@) == self.chosen(side),
            r@.len() == self.chosen(side).len(),
    {
        let out = match self.tabs.active_position() {
            Some(i) => {
                let tab = &self.tabs.tabs[i];
                match side {
                    PaneSide::Local => chosen_entries(&tab.local.entries, side, &tab.selected_paths),
                    PaneSide::Remote => chosen_entries(
                        &tab.remote.entries,
                        side,
                        &tab.selected_paths,
                    ),
                }
            },
            None => {
                let none: Vec<FsEntryRef> = Vec::new();
                assert(entry_views(none@) =~= Seq::<(PathView, bool)>::empty());
                none
            },
        };
        assert(entry_views(out@).len() == out@.len());
        out
    }

    /// Where operations of a pane of the active tab run.
    pub open spec fn scope(&self, side: PaneSide) -> Option<FsScope> {
        match self.tabs.active() {
            Some(tab) => scope_of(tab, side),
            None => None,
        }
    }

    /// Where operations of a pane of the active tab run.
    pub fn fs_scope_for_side(&self, side: PaneSide) -> (r: Option<FsScope>)
        ensures
            r == self.scope(side),
    {
        match self.tabs.active_position() {
            Some(i) => {
                let tab = &self.tabs.tabs[i];
                match side {
                    PaneSide::Local => Some(FsScope::Local { tab_id: tab.id }),
                    PaneSide::Remote => match &tab.connection {
                        ConnectionState::Connected { session_epoch, .. } => Some(
                            FsScope::Remote { tab_id: tab.id, session_epoch: *session_epoch },
                        ),
                        _ => None,
                    },
                }
            },
            None => None,
        }
    }

    /// Deletes the selection of the focused pane: asks first, where the user wants to be asked,
    /// and otherwise gives the operation to run.
    pub fn request_delete_selection(&mut self, config: &Config) -> (r: Option<FsCommand>)
        ensures
            ({
                let side = old(self).focused_side;
                let entries = old(self).chosen(side);
                let scope = old(self).scope(side);
                if entries.len() == 0 || scope is None {
                    &&& r is None
                    &&& *final(self) == (Workspace {
                        status_message: final(self).status_message,
                        ..*old(self)
                    })
                    &&& string_of(final(self).status_message) == Some(
                        if entries.len() == 0 {
                            "Select one or more items to delete"@
                        } else {
                            "Connect before deleting remote items"@
                        },
                    )
                } else if config.confirm_delete {
                    &&& r is None
                    &&& *final(self) == (Workspace {
                        context_menu: None,
                        delete_confirm: final(self).delete_confirm,
                        focus: FocusTarget::Modal,
                        ..*old(self)
                    })
                    &&& final(self).delete_confirm is Some
                    &&& final(self).delete_confirm->0.scope == scope->0
                    &&& entry_views(final(self).delete_confirm->0.entries@) == entries
                    &&& !final(self).delete_confirm->0.dont_ask_again
                } else {
                    &&& *final(self) == (Workspace { context_menu: None, ..*old(self) })
                    &&& r is Some
                    &&& r->0.scope == scope->0
                    &&& r->0.op matches FsOp::Delete { entries: named } && entry_views(named@)
                        == entries
                }
            }),
    {
        let side = self.focused_side;
        let entries = self.selected_fs_entries(side);
        if entries.len() == 0 {
            self.status_message = Some("Select one or more items to delete".to_string());
            return None;
        }
        let scope = match self.fs_scope_for_side(side) {
            Some(scope) => scope,
            None => {
                self.status_message = Some("Connect before deleting remote items".to_string());
                return None;
            },
        };
        self.context_menu = None;
        if config.confirm_delete {
            self.delete_confirm = Some(
                DeleteConfirmState { scope, entries, dont_ask_again: false },
            );
            self.focus = FocusTarget::Modal;
            None
        } else {
            Some(FsCommand { scope, op: FsOp::Delete { entries } })
        }
    }

    /// Whether the user, in agreeing to delete, asks not to be asked again: the configuration is
    /// then to be written so.
    pub fn stops_asking(&self) -> (r: bool)
        ensures
            r == (self.delete_confirm is Some && self.delete_confirm->0.dont_ask_again),
    {
        match &self.delete_confirm {
            Some(state) => state.dont_ask_again,
            None => false,
        }
    }

    /// The user agreed to delete: gives the operation to run. Where `stops_asking`,
    /// `config_saved` says whether that could be written down.
    pub fn confirm_delete(&mut self, config_saved: bool) -> (r: Option<FsCommand>)
        ensures
            r is Some <==> old(self).delete_confirm is Some,
            r is None ==> *final(self) == *old(self),
            r is Some ==> {
                let state = old(self).delete_confirm->0;
                &&& r->0 == (FsCommand {
                    scope: state.scope,
                    op: FsOp::Delete { entries: state.entries },
                })
                &&& *final(self) == (Workspace {
                    delete_confirm: None,
                    config_error: final(self).config_error,
                    focus: pane_focus(old(self).focused_side),
                    ..*old(self)
                })
                &&& !state.dont_ask_again ==> final(self).config_error == old(self).config_error
                &&& state.dont_ask_again && config_saved ==> final(self).config_error is None
                &&& state.dont_ask_again && !config_saved ==> string_of(final(self).config_error)
                    == Some("Could not write config.json. Check file permissions."@)
            },
    {
        let state = match self.delete_confirm.take() {
            Some(state) => state,
            None => return None,
        };
        if state.dont_ask_again {
            self.note_config_saved(config_saved);
        }
        let side = self.focused_side;
        self.focus_pane(side);
        Some(FsCommand { scope: state.scope, op: FsOp::Delete { entries: state.entries } })
    }

    /// Opens a field for the new name of the one selected entry of the focused pane.
    pub fn begin_rename_selection(&mut self)
        ensures
            ({
                let side = old(self).focused_side;
                let entries = old(self).chosen(side);
                if entries.len() != 1 || (side is Remote && old(self).scope(side) is None) {
                    &&& *final(self) == (Workspace {
                        status_message: final(self).status_message,
                        ..*old(self)
                    })
                    &&& string_of(final(self).status_message) == Some(
                        if entries.len() != 1 {
                            "Select a single item to rename"@
                        } else {
                            "Connect before renaming remote items"@
                        },
                    )
                } else {
                    &&& *final(self) == (Workspace {
                        context_menu: None,
                        inline_edit: final(self).inline_edit,
                        focus: pane_focus(side),
                        ..*old(self)
                    })
                    &&& final(self).inline_edit is Some
                    &&& final(self).inline_edit->0.side == side
                    &&& final(self).inline_edit->0.kind matches InlineEditKind::Rename { entry }
                        && entry_view(entry) == entries[0]
                    &&& final(self).inline_edit->0.input@ == match file_name(entries[0].0.text) {
                        Some(name) => name,
                        None => Seq::empty(),
                    }
                    &&& final(self).inline_edit->0.error is None
                }
            }),
    {
        let side = self.focused_side;
        let mut entries = self.selected_fs_entries(side);
        if entries.len() != 1 {
            self.status_message = Some("Select a single item to rename".to_string());
            return;
        }
        if side == PaneSide::Remote && self.fs_scope_for_side(side).is_none() {
            self.status_message = Some("Connect before renaming remote items".to_string());
            return;
        }
        assert(entry_views(entries@)[0] == entry_view(entries@[0]));
        let entry = entries.remove(0);
        let name = match file_name_in(entry.path.as_str()) {
            Some(name) => name,
            None => String::new(),
        };
        assert(""@ =~= Seq::<char>::empty()) by {
            reveal_strlit("");
        }
        self.context_menu = None;
        self.inline_edit = Some(
            InlineEditState { side, kind: InlineEditKind::Rename { entry }, input: name, error: None },
        );
        self.focus = match side {
            PaneSide::Local => FocusTarget::LocalPane,
            PaneSide::Remote => FocusTarget::RemotePane,
        };
    }

    /// Opens a field for the name of a new folder in the directory of the focused pane.
    pub fn begin_new_folder(&mut self)
        ensures
            ({
                let side = old(self).focused_side;
                let at = match old(self).tabs.active() {
                    Some(tab) => place(tab, side),
                    None => None,
                };
                if old(self).tabs.active() is None {
                    *final(self) == *old(self)
                } else if old(self).scope(side) is None || at is None {
                    &&& *final(self) == (Workspace {
                        status_message: final(self).status_message,
                        ..*old(self)
                    })
                    &&& string_of(final(self).status_message) == Some(
                        if old(self).scope(side) is None {
                            "Connect before creating a remote folder"@
                        } else {
                            "No current directory"@
                        },
                    )
                } else {
                    &&& *final(self) == (Workspace {
                        context_menu: None,
                        inline_edit: final(self).inline_edit,
                        focus: pane_focus(side),
                        ..*old(self)
                    })
                    &&& final(self).inline_edit is Some
                    &&& final(self).inline_edit->0.side == side
                    &&& final(self).inline_edit->0.kind matches InlineEditKind::NewFolder { parent }
                        && parent@ == (PathView { side, text: at->0 })
                    &&& final(self).inline_edit->0.input@ == "Untitled Folder"@
                    &&& final(self).inline_edit->0.error is None
                }
            }),
    {
        let side = self.focused_side;
        if self.tabs.active_position().is_none() {
            return;
        }
        if self.fs_scope_for_side(side).is_none() {
            self.status_message = Some("Connect before creating a remote folder".to_string());
            return;
        }
        let parent = match self.current_directory(side) {
            Some(path) => EntryPath::on(side, path),
            None => {
                self.status_message = Some("No current directory".to_string());
                return;
            },
        };
        self.context_menu = None;
        self.inline_edit = Some(
            InlineEditState {
                side,
                kind: InlineEditKind::NewFolder { parent },
                input: "Untitled Folder".to_string(),
                error: None,
            },
        );
        self.focus = match side {
            PaneSide::Local => FocusTarget::LocalPane,
            PaneSide::Remote => FocusTarget::RemotePane,
        };
    }

    /// Why the name in the field is refused.
    pub open spec fn name_refusal(&self, edit: InlineEditState) -> Option<NameRefusal> {
        let name = trimmed(edit.input@);
        if !is_plain_name(name) {
            Some(NameRefusal::NotAName)
        } else if has_name(self.entries(edit.side), name) {
            Some(NameRefusal::Taken)
        } else if self.scope(edit.side) is None {
            Some(NameRefusal::NotConnected)
        } else {
            match edit.kind {
                InlineEditKind::Rename { entry } => if parent(entry.path@.text) is None {
                    Some(NameRefusal::Root)
                } else {
                    None
                },
                InlineEditKind::NewFolder { .. } => None,
            }
        }
    }

    fn judge_name(&self, edit: &InlineEditState) -> (r: Option<NameRefusal>)
        ensures
            r == self.name_refusal(*edit),
    {
        let name = trim(edit.input.as_str());
        if !plain_name(name.as_str()) {
            return Some(NameRefusal::NotAName);
        }
        let taken = match self.tabs.active_position() {
            Some(i) => match edit.side {
                PaneSide::Local => holds_name(&self.tabs.tabs[i].local.entries, name.as_str()),
                PaneSide::Remote => holds_name(&self.tabs.tabs[i].remote.entries, name.as_str()),
            },
            None => false,
        };
        if taken {
            return Some(NameRefusal::Taken);
        }
        if self.fs_scope_for_side(edit.side).is_none() {
            return Some(NameRefusal::NotConnected);
        }
        match &edit.kind {
            InlineEditKind::Rename { entry } => if parent_of(entry.path.as_str()).is_none() {
                Some(NameRefusal::Root)
            } else {
                None
            },
            InlineEditKind::NewFolder { .. } => None,
        }
    }

    fn refuse_name(&mut self, edit: InlineEditState, refusal: NameRefusal)
        requires
            old(self).inline_edit is None,
        ensures
            *final(self) == (Workspace { inline_edit: final(self).inline_edit, ..*old(self) }),
            final(self).inline_edit is Some,
            final(self).inline_edit->0 == (InlineEditState {
                error: final(self).inline_edit->0.error,
                ..edit
            }),
            string_of(final(self).inline_edit->0.error) == Some(refusal_text(refusal)),
    {
        let mut edit = edit;
        edit.error = Some(refusal.text());
        self.inline_edit = Some(edit);
    }

    /// Submits the name in the field: gives the operation to run, or says in the field, or in the
    /// status, why not.
    pub fn submit_inline_edit(&mut self) -> (r: Option<FsCommand>)
        ensures
            match old(self).inline_edit {
                None => r is None && *final(self) == *old(self),
                Some(edit) => {
                    match old(self).name_refusal(edit) {
                        Some(NameRefusal::NotConnected) => {
                            &&& r is None
                            &&& *final(self) == (Workspace {
                                status_message: final(self).status_message,
                                ..*old(self)
                            })
                            &&& string_of(final(self).status_message) == Some("Not connected"@)
                        },
                        Some(refusal) => {
                            &&& r is None
                            &&& *final(self) == (Workspace {
                                inline_edit: final(self).inline_edit,
                                ..*old(self)
                            })
                            &&& final(self).inline_edit is Some
                            &&& final(self).inline_edit->0 == (InlineEditState {
                                error: final(self).inline_edit->0.error,
                                ..edit
                            })
                            &&& string_of(final(self).inline_edit->0.error) == Some(
                                refusal_text(refusal),
                            )
                        },
                        None => {
                            &&& *final(self) == (Workspace { inline_edit: None, ..*old(self) })
                            &&& r is Some
                            &&& r->0.scope == old(self).scope(edit.side)->0
                            &&& carries_out(edit, r->0.op)
                        },
                    }
                },
            },
    {
        let edit = match self.inline_edit.take() {
            Some(edit) => edit,
            None => return None,
        };
        match self.judge_name(&edit) {
            Some(refusal) => {
                if refusal == NameRefusal::NotConnected {
                    self.inline_edit = Some(edit);
                    self.status_message = Some(refusal.text());
                } else {
                    self.refuse_name(edit, refusal);
                }
                None
            },
            None => match self.fs_scope_for_side(edit.side) {
                Some(scope) => Some(FsCommand { scope, op: operation_of(edit) }),
                None => None,
            },
        }
    }

    /// A key typed while a name is edited in place. Says what it does; text goes into the field.
    pub fn handle_inline_edit_key(&mut self, stroke: &Keystroke, typed: Option<String>) -> (r:
        InlineKey)
        ensures
            match old(self).inline_edit {
                None => r is Unused && *final(self) == *old(self),
                Some(edit) => if stroke.is_plain("escape"@) {
                    r is Cancelled && *final(self) == (Workspace {
                        inline_edit: None,
                        ..*old(self)
                    })
                } else if stroke.is_plain("enter"@) {
                    r is Submit && *final(self) == *old(self)
                } else {
                    match typed {
                        Some(text) => r is Edited && *final(self) == (Workspace {
                            inline_edit: Some(InlineEditState { input: text, error: None, ..edit }),
                            ..*old(self)
                        }),
                        None => r is Unused && *final(self) == *old(self),
                    }
                },
            },
    {
        let mut edit = match self.inline_edit.take() {
            Some(edit) => edit,
            None => return InlineKey::Unused,
        };
        if stroke.plain("escape") {
            return InlineKey::Cancelled;
        }
        if stroke.plain("enter") {
            self.inline_edit = Some(edit);
            return InlineKey::Submit;
        }
        match typed {
            Some(text) => {
                edit.input = text;
                edit.error = None;
                self.inline_edit = Some(edit);
                InlineKey::Edited
            },
            None => {
                self.inline_edit = Some(edit);
                InlineKey::Unused
            },
        }
    }

    /// Follows the start of a file operation; for the remote side `outcome` came of sending it.
    /// Says whether it runs.
    pub fn dispatch_fs(&mut self, scope: FsScope, outcome: Dispatch) -> (r: bool)
        ensures
            r == (scope is Local || outcome is Sent),
            *final(self) == (Workspace { status_message: final(self).status_message, ..*old(self) }),
            string_of(final(self).status_message) == if r {
                Some("Working…"@)
            } else {
                dispatch_status(outcome)
            },
    {
        let runs = match scope {
            FsScope::Local { .. } => true,
            FsScope::Remote { .. } => self.note_dispatch(outcome),
        };
        if runs {
            self.status_message = Some("Working…".to_string());
        }
        runs
    }

    /// Follows the end of a local file operation: a failure is told in the status; where no
    /// directory is read again the status is cleared.
    pub fn local_fs_finished(&mut self, failure: Option<&UserFacingError>, refreshes: bool)
        ensures
            *final(self) == (Workspace { status_message: final(self).status_message, ..*old(self) }),
            match failure {
                Some(error) => string_of(final(self).status_message) == Some(
                    error.title@ + ": "@ + error.message@,
                ),
                None => final(self).status_message == if refreshes {
                    old(self).status_message
                } else {
                    None
                },
            },
    {
        match failure {
            Some(error) => {
                self.status_message = Some(
                    joined3(error.title.as_str(), ": ", error.message.as_str()),
                );
            },
            None => {
                if !refreshes {
                    self.status_message = None;
                }
            },
        }
    }

    /// Opens the context menu of a pane, on an entry that it shows or on the blank area.
    pub fn open_context_menu(&mut self, side: PaneSide, entry_index: Option<usize>, config: &Config)
        requires
            old(self).wf(),
        ensures
            final(self).wf(),
            ({
                let shown = old(self).shown(side, *config);
                let opened = Workspace {
                    focused_side: side,
                    context_menu: Some(ContextMenuState { side, entry_index }),
                    ..*old(self)
                };
                match entry_index {
                    Some(k) if k < shown.len() => final(self).selects(
                        opened,
                        seq![shown[k as int]],
                        Some(shown[k as int]),
                    ),
                    _ => *final(self) == opened,
                }
            }),
    {
        self.focused_side = side;
        self.context_menu = Some(ContextMenuState { side, entry_index });
        if let Some(index) = entry_index {
            self.select_index(side, index, config);
        }
    }

    /// The local path that is shown in the file manager: the first selected local entry.
    pub fn reveal_local_selection(&self) -> (r: Option<String>)
        ensures
            string_of(r) == if self.chosen(PaneSide::Local).len() > 0 {
                Some(self.chosen(PaneSide::Local)[0].0.text)
            } else {
                None
            },
    {
        let entries = self.selected_fs_entries(PaneSide::Local);
        if entries.len() == 0 {
            return None;
        }
        assert(entry_views(entries@)[0] == entry_view(entries@[0]));
        Some(entries[0].path.as_str().to_string())
    }
}

}
