//! What the dialogs show, and the frame that they stand in.

use vstd::prelude::*;

use crate::connect_form::{find_profile, profile_with_id};
use crate::edit_sessions::{conflicts_in, first_where, EditSessionStore};
use crate::file_ops::{
    context_menu_items, delete_confirm_presentation, delete_risk, delete_title, directory_count,
    menu_items, named_count, shown_name, ContextItem, DeleteConfirmPresentation,
    DeleteConfirmState,
};
use crate::helpers::string_of;
use crate::keys::Keystroke;
use crate::lists::lemma_filter_take;
use crate::modals::latest_conflict;
use crate::model::{
    ConflictDecision, ConnectionProfile, EditSessionId, HostKeyPrompt, PaneSide, Timestamp,
    TransferConflictPrompt, TrustRequestId, WorkspaceSurface,
};
use crate::text::{decimal, decimal_text, joined3};
use crate::workspace::{Config, Workspace};

verus! {

/// The dialog about an unknown host key.
#[derive(PartialEq, Eq, Debug)]
pub struct HostKeyView {
    pub request_id: TrustRequestId,
    pub host: String,
    pub key_type: String,
    pub fingerprint: String,
    pub saves_to: &'static str,
}

/// The dialog shows a question about a host key.
pub open spec fn host_key_shows(view: HostKeyView, prompt: HostKeyPrompt) -> bool {
    &&& view.request_id == prompt.request_id
    &&& view.host@ == prompt.host@ + ":"@ + decimal(prompt.port as nat)
    &&& view.key_type == prompt.algorithm
    &&& view.fingerprint == prompt.fingerprint_sha256
    &&& view.saves_to@ == "~/Library/Application Support/macSFTP/known_hosts"@
}

/// A button of the dialog about an existing file.
#[derive(Clone, Copy, PartialEq, Eq, Structural, Debug)]
pub enum ConflictButton {
    Cancel,
    Skip,
    SkipAll,
    Rename,
    RenameAll,
    Overwrite,
    OverwriteAll,
}

/// The answer that a button gives; the name of a renamed file is taken from the field.
pub open spec fn button_decision(button: ConflictButton) -> Option<ConflictDecision> {
    match button {
        ConflictButton::Cancel => Some(ConflictDecision::CancelJob),
        ConflictButton::Skip => Some(ConflictDecision::Skip { apply_to_all: false }),
        ConflictButton::SkipAll => Some(ConflictDecision::Skip { apply_to_all: true }),
        ConflictButton::Rename => None,
        ConflictButton::RenameAll => None,
        ConflictButton::Overwrite => Some(ConflictDecision::Overwrite { apply_to_all: false }),
        ConflictButton::OverwriteAll => Some(ConflictDecision::Overwrite { apply_to_all: true }),
    }
}

/// The label of a button.
pub open spec fn conflict_label(button: ConflictButton) -> Seq<char> {
    match button {
        ConflictButton::Cancel => "Cancel"@,
        ConflictButton::Skip => "Skip"@,
        ConflictButton::SkipAll => "Skip All"@,
        ConflictButton::Rename => "Rename"@,
        ConflictButton::RenameAll => "Rename All"@,
        ConflictButton::Overwrite => "Overwrite"@,
        ConflictButton::OverwriteAll => "Overwrite All"@,
    }
}

impl ConflictButton {
    /// The answer that the button gives.
    pub fn decision(&self) -> (r: Option<ConflictDecision>)
        ensures
            r == button_decision(*self),
    {
        match self {
            ConflictButton::Cancel => Some(ConflictDecision::CancelJob),
            ConflictButton::Skip => Some(ConflictDecision::Skip { apply_to_all: false }),
            ConflictButton::SkipAll => Some(ConflictDecision::Skip { apply_to_all: true }),
            ConflictButton::Rename => None,
            ConflictButton::RenameAll => None,
            ConflictButton::Overwrite => Some(ConflictDecision::Overwrite { apply_to_all: false }),
            ConflictButton::OverwriteAll => Some(
                ConflictDecision::Overwrite { apply_to_all: true },
            ),
        }
    }

    /// The label of the button.
    pub fn label(&self) -> (r: &'static str)
        ensures
            r@ == conflict_label(*self),
    {
        match self {
            ConflictButton::Cancel => "Cancel",
            ConflictButton::Skip => "Skip",
            ConflictButton::SkipAll => "Skip All",
            ConflictButton::Rename => "Rename",
            ConflictButton::RenameAll => "Rename All",
            ConflictButton::Overwrite => "Overwrite",
            ConflictButton::OverwriteAll => "Overwrite All",
        }
    }
}

/// The dialog about an existing file.
#[derive(PartialEq, Eq, Debug)]
pub struct ConflictView {
    pub source: String,
    pub destination: String,
    pub size: Option<u64>,
    pub modified_at: Option<Timestamp>,
    pub new_name: String,
    pub error: Option<String>,
    pub buttons: Vec<ConflictButton>,
}

/// The buttons of the dialog, in order.
pub open spec fn conflict_buttons() -> Seq<ConflictButton> {
    seq![
        ConflictButton::Cancel,
        ConflictButton::Skip,
        ConflictButton::SkipAll,
        ConflictButton::Rename,
        ConflictButton::RenameAll,
        ConflictButton::Overwrite,
        ConflictButton::OverwriteAll,
    ]
}

/// The dialog shows a question about an existing file.
pub open spec fn conflict_shows(view: ConflictView, w: Workspace, prompt: TransferConflictPrompt)
    -> bool {
    &&& view.source@ == prompt.source@.text
    &&& view.destination@ == prompt.destination@.text
    &&& view.size == prompt.source_size
    &&& view.modified_at == prompt.source_modified_at
    &&& view.new_name == w.conflict_rename
    &&& view.error == w.conflict_rename_error
    &&& view.buttons@ == conflict_buttons()
}

/// The question before files are deleted.
#[derive(PartialEq, Eq, Debug)]
pub struct DeleteView {
    pub presentation: DeleteConfirmPresentation,
    /// How many more there are than are named.
    pub more: Option<String>,
    /// Whether not to ask again, where that can be chosen.
    pub dont_ask_again: Option<bool>,
}

/// The dialog shows a question before files are deleted.
pub open spec fn delete_shows(view: DeleteView, state: DeleteConfirmState, config: Config) -> bool {
    let entries = state.entries@;
    let named = view.presentation.names@;
    &&& view.presentation.title@ == delete_title(entries)
    &&& named.len() == named_count(entries)
    &&& forall|i: int|
        0 <= i < named.len() ==> (#[trigger] named[i]).name@ == shown_name(entries[i].path@.text)
            && named[i].is_dir == entries[i].is_dir
    &&& view.presentation.risk_message@ == delete_risk(entries.len(), directory_count(entries))
    &&& string_of(view.more) == if entries.len() > named_count(entries) {
        Some("and "@ + decimal((entries.len() - named_count(entries)) as nat) + " more"@)
    } else {
        None
    }
    &&& view.dont_ask_again == if config.confirm_delete {
        Some(state.dont_ask_again)
    } else {
        None
    }
}

/// What a key does in a question before something is deleted.
#[derive(Clone, Copy, PartialEq, Eq, Structural, Debug)]
pub enum DeleteKey {
    Cancel,
    Confirm,
    Unused,
}

/// What a key does in a question before something is deleted: enter alone does nothing.
pub fn delete_key(stroke: &Keystroke) -> (r: DeleteKey)
    ensures
        r == if stroke.key@ == "escape"@ {
            DeleteKey::Cancel
        } else if stroke.key@ == "enter"@ && stroke.modifiers.platform {
            DeleteKey::Confirm
        } else {
            DeleteKey::Unused
        },
{
    if stroke.named("escape") {
        DeleteKey::Cancel
    } else if stroke.named("enter") && stroke.modifiers.platform {
        DeleteKey::Confirm
    } else {
        DeleteKey::Unused
    }
}

/// The label of an item of the context menu.
pub open spec fn item_label(item: ContextItem) -> Seq<char> {
    match item {
        ContextItem::Rename => "Rename"@,
        ContextItem::Delete => "Delete"@,
        ContextItem::NewFolder => "New Folder"@,
        ContextItem::Upload => "Upload"@,
        ContextItem::Reveal => "Reveal in Finder"@,
        ContextItem::Edit => "Edit"@,
        ContextItem::Download => "Download"@,
        ContextItem::CopyPath => "Copy Path"@,
        ContextItem::Refresh => "Refresh"@,
    }
}

impl ContextItem {
    /// The label of the item.
    pub fn label(&self) -> (r: &'static str)
        ensures
            r@ == item_label(*self),
    {
        match self {
            ContextItem::Rename => "Rename",
            ContextItem::Delete => "Delete",
            ContextItem::NewFolder => "New Folder",
            ContextItem::Upload => "Upload",
            ContextItem::Reveal => "Reveal in Finder",
            ContextItem::Edit => "Edit",
            ContextItem::Download => "Download",
            ContextItem::CopyPath => "Copy Path",
            ContextItem::Refresh => "Refresh",
        }
    }
}

/// What stands in front of the window.
#[derive(Clone, Copy, PartialEq, Eq, Structural, Debug)]
pub enum Overlay {
    ConnectForm,
    HostKey,
    TransferConflict,
    DeleteConfirm,
    ProfileDelete,
    LargeEdit,
    EditConflict,
    GoToPath,
    ContextMenu,
    About,
    TabSwitcher,
    Palette,
}

/// What can stand in front of the window, from the back to the front.
pub open spec fn all_overlays() -> Seq<Overlay> {
    seq![
        Overlay::ConnectForm,
        Overlay::HostKey,
        Overlay::TransferConflict,
        Overlay::DeleteConfirm,
        Overlay::ProfileDelete,
        Overlay::LargeEdit,
        Overlay::EditConflict,
        Overlay::GoToPath,
        Overlay::ContextMenu,
        Overlay::About,
        Overlay::TabSwitcher,
        Overlay::Palette,
    ]
}

/// The session of the active tab that waits for a decision about a changed file.
pub open spec fn conflict_session(w: Workspace, edits: EditSessionStore) -> Option<EditSessionId> {
    match w.tabs.active() {
        Some(tab) => {
            let i = first_where(edits.sessions@, conflicts_in(tab.id));
            if i < edits.sessions@.len() {
                Some(edits.sessions@[i].id)
            } else {
                None
            }
        },
        None => None,
    }
}

/// Something stands in front of the window.
pub open spec fn overlay_open(
    w: Workspace,
    edits: EditSessionStore,
    profiles: Seq<ConnectionProfile>,
) -> spec_fn(Overlay) -> bool {
    |o: Overlay|
        match o {
            Overlay::ConnectForm => w.connect_form is Some,
            Overlay::HostKey => w.host_key_asked() is Some,
            Overlay::TransferConflict => latest_conflict(w.modals@) is Some,
            Overlay::DeleteConfirm => w.delete_confirm is Some,
            Overlay::ProfileDelete => w.profile_delete_confirm is Some && profile_with_id(
                profiles,
                w.profile_delete_confirm->0,
            ) is Some,
            Overlay::LargeEdit => w.large_edit_confirm is Some,
            Overlay::EditConflict => conflict_session(w, edits) is Some,
            Overlay::GoToPath => w.go_to_path_open,
            Overlay::ContextMenu => w.context_menu is Some,
            Overlay::About => w.about_open,
            Overlay::TabSwitcher => w.tabs.switcher_open,
            Overlay::Palette => w.palette.open,
        }
}

/// What fills the window.
#[derive(Clone, Copy, PartialEq, Eq, Structural, Debug)]
pub enum MainArea {
    Settings,
    Panes,
    NoConnections,
}

/// The frame of the window.
#[derive(PartialEq, Eq, Debug)]
pub struct Frame {
    pub main: MainArea,
    pub drawer: bool,
    pub overlays: Vec<Overlay>,
}

/// The frame shows the window.
pub open spec fn frame_shows(
    frame: Frame,
    w: Workspace,
    edits: EditSessionStore,
    profiles: Seq<ConnectionProfile>,
) -> bool {
    &&& frame.main == if w.surface is Settings {
        MainArea::Settings
    } else if w.tabs.tabs@.len() > 0 {
        MainArea::Panes
    } else {
        MainArea::NoConnections
    }
    &&& frame.drawer == (w.surface is Files && w.drawer_open)
    &&& frame.overlays@ == all_overlays().filter(overlay_open(w, edits, profiles))
}

/// Everything that is open is drawn, and nothing else.
pub proof fn law_open_overlays_are_drawn(
    frame: Frame,
    w: Workspace,
    edits: EditSessionStore,
    profiles: Seq<ConnectionProfile>,
    overlay: Overlay,
)
    requires
        frame_shows(frame, w, edits, profiles),
    ensures
        frame.overlays@.contains(overlay) <==> overlay_open(w, edits, profiles)(overlay),
{
    let all = all_overlays();
    crate::lists::lemma_filter_holds(all, overlay_open(w, edits, profiles));
    assert(all[0] is ConnectForm && all[1] is HostKey && all[2] is TransferConflict
        && all[3] is DeleteConfirm && all[4] is ProfileDelete && all[5] is LargeEdit
        && all[6] is EditConflict && all[7] is GoToPath && all[8] is ContextMenu && all[9] is About
        && all[10] is TabSwitcher && all[11] is Palette);
    assert(all.contains(overlay)) by {
        match overlay {
            Overlay::ConnectForm => assert(all[0] == overlay),
            Overlay::HostKey => assert(all[1] == overlay),
            Overlay::TransferConflict => assert(all[2] == overlay),
            Overlay::DeleteConfirm => assert(all[3] == overlay),
            Overlay::ProfileDelete => assert(all[4] == overlay),
            Overlay::LargeEdit => assert(all[5] == overlay),
            Overlay::EditConflict => assert(all[6] == overlay),
            Overlay::GoToPath => assert(all[7] == overlay),
            Overlay::ContextMenu => assert(all[8] == overlay),
            Overlay::About => assert(all[9] == overlay),
            Overlay::TabSwitcher => assert(all[10] == overlay),
            Overlay::Palette => assert(all[11] == overlay),
        }
    }
}

fn overlay_list() -> (r: Vec<Overlay>)
    ensures
        r@ == all_overlays(),
{
    let mut out: Vec<Overlay> = Vec::new();
    out.push(Overlay::ConnectForm);
    out.push(Overlay::HostKey);
    out.push(Overlay::TransferConflict);
    out.push(Overlay::DeleteConfirm);
    out.push(Overlay::ProfileDelete);
    out.push(Overlay::LargeEdit);
    out.push(Overlay::EditConflict);
    out.push(Overlay::GoToPath);
    out.push(Overlay::ContextMenu);
    out.push(Overlay::About);
    out.push(Overlay::TabSwitcher);
    out.push(Overlay::Palette);
    assert(out@ =~= all_overlays());
    out
}

impl Workspace {
    /// The dialog about an unknown host key, while one is asked about in the active tab.
    pub fn host_key_view(&self) -> (r: Option<HostKeyView>)
        ensures
            r is Some <==> self.host_key_asked() is Some,
            r is Some ==> host_key_shows(r->0, self.host_key_asked()->0),
    {
        match self.active_host_key_prompt() {
            Some(prompt) => Some(
                HostKeyView {
                    request_id: prompt.request_id,
                    host: joined3(
                        prompt.host.as_str(),
                        ":",
                        decimal_text(prompt.port as u64).as_str(),
                    ),
                    key_type: prompt.algorithm.clone(),
                    fingerprint: prompt.fingerprint_sha256.clone(),
                    saves_to: "~/Library/Application Support/macSFTP/known_hosts",
                },
            ),
            None => None,
        }
    }

    /// The dialog about an existing file, while one is asked about.
    pub fn conflict_view(&self) -> (r: Option<ConflictView>)
        ensures
            r is Some <==> latest_conflict(self.modals@) is Some,
            r is Some ==> conflict_shows(r->0, *self, latest_conflict(self.modals@)->0),
    {
        let prompt = match self.active_transfer_conflict_prompt() {
            Some(prompt) => prompt,
            None => return None,
        };
        let mut buttons: Vec<ConflictButton> = Vec::new();
        buttons.push(ConflictButton::Cancel);
        buttons.push(ConflictButton::Skip);
        buttons.push(ConflictButton::SkipAll);
        buttons.push(ConflictButton::Rename);
        buttons.push(ConflictButton::RenameAll);
        buttons.push(ConflictButton::Overwrite);
        buttons.push(ConflictButton::OverwriteAll);
        assert(buttons@ =~= conflict_buttons());
        Some(
            ConflictView {
                source: prompt.source.as_str().to_string(),
                destination: prompt.destination.as_str().to_string(),
                size: prompt.source_size,
                modified_at: prompt.source_modified_at,
                new_name: self.conflict_rename.clone(),
                error: self.conflict_rename_error.clone(),
                buttons,
            },
        )
    }

    /// The question before files are deleted, while it is asked.
    pub fn delete_view(&self, config: &Config) -> (r: Option<DeleteView>)
        ensures
            r is Some <==> self.delete_confirm is Some,
            r is Some ==> delete_shows(r->0, self.delete_confirm->0, *config),
    {
        let state = match &self.delete_confirm {
            Some(state) => state,
            None => return None,
        };
        let presentation = delete_confirm_presentation(state.entries.as_slice());
        let more = if presentation.overflow > 0 {
            Some(joined3("and ", decimal_text(presentation.overflow as u64).as_str(), " more"))
        } else {
            None
        };
        let dont_ask_again = if config.confirm_delete {
            Some(state.dont_ask_again)
        } else {
            None
        };
        Some(DeleteView { presentation, more, dont_ask_again })
    }

    /// Turns over whether to ask again before files are deleted.
    pub fn toggle_dont_ask_again(&mut self)
        ensures
            *final(self) == (Workspace {
                delete_confirm: match old(self).delete_confirm {
                    Some(state) => Some(
                        DeleteConfirmState { dont_ask_again: !state.dont_ask_again, ..state },
                    ),
                    None => None,
                },
                ..*old(self)
            }),
    {
        if let Some(mut state) = self.delete_confirm.take() {
            state.dont_ask_again = !state.dont_ask_again;
            self.delete_confirm = Some(state);
        }
    }

    /// The question before a profile is deleted, while it is asked and the profile exists.
    pub fn profile_delete_view(&self, profiles: &Vec<ConnectionProfile>) -> (r: Option<String>)
        ensures
            string_of(r) == match self.profile_delete_confirm {
                Some(id) => match profile_with_id(profiles@, id) {
                    Some(profile) => Some(
                        "Delete \""@ + profile.name@ + "\" ("@ + profile.username@ + "@"@
                            + profile.host@ + ")? This cannot be undone."@,
                    ),
                    None => None,
                },
                None => None,
            },
    {
        let id = match self.profile_delete_confirm {
            Some(id) => id,
            None => return None,
        };
        match find_profile(profiles, id) {
            Some(i) => {
                let profile = &profiles[i];
                let mut out = joined3("Delete \"", profile.name.as_str(), "\" (");
                out.append(profile.username.as_str());
                out.append("@");
                out.append(profile.host.as_str());
                out.append(")? This cannot be undone.");
                Some(out)
            },
            None => None,
        }
    }

    /// The question before a large file is fetched, while it is asked; `size_text` is its size as
    /// it is shown.
    pub fn large_edit_view(&self, size_text: &str) -> (r: Option<String>)
        ensures
            string_of(r) == match self.large_edit_confirm {
                Some(pending) => Some(
                    if pending.size is Some {
                        "This file is large ("@ + size_text@ + "). Download it for editing?"@
                    } else {
                        "This file is large. Download it for editing?"@
                    },
                ),
                None => None,
            },
    {
        match &self.large_edit_confirm {
            Some(pending) => if pending.size.is_some() {
                Some(joined3("This file is large (", size_text, "). Download it for editing?"))
            } else {
                Some("This file is large. Download it for editing?".to_string())
            },
            None => None,
        }
    }

    /// The session of the active tab that waits for a decision about a changed file.
    pub fn edit_conflict_session(&self, edits: &EditSessionStore) -> (r: Option<EditSessionId>)
        ensures
            r == conflict_session(*self, *edits),
    {
        match self.tabs.active_position() {
            Some(i) => edits.conflict_for_tab(self.tabs.tabs[i].id),
            None => None,
        }
    }

    /// The headline of the path field, while it is open.
    pub fn go_to_path_title(&self) -> (r: Option<String>)
        ensures
            string_of(r) == if self.go_to_path_open {
                Some(
                    "Go to Path ("@ + match self.focused_side {
                        PaneSide::Local => "Local"@,
                        PaneSide::Remote => "Remote"@,
                    } + ")"@,
                )
            } else {
                None
            },
    {
        if !self.go_to_path_open {
            return None;
        }
        let side = match self.focused_side {
            PaneSide::Local => "Local",
            PaneSide::Remote => "Remote",
        };
        Some(joined3("Go to Path (", side, ")"))
    }

    /// The items of the context menu, while it is open.
    pub fn context_menu_view(&self) -> (r: Option<Vec<ContextItem>>)
        ensures
            r is Some <==> self.context_menu is Some,
            r matches Some(items) ==> items@ == menu_items(
                self.context_menu->0.side,
                self.context_menu->0.entry_index is Some,
                self.tabs.active() is Some && self.tabs.active()->0.connection is Connected,
            ),
    {
        match &self.context_menu {
            Some(menu) => {
                let connected = match self.tabs.active_position() {
                    Some(i) => self.tabs.tabs[i].connection.is_connected(),
                    None => false,
                };
                Some(context_menu_items(menu.side, menu.entry_index.is_some(), connected))
            },
            None => None,
        }
    }

    /// The user chose an item of the context menu: it closes, and the pane that it belongs to has
    /// the focus, but for showing a file in the file manager.
    pub fn choose_context_item(&mut self, item: ContextItem)
        ensures
            *final(self) == (Workspace {
                context_menu: None,
                focused_side: match old(self).context_menu {
                    Some(menu) => if item is Reveal {
                        old(self).focused_side
                    } else {
                        menu.side
                    },
                    None => old(self).focused_side,
                },
                ..*old(self)
            }),
    {
        let side = match &self.context_menu {
            Some(menu) => if item == ContextItem::Reveal {
                self.focused_side
            } else {
                menu.side
            },
            None => self.focused_side,
        };
        self.context_menu = None;
        self.focused_side = side;
    }

    fn overlay_is_open(
        &self,
        overlay: Overlay,
        edits: &EditSessionStore,
        profiles: &Vec<ConnectionProfile>,
    ) -> (r: bool)
        ensures
            r == overlay_open(*self, *edits, profiles@)(overlay),
    {
        match overlay {
            Overlay::ConnectForm => self.connect_form.is_some(),
            Overlay::HostKey => self.active_host_key_prompt().is_some(),
            Overlay::TransferConflict => self.active_transfer_conflict_prompt().is_some(),
            Overlay::DeleteConfirm => self.delete_confirm.is_some(),
            Overlay::ProfileDelete => match self.profile_delete_confirm {
                Some(id) => find_profile(profiles, id).is_some(),
                None => false,
            },
            Overlay::LargeEdit => self.large_edit_confirm.is_some(),
            Overlay::EditConflict => self.edit_conflict_session(edits).is_some(),
            Overlay::GoToPath => self.go_to_path_open,
            Overlay::ContextMenu => self.context_menu.is_some(),
            Overlay::About => self.about_open,
            Overlay::TabSwitcher => self.tabs.switcher_open,
            Overlay::Palette => self.palette.open,
        }
    }

    /// The frame of the window.
    pub fn frame(&self, edits: &EditSessionStore, profiles: &Vec<ConnectionProfile>) -> (r: Frame)
        ensures
            frame_shows(r, *self, *edits, profiles@),
    {
        let main = if self.surface == WorkspaceSurface::Settings {
            MainArea::Settings
        } else if self.tabs.tabs.len() > 0 {
            MainArea::Panes
        } else {
            MainArea::NoConnections
        };
        let all = overlay_list();
        let ghost keep = overlay_open(*self, *edits, profiles@);
        let mut overlays: Vec<Overlay> = Vec::new();
        let mut i: usize = 0;
        assert(all@.take(0).filter(keep) =~= Seq::<Overlay>::empty()) by {
            reveal(Seq::filter);
        }
        while i < all.len()
            invariant
                i <= all@.len(),
                keep == overlay_open(*self, *edits, profiles@),
                overlays@ == all@.take(i as int).filter(keep),
            decreases all@.len() - i,
        {
            proof {
                lemma_filter_take(all@, keep, i as int);
            }
            if self.overlay_is_open(all[i], edits, profiles) {
                overlays.push(all[i]);
            }
            i += 1;
        }
        assert(all@.take(i as int) =~= all@);
        Frame {
            main,
            drawer: self.surface == WorkspaceSurface::Files && self.drawer_open,
            overlays,
        }
    }

    /// The drag of the drawer ends. Says whether there was one.
    pub fn end_drawer_drag(&mut self) -> (r: bool)
        ensures
            r == (old(self).drawer_resize is Some),
            *final(self) == (Workspace { drawer_resize: None, ..*old(self) }),
    {
        let dragged = self.drawer_resize.is_some();
        self.drawer_resize = None;
        dragged
    }
}

}
