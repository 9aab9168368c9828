//! The command palette: what it lists, how it is walked, and what a command does.

use vstd::prelude::*;

use crate::front::palette_closed;
use crate::keys::Keystroke;
use crate::lists::wrapped_index;
use crate::modals::latest_conflict;
use crate::model::{ConnectionProfile, PaneSide, WorkspaceSurface};
use crate::palette_commands::{
    commands, filter_palette_commands, registry, shown, CommandView, PaletteCommand, PaletteContext,
};
use crate::profiles::SettingsSection;
use crate::settings_actions::section_shown;
use crate::text::same_text;
use crate::workspace::{CommandPaletteUi, FocusTarget, Workspace};

verus! {

/// What a command of the palette does.
#[derive(Clone, Copy, PartialEq, Eq, Structural, Debug)]
pub enum PaletteAction {
    NewTab,
    CloseTab,
    RefreshPane,
    FocusLocalPane,
    FocusRemotePane,
    UploadSelection,
    DownloadSelection,
    ShowTransferDrawer,
    OpenSettings,
    OpenProfiles,
    ShowAbout,
    DeleteSelection,
    RenameEntry,
    NewFolder,
    FilterPane,
    GoToPath,
    NavigateBack,
    NavigateForward,
    ParentDirectory,
    ToggleHiddenFiles,
    CopyPath,
    ReconnectTab,
    OpenLogFolder,
    OpenCommandPalette,
}

/// The command that does something.
pub open spec fn action_id(action: PaletteAction) -> Seq<char> {
    match action {
        PaletteAction::NewTab => "NewTab"@,
        PaletteAction::CloseTab => "CloseTab"@,
        PaletteAction::RefreshPane => "RefreshPane"@,
        PaletteAction::FocusLocalPane => "FocusLocalPane"@,
        PaletteAction::FocusRemotePane => "FocusRemotePane"@,
        PaletteAction::UploadSelection => "UploadSelection"@,
        PaletteAction::DownloadSelection => "DownloadSelection"@,
        PaletteAction::ShowTransferDrawer => "ShowTransferDrawer"@,
        PaletteAction::OpenSettings => "OpenSettings"@,
        PaletteAction::OpenProfiles => "OpenProfiles"@,
        PaletteAction::ShowAbout => "ShowAbout"@,
        PaletteAction::DeleteSelection => "DeleteSelection"@,
        PaletteAction::RenameEntry => "RenameEntry"@,
        PaletteAction::NewFolder => "NewFolder"@,
        PaletteAction::FilterPane => "FilterPane"@,
        PaletteAction::GoToPath => "GoToPath"@,
        PaletteAction::NavigateBack => "NavigateBack"@,
        PaletteAction::NavigateForward => "NavigateForward"@,
        PaletteAction::ParentDirectory => "ParentDirectory"@,
        PaletteAction::ToggleHiddenFiles => "ToggleHiddenFiles"@,
        PaletteAction::CopyPath => "CopyPath"@,
        PaletteAction::ReconnectTab => "ReconnectTab"@,
        PaletteAction::OpenLogFolder => "OpenLogFolder"@,
        PaletteAction::OpenCommandPalette => "OpenCommandPalette"@,
    }
}

/// A command has the id.
pub open spec fn is_command(id: Seq<char>) -> bool {
    exists|action: PaletteAction| #[trigger] action_id(action) == id
}

/// What the command with an id does; nothing where there is no such command.
pub fn palette_action(id: &str) -> (r: Option<PaletteAction>)
    ensures
        r matches Some(action) ==> action_id(action) == id@,
        r is None ==> !is_command(id@),
{
    if same_text(id, "NewTab") {
        return Some(PaletteAction::NewTab);
    }
    if same_text(id, "CloseTab") {
        return Some(PaletteAction::CloseTab);
    }
    if same_text(id, "RefreshPane") {
        return Some(PaletteAction::RefreshPane);
    }
    if same_text(id, "FocusLocalPane") {
        return Some(PaletteAction::FocusLocalPane);
    }
    if same_text(id, "FocusRemotePane") {
        return Some(PaletteAction::FocusRemotePane);
    }
    if same_text(id, "UploadSelection") {
        return Some(PaletteAction::UploadSelection);
    }
    if same_text(id, "DownloadSelection") {
        return Some(PaletteAction::DownloadSelection);
    }
    if same_text(id, "ShowTransferDrawer") {
        return Some(PaletteAction::ShowTransferDrawer);
    }
    if same_text(id, "OpenSettings") {
        return Some(PaletteAction::OpenSettings);
    }
    if same_text(id, "OpenProfiles") {
        return Some(PaletteAction::OpenProfiles);
    }
    if same_text(id, "ShowAbout") {
        return Some(PaletteAction::ShowAbout);
    }
    if same_text(id, "DeleteSelection") {
        return Some(PaletteAction::DeleteSelection);
    }
    if same_text(id, "RenameEntry") {
        return Some(PaletteAction::RenameEntry);
    }
    if same_text(id, "NewFolder") {
        return Some(PaletteAction::NewFolder);
    }
    if same_text(id, "FilterPane") {
        return Some(PaletteAction::FilterPane);
    }
    if same_text(id, "GoToPath") {
        return Some(PaletteAction::GoToPath);
    }
    if same_text(id, "NavigateBack") {
        return Some(PaletteAction::NavigateBack);
    }
    if same_text(id, "NavigateForward") {
        return Some(PaletteAction::NavigateForward);
    }
    if same_text(id, "ParentDirectory") {
        return Some(PaletteAction::ParentDirectory);
    }
    if same_text(id, "ToggleHiddenFiles") {
        return Some(PaletteAction::ToggleHiddenFiles);
    }
    if same_text(id, "CopyPath") {
        return Some(PaletteAction::CopyPath);
    }
    if same_text(id, "ReconnectTab") {
        return Some(PaletteAction::ReconnectTab);
    }
    if same_text(id, "OpenLogFolder") {
        return Some(PaletteAction::OpenLogFolder);
    }
    if same_text(id, "OpenCommandPalette") {
        return Some(PaletteAction::OpenCommandPalette);
    }
    None
}

/// Every command of the palette does something.
pub proof fn law_every_command_does_something(i: int)
    requires
        0 <= i < registry().len(),
    ensures
        exists|action: PaletteAction| #[trigger] action_id(action) == registry()[i].id,
{
    assert(registry()[0].id == action_id(PaletteAction::NewTab));
    assert(registry()[1].id == action_id(PaletteAction::CloseTab));
    assert(registry()[2].id == action_id(PaletteAction::RefreshPane));
    assert(registry()[3].id == action_id(PaletteAction::FocusLocalPane));
    assert(registry()[4].id == action_id(PaletteAction::FocusRemotePane));
    assert(registry()[5].id == action_id(PaletteAction::UploadSelection));
    assert(registry()[6].id == action_id(PaletteAction::DownloadSelection));
    assert(registry()[7].id == action_id(PaletteAction::ShowTransferDrawer));
    assert(registry()[8].id == action_id(PaletteAction::OpenSettings));
    assert(registry()[9].id == action_id(PaletteAction::OpenProfiles));
    assert(registry()[10].id == action_id(PaletteAction::ShowAbout));
    assert(registry()[11].id == action_id(PaletteAction::DeleteSelection));
    assert(registry()[12].id == action_id(PaletteAction::RenameEntry));
    assert(registry()[13].id == action_id(PaletteAction::NewFolder));
    assert(registry()[14].id == action_id(PaletteAction::FilterPane));
    assert(registry()[15].id == action_id(PaletteAction::GoToPath));
    assert(registry()[16].id == action_id(PaletteAction::NavigateBack));
    assert(registry()[17].id == action_id(PaletteAction::NavigateForward));
    assert(registry()[18].id == action_id(PaletteAction::ParentDirectory));
    assert(registry()[19].id == action_id(PaletteAction::ToggleHiddenFiles));
    assert(registry()[20].id == action_id(PaletteAction::CopyPath));
    assert(registry()[21].id == action_id(PaletteAction::ReconnectTab));
    assert(registry()[22].id == action_id(PaletteAction::OpenLogFolder));
    assert(registry()[23].id == action_id(PaletteAction::OpenCommandPalette));
}

/// A row of the palette.
#[derive(PartialEq, Eq, Debug)]
pub struct PaletteRow {
    pub title: &'static str,
    pub keybinding: Option<&'static str>,
    pub selected: bool,
}

/// What a key does in the palette.
#[derive(PartialEq, Eq, Debug)]
pub enum PaletteKey {
    /// The palette closed, and a command is to be run.
    Run(PaletteAction),
    /// The key was for the palette.
    Used,
    Unused,
}

/// What is left of a command.
#[derive(Clone, Copy, PartialEq, Eq, Structural, Debug)]
pub enum PaletteStep {
    Done,
    /// Another part of the window carries the command out.
    Run(PaletteAction),
}

/// What the palette judges commands by.
pub open spec fn context_of(w: Workspace) -> PaletteContext {
    PaletteContext {
        has_tabs: w.tabs.tabs@.len() > 0,
        has_active_tab: w.tabs.active_tab_id is Some,
        remote_connected: w.tabs.active() is Some && w.tabs.active()->0.connection is Connected,
    }
}

/// What the palette lists.
pub open spec fn listed(w: Workspace) -> Seq<CommandView> {
    registry().filter(shown(w.palette.input@, context_of(w)))
}

/// Nothing keeps the settings or the about box from opening.
pub open spec fn settings_free(w: Workspace) -> bool {
    &&& w.connect_form is None
    &&& w.host_key_asked() is None
    &&& latest_conflict(w.modals@) is None
    &&& w.delete_confirm is None
    &&& !w.go_to_path_open
}

/// The command that the palette points at.
pub open spec fn pointed_at(w: Workspace) -> Option<Seq<char>> {
    if w.palette.selected < listed(w).len() {
        Some(listed(w)[w.palette.selected as int].id)
    } else {
        None
    }
}

impl Workspace {
    pub fn palette_context(&self) -> (r: PaletteContext)
        ensures
            r == context_of(*self),
    {
        let remote_connected = match self.tabs.active_position() {
            Some(i) => self.tabs.tabs[i].connection.is_connected(),
            None => false,
        };
        PaletteContext {
            has_tabs: self.tabs.tabs.len() > 0,
            has_active_tab: self.tabs.active_tab_id.is_some(),
            remote_connected,
        }
    }

    /// The commands that the palette lists.
    pub fn filtered_palette_commands(&self) -> (r: Vec<PaletteCommand>)
        ensures
            commands(r@) == listed(*self),
            r@.len() == listed(*self).len(),
    {
        let ctx = self.palette_context();
        let out = filter_palette_commands(self.palette.input.as_str(), &ctx);
        assert(commands(out@).len() == out@.len());
        out
    }

    pub fn open_command_palette(&mut self)
        ensures
            *final(self) == (Workspace {
                palette: final(self).palette,
                focus: FocusTarget::Modal,
                ..*old(self)
            }),
            final(self).palette.open,
            final(self).palette.input@.len() == 0,
            final(self).palette.selected == 0,
    {
        self.palette = CommandPaletteUi { open: true, input: String::new(), selected: 0 };
        self.focus = FocusTarget::Modal;
    }

    /// Moves what the palette points at, round the ends.
    pub fn move_palette_selection(&mut self, delta: isize)
        ensures
            *final(self) == (Workspace {
                palette: CommandPaletteUi {
                    selected: final(self).palette.selected,
                    ..old(self).palette
                },
                ..*old(self)
            }),
            final(self).palette.selected == if listed(*old(self)).len() == 0 {
                0
            } else {
                (old(self).palette.selected + delta) % (listed(*old(self)).len() as int)
            },
    {
        let count: usize = self.filtered_palette_commands().len();
        self.palette.selected = if count == 0 {
            0
        } else {
            wrapped_index(self.palette.selected, delta, count)
        };
    }

    /// Closes the palette and gives what the command does that it points at, where it points at
    /// one.
    pub fn execute_palette_selected(&mut self) -> (r: Option<PaletteAction>)
        ensures
            r is Some <==> pointed_at(*old(self)) is Some,
            r matches Some(action) ==> Some(action_id(action)) == pointed_at(*old(self))
                && palette_closed(*old(self), *final(self)),
            r is None ==> *final(self) == *old(self),
    {
        let hits = self.filtered_palette_commands();
        if self.palette.selected >= hits.len() {
            return None;
        }
        let k: usize = self.palette.selected;
        let id = hits[k].id;
        proof {
            assert(commands(hits@)[k as int].id == id@);
            lemma_listed_has_action(*self, k as int);
        }
        let action = palette_action(id);
        self.close_command_palette();
        action
    }

    /// The user clicked a row of the palette.
    pub fn execute_palette_at(&mut self, index: usize) -> (r: Option<PaletteAction>)
        ensures
            ({
                let aimed = Workspace {
                    palette: CommandPaletteUi { selected: index, ..old(self).palette },
                    ..*old(self)
                };
                &&& r is Some <==> index < listed(*old(self)).len()
                &&& r matches Some(action) ==> action_id(action) == listed(
                    *old(self),
                )[index as int].id && palette_closed(*old(self), *final(self))
                &&& r is None ==> *final(self) == aimed
            }),
    {
        self.palette.selected = index;
        self.execute_palette_selected()
    }

    /// A key typed in the palette; `typed` is what its field then holds.
    pub fn handle_command_palette_key(&mut self, stroke: &Keystroke, typed: Option<String>) -> (r:
        PaletteKey)
        ensures
            palette_keyed(*old(self), *final(self), *stroke, typed, r),
    {
        if !self.palette.open {
            return PaletteKey::Unused;
        }
        if stroke.plain("enter") {
            return match self.execute_palette_selected() {
                Some(action) => PaletteKey::Run(action),
                None => PaletteKey::Used,
            };
        }
        if stroke.plain("up") {
            self.move_palette_selection(-1);
            return PaletteKey::Used;
        }
        if stroke.plain("down") {
            self.move_palette_selection(1);
            return PaletteKey::Used;
        }
        match typed {
            Some(text) => {
                self.palette.input = text;
                self.palette.selected = 0;
                PaletteKey::Used
            },
            None => PaletteKey::Unused,
        }
    }

    fn settings_may_open(&self) -> (r: bool)
        ensures
            r == settings_free(*self),
    {
        self.connect_form.is_none() && self.active_host_key_prompt().is_none()
            && self.active_transfer_conflict_prompt().is_none() && self.delete_confirm.is_none()
            && !self.go_to_path_open
    }

    /// Opens the settings on their first section, unless a question or a form is open.
    pub fn open_settings(&mut self)
        ensures
            *final(self) == if settings_free(*old(self)) {
                Workspace {
                    about_open: false,
                    surface: WorkspaceSurface::Settings,
                    settings_section: SettingsSection::General,
                    focus: FocusTarget::Workspace,
                    ..*old(self)
                }
            } else {
                *old(self)
            },
    {
        if self.settings_may_open() {
            self.about_open = false;
            self.surface = WorkspaceSurface::Settings;
            self.settings_section = SettingsSection::General;
            self.focus = FocusTarget::Workspace;
        }
    }

    /// Opens the settings on the list of profiles, unless a question or a form is open.
    pub fn open_profiles(&mut self, profiles: &Vec<ConnectionProfile>, secret_present: bool)
        ensures
            !settings_free(*old(self)) ==> *final(self) == *old(self),
            settings_free(*old(self)) ==> section_shown(
                Workspace {
                    about_open: false,
                    surface: WorkspaceSurface::Settings,
                    focus: FocusTarget::Workspace,
                    ..*old(self)
                },
                *final(self),
                SettingsSection::Profiles,
                profiles@,
                secret_present,
            ),
    {
        if self.settings_may_open() {
            self.about_open = false;
            self.surface = WorkspaceSurface::Settings;
            self.focus = FocusTarget::Workspace;
            self.set_settings_section(SettingsSection::Profiles, profiles, secret_present);
        }
    }

    /// Opens the about box, unless a question or a form is open.
    pub fn show_about(&mut self)
        ensures
            *final(self) == if settings_free(*old(self)) {
                Workspace { about_open: true, ..*old(self) }
            } else {
                *old(self)
            },
    {
        if self.settings_may_open() {
            self.about_open = true;
        }
    }

    /// Carries out a command where the window alone can; gives it back otherwise.
    pub fn dispatch_palette_id(&mut self, action: PaletteAction) -> (r: PaletteStep)
        ensures
            match action {
                PaletteAction::FocusLocalPane => r is Done && *final(self) == (Workspace {
                    focused_side: PaneSide::Local,
                    focus: FocusTarget::LocalPane,
                    ..*old(self)
                }),
                PaletteAction::FocusRemotePane => r is Done && *final(self) == (Workspace {
                    focused_side: PaneSide::Remote,
                    focus: FocusTarget::RemotePane,
                    ..*old(self)
                }),
                PaletteAction::ShowTransferDrawer => r is Done && *final(self) == (Workspace {
                    drawer_open: !old(self).drawer_open,
                    ..*old(self)
                }),
                PaletteAction::OpenSettings => r is Done && *final(self) == if settings_free(
                    *old(self),
                ) {
                    Workspace {
                        about_open: false,
                        surface: WorkspaceSurface::Settings,
                        settings_section: SettingsSection::General,
                        focus: FocusTarget::Workspace,
                        ..*old(self)
                    }
                } else {
                    *old(self)
                },
                PaletteAction::ShowAbout => r is Done && *final(self) == if settings_free(
                    *old(self),
                ) {
                    Workspace { about_open: true, ..*old(self) }
                } else {
                    *old(self)
                },
                PaletteAction::OpenCommandPalette => {
                    &&& r is Done
                    &&& *final(self) == (Workspace {
                        palette: final(self).palette,
                        focus: FocusTarget::Modal,
                        ..*old(self)
                    })
                    &&& final(self).palette.open
                    &&& final(self).palette.input@.len() == 0
                    &&& final(self).palette.selected == 0
                },
                _ => r == PaletteStep::Run(action) && *final(self) == *old(self),
            },
    {
        match action {
            PaletteAction::FocusLocalPane => self.focus_pane(PaneSide::Local),
            PaletteAction::FocusRemotePane => self.focus_pane(PaneSide::Remote),
            PaletteAction::ShowTransferDrawer => self.drawer_open = !self.drawer_open,
            PaletteAction::OpenSettings => self.open_settings(),
            PaletteAction::ShowAbout => self.show_about(),
            PaletteAction::OpenCommandPalette => self.open_command_palette(),
            _ => return PaletteStep::Run(action),
        }
        PaletteStep::Done
    }

    /// The rows that the palette shows, while it is open.
    pub fn palette_rows(&self) -> (r: Option<Vec<PaletteRow>>)
        ensures
            r is Some <==> self.palette.open,
            r matches Some(rows) ==> {
                let all = listed(*self);
                let at = if self.palette.selected < all.len() {
                    self.palette.selected as int
                } else {
                    all.len() - 1
                };
                &&& rows@.len() == all.len()
                &&& forall|k: int|
                    0 <= k < all.len() ==> (#[trigger] rows@[k]).title@ == all[k].title && rows@[k].selected == (k == at)
                        && crate::helpers::text_of(rows@[k].keybinding) == all[k].keybinding
            },
    {
        if !self.palette.open {
            return None;
        }
        let hits = self.filtered_palette_commands();
        let ghost all = listed(*self);
        let count: usize = hits.len();
        let mut rows: Vec<PaletteRow> = Vec::new();
        let mut k: usize = 0;
        while k < count
            invariant
                k <= count,
                count == hits@.len(),
                all == commands(hits@),
                all.len() == count,
                rows@.len() == k,
                forall|j: int|
                    0 <= j < k ==> (#[trigger] rows@[j]).title@ == all[j].title && rows@[j].selected
                        == (j == if self.palette.selected < count {
                        self.palette.selected as int
                    } else {
                        count - 1
                    }) && crate::helpers::text_of(rows@[j].keybinding) == all[j].keybinding,
            decreases count - k,
        {
            assert(all[k as int] == hits@[k as int]@);
            let at: usize = if self.palette.selected < count {
                self.palette.selected
            } else {
                count - 1
            };
            rows.push(
                PaletteRow {
                    title: hits[k].title,
                    keybinding: hits[k].keybinding,
                    selected: k == at,
                },
            );
            k += 1;
        }
        Some(rows)
    }
}

proof fn lemma_listed_has_action(w: Workspace, k: int)
    requires
        0 <= k < listed(w).len(),
    ensures
        exists|action: PaletteAction| #[trigger] action_id(action) == listed(w)[k].id,
{
    let keep = shown(w.palette.input@, context_of(w));
    crate::lists::lemma_filter_holds(registry(), keep);
    assert(listed(w).contains(listed(w)[k]));
    let i = choose|i: int| 0 <= i < registry().len() && registry()[i] == listed(w)[k];
    law_every_command_does_something(i);
}

/// The palette after a key, and what the key does.
pub open spec fn palette_keyed(
    before: Workspace,
    after: Workspace,
    stroke: Keystroke,
    typed: Option<String>,
    what: PaletteKey,
) -> bool {
    let count = listed(before).len();
    if !before.palette.open {
        what is Unused && after == before
    } else if stroke.is_plain("enter"@) {
        match pointed_at(before) {
            Some(id) => {
                &&& what matches PaletteKey::Run(action) && action_id(action) == id
                &&& palette_closed(before, after)
            },
            None => what is Used && after == before,
        }
    } else if stroke.is_plain("up"@) || stroke.is_plain("down"@) {
        let step: int = if stroke.is_plain("up"@) {
            -1
        } else {
            1
        };
        &&& what is Used
        &&& after == (Workspace {
            palette: CommandPaletteUi { selected: after.palette.selected, ..before.palette },
            ..before
        })
        &&& after.palette.selected == if count == 0 {
            0
        } else {
            (before.palette.selected + step) % (count as int)
        }
    } else {
        match typed {
            Some(text) => {
                &&& what is Used
                &&& after == (Workspace {
                    palette: CommandPaletteUi { input: text, selected: 0, ..before.palette },
                    ..before
                })
            },
            None => what is Unused && after == before,
        }
    }
}

}
