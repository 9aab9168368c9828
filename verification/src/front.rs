//! The path field, the about box, and what escape closes first.

use vstd::prelude::*;

use crate::helpers::{expand_home, home_expanded, string_of, text_of};
use crate::keys::{field_key, FieldKey, Keystroke};
use crate::modals::latest_conflict;
use crate::model::{
    ConflictDecision, ConflictDecisionCommand, PaneSide, TrustRequestId, WorkspaceSurface,
};
use crate::profiles::SettingsSection;
use crate::tabs::TabStore;
use crate::text::{trim, trimmed};
use crate::workspace::{pane_focus, CommandPaletteUi, FocusTarget, Workspace};

verus! {

/// The palette closed, and the pane has the keyboard again.
pub open spec fn palette_closed(before: Workspace, after: Workspace) -> bool {
    &&& after == (Workspace {
        palette: after.palette,
        focus: pane_focus(before.focused_side),
        ..before
    })
    &&& !after.palette.open
    &&& after.palette.input@.len() == 0
    &&& after.palette.selected == 0
}

/// The path field closed, and the pane has the keyboard again.
pub open spec fn path_field_closed(before: Workspace, after: Workspace) -> bool {
    &&& after == (Workspace {
        go_to_path_open: false,
        go_to_path_input: after.go_to_path_input,
        go_to_path_error: None,
        focus: pane_focus(before.focused_side),
        ..before
    })
    &&& after.go_to_path_input@.len() == 0
}

/// Who has the keyboard once the question about deleting a profile is gone.
pub open spec fn focus_below_profile_delete(w: Workspace) -> FocusTarget {
    if w.connect_form is Some {
        FocusTarget::ConnectForm
    } else if w.surface is Settings {
        FocusTarget::Workspace
    } else {
        pane_focus(w.focused_side)
    }
}

/// The settings closed: drafts are gone and the files are shown.
pub open spec fn settings_left(before: Workspace, after: Workspace) -> bool {
    &&& after == (Workspace {
        profile_editor: None,
        selected_profile_id: None,
        profile_filter: after.profile_filter,
        profile_filter_focused: false,
        profile_delete_confirm: None,
        settings_section: SettingsSection::General,
        surface: WorkspaceSurface::Files,
        focus: pane_focus(before.focused_side),
        ..before
    })
    &&& after.profile_filter@.len() == 0
}

/// What stands in front of everything else.
#[derive(Clone, Copy, PartialEq, Eq, Structural, Debug)]
pub enum Layer {
    Palette,
    TabSwitcher,
    GoToPath,
    About,
    ProfileDelete,
    Settings,
    DeleteConfirm,
    ContextMenu,
    InlineEdit,
    ProfilePicker,
    ConnectForm,
    HostKey,
    TransferConflict,
    Files,
}

/// What stands in front of everything else.
pub open spec fn front_layer(w: Workspace) -> Layer {
    if w.palette.open {
        Layer::Palette
    } else if w.tabs.switcher_open {
        Layer::TabSwitcher
    } else if w.go_to_path_open {
        Layer::GoToPath
    } else if w.about_open {
        Layer::About
    } else if w.profile_delete_confirm is Some {
        Layer::ProfileDelete
    } else if w.surface is Settings {
        Layer::Settings
    } else if w.delete_confirm is Some {
        Layer::DeleteConfirm
    } else if w.context_menu is Some {
        Layer::ContextMenu
    } else if w.inline_edit is Some {
        Layer::InlineEdit
    } else if w.connect_form is Some {
        if w.connect_form->0.profile_picker_open {
            Layer::ProfilePicker
        } else {
            Layer::ConnectForm
        }
    } else if w.host_key_asked() is Some {
        Layer::HostKey
    } else if latest_conflict(w.modals@) is Some {
        Layer::TransferConflict
    } else {
        Layer::Files
    }
}

/// What is left to do after escape: an answer that is to be sent.
#[derive(PartialEq, Eq, Debug)]
pub enum CancelStep {
    Done,
    RejectHostKey(TrustRequestId),
    ResolveConflict(ConflictDecisionCommand),
}

impl Workspace {
    pub fn close_command_palette(&mut self)
        ensures
            palette_closed(*old(self), *final(self)),
    {
        self.palette = CommandPaletteUi { open: false, input: String::new(), selected: 0 };
        let side = self.focused_side;
        self.focus_pane(side);
    }

    pub fn close_go_to_path(&mut self)
        ensures
            path_field_closed(*old(self), *final(self)),
    {
        self.go_to_path_open = false;
        self.go_to_path_input = String::new();
        self.go_to_path_error = None;
        let side = self.focused_side;
        self.focus_pane(side);
    }

    pub fn close_about(&mut self)
        ensures
            *final(self) == if old(self).about_open {
                Workspace {
                    about_open: false,
                    focus: pane_focus(old(self).focused_side),
                    ..*old(self)
                }
            } else {
                *old(self)
            },
    {
        if self.about_open {
            self.about_open = false;
            let side = self.focused_side;
            self.focus_pane(side);
        }
    }

    /// Gives the keyboard back to what stands behind the question about deleting a profile.
    pub fn restore_focus_after_profile_delete(&mut self)
        ensures
            *final(self) == (Workspace {
                focus: focus_below_profile_delete(*old(self)),
                ..*old(self)
            }),
    {
        self.focus = if self.connect_form.is_some() {
            FocusTarget::ConnectForm
        } else if self.surface == WorkspaceSurface::Settings {
            FocusTarget::Workspace
        } else {
            match self.focused_side {
                PaneSide::Local => FocusTarget::LocalPane,
                PaneSide::Remote => FocusTarget::RemotePane,
            }
        };
    }

    pub fn cancel_delete_profile(&mut self)
        ensures
            *final(self) == (Workspace {
                profile_delete_confirm: None,
                focus: focus_below_profile_delete(*old(self)),
                ..*old(self)
            }),
    {
        self.profile_delete_confirm = None;
        self.restore_focus_after_profile_delete();
    }

    /// Leaves the settings; drafts are dropped.
    pub fn leave_settings(&mut self)
        ensures
            settings_left(*old(self), *final(self)),
    {
        self.profile_editor = None;
        self.selected_profile_id = None;
        self.profile_filter = String::new();
        self.profile_filter_focused = false;
        self.profile_delete_confirm = None;
        self.settings_section = SettingsSection::General;
        self.surface = WorkspaceSurface::Files;
        let side = self.focused_side;
        self.focus_pane(side);
    }

    pub fn cancel_delete_confirm(&mut self)
        ensures
            *final(self) == (Workspace {
                delete_confirm: None,
                focus: pane_focus(old(self).focused_side),
                ..*old(self)
            }),
    {
        self.delete_confirm = None;
        let side = self.focused_side;
        self.focus_pane(side);
    }

    pub fn close_context_menu(&mut self)
        ensures
            *final(self) == (Workspace { context_menu: None, ..*old(self) }),
    {
        self.context_menu = None;
    }

    pub fn cancel_inline_edit(&mut self)
        ensures
            *final(self) == (Workspace { inline_edit: None, ..*old(self) }),
    {
        self.inline_edit = None;
    }

    pub fn close_connect_form(&mut self)
        ensures
            *final(self) == (Workspace {
                connect_form: None,
                focus: pane_focus(old(self).focused_side),
                ..*old(self)
            }),
    {
        self.connect_form = None;
        let side = self.focused_side;
        self.focus_pane(side);
    }

    /// What stands in front of everything else.
    pub fn front(&self) -> (r: Layer)
        ensures
            r == front_layer(*self),
    {
        if self.palette.open {
            Layer::Palette
        } else if self.tabs.switcher_open {
            Layer::TabSwitcher
        } else if self.go_to_path_open {
            Layer::GoToPath
        } else if self.about_open {
            Layer::About
        } else if self.profile_delete_confirm.is_some() {
            Layer::ProfileDelete
        } else if self.surface == WorkspaceSurface::Settings {
            Layer::Settings
        } else if self.delete_confirm.is_some() {
            Layer::DeleteConfirm
        } else if self.context_menu.is_some() {
            Layer::ContextMenu
        } else if self.inline_edit.is_some() {
            Layer::InlineEdit
        } else if let Some(form) = &self.connect_form {
            if form.profile_picker_open {
                Layer::ProfilePicker
            } else {
                Layer::ConnectForm
            }
        } else if self.active_host_key_prompt().is_some() {
            Layer::HostKey
        } else if self.active_transfer_conflict_prompt().is_some() {
            Layer::TransferConflict
        } else {
            Layer::Files
        }
    }

    /// Closes what stands in front, and that alone. Questions of the runtime are answered with
    /// no; the answer is left to be sent.
    pub fn cancel_active_modal(&mut self) -> (r: CancelStep)
        requires
            old(self).wf(),
        ensures
            final(self).wf(),
            match front_layer(*old(self)) {
                Layer::Palette => r is Done && palette_closed(*old(self), *final(self)),
                Layer::TabSwitcher => r is Done && *final(self) == (Workspace {
                    tabs: TabStore { switcher_open: false, switcher_index: 0, ..old(self).tabs },
                    focus: pane_focus(old(self).focused_side),
                    ..*old(self)
                }),
                Layer::GoToPath => r is Done && path_field_closed(*old(self), *final(self)),
                Layer::About => r is Done && *final(self) == (Workspace {
                    about_open: false,
                    focus: pane_focus(old(self).focused_side),
                    ..*old(self)
                }),
                Layer::ProfileDelete => r is Done && *final(self) == (Workspace {
                    profile_delete_confirm: None,
                    focus: focus_below_profile_delete(*old(self)),
                    ..*old(self)
                }),
                Layer::Settings => r is Done && settings_left(*old(self), *final(self)),
                Layer::DeleteConfirm => r is Done && *final(self) == (Workspace {
                    delete_confirm: None,
                    focus: pane_focus(old(self).focused_side),
                    ..*old(self)
                }),
                Layer::ContextMenu => r is Done && *final(self) == (Workspace {
                    context_menu: None,
                    focus: pane_focus(old(self).focused_side),
                    ..*old(self)
                }),
                Layer::InlineEdit => r is Done && *final(self) == (Workspace {
                    inline_edit: None,
                    focus: pane_focus(old(self).focused_side),
                    ..*old(self)
                }),
                Layer::ProfilePicker => {
                    &&& r is Done
                    &&& final(self).connect_form is Some
                    &&& *final(self) == (Workspace {
                        connect_form: final(self).connect_form,
                        ..*old(self)
                    })
                    &&& crate::connect_form::picker_closed(
                        old(self).connect_form->0,
                        final(self).connect_form->0,
                    )
                },
                Layer::ConnectForm => r is Done && *final(self) == (Workspace {
                    connect_form: None,
                    focus: pane_focus(old(self).focused_side),
                    ..*old(self)
                }),
                Layer::HostKey => *final(self) == *old(self) && r == CancelStep::RejectHostKey(
                    old(self).host_key_asked()->0.request_id,
                ),
                Layer::TransferConflict => *final(self) == *old(self) && r
                    == CancelStep::ResolveConflict(
                    ConflictDecisionCommand {
                        plan_id: latest_conflict(old(self).modals@)->0.plan_id,
                        request_id: latest_conflict(old(self).modals@)->0.request_id,
                        decision: ConflictDecision::CancelJob,
                    },
                ),
                Layer::Files => r is Done && *final(self) == *old(self),
            },
    {
        match self.front() {
            Layer::Palette => self.close_command_palette(),
            Layer::TabSwitcher => self.close_tab_switcher(),
            Layer::GoToPath => self.close_go_to_path(),
            Layer::About => self.close_about(),
            Layer::ProfileDelete => self.cancel_delete_profile(),
            Layer::Settings => self.leave_settings(),
            Layer::DeleteConfirm => self.cancel_delete_confirm(),
            Layer::ContextMenu => {
                self.close_context_menu();
                let side = self.focused_side;
                self.focus_pane(side);
            },
            Layer::InlineEdit => {
                self.cancel_inline_edit();
                let side = self.focused_side;
                self.focus_pane(side);
            },
            Layer::ProfilePicker => {
                if let Some(mut form) = self.connect_form.take() {
                    form.close_profile_picker();
                    self.connect_form = Some(form);
                }
            },
            Layer::ConnectForm => self.close_connect_form(),
            Layer::HostKey => {
                if let Some(prompt) = self.active_host_key_prompt() {
                    return CancelStep::RejectHostKey(prompt.request_id);
                }
            },
            Layer::TransferConflict => {
                if let Some(prompt) = self.active_transfer_conflict_prompt() {
                    return CancelStep::ResolveConflict(
                        ConflictDecisionCommand {
                            plan_id: prompt.plan_id,
                            request_id: prompt.request_id,
                            decision: ConflictDecision::CancelJob,
                        },
                    );
                }
            },
            Layer::Files => {},
        }
        CancelStep::Done
    }

    /// Opens the path field, unless a question or a form is open.
    pub fn open_go_to_path(&mut self)
        ensures
            ({
                let blocked = old(self).connect_form is Some || old(self).host_key_asked() is Some
                    || latest_conflict(old(self).modals@) is Some || old(
                    self,
                ).delete_confirm is Some || old(self).inline_edit is Some;
                &&& blocked ==> *final(self) == *old(self)
                &&& !blocked ==> {
                    &&& *final(self) == (Workspace {
                        about_open: false,
                        go_to_path_open: true,
                        go_to_path_input: final(self).go_to_path_input,
                        go_to_path_error: None,
                        focus: FocusTarget::Modal,
                        ..*old(self)
                    })
                    &&& final(self).go_to_path_input@.len() == 0
                }
            }),
    {
        if self.connect_form.is_some() || self.active_host_key_prompt().is_some()
            || self.active_transfer_conflict_prompt().is_some() || self.delete_confirm.is_some()
            || self.inline_edit.is_some() {
            return;
        }
        self.about_open = false;
        self.go_to_path_open = true;
        self.go_to_path_input = String::new();
        self.go_to_path_error = None;
        self.focus = FocusTarget::Modal;
    }

    /// The place that the path field names: of the local side with the user's home filled in.
    /// Nothing where the field is blank.
    pub fn go_to_path_target(&self, home: Option<&str>) -> (r: Option<(PaneSide, String)>)
        ensures
            r is Some <==> trimmed(self.go_to_path_input@).len() > 0,
            r matches Some((side, path)) ==> side == self.focused_side && path@ == match side {
                PaneSide::Local => home_expanded(
                    trimmed(self.go_to_path_input@),
                    text_of(home),
                ),
                PaneSide::Remote => trimmed(self.go_to_path_input@),
            },
    {
        let raw = trim(self.go_to_path_input.as_str());
        if raw.as_str().is_empty() {
            return None;
        }
        Some(
            match self.focused_side {
                PaneSide::Local => (PaneSide::Local, expand_home(raw.as_str(), home)),
                PaneSide::Remote => (PaneSide::Remote, raw),
            },
        )
    }

    /// Submits the path field; `found` is what stands at the local place that it names. A place
    /// that cannot be shown is refused in the dialog; otherwise it closes, and the pane is to be
    /// led there. Says whether it is.
    pub fn submit_go_to_path(&mut self, found: PathFound) -> (r: bool)
        ensures
            ({
                let blank = trimmed(old(self).go_to_path_input@).len() == 0;
                let local = old(self).focused_side is Local;
                &&& r == (!blank && (!local || found is Directory))
                &&& r ==> path_field_closed(*old(self), *final(self))
                &&& !r ==> {
                    &&& *final(self) == (Workspace {
                        go_to_path_error: final(self).go_to_path_error,
                        status_message: final(self).status_message,
                        ..*old(self)
                    })
                    &&& string_of(final(self).go_to_path_error) == Some(
                        if blank {
                            "Enter a path"@
                        } else if found is Other {
                            "Not a directory"@
                        } else {
                            "Path not found"@
                        },
                    )
                    &&& blank ==> final(self).status_message == old(self).status_message
                    &&& !blank ==> final(self).status_message == final(self).go_to_path_error
                }
            }),
    {
        if trim(self.go_to_path_input.as_str()).as_str().is_empty() {
            self.go_to_path_error = Some("Enter a path".to_string());
            return false;
        }
        if self.focused_side == PaneSide::Local && found != PathFound::Directory {
            let message = if found == PathFound::Other {
                "Not a directory".to_string()
            } else {
                "Path not found".to_string()
            };
            self.go_to_path_error = Some(message.clone());
            self.status_message = Some(message);
            return false;
        }
        self.close_go_to_path();
        true
    }

    /// A key typed while the path field is open. Says what it does; text goes into the field.
    pub fn handle_go_to_path_key(&mut self, stroke: &Keystroke, typed: Option<String>) -> (r:
        FieldKey)
        ensures
            ({
                let open = old(self).go_to_path_open;
                &&& !open ==> r is Unused
                &&& open && stroke.is_plain("enter"@) ==> r is Submit
                &&& open && !stroke.is_plain("enter"@) ==> r == match typed {
                    Some(text) => FieldKey::Edited(text),
                    None => FieldKey::Unused,
                }
            }),
            *final(self) == match r {
                FieldKey::Edited(text) => Workspace {
                    go_to_path_input: text,
                    go_to_path_error: None,
                    ..*old(self)
                },
                _ => *old(self),
            },
    {
        if !self.go_to_path_open {
            return FieldKey::Unused;
        }
        let what = field_key(stroke, typed);
        if let FieldKey::Edited(text) = &what {
            self.go_to_path_input = text.clone();
            self.go_to_path_error = None;
        }
        what
    }
}

/// What stands at a local path.
#[derive(Clone, Copy, PartialEq, Eq, Structural, Debug)]
pub enum PathFound {
    Directory,
    Other,
    Nothing,
}

/// Escape closes one layer at a time: what a closed palette leaves in front is what stood behind
/// it.
pub proof fn law_escape_uncovers_what_is_behind(before: Workspace, after: Workspace)
    requires
        palette_closed(before, after),
    ensures
        front_layer(after) == front_layer(
            Workspace { palette: CommandPaletteUi { open: false, ..before.palette }, ..before },
        ),
{
}

}
