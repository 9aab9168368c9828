//! The actions of the client and the keys that they are bound to.

use vstd::prelude::*;

use crate::text::joined;

verus! {

/// What the user can ask for by a key or from a menu.
#[derive(Clone, Copy, PartialEq, Eq, Structural, Debug)]
pub enum Action {
    NewWindow,
    NewTab,
    CloseTab,
    ReconnectTab,
    RefreshPane,
    FocusLocalPane,
    FocusRemotePane,
    UploadSelection,
    DownloadSelection,
    CancelSelectedTransfer,
    OpenCommandPalette,
    ShowTransferDrawer,
    ActivateNextTab,
    ActivatePrevTab,
    SelectNextEntry,
    SelectPrevEntry,
    OpenSelectedEntry,
    ParentDirectory,
    CopyPath,
    DeleteSelection,
    RenameEntry,
    NewFolder,
    CancelActiveModal,
    OpenSettings,
    ShowAbout,
    OpenLogFolder,
    CopyVersionInfo,
    HideApplication,
    HideOtherApplications,
    ShowAllApplications,
    MinimizeWindow,
    ZoomWindow,
    Quit,
}

/// Where a key is bound.
#[derive(Clone, Copy, PartialEq, Eq, Structural, Debug)]
pub enum KeyContext {
    Anywhere,
    Workspace,
    FilePane,
    HostKeyModal,
    TransferConflictModal,
    DeleteConfirmModal,
    ConnectForm,
    Settings,
    About,
}

/// A key that something is bound to.
#[derive(Clone, Copy, PartialEq, Eq, Structural, Debug)]
pub enum Key {
    N,
    T,
    W,
    RightBracket,
    LeftBracket,
    One,
    Two,
    J,
    R,
    U,
    D,
    C,
    Comma,
    M,
    Q,
    Down,
    Up,
    Enter,
    Escape,
    Backspace,
    F2,
}

/// A key and what is held with it.
#[derive(Clone, Copy, PartialEq, Eq, Structural, Debug)]
pub struct Chord {
    pub command: bool,
    pub shift: bool,
    pub key: Key,
}

/// An action, the keys that ask for it, and where they do.
#[derive(Clone, Copy, PartialEq, Eq, Structural, Debug)]
pub struct KeyBinding {
    pub chord: Chord,
    pub action: Action,
    pub context: KeyContext,
}

/// The name of a key.
pub open spec fn key_name(key: Key) -> Seq<char> {
    match key {
        Key::N => "n"@,
        Key::T => "t"@,
        Key::W => "w"@,
        Key::RightBracket => "]"@,
        Key::LeftBracket => "["@,
        Key::One => "1"@,
        Key::Two => "2"@,
        Key::J => "j"@,
        Key::R => "r"@,
        Key::U => "u"@,
        Key::D => "d"@,
        Key::C => "c"@,
        Key::Comma => ","@,
        Key::M => "m"@,
        Key::Q => "q"@,
        Key::Down => "down"@,
        Key::Up => "up"@,
        Key::Enter => "enter"@,
        Key::Escape => "escape"@,
        Key::Backspace => "backspace"@,
        Key::F2 => "f2"@,
    }
}

/// The keys as they are written in a keymap.
pub open spec fn chord_text(chord: Chord) -> Seq<char> {
    let front = if chord.command {
        "cmd-"@
    } else {
        ""@
    };
    let middle = if chord.shift {
        "shift-"@
    } else {
        ""@
    };
    front + middle + key_name(chord.key)
}

/// The name of a place that keys are bound in; none where they are bound everywhere.
pub open spec fn context_name(context: KeyContext) -> Option<Seq<char>> {
    match context {
        KeyContext::Anywhere => None,
        KeyContext::Workspace => Some("Workspace"@),
        KeyContext::FilePane => Some("FilePane"@),
        KeyContext::HostKeyModal => Some("HostKeyModal"@),
        KeyContext::TransferConflictModal => Some("TransferConflictModal"@),
        KeyContext::DeleteConfirmModal => Some("DeleteConfirmModal"@),
        KeyContext::ConnectForm => Some("ConnectForm"@),
        KeyContext::Settings => Some("Settings"@),
        KeyContext::About => Some("About"@),
    }
}

impl Key {
    /// The name of the key.
    pub fn name(&self) -> (r: &'static str)
        ensures
            r@ == key_name(*self),
    {
        match self {
            Key::N => "n",
            Key::T => "t",
            Key::W => "w",
            Key::RightBracket => "]",
            Key::LeftBracket => "[",
            Key::One => "1",
            Key::Two => "2",
            Key::J => "j",
            Key::R => "r",
            Key::U => "u",
            Key::D => "d",
            Key::C => "c",
            Key::Comma => ",",
            Key::M => "m",
            Key::Q => "q",
            Key::Down => "down",
            Key::Up => "up",
            Key::Enter => "enter",
            Key::Escape => "escape",
            Key::Backspace => "backspace",
            Key::F2 => "f2",
        }
    }
}

impl Chord {
    /// The keys as they are written in a keymap.
    pub fn text(&self) -> (r: String)
        ensures
            r@ == chord_text(*self),
    {
        let front = if self.command {
            "cmd-"
        } else {
            ""
        };
        let middle = if self.shift {
            "shift-"
        } else {
            ""
        };
        joined(joined(front, middle).as_str(), self.key.name())
    }
}

impl KeyContext {
    /// The name of the place; none where keys are bound everywhere.
    pub fn name(&self) -> (r: Option<&'static str>)
        ensures
            crate::helpers::text_of(r) == context_name(*self),
    {
        match self {
            KeyContext::Anywhere => None,
            KeyContext::Workspace => Some("Workspace"),
            KeyContext::FilePane => Some("FilePane"),
            KeyContext::HostKeyModal => Some("HostKeyModal"),
            KeyContext::TransferConflictModal => Some("TransferConflictModal"),
            KeyContext::DeleteConfirmModal => Some("DeleteConfirmModal"),
            KeyContext::ConnectForm => Some("ConnectForm"),
            KeyContext::Settings => Some("Settings"),
            KeyContext::About => Some("About"),
        }
    }
}

/// A key on its own.
pub open spec fn plain(key: Key) -> Chord {
    Chord { command: false, shift: false, key }
}

/// A key with the command key.
pub open spec fn command(key: Key) -> Chord {
    Chord { command: true, shift: false, key }
}

/// A key with the command and the shift key.
pub open spec fn command_shift(key: Key) -> Chord {
    Chord { command: true, shift: true, key }
}

/// An action bound to keys in a place.
pub open spec fn bound(chord: Chord, action: Action, context: KeyContext) -> KeyBinding {
    KeyBinding { chord, action, context }
}

/// The keymap of the client.
pub open spec fn keymap() -> Seq<KeyBinding> {
    seq![
        bound(command(Key::N), Action::NewWindow, KeyContext::Anywhere),
        bound(command(Key::T), Action::NewTab, KeyContext::Workspace),
        bound(command(Key::W), Action::CloseTab, KeyContext::Workspace),
        bound(command_shift(Key::RightBracket), Action::ActivateNextTab, KeyContext::Workspace),
        bound(command_shift(Key::LeftBracket), Action::ActivatePrevTab, KeyContext::Workspace),
        bound(command(Key::One), Action::FocusLocalPane, KeyContext::Workspace),
        bound(command(Key::Two), Action::FocusRemotePane, KeyContext::Workspace),
        bound(command(Key::J), Action::ShowTransferDrawer, KeyContext::Workspace),
        bound(command(Key::R), Action::RefreshPane, KeyContext::Workspace),
        bound(command_shift(Key::R), Action::ReconnectTab, KeyContext::Workspace),
        bound(command(Key::U), Action::UploadSelection, KeyContext::Workspace),
        bound(command(Key::D), Action::DownloadSelection, KeyContext::Workspace),
        bound(plain(Key::Down), Action::SelectNextEntry, KeyContext::FilePane),
        bound(plain(Key::Up), Action::SelectPrevEntry, KeyContext::FilePane),
        bound(plain(Key::Enter), Action::OpenSelectedEntry, KeyContext::FilePane),
        bound(command(Key::Up), Action::ParentDirectory, KeyContext::FilePane),
        bound(command_shift(Key::C), Action::CopyPath, KeyContext::FilePane),
        bound(command(Key::Backspace), Action::DeleteSelection, KeyContext::FilePane),
        bound(plain(Key::F2), Action::RenameEntry, KeyContext::FilePane),
        bound(command_shift(Key::N), Action::NewFolder, KeyContext::FilePane),
        bound(command(Key::Comma), Action::OpenSettings, KeyContext::Workspace),
        bound(command(Key::M), Action::MinimizeWindow, KeyContext::Workspace),
        bound(plain(Key::Escape), Action::CancelActiveModal, KeyContext::HostKeyModal),
        bound(plain(Key::Escape), Action::CancelActiveModal, KeyContext::TransferConflictModal),
        bound(plain(Key::Escape), Action::CancelActiveModal, KeyContext::DeleteConfirmModal),
        bound(plain(Key::Escape), Action::CancelActiveModal, KeyContext::ConnectForm),
        bound(plain(Key::Escape), Action::CancelActiveModal, KeyContext::Settings),
        bound(plain(Key::Escape), Action::CancelActiveModal, KeyContext::About),
        bound(command(Key::Q), Action::Quit, KeyContext::Anywhere),
    ]
}

fn binding(
    command: bool,
    shift: bool,
    key: Key,
    action: Action,
    context: KeyContext,
) -> (r: KeyBinding)
    ensures
        r == (KeyBinding { chord: Chord { command, shift, key }, action, context }),
{
    KeyBinding { chord: Chord { command, shift, key }, action, context }
}

/// The keymap of the client.
pub fn key_bindings() -> (r: Vec<KeyBinding>)
    ensures
        r@ == keymap(),
{
    let mut out: Vec<KeyBinding> = Vec::new();
    out.push(binding(true, false, Key::N, Action::NewWindow, KeyContext::Anywhere));
    out.push(binding(true, false, Key::T, Action::NewTab, KeyContext::Workspace));
    out.push(binding(true, false, Key::W, Action::CloseTab, KeyContext::Workspace));
    out.push(binding(true, true, Key::RightBracket, Action::ActivateNextTab, KeyContext::Workspace));
    out.push(binding(true, true, Key::LeftBracket, Action::ActivatePrevTab, KeyContext::Workspace));
    out.push(binding(true, false, Key::One, Action::FocusLocalPane, KeyContext::Workspace));
    out.push(binding(true, false, Key::Two, Action::FocusRemotePane, KeyContext::Workspace));
    out.push(binding(true, false, Key::J, Action::ShowTransferDrawer, KeyContext::Workspace));
    out.push(binding(true, false, Key::R, Action::RefreshPane, KeyContext::Workspace));
    out.push(binding(true, true, Key::R, Action::ReconnectTab, KeyContext::Workspace));
    out.push(binding(true, false, Key::U, Action::UploadSelection, KeyContext::Workspace));
    out.push(binding(true, false, Key::D, Action::DownloadSelection, KeyContext::Workspace));
    out.push(binding(false, false, Key::Down, Action::SelectNextEntry, KeyContext::FilePane));
    out.push(binding(false, false, Key::Up, Action::SelectPrevEntry, KeyContext::FilePane));
    out.push(binding(false, false, Key::Enter, Action::OpenSelectedEntry, KeyContext::FilePane));
    out.push(binding(true, false, Key::Up, Action::ParentDirectory, KeyContext::FilePane));
    out.push(binding(true, true, Key::C, Action::CopyPath, KeyContext::FilePane));
    out.push(binding(true, false, Key::Backspace, Action::DeleteSelection, KeyContext::FilePane));
    out.push(binding(false, false, Key::F2, Action::RenameEntry, KeyContext::FilePane));
    out.push(binding(true, true, Key::N, Action::NewFolder, KeyContext::FilePane));
    out.push(binding(true, false, Key::Comma, Action::OpenSettings, KeyContext::Workspace));
    out.push(binding(true, false, Key::M, Action::MinimizeWindow, KeyContext::Workspace));
    out.push(binding(false, false, Key::Escape, Action::CancelActiveModal, KeyContext::HostKeyModal));
    out.push(binding(false, false, Key::Escape, Action::CancelActiveModal, KeyContext::TransferConflictModal));
    out.push(binding(false, false, Key::Escape, Action::CancelActiveModal, KeyContext::DeleteConfirmModal));
    out.push(binding(false, false, Key::Escape, Action::CancelActiveModal, KeyContext::ConnectForm));
    out.push(binding(false, false, Key::Escape, Action::CancelActiveModal, KeyContext::Settings));
    out.push(binding(false, false, Key::Escape, Action::CancelActiveModal, KeyContext::About));
    out.push(binding(true, false, Key::Q, Action::Quit, KeyContext::Anywhere));
    assert(out@ =~= keymap());
    out
}

/// Where in the keymap keys and a place are bound.
spec fn slot(binding: KeyBinding) -> int {
    let chord = binding.chord;
    let context = binding.context;
    if chord == command(Key::N) && context is Anywhere {
        0
    } else if chord == command(Key::T) && context is Workspace {
        1
    } else if chord == command(Key::W) && context is Workspace {
        2
    } else if chord == command_shift(Key::RightBracket) && context is Workspace {
        3
    } else if chord == command_shift(Key::LeftBracket) && context is Workspace {
        4
    } else if chord == command(Key::One) && context is Workspace {
        5
    } else if chord == command(Key::Two) && context is Workspace {
        6
    } else if chord == command(Key::J) && context is Workspace {
        7
    } else if chord == command(Key::R) && context is Workspace {
        8
    } else if chord == command_shift(Key::R) && context is Workspace {
        9
    } else if chord == command(Key::U) && context is Workspace {
        10
    } else if chord == command(Key::D) && context is Workspace {
        11
    } else if chord == plain(Key::Down) && context is FilePane {
        12
    } else if chord == plain(Key::Up) && context is FilePane {
        13
    } else if chord == plain(Key::Enter) && context is FilePane {
        14
    } else if chord == command(Key::Up) && context is FilePane {
        15
    } else if chord == command_shift(Key::C) && context is FilePane {
        16
    } else if chord == command(Key::Backspace) && context is FilePane {
        17
    } else if chord == plain(Key::F2) && context is FilePane {
        18
    } else if chord == command_shift(Key::N) && context is FilePane {
        19
    } else if chord == command(Key::Comma) && context is Workspace {
        20
    } else if chord == command(Key::M) && context is Workspace {
        21
    } else if chord == plain(Key::Escape) && context is HostKeyModal {
        22
    } else if chord == plain(Key::Escape) && context is TransferConflictModal {
        23
    } else if chord == plain(Key::Escape) && context is DeleteConfirmModal {
        24
    } else if chord == plain(Key::Escape) && context is ConnectForm {
        25
    } else if chord == plain(Key::Escape) && context is Settings {
        26
    } else if chord == plain(Key::Escape) && context is About {
        27
    } else if chord == command(Key::Q) && context is Anywhere {
        28
    } else {
        -1
    }
}

proof fn lemma_slot(k: int)
    requires
        0 <= k < keymap().len(),
    ensures
        slot(keymap()[k]) == k,
{
    assert(keymap().len() == 29);
    if k == 0 {
        assert(keymap()[0] == bound(command(Key::N), Action::NewWindow, KeyContext::Anywhere));
    }
    if k == 1 {
        assert(keymap()[1] == bound(command(Key::T), Action::NewTab, KeyContext::Workspace));
    }
    if k == 2 {
        assert(keymap()[2] == bound(command(Key::W), Action::CloseTab, KeyContext::Workspace));
    }
    if k == 3 {
        assert(keymap()[3] == bound(command_shift(Key::RightBracket), Action::ActivateNextTab, KeyContext::Workspace));
    }
    if k == 4 {
        assert(keymap()[4] == bound(command_shift(Key::LeftBracket), Action::ActivatePrevTab, KeyContext::Workspace));
    }
    if k == 5 {
        assert(keymap()[5] == bound(command(Key::One), Action::FocusLocalPane, KeyContext::Workspace));
    }
    if k == 6 {
        assert(keymap()[6] == bound(command(Key::Two), Action::FocusRemotePane, KeyContext::Workspace));
    }
    if k == 7 {
        assert(keymap()[7] == bound(command(Key::J), Action::ShowTransferDrawer, KeyContext::Workspace));
    }
    if k == 8 {
        assert(keymap()[8] == bound(command(Key::R), Action::RefreshPane, KeyContext::Workspace));
    }
    if k == 9 {
        assert(keymap()[9] == bound(command_shift(Key::R), Action::ReconnectTab, KeyContext::Workspace));
    }
    if k == 10 {
        assert(keymap()[10] == bound(command(Key::U), Action::UploadSelection, KeyContext::Workspace));
    }
    if k == 11 {
        assert(keymap()[11] == bound(command(Key::D), Action::DownloadSelection, KeyContext::Workspace));
    }
    if k == 12 {
        assert(keymap()[12] == bound(plain(Key::Down), Action::SelectNextEntry, KeyContext::FilePane));
    }
    if k == 13 {
        assert(keymap()[13] == bound(plain(Key::Up), Action::SelectPrevEntry, KeyContext::FilePane));
    }
    if k == 14 {
        assert(keymap()[14] == bound(plain(Key::Enter), Action::OpenSelectedEntry, KeyContext::FilePane));
    }
    if k == 15 {
        assert(keymap()[15] == bound(command(Key::Up), Action::ParentDirectory, KeyContext::FilePane));
    }
    if k == 16 {
        assert(keymap()[16] == bound(command_shift(Key::C), Action::CopyPath, KeyContext::FilePane));
    }
    if k == 17 {
        assert(keymap()[17] == bound(command(Key::Backspace), Action::DeleteSelection, KeyContext::FilePane));
    }
    if k == 18 {
        assert(keymap()[18] == bound(plain(Key::F2), Action::RenameEntry, KeyContext::FilePane));
    }
    if k == 19 {
        assert(keymap()[19] == bound(command_shift(Key::N), Action::NewFolder, KeyContext::FilePane));
    }
    if k == 20 {
        assert(keymap()[20] == bound(command(Key::Comma), Action::OpenSettings, KeyContext::Workspace));
    }
    if k == 21 {
        assert(keymap()[21] == bound(command(Key::M), Action::MinimizeWindow, KeyContext::Workspace));
    }
    if k == 22 {
        assert(keymap()[22] == bound(plain(Key::Escape), Action::CancelActiveModal, KeyContext::HostKeyModal));
    }
    if k == 23 {
        assert(keymap()[23] == bound(plain(Key::Escape), Action::CancelActiveModal, KeyContext::TransferConflictModal));
    }
    if k == 24 {
        assert(keymap()[24] == bound(plain(Key::Escape), Action::CancelActiveModal, KeyContext::DeleteConfirmModal));
    }
    if k == 25 {
        assert(keymap()[25] == bound(plain(Key::Escape), Action::CancelActiveModal, KeyContext::ConnectForm));
    }
    if k == 26 {
        assert(keymap()[26] == bound(plain(Key::Escape), Action::CancelActiveModal, KeyContext::Settings));
    }
    if k == 27 {
        assert(keymap()[27] == bound(plain(Key::Escape), Action::CancelActiveModal, KeyContext::About));
    }
    if k == 28 {
        assert(keymap()[28] == bound(command(Key::Q), Action::Quit, KeyContext::Anywhere));
    }
}

/// In one place no keys ask for two things.
pub proof fn law_keys_are_unambiguous(i: int, j: int)
    requires
        0 <= i < keymap().len(),
        0 <= j < keymap().len(),
        keymap()[i].chord == keymap()[j].chord,
        keymap()[i].context == keymap()[j].context,
    ensures
        i == j,
{
    assert forall|k: int| 0 <= k < keymap().len() implies slot(#[trigger] keymap()[k]) == k by {
        lemma_slot(k);
    }
    assert(slot(keymap()[i]) == i && slot(keymap()[j]) == j);
}

}
