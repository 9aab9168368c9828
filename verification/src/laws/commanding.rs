//! The command palette: what it finds and what its commands do.

use vstd::prelude::*;

use super::selecting::{lemma_reads, reads_at};
use crate::command_palette::{action_id, palette_action, PaletteAction, PaletteKey, PaletteRow, PaletteStep};
use crate::keys::Keystroke;
use crate::lists::{law_wrapping_is_undone, lemma_filter_holds};
use crate::palette_commands::{
    all_palette_commands, commands, filter_palette_commands, registry, shown, when_matches,
    PaletteCommand, PaletteContext, PaletteWhen,
};
use crate::text::{all_ascii, lowercase, trim};
use crate::workspace::Workspace;

verus! {

/// What tells the name of a command from that of every other.
spec fn mark(action: PaletteAction) -> (int, char, char, char, char) {
    match action {
        PaletteAction::NewTab => (6, 'N', 'e', 'w', 'a'),
        PaletteAction::CloseTab => (8, 'C', 'l', 'o', 'e'),
        PaletteAction::RefreshPane => (11, 'R', 'e', 'f', 'e'),
        PaletteAction::FocusLocalPane => (14, 'F', 'o', 'c', 's'),
        PaletteAction::FocusRemotePane => (15, 'F', 'o', 'c', 's'),
        PaletteAction::UploadSelection => (15, 'U', 'p', 'l', 'a'),
        PaletteAction::DownloadSelection => (17, 'D', 'o', 'w', 'l'),
        PaletteAction::ShowTransferDrawer => (18, 'S', 'h', 'o', 'T'),
        PaletteAction::OpenSettings => (12, 'O', 'p', 'e', 'S'),
        PaletteAction::OpenProfiles => (12, 'O', 'p', 'e', 'P'),
        PaletteAction::ShowAbout => (9, 'S', 'h', 'o', 'A'),
        PaletteAction::DeleteSelection => (15, 'D', 'e', 'l', 't'),
        PaletteAction::RenameEntry => (11, 'R', 'e', 'n', 'm'),
        PaletteAction::NewFolder => (9, 'N', 'e', 'w', 'o'),
        PaletteAction::FilterPane => (10, 'F', 'i', 'l', 'e'),
        PaletteAction::GoToPath => (8, 'G', 'o', 'T', 'P'),
        PaletteAction::NavigateBack => (12, 'N', 'a', 'v', 'g'),
        PaletteAction::NavigateForward => (15, 'N', 'a', 'v', 'g'),
        PaletteAction::ParentDirectory => (15, 'P', 'a', 'r', 'n'),
        PaletteAction::ToggleHiddenFiles => (17, 'T', 'o', 'g', 'l'),
        PaletteAction::CopyPath => (8, 'C', 'o', 'p', 'P'),
        PaletteAction::ReconnectTab => (12, 'R', 'e', 'c', 'n'),
        PaletteAction::OpenLogFolder => (13, 'O', 'p', 'e', 'L'),
        PaletteAction::OpenCommandPalette => (18, 'O', 'p', 'e', 'C'),
    }
}

proof fn lemma_mark(action: PaletteAction)
    ensures
        ({
            let s = action_id(action);
            mark(action) == (s.len() as int, s[0], s[1], s[2], s[4])
        }),
{
    reveal_strlit("NewTab");
    reveal_strlit("CloseTab");
    reveal_strlit("RefreshPane");
    reveal_strlit("FocusLocalPane");
    reveal_strlit("FocusRemotePane");
    reveal_strlit("UploadSelection");
    reveal_strlit("DownloadSelection");
    reveal_strlit("ShowTransferDrawer");
    reveal_strlit("OpenSettings");
    reveal_strlit("OpenProfiles");
    reveal_strlit("ShowAbout");
    reveal_strlit("DeleteSelection");
    reveal_strlit("RenameEntry");
    reveal_strlit("NewFolder");
    reveal_strlit("FilterPane");
    reveal_strlit("GoToPath");
    reveal_strlit("NavigateBack");
    reveal_strlit("NavigateForward");
    reveal_strlit("ParentDirectory");
    reveal_strlit("ToggleHiddenFiles");
    reveal_strlit("CopyPath");
    reveal_strlit("ReconnectTab");
    reveal_strlit("OpenLogFolder");
    reveal_strlit("OpenCommandPalette");
}

proof fn lemma_ids_differ(a: PaletteAction, b: PaletteAction)
    requires
        action_id(a) == action_id(b),
    ensures
        a == b,
{
    lemma_mark(a);
    lemma_mark(b);
}

/// A command is known by its name, and does what the name says.
pub proof fn law_commands_are_known_by_their_names(t: &str, r: Option<PaletteAction>)
    requires
        call_ensures(palette_action, (t,), r),
    ensures
        t@ == "NewTab"@ ==> r == Some(PaletteAction::NewTab),
        t@ == "CloseTab"@ ==> r == Some(PaletteAction::CloseTab),
        t@ == "RefreshPane"@ ==> r == Some(PaletteAction::RefreshPane),
        t@ == "FocusLocalPane"@ ==> r == Some(PaletteAction::FocusLocalPane),
        t@ == "FocusRemotePane"@ ==> r == Some(PaletteAction::FocusRemotePane),
        t@ == "UploadSelection"@ ==> r == Some(PaletteAction::UploadSelection),
        t@ == "DownloadSelection"@ ==> r == Some(PaletteAction::DownloadSelection),
        t@ == "ShowTransferDrawer"@ ==> r == Some(PaletteAction::ShowTransferDrawer),
        t@ == "OpenSettings"@ ==> r == Some(PaletteAction::OpenSettings),
        t@ == "OpenProfiles"@ ==> r == Some(PaletteAction::OpenProfiles),
        t@ == "ShowAbout"@ ==> r == Some(PaletteAction::ShowAbout),
        t@ == "DeleteSelection"@ ==> r == Some(PaletteAction::DeleteSelection),
        t@ == "RenameEntry"@ ==> r == Some(PaletteAction::RenameEntry),
        t@ == "NewFolder"@ ==> r == Some(PaletteAction::NewFolder),
        t@ == "FilterPane"@ ==> r == Some(PaletteAction::FilterPane),
        t@ == "GoToPath"@ ==> r == Some(PaletteAction::GoToPath),
        t@ == "NavigateBack"@ ==> r == Some(PaletteAction::NavigateBack),
        t@ == "NavigateForward"@ ==> r == Some(PaletteAction::NavigateForward),
        t@ == "ParentDirectory"@ ==> r == Some(PaletteAction::ParentDirectory),
        t@ == "ToggleHiddenFiles"@ ==> r == Some(PaletteAction::ToggleHiddenFiles),
        t@ == "CopyPath"@ ==> r == Some(PaletteAction::CopyPath),
        t@ == "ReconnectTab"@ ==> r == Some(PaletteAction::ReconnectTab),
        t@ == "OpenLogFolder"@ ==> r == Some(PaletteAction::OpenLogFolder),
        t@ == "OpenCommandPalette"@ ==> r == Some(PaletteAction::OpenCommandPalette),
{
    assert forall|action: PaletteAction| #[trigger] action_id(action) == t@ implies r == Some(
        action,
    ) by {
        if r is Some {
            lemma_ids_differ(r->0, action);
        }
    }
    assert(action_id(PaletteAction::NewTab) == "NewTab"@);
    assert(action_id(PaletteAction::CloseTab) == "CloseTab"@);
    assert(action_id(PaletteAction::RefreshPane) == "RefreshPane"@);
    assert(action_id(PaletteAction::FocusLocalPane) == "FocusLocalPane"@);
    assert(action_id(PaletteAction::FocusRemotePane) == "FocusRemotePane"@);
    assert(action_id(PaletteAction::UploadSelection) == "UploadSelection"@);
    assert(action_id(PaletteAction::DownloadSelection) == "DownloadSelection"@);
    assert(action_id(PaletteAction::ShowTransferDrawer) == "ShowTransferDrawer"@);
    assert(action_id(PaletteAction::OpenSettings) == "OpenSettings"@);
    assert(action_id(PaletteAction::OpenProfiles) == "OpenProfiles"@);
    assert(action_id(PaletteAction::ShowAbout) == "ShowAbout"@);
    assert(action_id(PaletteAction::DeleteSelection) == "DeleteSelection"@);
    assert(action_id(PaletteAction::RenameEntry) == "RenameEntry"@);
    assert(action_id(PaletteAction::NewFolder) == "NewFolder"@);
    assert(action_id(PaletteAction::FilterPane) == "FilterPane"@);
    assert(action_id(PaletteAction::GoToPath) == "GoToPath"@);
    assert(action_id(PaletteAction::NavigateBack) == "NavigateBack"@);
    assert(action_id(PaletteAction::NavigateForward) == "NavigateForward"@);
    assert(action_id(PaletteAction::ParentDirectory) == "ParentDirectory"@);
    assert(action_id(PaletteAction::ToggleHiddenFiles) == "ToggleHiddenFiles"@);
    assert(action_id(PaletteAction::CopyPath) == "CopyPath"@);
    assert(action_id(PaletteAction::ReconnectTab) == "ReconnectTab"@);
    assert(action_id(PaletteAction::OpenLogFolder) == "OpenLogFolder"@);
    assert(action_id(PaletteAction::OpenCommandPalette) == "OpenCommandPalette"@);
}

/// A click on a row of the palette, or enter on the row that it points at, runs the command of
/// that row and closes the palette.
pub proof fn law_row_runs_its_command(
    a: &mut Workspace,
    b: &mut Workspace,
    rows: Vec<PaletteCommand>,
    k: usize,
    id: &str,
    meant: Option<PaletteAction>,
    clicked: Option<PaletteAction>,
    stroke: Keystroke,
    typed: Option<String>,
    entered: PaletteKey,
)
    requires
        call_ensures(Workspace::filtered_palette_commands, (&*old(a),), rows),
        k < rows@.len(),
        id@ == rows@[k as int].id@,
        call_ensures(palette_action, (id,), meant),
        call_ensures(Workspace::execute_palette_at, (a, k), clicked),
        *old(b) == *old(a),
        old(b).palette.open,
        old(b).palette.selected == k,
        stroke.key@ == "enter"@,
        !stroke.modifiers.shift && !stroke.modifiers.control && !stroke.modifiers.alt
            && !stroke.modifiers.platform && !stroke.modifiers.function,
        call_ensures(Workspace::handle_command_palette_key, (b, &stroke, typed), entered),
    ensures
        clicked is Some,
        meant == clicked,
        !final(a).palette.open,
        entered == PaletteKey::Run(clicked->0),
        !final(b).palette.open,
        final(a).tabs == old(a).tabs,
{
    assert(commands(rows@)[k as int] == rows@[k as int]@);
    assert(action_id(clicked->0) == id@);
    lemma_ids_differ(meant->0, clicked->0);
    lemma_ids_differ(entered->Run_0, clicked->0);
}

/// What the arrows point at goes down and up the list, round the ends, and back again; what is
/// typed is what is looked for, and the first row is pointed at again.
pub proof fn law_arrows_walk_the_list(
    a: &mut Workspace,
    b: &mut Workspace,
    c: &mut Workspace,
    rows: Vec<PaletteCommand>,
    stroke: Keystroke,
    text: String,
    key: PaletteKey,
)
    requires
        call_ensures(Workspace::filtered_palette_commands, (&*old(a),), rows),
        old(a).palette.selected < rows@.len(),
        old(a).palette.open,
        call_ensures(Workspace::move_palette_selection, (a, 1isize), ()),
        *old(b) == *final(a),
        call_ensures(Workspace::move_palette_selection, (b, -1isize), ()),
        *old(c) == *old(a),
        stroke.key@ != "enter"@ && stroke.key@ != "up"@ && stroke.key@ != "down"@,
        call_ensures(Workspace::handle_command_palette_key, (c, &stroke, Some(text)), key),
    ensures
        old(a).palette.selected + 1 < rows@.len() ==> final(a).palette.selected
            == old(a).palette.selected + 1,
        old(a).palette.selected + 1 == rows@.len() ==> final(a).palette.selected == 0,
        final(b).palette.selected == old(a).palette.selected,
        final(b).palette.input@ == old(a).palette.input@,
        final(c).palette.input@ == text@,
        final(c).palette.selected == 0,
        final(c).palette.open,
{
    let n = rows@.len() as int;
    let at = old(a).palette.selected as int;
    law_wrapping_is_undone(at, 1, n);
    if at + 1 < n {
        vstd::arithmetic::div_mod::lemma_small_mod((at + 1) as nat, n as nat);
    } else {
        vstd::arithmetic::div_mod::lemma_mod_self_0(n);
    }
    assert(crate::command_palette::listed(*final(a)) == crate::command_palette::listed(*old(a)));
}

/// A command can be run where it makes sense: some only with tabs, some only with one that is
/// shown, and some only over a connection.
pub proof fn law_commands_are_offered_where_they_make_sense(
    case: PaletteWhen,
    ctx: PaletteContext,
    r: bool,
)
    requires
        call_ensures(when_matches, (case, &ctx), r),
    ensures
        case is Always ==> r,
        case is HasTabs ==> r == ctx.has_tabs,
        case is HasActiveTab ==> r == ctx.has_active_tab,
        case is ConnectedRemote ==> r == ctx.remote_connected,
{
}

/// The palette knows of the tabs of the window.
pub proof fn law_palette_knows_the_window(w: Workspace, i: int, r: PaletteContext)
    requires
        super::common::shows(w, i),
        call_ensures(Workspace::palette_context, (&w,), r),
    ensures
        r.has_tabs && r.has_active_tab,
        r.remote_connected <==> w.tabs.tabs@[i].connection is Connected,
{
    super::common::lemma_shown(w, i);
}

/// The palette finds the commands that are offered and whose title holds what is typed, in large
/// or small letters, and finds no command that is not offered. Without anything typed it finds
/// them all.
pub proof fn law_palette_finds_commands(
    all: Vec<PaletteCommand>,
    j: int,
    ctx: PaletteContext,
    query: &str,
    cut: String,
    offered: bool,
    r: Vec<PaletteCommand>,
)
    requires
        call_ensures(all_palette_commands, (), all),
        0 <= j < all@.len(),
        call_ensures(when_matches, (all@[j].when, &ctx), offered),
        call_ensures(trim, (query,), cut),
        call_ensures(filter_palette_commands, (query, &ctx), r),
    ensures
        !offered ==> forall|m: int|
            0 <= m < r@.len() ==> !((#[trigger] r@[m]).id@ == all@[j].id@ && r@[m].when
                == all@[j].when),
        offered && (cut@.len() == 0 || (all_ascii(cut@) && all_ascii(all@[j].title@) && exists|
            at: int,
        | reads_at(cut@, all@[j].title@, at))) ==> exists|m: int|
            0 <= m < r@.len() && (#[trigger] r@[m]).id@ == all@[j].id@ && r@[m].title@
                == all@[j].title@,
        r@.len() <= all@.len(),
{
    let keep = shown(query@, ctx);
    let found = registry().filter(keep);
    lemma_filter_holds(registry(), keep);
    registry().lemma_filter_len(keep);
    assert(commands(r@) == found);
    assert(commands(r@).len() == r@.len());
    assert(commands(all@).len() == all@.len());
    assert(commands(all@)[j] == all@[j]@);
    let command = all@[j]@;
    assert(registry().contains(command));
    if !offered {
        assert forall|m: int| 0 <= m < r@.len() implies !((#[trigger] r@[m]).id@ == all@[j].id@
            && r@[m].when == all@[j].when) by {
            assert(commands(r@)[m] == r@[m]@);
            assert(found.contains(found[m]));
            assert(keep(r@[m]@));
        }
    }
    if offered && (cut@.len() == 0 || (all_ascii(cut@) && all_ascii(all@[j].title@) && exists|
        at: int,
    | reads_at(cut@, all@[j].title@, at))) {
        if cut@.len() == 0 {
            lemma_lower_empty(cut@);
        } else {
            lemma_reads(all@[j].title@, cut@);
        }
        assert(keep(command));
        assert(found.contains(command));
        let m = choose|m: int| 0 <= m < found.len() && found[m] == command;
        assert(commands(r@)[m] == r@[m]@);
        assert(r@[m].id@ == all@[j].id@);
    }
}

proof fn lemma_lower_empty(s: Seq<char>)
    requires
        s.len() == 0,
    ensures
        lowercase(s).len() == 0,
{
    assert(all_ascii(s));
}

/// Commands that the window carries out alone do what they say, and the others are handed on.
pub proof fn law_window_carries_out_its_commands(
    w: &mut Workspace,
    action: PaletteAction,
    r: PaletteStep,
)
    requires
        call_ensures(Workspace::dispatch_palette_id, (w, action), r),
        old(w).modals@.len() == 0,
        old(w).connect_form is None,
        old(w).delete_confirm is None,
        !old(w).go_to_path_open,
    ensures
        action is FocusLocalPane ==> r is Done && final(w).focused_side is Local,
        action is FocusRemotePane ==> r is Done && final(w).focused_side is Remote,
        action is ShowTransferDrawer ==> r is Done && final(w).drawer_open == !old(w).drawer_open,
        action is OpenSettings ==> r is Done && final(w).surface is Settings,
        action is ShowAbout ==> r is Done && final(w).about_open,
        action is OpenCommandPalette ==> r is Done && final(w).palette.open
            && final(w).palette.input@.len() == 0,
        action is NewTab || action is CloseTab || action is DeleteSelection
            || action is UploadSelection || action is DownloadSelection || action is RenameEntry
            || action is NewFolder || action is ReconnectTab || action is RefreshPane
            || action is NavigateBack || action is NavigateForward || action is ParentDirectory
            || action is CopyPath || action is GoToPath || action is FilterPane
            || action is ToggleHiddenFiles || action is OpenProfiles || action is OpenLogFolder
            ==> r == PaletteStep::Run(action) && *final(w) == *old(w),
        final(w).tabs == old(w).tabs,
{
    if old(w).tabs.active_tab_id is Some {
        assert(crate::modals::latest_host_key(
            old(w).modals@,
            old(w).tabs.active_tab_id->0,
        ) is None);
    }
    assert(crate::modals::latest_conflict(old(w).modals@) is None);
}

/// The rows of the palette are the commands that it finds, and one of them is pointed at.
pub proof fn law_palette_shows_what_it_finds(
    w: Workspace,
    found: Vec<PaletteCommand>,
    k: int,
    r: Option<Vec<PaletteRow>>,
)
    requires
        call_ensures(Workspace::filtered_palette_commands, (&w,), found),
        call_ensures(Workspace::palette_rows, (&w,), r),
        0 <= k < found@.len(),
        w.palette.selected < found@.len(),
    ensures
        r is Some <==> w.palette.open,
        r is Some ==> {
            &&& r->0@.len() == found@.len()
            &&& r->0@[k].title@ == found@[k].title@
            &&& r->0@[k].keybinding is Some <==> found@[k].keybinding is Some
            &&& found@[k].keybinding is Some ==> r->0@[k].keybinding->0@ == found@[k].keybinding->0@
            &&& r->0@[k].selected <==> k == w.palette.selected
        },
{
    assert(commands(found@)[k] == found@[k]@);
}

}
