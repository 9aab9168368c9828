//! What the window shows: panes, dialogs, the drawer and the bars.

use vstd::prelude::*;

use super::common::{lemma_shown, shows};
use super::connecting::{is_first, lemma_found};
use super::hearing::{asked_last, lemma_asked_last};
use super::selecting::listing;
use super::texts::{is_clean, is_name, lemma_clean};
use crate::dialogs::{
    delete_key, law_open_overlays_are_drawn, ConflictButton, ConflictView, DeleteKey, DeleteView,
    Frame, HostKeyView, Overlay,
};
use crate::drawer_height::{
    clamp_drawer_height, content_area_height_from_viewport, TransferDrawerResize,
};
use crate::drawer_view::{
    group_at, has_jobs, law_every_transfer_is_listed_once, listed_groups, DrawerView,
    HistoryRecord, HistoryRow, JobGroup, StatusBar, SwitcherRow, TabItem,
};
use crate::edit_sessions::EditSessionStore;
use crate::file_ops::ContextItem;
use crate::keys::Keystroke;
use crate::lists::lemma_filter_holds;
use crate::modals::latest_conflict;
use crate::model::{
    ConflictDecision, ConnectionProfile, EntryPath, HostKeyPrompt, PaneSide, PathView, RecentEntry,
    TransferConflictPrompt, TransferJob,
};
use crate::nav::{breadcrumb_display_indices, breadcrumb_segments, lemma_names_plus_name, path_of, trail, trail_texts};
use crate::pane_view::{
    count_paths, dropped_on, DropAction, FileRow, PaneButton, PaneContent, PaneKeyTarget, PaneView,
};
use crate::rate_sampler::TransferRateBook;
use crate::selection::{lemma_shown_positions, shown_positions, views};
use crate::text::{decimal, names};
use crate::workspace::{Config, Workspace};

verus! {

/// What is dragged to the other side is copied there: from this machine to the server, or from the
/// server to this machine. On its own side nothing happens to it.
pub proof fn law_dropped_entry_is_copied_to_the_other_side(path: String, a: DropAction, b: DropAction, c: DropAction, d: DropAction)
    requires
        call_ensures(dropped_on, (PaneSide::Remote, &EntryPath::Local(path)), a),
        call_ensures(dropped_on, (PaneSide::Local, &EntryPath::Remote(path)), b),
        call_ensures(dropped_on, (PaneSide::Local, &EntryPath::Local(path)), c),
        call_ensures(dropped_on, (PaneSide::Remote, &EntryPath::Remote(path)), d),
    ensures
        a == DropAction::Upload(path),
        b == DropAction::Download(path),
        c is Nothing,
        d is Nothing,
{
}

/// The dialog about a host key shows what the user is to compare: the host and port, and the type
/// and fingerprint of the key; and its answer goes to that question.
pub proof fn law_host_key_dialog_shows_the_key(
    w: Workspace,
    i: int,
    k: int,
    prompt: HostKeyPrompt,
    r: Option<HostKeyView>,
)
    requires
        shows(w, i),
        prompt.scope.tab_id == w.tabs.tabs@[i].id,
        asked_last(w.modals@, k, prompt),
        call_ensures(Workspace::host_key_view, (&w,), r),
    ensures
        r matches Some(view) && {
            &&& view.request_id == prompt.request_id
            &&& view.fingerprint@ == prompt.fingerprint_sha256@
            &&& view.key_type@ == prompt.algorithm@
            &&& view.host@ == prompt.host@ + seq![':'] + decimal(prompt.port as nat)
        },
{
    lemma_asked_last(w.modals@, k, prompt);
    reveal_strlit(":");
    assert(":"@ =~= seq![':']);
}

/// The dialog about an existing file shows which file is in the way of which, and what the user
/// typed for another name.
pub proof fn law_conflict_dialog_shows_the_files(
    w: Workspace,
    prompt: TransferConflictPrompt,
    r: Option<ConflictView>,
)
    requires
        w.modals@.len() > 0,
        w.modals@.last() == crate::model::ModalRequest::TransferConflict(prompt),
        call_ensures(Workspace::conflict_view, (&w,), r),
    ensures
        r matches Some(view) && {
            &&& view.source@ == prompt.source@.text
            &&& view.destination@ == prompt.destination@.text
            &&& view.size == prompt.source_size
            &&& view.modified_at == prompt.source_modified_at
            &&& view.new_name@ == w.conflict_rename@
            &&& view.error == w.conflict_rename_error
            &&& view.buttons@.len() == 7
            &&& forall|a: int, b: int|
                0 <= a < b < view.buttons@.len() ==> #[trigger] view.buttons@[a]
                    != #[trigger] view.buttons@[b]
        },
{
}

/// Each button answers what it says, for one file or for all.
pub proof fn law_buttons_answer_what_they_say(button: ConflictButton, r: Option<ConflictDecision>)
    requires
        call_ensures(ConflictButton::decision, (&button,), r),
    ensures
        button is Cancel ==> r == Some(ConflictDecision::CancelJob),
        button is Skip ==> r == Some(ConflictDecision::Skip { apply_to_all: false }),
        button is SkipAll ==> r == Some(ConflictDecision::Skip { apply_to_all: true }),
        button is Overwrite ==> r == Some(ConflictDecision::Overwrite { apply_to_all: false }),
        button is OverwriteAll ==> r == Some(ConflictDecision::Overwrite { apply_to_all: true }),
        button is Rename || button is RenameAll ==> r is None,
{
}

/// A question before something is deleted is not answered with yes by enter alone.
pub proof fn law_enter_alone_deletes_nothing(stroke: Keystroke, r: DeleteKey)
    requires
        call_ensures(delete_key, (&stroke,), r),
    ensures
        r is Confirm ==> stroke.modifiers.platform && stroke.key@ == seq!['e', 'n', 't', 'e', 'r'],
        stroke.modifiers.platform && stroke.key@ == seq!['e', 'n', 't', 'e', 'r'] ==> r is Confirm,
        stroke.key@ == seq!['e', 's', 'c', 'a', 'p', 'e'] ==> r is Cancel,
{
    reveal_strlit("enter");
    reveal_strlit("escape");
    assert("enter"@ =~= seq!['e', 'n', 't', 'e', 'r']);
    assert("escape"@ =~= seq!['e', 's', 'c', 'a', 'p', 'e']);
    assert("enter"@[1] != "escape"@[1]);
}

/// Whether not to ask again can be turned over and back.
pub proof fn law_not_asking_again_is_turned_over(a: &mut Workspace, b: &mut Workspace)
    requires
        old(a).delete_confirm is Some,
        call_ensures(Workspace::toggle_dont_ask_again, (a,), ()),
        *old(b) == *final(a),
        call_ensures(Workspace::toggle_dont_ask_again, (b,), ()),
    ensures
        final(a).delete_confirm is Some,
        final(a).delete_confirm->0.dont_ask_again == !old(a).delete_confirm->0.dont_ask_again,
        final(a).delete_confirm->0.entries == old(a).delete_confirm->0.entries,
        final(a).delete_confirm->0.scope == old(a).delete_confirm->0.scope,
        *final(b) == *old(a),
{
}

/// The question before deleting names what is deleted, and offers not to ask again where the user
/// is asked at all.
pub proof fn law_delete_dialog_names_what_goes(
    w: Workspace,
    config: Config,
    r: Option<DeleteView>,
    k: int,
)
    requires
        call_ensures(Workspace::delete_view, (&w, &config), r),
    ensures
        w.delete_confirm is None ==> r is None,
        w.delete_confirm matches Some(state) ==> r matches Some(view) && {
            &&& config.confirm_delete ==> view.dont_ask_again == Some(state.dont_ask_again)
            &&& !config.confirm_delete ==> view.dont_ask_again is None
            &&& view.presentation.names@.len() <= state.entries@.len()
            &&& state.entries@.len() <= 8 ==> view.presentation.names@.len() == state.entries@.len()
                && view.more is None
            &&& state.entries@.len() > 8 ==> view.presentation.names@.len() == 8
                && view.more is Some
            &&& 0 <= k < view.presentation.names@.len() ==> view.presentation.names@[k].is_dir
                == state.entries@[k].is_dir
        },
{
}

/// The question before a profile is deleted is about the profile that was chosen.
pub proof fn law_profile_dialog_names_the_profile(
    w: Workspace,
    profiles: Vec<ConnectionProfile>,
    k: int,
    r: Option<String>,
)
    requires
        is_first(profiles@, k),
        w.profile_delete_confirm == Some(profiles@[k].id),
        call_ensures(Workspace::profile_delete_view, (&w, &profiles), r),
    ensures
        r is Some,
        exists|before: Seq<char>, between: Seq<char>, after: Seq<char>|
            r->0@ == before + profiles@[k].name@ + between + profiles@[k].username@ + seq!['@']
                + profiles@[k].host@ + after,
{
    lemma_found(profiles@, k);
    reveal_strlit("@");
    assert("@"@ =~= seq!['@']);
    let (a, b, c) = ("Delete \""@, "\" ("@, ")? This cannot be undone."@);
    let p = profiles@[k];
    assert(r->0@ =~= a + p.name@ + b + p.username@ + seq!['@'] + p.host@ + c);
}

/// What was chosen from the context menu is done in the pane that the menu is of, and the menu is
/// gone.
pub proof fn law_chosen_item_is_of_the_pane(w: &mut Workspace, item: ContextItem)
    requires
        old(w).context_menu is Some,
        call_ensures(Workspace::choose_context_item, (w, item), ()),
    ensures
        final(w).context_menu is None,
        !(item is Reveal) ==> final(w).focused_side == old(w).context_menu->0.side,
        item is Reveal ==> final(w).focused_side == old(w).focused_side,
        final(w).tabs == old(w).tabs,
{
}

/// Everything that is open is drawn over the window, and nothing else.
pub proof fn law_what_is_open_is_drawn(
    w: Workspace,
    i: int,
    edits: EditSessionStore,
    profiles: Vec<ConnectionProfile>,
    r: Frame,
)
    requires
        shows(w, i),
        w.modals@.len() == 0,
        call_ensures(Workspace::frame, (&w, &edits, &profiles), r),
    ensures
        r.overlays@.contains(Overlay::ConnectForm) <==> w.connect_form is Some,
        r.overlays@.contains(Overlay::DeleteConfirm) <==> w.delete_confirm is Some,
        r.overlays@.contains(Overlay::LargeEdit) <==> w.large_edit_confirm is Some,
        r.overlays@.contains(Overlay::GoToPath) <==> w.go_to_path_open,
        r.overlays@.contains(Overlay::ContextMenu) <==> w.context_menu is Some,
        r.overlays@.contains(Overlay::About) <==> w.about_open,
        r.overlays@.contains(Overlay::TabSwitcher) <==> w.tabs.switcher_open,
        r.overlays@.contains(Overlay::Palette) <==> w.palette.open,
        !r.overlays@.contains(Overlay::HostKey),
        !r.overlays@.contains(Overlay::TransferConflict),
        w.surface is Settings ==> r.main is Settings && !r.drawer,
        w.surface is Files ==> r.main is Panes && r.drawer == w.drawer_open,
{
    assert(latest_conflict(w.modals@) is None);
    assert(w.host_key_asked() is None);
    law_open_overlays_are_drawn(r, w, edits, profiles@, Overlay::ConnectForm);
    law_open_overlays_are_drawn(r, w, edits, profiles@, Overlay::DeleteConfirm);
    law_open_overlays_are_drawn(r, w, edits, profiles@, Overlay::LargeEdit);
    law_open_overlays_are_drawn(r, w, edits, profiles@, Overlay::GoToPath);
    law_open_overlays_are_drawn(r, w, edits, profiles@, Overlay::ContextMenu);
    law_open_overlays_are_drawn(r, w, edits, profiles@, Overlay::About);
    law_open_overlays_are_drawn(r, w, edits, profiles@, Overlay::TabSwitcher);
    law_open_overlays_are_drawn(r, w, edits, profiles@, Overlay::Palette);
    law_open_overlays_are_drawn(r, w, edits, profiles@, Overlay::HostKey);
    law_open_overlays_are_drawn(r, w, edits, profiles@, Overlay::TransferConflict);
}

/// The height of the drawer lies between forty pixels and what the window allows: half of its
/// content, and no more than four hundred and eighty. What lies between is left as it is.
pub proof fn law_drawer_height_is_held(
    height: i64,
    viewport: i64,
    content: i64,
    r: i64,
    again: i64,
)
    requires
        call_ensures(content_area_height_from_viewport, (viewport,), content),
        call_ensures(clamp_drawer_height, (height, content), r),
        call_ensures(clamp_drawer_height, (r, content), again),
    ensures
        viewport >= 104_000 ==> content == viewport - 64_000,
        viewport < 104_000 ==> content == 40_000,
        80_000 <= r <= 960_000,
        content >= 80_000 ==> r <= content,
        content < 80_000 ==> r == 80_000,
        80_000 <= height <= content && height <= 960_000 ==> r == height,
        height >= r || r == 80_000,
        height <= r || r == 960_000 || r == content || r == 80_000,
        again == r,
{
}

/// Dragging the handle of the drawer up makes it higher by as much, as far as the window allows,
/// and back where the drag began it is as high as it was.
pub proof fn law_dragging_moves_the_drawer(
    a: &mut Workspace,
    b: &mut Workspace,
    c: &mut Workspace,
    start: TransferDrawerResize,
    y: i64,
    viewport: i64,
    ended: bool,
)
    requires
        old(a).drawer_resize == Some(start),
        80_000 <= start.start_height <= 960_000,
        start.start_height <= viewport - 64_000,
        viewport >= 1_100_000,
        -1_000_000 <= start.start_y <= 1_000_000,
        -1_000_000 <= y <= 1_000_000,
        call_ensures(Workspace::drag_drawer, (a, y, viewport), ()),
        *old(b) == *final(a),
        call_ensures(Workspace::drag_drawer, (b, start.start_y, viewport), ()),
        *old(c) == *final(b),
        call_ensures(Workspace::end_drawer_drag, (c,), ended),
    ensures
        80_000 <= start.start_height + 2 * (start.start_y - y) <= 960_000 ==> final(a).drawer_height
            == start.start_height + 2 * (start.start_y - y),
        start.start_height + 2 * (start.start_y - y) < 80_000 ==> final(a).drawer_height == 80_000,
        start.start_height + 2 * (start.start_y - y) > 960_000 ==> final(a).drawer_height
            == 960_000,
        final(b).drawer_height == start.start_height,
        ended,
        final(c).drawer_resize is None,
        final(c).drawer_height == start.start_height,
{
}

/// The tab bar shows the tabs in their order, and marks the one that is shown.
pub proof fn law_tab_bar_shows_the_tabs(w: Workspace, i: int, k: int, r: Vec<TabItem>)
    requires
        shows(w, i),
        0 <= k < w.tabs.tabs@.len(),
        call_ensures(Workspace::tab_bar, (&w,), r),
    ensures
        r@.len() == w.tabs.tabs@.len(),
        r@[k].id == w.tabs.tabs@[k].id,
        r@[k].title@ == w.tabs.tabs@[k].title@,
        r@[k].active <==> k == i,
{
    if k < i {
        assert(w.tabs.tabs@[k].id != w.tabs.tabs@[i].id);
    } else if i < k {
        assert(w.tabs.tabs@[i].id != w.tabs.tabs@[k].id);
    }
}

/// The switcher lists the tabs in the order of their use, the shown one first, each under its
/// title, and a click on a row shows that tab.
pub proof fn law_switcher_lists_the_tabs_by_use(
    w: &mut Workspace,
    i: int,
    k: usize,
    rows: Option<Vec<SwitcherRow>>,
)
    requires
        shows(*old(w), i),
        old(w).tabs.switcher_open,
        call_ensures(Workspace::switcher_rows, (&*old(w),), rows),
        k < old(w).tabs.mru@.len(),
        call_ensures(Workspace::switcher_clicked, (w, k), ()),
    ensures
        rows is Some,
        rows->0@.len() == old(w).tabs.mru@.len(),
        rows->0@[0].id == old(w).tabs.tabs@[i].id,
        rows->0@[k as int].selected <==> k == old(w).tabs.switcher_index,
        exists|j: int|
            0 <= j < old(w).tabs.tabs@.len() && (#[trigger] old(w).tabs.tabs@[j]).id
                == rows->0@[k as int].id && old(w).tabs.tabs@[j].title@
                == rows->0@[k as int].title@,
        final(w).tabs.active_tab_id == Some(rows->0@[k as int].id),
        !final(w).tabs.switcher_open,
        final(w).tabs.tabs@ == old(w).tabs.tabs@,
{
    let id = old(w).tabs.mru@[k as int];
    assert(old(w).tabs.mru@.contains(id));
    let j = crate::tabs::tab_index(old(w).tabs.tabs@, id);
    crate::tabs::lemma_tab_index(old(w).tabs.tabs@, id);
    assert(old(w).tabs.tabs@[j].id == id);
}

/// The number of paths on a side counts each path of that side.
pub proof fn law_selected_paths_are_counted(
    paths: Vec<EntryPath>,
    more: Vec<EntryPath>,
    path: EntryPath,
    side: PaneSide,
    n: usize,
    m: usize,
)
    requires
        more@ == paths@.push(path),
        call_ensures(count_paths, (&paths, side), n),
        call_ensures(count_paths, (&more, side), m),
    ensures
        m == n + (if path@.side == side {
            1int
        } else {
            0
        }),
        paths@.len() == 0 ==> n == 0,
{
    assert(views(more@).drop_last() =~= views(paths@));
    assert(views(more@).last() == path@);
}

/// The rows of a pane are the entries that it lists, in that order, each with its name, kind, size
/// and age, and marked where it is selected.
pub proof fn law_rows_show_the_entries(
    w: Workspace,
    i: int,
    side: PaneSide,
    config: Config,
    at: Vec<usize>,
    k: int,
    r: Vec<FileRow>,
)
    requires
        shows(w, i),
        call_ensures(Workspace::visible_indices, (&w, side, &config), at),
        call_ensures(Workspace::pane_rows, (&w, side, &config), r),
        0 <= k < at@.len(),
    ensures
        r@.len() == at@.len(),
        at@[k] < listing(w, i, side).len(),
        ({
            let entry = listing(w, i, side)[at@[k] as int];
            let row = r@[k];
            &&& row.name@ == entry.name@
            &&& row.kind == entry.kind
            &&& row.size == entry.size
            &&& row.modified_at == entry.modified_at
            &&& row.is_hidden <==> entry.name@.len() > 0 && entry.name@[0] == '.'
            &&& row.selected <==> exists|s: int|
                0 <= s < w.tabs.tabs@[i].selected_paths@.len() && (
                #[trigger] w.tabs.tabs@[i].selected_paths@[s])@ == (PathView {
                    side,
                    text: entry.path@,
                })
        }),
{
    lemma_shown(w, i);
    let entries = listing(w, i, side);
    let shown = at@.map_values(|x: usize| x as int);
    assert(shown[k] == at@[k] as int);
    lemma_shown_positions(entries, config.show_hidden_files, w.query(side));
    assert(shown == shown_positions(entries, config.show_hidden_files, w.query(side)));
    let entry = entries[at@[k] as int];
    let selected = w.tabs.tabs@[i].selected_paths@;
    let v = views(selected);
    let path = PathView { side, text: entry.path@ };
    assert(r@[k].selected == v.contains(path));
    if v.contains(path) {
        let s = choose|s: int| 0 <= s < v.len() && v[s] == path;
        assert(selected[s]@ == path);
    }
    if exists|s: int| 0 <= s < selected.len() && (#[trigger] selected[s])@ == path {
        let s = choose|s: int| 0 <= s < selected.len() && (#[trigger] selected[s])@ == path;
        assert(v[s] == path);
    }
}

/// A pane says what can be done: go back or forward where there is somewhere to go, and send the
/// selection to the other side over a connection. The remote pane shows its rows only while it is
/// connected.
pub proof fn law_pane_shows_what_can_be_done(
    w: Workspace,
    i: int,
    side: PaneSide,
    config: Config,
    recents: Vec<RecentEntry>,
    count: usize,
    r: PaneView,
)
    requires
        shows(w, i),
        call_ensures(Workspace::pane_view, (&w, side, &config, &recents), r),
        call_ensures(count_paths, (&w.tabs.tabs@[i].selected_paths, side), count),
    ensures
        ({
            let tab = w.tabs.tabs@[i];
            let history = if side is Local {
                tab.local_history
            } else {
                tab.remote_history
            };
            &&& r.can_back <==> history.back@.len() > 0
            &&& r.can_forward <==> history.forward@.len() > 0
            &&& r.can_transfer <==> tab.connection is Connected && count > 0
            &&& r.sort == Some(tab.sort)
            &&& side is Remote && !(tab.connection is Connected) ==> r.content is Instead
            &&& side is Remote && tab.connection is Connected && tab.remote.error is Some
                ==> r.content is Instead
            &&& side is Local && tab.local.error is None ==> !(r.content is Instead)
            &&& side is Remote && tab.connection is Connected && tab.remote.error is None ==> !(
            r.content is Instead)
            &&& side is Remote && tab.connection is Empty ==> (
            r.content matches PaneContent::Instead(instead) && instead.buttons@ == seq![
                PaneButton::Connect,
            ])
            &&& side is Remote && tab.connection is Disconnected ==> (
            r.content matches PaneContent::Instead(instead) && instead.buttons@ == seq![
                PaneButton::Reconnect,
                PaneButton::EditConnection,
            ])
            &&& side is Remote && tab.connection is Connecting ==> (
            r.content matches PaneContent::Instead(instead) && instead.buttons@ == seq![
                PaneButton::CancelConnect,
            ])
            &&& side is Local ==> r.recents@.len() == 0
            &&& side is Remote ==> r.recents@.len() == recents@.len()
            &&& r.name_field is Some <==> w.inline_edit is Some && w.inline_edit->0.side == side
        }),
{
    lemma_shown(w, i);
    let tab = w.tabs.tabs@[i];
    assert(tab.local_history.past().len() == tab.local_history.back@.len());
    assert(tab.local_history.ahead().len() == tab.local_history.forward@.len());
    assert(tab.remote_history.past().len() == tab.remote_history.back@.len());
    assert(tab.remote_history.ahead().len() == tab.remote_history.forward@.len());
}

/// Keys typed in a pane go into the field for a name while that is open there, and otherwise to
/// the filter.
pub proof fn law_keys_go_to_the_open_field(w: Workspace, side: PaneSide, r: PaneKeyTarget)
    requires
        call_ensures(Workspace::pane_key_target, (&w, side), r),
    ensures
        r is NameField <==> w.inline_edit is Some && w.inline_edit->0.side == side,
        r is Filter <==> !(r is NameField),
{
}

/// The trail of a directory is that of the directory above it and its own name, which leads to it.
/// It starts at the root.
pub proof fn law_trail_leads_to_the_directory(
    above: &str,
    path: &str,
    name: Seq<char>,
    a: Vec<(String, String)>,
    b: Vec<(String, String)>,
    k: int,
)
    requires
        is_clean(above@),
        is_name(name),
        path@ == above@ + seq!['/'] + name,
        call_ensures(breadcrumb_segments, (above,), a),
        call_ensures(breadcrumb_segments, (path,), b),
        0 <= k < a@.len(),
    ensures
        b@.len() == a@.len() + 1,
        b@[0].0@ == seq!['/'] && b@[0].1@ == seq!['/'],
        b@[k].0@ == a@[k].0@ && b@[k].1@ == a@[k].1@,
        b@.last().0@ == name,
        b@.last().1@ == path@,
{
    lemma_names_plus_name(above@, name);
    lemma_clean(above@);
    let (x, y) = (trail_texts(a@), trail_texts(b@));
    assert(x == trail(above@) && y == trail(path@));
    assert(x.len() == a@.len() && y.len() == b@.len());
    assert(names(path@) == names(above@).push(name));
    let n = names(above@).len() as int;
    assert(x[k] == (a@[k].0@, a@[k].1@));
    assert(y[k] == (b@[k].0@, b@[k].1@));
    assert(y[0] == (b@[0].0@, b@[0].1@));
    assert(y[n + 1] == (b@[n + 1].0@, b@[n + 1].1@));
    if k > 0 {
        assert(names(path@).take(k) =~= names(above@).take(k));
    }
    assert(names(path@).take(n + 1) =~= names(path@));
    assert(names(path@).drop_last() =~= names(above@));
    assert(path_of(names(path@)) == path@);
}

/// A short trail is shown whole; of a long one the root and the last two are, with a gap between.
pub proof fn law_long_trails_are_cut(count: usize, k: int, r: Vec<Option<usize>>)
    requires
        call_ensures(breadcrumb_display_indices, (count,), r),
    ensures
        count <= 5 ==> r@.len() == count,
        count <= 5 && 0 <= k < count ==> r@[k] is Some && r@[k]->0 == k,
        count > 5 ==> r@.len() == 4,
        count > 5 ==> r@[0] == Some(0usize) && r@[1] is None && r@[2] is Some && r@[2]->0
            == count - 2 && r@[3] is Some && r@[3]->0 == count - 1,
{
    let shown = crate::nav::shown_segments(count as nat);
    if count <= 5 {
        if 0 <= k < count {
            assert(shown[k] == Some(k));
        }
    } else {
        assert(shown[0] is Some);
        assert(shown[1] is None);
        assert(shown[2] is Some);
        assert(shown[3] is Some);
    }
}

/// Every transfer of the list stands in the drawer, in the section of its group, and each section
/// has transfers.
pub proof fn law_drawer_shows_every_transfer(
    w: Workspace,
    jobs: Vec<TransferJob>,
    count: usize,
    rates: TransferRateBook,
    now: u64,
    i: usize,
    r: DrawerView,
)
    requires
        call_ensures(Workspace::drawer_view, (&w, &jobs, count, &rates, now), r),
        i < jobs@.len(),
    ensures
        !r.empty,
        exists|s: int|
            0 <= s < r.sections@.len() && (#[trigger] r.sections@[s]).jobs@.contains(i),
{
    let group = crate::drawer_view::group_of(jobs@[i as int].state);
    law_every_transfer_is_listed_once(jobs@, i as int, group);
    let groups = listed_groups(jobs@);
    let all = seq![JobGroup::Active, JobGroup::Queued, JobGroup::Completed, JobGroup::Failed];
    lemma_filter_holds(all, has_jobs(jobs@));
    assert(all[0] == JobGroup::Active && all[1] == JobGroup::Queued && all[2]
        == JobGroup::Completed && all[3] == JobGroup::Failed);
    assert(all.contains(group));
    assert(groups.contains(group));
    let s = choose|s: int| 0 <= s < groups.len() && groups[s] == group;
    let section = r.sections@[s];
    let at = section.jobs@.map_values(|x: usize| x as int);
    assert(at == group_at(jobs@, group));
    let k = choose|k: int| 0 <= k < at.len() && at[k] == i as int;
    assert(section.jobs@[k] == i);
}

/// Folding a group and unfolding it leaves it as it was, and the other group stays.
pub proof fn law_folding_is_undone(a: &mut Workspace, b: &mut Workspace, group: JobGroup)
    requires
        call_ensures(Workspace::toggle_section, (a, group), ()),
        *old(b) == *final(a),
        call_ensures(Workspace::toggle_section, (b, group), ()),
    ensures
        *final(b) == *old(a),
        group is Completed ==> final(a).completed_section_expanded
            != old(a).completed_section_expanded && final(a).failed_section_expanded
            == old(a).failed_section_expanded,
        group is Failed ==> final(a).failed_section_expanded != old(a).failed_section_expanded
            && final(a).completed_section_expanded == old(a).completed_section_expanded,
{
}

/// The rows of the history are those of its records, the latest first.
pub proof fn law_history_rows_are_the_records(
    w: Workspace,
    i: int,
    records: Vec<HistoryRecord>,
    k: int,
    r: Vec<HistoryRow>,
)
    requires
        shows(w, i),
        call_ensures(Workspace::history_rows, (&w, records), r),
        0 <= k < r@.len(),
    ensures
        r@.len() == records@.len(),
        exists|j: int|
            0 <= j < records@.len() && (#[trigger] records@[j]).id == r@[k].id && (r@[k].can_retry
                <==> records@[j].retryable && w.tabs.tabs@[i].connection is Connected),
{
    lemma_shown(w, i);
    let ordered = choose|ordered: Seq<HistoryRecord>| #[trigger]
        crate::drawer_view::rows_of_history(w, records@, ordered, r@);
    let record = ordered[k];
    let keep = crate::drawer_view::updated_at(record.last_updated);
    lemma_filter_holds(records@, keep);
    lemma_filter_holds(ordered, keep);
    assert(ordered.contains(record));
    assert(ordered.filter(keep).contains(record));
    assert(records@.filter(keep).contains(record));
    let j = choose|j: int| 0 <= j < records@.len() && records@[j] == record;
    assert(records@[j].id == r@[k].id);
}

/// The status bar shows the message of the window, the tab that is shown, and whether transfers
/// failed.
pub proof fn law_status_bar_shows_the_window(
    w: Workspace,
    i: int,
    label: &str,
    jobs: Vec<TransferJob>,
    count: usize,
    r: StatusBar,
)
    requires
        shows(w, i),
        call_ensures(Workspace::status_bar, (&w, label, &jobs), r),
        call_ensures(count_paths, (&w.tabs.tabs@[i].selected_paths, w.focused_side), count),
    ensures
        r.message is Some <==> w.status_message is Some,
        w.status_message matches Some(text) ==> r.message->0@ == seq!['—', ' '] + text@,
        r.connection@ == label@ + seq![' ', '·', ' '] + w.tabs.tabs@[i].title@,
        r.selected is Some <==> count > 0,
        jobs@.len() == 0 ==> r.failed is None,
        forall|k: int| 0 <= k < jobs@.len() && (#[trigger] jobs@[k]).state is Failed
            ==> r.failed is Some,
{
    lemma_shown(w, i);
    reveal_strlit("— ");
    reveal_strlit(" · ");
    assert("— "@ =~= seq!['—', ' ']);
    assert(" · "@ =~= seq![' ', '·', ' ']);
    if jobs@.len() == 0 {
        assert(group_at(jobs@, JobGroup::Failed).len() == 0) by {
            reveal(Seq::filter);
            assert(crate::selection::positions(0) =~= Seq::<int>::empty());
        }
    }
    assert forall|k: int| 0 <= k < jobs@.len() && (#[trigger] jobs@[k]).state is Failed implies
        r.failed is Some by {
        law_every_transfer_is_listed_once(jobs@, k, JobGroup::Failed);
        assert(group_at(jobs@, JobGroup::Failed).len() > 0);
    }
}

}
