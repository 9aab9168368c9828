//! Clicks, and what the selection leads to.

use vstd::prelude::*;

use super::common::{lemma_shown, lemma_tab_at, shows};
use super::selecting::lists_each_once;
use crate::file_ops::ContextMenuState;
use crate::model::{AppCommand, EntryPath, FileEntry, PaneSide, PathView, RemoteSnapshot, TabId};
use crate::selection::{position_in, views, EntryAction};
use crate::tabs::lemma_has_tab;
use crate::workspace::{find_entry, Config, Workspace};

verus! {

/// The tab at `i` has just the entry `path` selected.
pub open spec fn selects_alone(w: Workspace, i: int, path: PathView) -> bool {
    &&& w.tabs.tabs@[i].selected_paths@.len() == 1
    &&& w.tabs.tabs@[i].selected_paths@[0]@ == path
}

/// One click on a row selects its entry alone; two open it as it is opened otherwise; and the
/// other button selects it and opens the menu on it. The pane has the focus then.
pub proof fn law_clicked_row_is_the_one(
    w: &mut Workspace,
    i: int,
    side: PaneSide,
    k: usize,
    right: bool,
    clicks: usize,
    config: Config,
    listed: Vec<EntryPath>,
    opened: EntryAction,
    r: EntryAction,
)
    requires
        shows(*old(w), i),
        call_ensures(Workspace::visible_paths, (&*old(w), side, &config), listed),
        k < listed@.len(),
        call_ensures(Workspace::open_entry_at, (&*old(w), side, k, &config), opened),
        call_ensures(Workspace::on_row_clicked, (w, side, k, right, clicks, &config), r),
    ensures
        final(w).focused_side == side,
        !right && clicks >= 2 ==> r == opened && final(w).tabs == old(w).tabs,
        !right && clicks < 2 ==> {
            &&& r is Nothing
            &&& selects_alone(*final(w), i, listed@[k as int]@)
            &&& final(w).context_menu == old(w).context_menu
        },
        right ==> {
            &&& r is Nothing
            &&& selects_alone(*final(w), i, listed@[k as int]@)
            &&& final(w).context_menu == Some(ContextMenuState { side, entry_index: Some(k) })
        },
{
    lemma_shown(*old(w), i);
    let v = views(listed@);
    assert(v.len() == listed@.len());
    assert(v[k as int] == listed@[k as int]@);
    let chosen = final(w).tabs.tabs@[i].selected_paths@;
    if right || clicks < 2 {
        assert(views(chosen) == seq![listed@[k as int]@]);
        assert(views(chosen).len() == chosen.len());
        assert(views(chosen)[0] == chosen[0]@);
    }
}

/// A click beside the rows with the other button opens the menu on no entry, and selects nothing.
pub proof fn law_click_beside_the_rows_selects_nothing(w: &mut Workspace, side: PaneSide, config: Config)
    requires
        old(w).wf(),
        call_ensures(Workspace::on_blank_right_clicked, (w, side, &config), ()),
    ensures
        final(w).context_menu == Some(ContextMenuState { side, entry_index: None }),
        final(w).focused_side == side,
        final(w).tabs == old(w).tabs,
{
}

/// The menu that is opened on a row selects that row's entry alone.
pub proof fn law_menu_is_of_its_entry(
    w: &mut Workspace,
    i: int,
    side: PaneSide,
    k: usize,
    config: Config,
    listed: Vec<EntryPath>,
)
    requires
        shows(*old(w), i),
        call_ensures(Workspace::visible_paths, (&*old(w), side, &config), listed),
        k < listed@.len(),
        call_ensures(Workspace::open_context_menu, (w, side, Some(k), &config), ()),
    ensures
        final(w).context_menu == Some(ContextMenuState { side, entry_index: Some(k) }),
        final(w).focused_side == side,
        selects_alone(*final(w), i, listed@[k as int]@),
{
    lemma_shown(*old(w), i);
    let v = views(listed@);
    assert(v.len() == listed@.len());
    assert(v[k as int] == listed@[k as int]@);
    let chosen = final(w).tabs.tabs@[i].selected_paths@;
    assert(views(chosen) == seq![listed@[k as int]@]);
    assert(views(chosen).len() == chosen.len());
    assert(views(chosen)[0] == chosen[0]@);
}

/// The pane knows its listed entries by their places, and the place of each.
pub proof fn law_listed_entries_have_places(
    w: Workspace,
    i: int,
    side: PaneSide,
    config: Config,
    listed: Vec<EntryPath>,
    k: usize,
    count: usize,
    path: Option<EntryPath>,
    at: Option<usize>,
)
    requires
        shows(w, i),
        call_ensures(Workspace::visible_paths, (&w, side, &config), listed),
        call_ensures(Workspace::entry_count, (&w, side, &config), count),
        call_ensures(Workspace::entry_path_at, (&w, side, k, &config), path),
        k < listed@.len() ==> call_ensures(
            Workspace::visible_index_of_path,
            (&w, side, &listed@[k as int], &config),
            at,
        ),
    ensures
        count == listed@.len(),
        path is Some <==> k < listed@.len(),
        k < listed@.len() ==> path->0@ == listed@[k as int]@,
        k < listed@.len() && lists_each_once(listed@) ==> at == Some(k),
{
    let v = views(listed@);
    assert(v.len() == listed@.len());
    if k < listed@.len() {
        assert(v[k as int] == listed@[k as int]@);
        crate::selection::lemma_position_of(v, v[k as int]);
        let p = crate::selection::position_of(v, v[k as int]);
        if lists_each_once(listed@) && p != k {
            assert(v[p] == listed@[p]@);
            if p < k {
                assert(listed@[p]@ != listed@[k as int]@);
            }
        }
    }
}

/// A path is found at its first place.
pub proof fn law_path_is_found_where_it_stands(
    paths: Vec<EntryPath>,
    path: EntryPath,
    k: int,
    r: Option<usize>,
)
    requires
        call_ensures(position_in, (&paths, &path), r),
    ensures
        r is Some ==> r->0 < paths@.len() && paths@[r->0 as int]@ == path@,
        0 <= k < paths@.len() && paths@[k]@ == path@ ==> r is Some && r->0 <= k,
{
    let v = views(paths@);
    assert(v.len() == paths@.len());
    crate::selection::lemma_position_of(v, path@);
    if 0 <= k < paths@.len() && paths@[k]@ == path@ {
        assert(v[k] == path@);
    }
    if r is Some {
        assert(v[r->0 as int] == paths@[r->0 as int]@);
    }
}

/// An entry is found by its path.
pub proof fn law_entry_is_found_by_its_path(
    entries: Vec<FileEntry>,
    path: &str,
    k: int,
    r: Option<usize>,
)
    requires
        call_ensures(find_entry, (&entries, path), r),
    ensures
        r is Some ==> r->0 < entries@.len() && entries@[r->0 as int].path@ == path@,
        0 <= k < entries@.len() && entries@[k].path@ == path@ ==> r is Some && r->0 <= k,
{
    if 0 <= k < entries@.len() && entries@[k].path@ == path@ {
        lemma_entry_index_bound(entries@, path@, k);
    }
}

proof fn lemma_entry_index_bound(entries: Seq<FileEntry>, path: Seq<char>, k: int)
    requires
        0 <= k < entries.len(),
        entries[k].path@ == path,
    ensures
        crate::workspace::entry_index(entries, path) <= k,
    decreases k,
{
    if k > 0 && entries[0].path@ != path {
        assert(entries.drop_first()[k - 1] == entries[k]);
        lemma_entry_index_bound(entries.drop_first(), path, k - 1);
    }
}

/// The size and age of a remote file are those that the listing of its tab has.
pub proof fn law_listed_size_and_age_are_known(
    w: Workspace,
    i: int,
    k: int,
    path: &str,
    r: Option<RemoteSnapshot>,
)
    requires
        w.wf(),
        0 <= i < w.tabs.tabs@.len(),
        call_ensures(Workspace::remote_entry_snapshot, (&w, w.tabs.tabs@[i].id, path), r),
    ensures
        0 <= k < w.tabs.tabs@[i].remote.entries@.len()
            && w.tabs.tabs@[i].remote.entries@[k].path@ == path@ && (forall|j: int|
            0 <= j < k ==> (#[trigger] w.tabs.tabs@[i].remote.entries@[j]).path@ != path@)
            ==> r == Some(
            RemoteSnapshot {
                size: w.tabs.tabs@[i].remote.entries@[k].size,
                modified_at: w.tabs.tabs@[i].remote.entries@[k].modified_at,
            },
        ),
        w.tabs.tabs@[i].remote.entries@.len() == 0 ==> r is None,
{
    lemma_tab_at(w.tabs.tabs@, i);
    let entries = w.tabs.tabs@[i].remote.entries@;
    if 0 <= k < entries.len() && entries[k].path@ == path@ && (forall|j: int|
        0 <= j < k ==> (#[trigger] entries[j]).path@ != path@) {
        lemma_entry_index_bound(entries, path@, k);
        lemma_entry_index_holds(entries, path@);
    }
}

proof fn lemma_entry_index_holds(entries: Seq<FileEntry>, path: Seq<char>)
    ensures
        0 <= crate::workspace::entry_index(entries, path) <= entries.len(),
        crate::workspace::entry_index(entries, path) < entries.len()
            ==> entries[crate::workspace::entry_index(entries, path)].path@ == path,
    decreases entries.len(),
{
    if entries.len() > 0 && entries[0].path@ != path {
        lemma_entry_index_holds(entries.drop_first(), path);
    }
}

/// A window owns the tabs that it has.
pub proof fn law_window_owns_its_tabs(w: Workspace, id: TabId, k: int, r: bool, ids: Vec<TabId>)
    requires
        call_ensures(Workspace::owns_tab, (&w, id), r),
        call_ensures(Workspace::tab_ids, (&w,), ids),
    ensures
        r <==> exists|j: int|
            0 <= j < w.tabs.tabs@.len() && (#[trigger] w.tabs.tabs@[j]).id == id,
        ids@.len() == w.tabs.tabs@.len(),
        0 <= k < ids@.len() ==> ids@[k] == w.tabs.tabs@[k].id,
{
    lemma_has_tab(w.tabs.tabs@, id);
}

/// The directory that is read again is the one that the remote pane shows, in the tab that is
/// shown; and what is asked of the runtime names both.
pub proof fn law_same_directory_is_read_again(
    w: &mut Workspace,
    i: int,
    path: String,
    r: Option<(TabId, String)>,
    t: &str,
    id: TabId,
    command: AppCommand,
)
    requires
        shows(*old(w), i),
        old(w).tabs.tabs@[i].remote.path == Some(path),
        call_ensures(Workspace::retry_directory, (w,), r),
        call_ensures(Workspace::remote_directory_command, (id, t), command),
    ensures
        r is Some,
        r->0 .0 == old(w).tabs.tabs@[i].id,
        r->0 .1@ == path@,
        *final(w) == *old(w),
        command matches AppCommand::ReadRemoteDir { tab_id, path: p } && tab_id == id && p@ == t@,
{
    lemma_shown(*old(w), i);
}

/// What is copied is the path of the focused pane.
pub proof fn law_copied_path_is_that_of_the_pane(
    w: &mut Workspace,
    i: int,
    path: String,
    r: Option<String>,
)
    requires
        shows(*old(w), i),
        match old(w).focused_side {
            PaneSide::Local => old(w).tabs.tabs@[i].local.path == Some(path),
            PaneSide::Remote => old(w).tabs.tabs@[i].remote.path == Some(path),
        },
        call_ensures(Workspace::copy_focused_path, (w,), r),
    ensures
        r is Some,
        r->0@ == path@,
        final(w).tabs == old(w).tabs,
        final(w).status_message is Some,
{
    lemma_shown(*old(w), i);
}

/// A pane can go back or forward where its history has somewhere to go.
pub proof fn law_pane_goes_where_it_can(
    w: Workspace,
    i: int,
    side: PaneSide,
    back: bool,
    forward: bool,
)
    requires
        shows(w, i),
        call_ensures(Workspace::pane_can_navigate_back, (&w, side), back),
        call_ensures(Workspace::pane_can_navigate_forward, (&w, side), forward),
    ensures
        ({
            let history = if side is Local {
                w.tabs.tabs@[i].local_history
            } else {
                w.tabs.tabs@[i].remote_history
            };
            &&& back <==> history.back@.len() > 0
            &&& forward <==> history.forward@.len() > 0
        }),
{
    lemma_shown(w, i);
    let tab = w.tabs.tabs@[i];
    assert(tab.local_history.past().len() == tab.local_history.back@.len());
    assert(tab.local_history.ahead().len() == tab.local_history.forward@.len());
    assert(tab.remote_history.past().len() == tab.remote_history.back@.len());
    assert(tab.remote_history.ahead().len() == tab.remote_history.forward@.len());
}

}
