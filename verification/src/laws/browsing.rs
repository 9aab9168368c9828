//! Moving through directories and ordering and filtering what they hold.

use vstd::prelude::*;

use super::common::{lemma_shown, shows};
use super::texts::{is_clean, is_name, lemma_clean};
use crate::keys::{FieldKey, Keystroke};
use crate::front::PathFound;
use crate::model::{Dispatch, FileEntry, FileSortField, HistoryOp, PaneSide, SortSpec, TabId};
use crate::nav::{lemma_names_plus_name, PathHistory};
use crate::navigation::{next_sort, DirectoryRead};
use crate::text::{names, trim};
use crate::workspace::{PaneFilter, Workspace};

verus! {

/// The history holds the same places as the other.
pub open spec fn same_history(a: PathHistory, b: PathHistory) -> bool {
    &&& a.back@.len() == b.back@.len()
    &&& a.forward@.len() == b.forward@.len()
    &&& forall|k: int| 0 <= k < a.back@.len() ==> (#[trigger] a.back@[k])@ == b.back@[k]@
    &&& forall|k: int| 0 <= k < a.forward@.len() ==> (#[trigger] a.forward@[k])@ == b.forward@[k]@
}

proof fn lemma_same_history(a: PathHistory, b: PathHistory)
    requires
        a.past() == b.past(),
        a.ahead() == b.ahead(),
    ensures
        same_history(a, b),
{
    assert(a.past().len() == a.back@.len() && b.past().len() == b.back@.len());
    assert(a.ahead().len() == a.forward@.len() && b.ahead().len() == b.forward@.len());
    assert forall|k: int| 0 <= k < a.back@.len() implies (#[trigger] a.back@[k])@
        == b.back@[k]@ by {
        assert(a.past()[k] == b.past()[k]);
    }
    assert forall|k: int| 0 <= k < a.forward@.len() implies (#[trigger] a.forward@[k])@
        == b.forward@[k]@ by {
        assert(a.ahead()[k] == b.ahead()[k]);
    }
}

/// From a place that a history leaves for another, a step back leads to the first again, and a
/// step forward from there to the other, with the history as it was after the first step.
pub proof fn law_history_leads_back_and_forth(
    a: &mut PathHistory,
    b: &mut PathHistory,
    c: &mut PathHistory,
    from: &str,
    to: &str,
    any: &str,
    back: Option<String>,
    forth: Option<String>,
)
    requires
        from@ != to@,
        call_ensures(PathHistory::step, (a, Some(from), to, HistoryOp::Push), ()),
        call_ensures(PathHistory::target, (&*final(a), any, HistoryOp::Back), back),
        *old(b) == *final(a),
        call_ensures(PathHistory::step, (b, Some(to), from, HistoryOp::Back), ()),
        call_ensures(PathHistory::target, (&*final(b), any, HistoryOp::Forward), forth),
        *old(c) == *final(b),
        call_ensures(PathHistory::step, (c, Some(from), to, HistoryOp::Forward), ()),
    ensures
        back is Some && back->0@ == from@,
        forth is Some && forth->0@ == to@,
        final(a).back@.len() == old(a).back@.len() + 1,
        final(a).back@.last()@ == from@,
        final(a).forward@.len() == 0,
        final(b).back@.len() == old(a).back@.len(),
        forall|k: int|
            0 <= k < old(a).back@.len() ==> (#[trigger] final(b).back@[k])@ == old(a).back@[k]@,
        same_history(*final(c), *final(a)),
{
    let p = old(a).past();
    assert(final(a).past() == p.push(from@));
    assert(final(a).past().len() == final(a).back@.len());
    assert(p.len() == old(a).back@.len());
    assert(final(a).past().last() == final(a).back@.last()@);
    assert(final(a).ahead().len() == final(a).forward@.len());
    assert(final(b).past() =~= p);
    assert(final(b).past().len() == final(b).back@.len());
    assert(final(b).ahead() =~= seq![to@]);
    assert forall|k: int| 0 <= k < old(a).back@.len() implies (#[trigger] final(b).back@[k])@
        == old(a).back@[k]@ by {
        assert(final(b).past()[k] == p[k]);
    }
    assert(final(c).past() =~= final(a).past());
    assert(final(c).ahead() =~= final(a).ahead());
    lemma_same_history(*final(c), *final(a));
}

/// The local pane goes where it is led, and shows what was read there. Led back, it asks for the
/// directory that it came from.
pub proof fn law_local_pane_leads_back(
    a: &mut Workspace,
    b: &mut Workspace,
    c: &mut Workspace,
    i: int,
    from: String,
    to: &str,
    any: &str,
    there: Option<String>,
    entries: Vec<FileEntry>,
    back: Option<String>,
)
    requires
        shows(*old(a), i),
        old(a).tabs.tabs@[i].local.path == Some(from),
        from@ != to@,
        call_ensures(Workspace::navigate_pane_local, (a, to, HistoryOp::Push), there),
        *old(b) == *final(a),
        there is Some ==> call_ensures(
            Workspace::set_local_path,
            (b, there->0, DirectoryRead::Entries(entries)),
            (),
        ),
        *old(c) == *final(b),
        there is Some ==> call_ensures(
            Workspace::navigate_pane_local,
            (c, any, HistoryOp::Back),
            back,
        ),
    ensures
        there is Some && there->0@ == to@,
        ({
            let tab = final(b).tabs.tabs@[i];
            &&& tab.local.path is Some && tab.local.path->0@ == to@
            &&& tab.local.entries@ == entries@
            &&& tab.local.error is None
            &&& tab.selected_paths@.len() == 0
            &&& tab.remote == old(a).tabs.tabs@[i].remote
            &&& tab.connection == old(a).tabs.tabs@[i].connection
        }),
        final(b).local_filter.query@.len() == 0,
        back is Some && back->0@ == from@,
        final(b).tabs.active_tab_id == old(a).tabs.active_tab_id,
{
    lemma_shown(*old(a), i);
    assert(shows(*final(a), i));
    lemma_shown(*final(a), i);
    assert(shows(*final(b), i));
    lemma_shown(*final(b), i);
    let h = final(a).tabs.tabs@[i].local_history;
    assert(h.past().last() == from@);
    assert(h.past().len() > 0);
}

/// A directory that cannot be read is shown as empty, and why is told.
pub proof fn law_unreadable_directory_is_told(w: &mut Workspace, i: int, path: String, why: String)
    requires
        shows(*old(w), i),
        call_ensures(Workspace::set_local_path, (w, path, DirectoryRead::Failed(why)), ()),
    ensures
        final(w).tabs.tabs@[i].local.path is Some,
        final(w).tabs.tabs@[i].local.path->0@ == path@,
        final(w).tabs.tabs@[i].local.entries@.len() == 0,
        final(w).tabs.tabs@[i].selected_paths@.len() == 0,
        final(w).status_message is Some,
        final(w).tabs.tabs@[i].remote == old(w).tabs.tabs@[i].remote,
{
    lemma_shown(*old(w), i);
}

/// The remote pane asks for the directory that it is led to, and waits for it. Led back, it asks
/// for the one that it came from.
pub proof fn law_remote_pane_leads_back(
    a: &mut Workspace,
    i: int,
    from: String,
    to: &str,
    any: &str,
    asked: Option<String>,
    sent: bool,
    back: Option<String>,
)
    requires
        shows(*old(a), i),
        old(a).tabs.tabs@[i].remote.path == Some(from),
        from@ != to@,
        call_ensures(Workspace::remote_step, (&*old(a), to, HistoryOp::Push), asked),
        call_ensures(
            Workspace::navigate_pane_remote,
            (a, to, HistoryOp::Push, Dispatch::Sent),
            sent,
        ),
        call_ensures(Workspace::remote_step, (&*final(a), any, HistoryOp::Back), back),
    ensures
        asked is Some && asked->0@ == to@,
        sent,
        ({
            let tab = final(a).tabs.tabs@[i];
            &&& tab.remote.path is Some && tab.remote.path->0@ == to@
            &&& tab.remote.is_refreshing
            &&& tab.remote.entries == old(a).tabs.tabs@[i].remote.entries
            &&& tab.selected_paths@.len() == 0
            &&& tab.local == old(a).tabs.tabs@[i].local
            &&& tab.connection == old(a).tabs.tabs@[i].connection
        }),
        back is Some && back->0@ == from@,
{
    lemma_shown(*old(a), i);
    assert(shows(*final(a), i));
    lemma_shown(*final(a), i);
    let h = final(a).tabs.tabs@[i].remote_history;
    assert(h.past().last() == from@);
    assert(h.past().len() > 0);
}

/// A remote directory that could not be asked for leaves the pane where it is.
pub proof fn law_unsent_request_moves_nothing(
    a: &mut Workspace,
    b: &mut Workspace,
    path: &str,
    op: HistoryOp,
    outcome: Dispatch,
    sent: bool,
    id: TabId,
    text: String,
    asked: bool,
)
    requires
        old(a).wf(),
        !(outcome is Sent),
        call_ensures(Workspace::navigate_pane_remote, (a, path, op, outcome), sent),
        *old(b) == *final(a),
        call_ensures(Workspace::request_remote_directory, (b, id, text, outcome), asked),
    ensures
        !sent && !asked,
        final(b).tabs == old(a).tabs,
        final(b).remote_filter == old(a).remote_filter,
{
}

/// The directory above one in another is that other, and what a pane shows is where it is.
pub proof fn law_pane_knows_where_it_is(
    w: Workspace,
    i: int,
    side: PaneSide,
    dir: Seq<char>,
    name: Seq<char>,
    path: String,
    at: Option<String>,
    above: Option<String>,
)
    requires
        shows(w, i),
        match side {
            PaneSide::Local => w.tabs.tabs@[i].local.path == Some(path),
            PaneSide::Remote => w.tabs.tabs@[i].remote.path == Some(path),
        },
        is_clean(dir),
        dir.len() > 0,
        is_name(name),
        path@ == dir + seq!['/'] + name,
        call_ensures(Workspace::current_directory, (&w, side), at),
        call_ensures(Workspace::parent_directory, (&w, side), above),
    ensures
        at is Some && at->0@ == path@,
        above is Some && above->0@ == dir,
{
    lemma_shown(w, i);
    lemma_names_plus_name(dir, name);
    lemma_clean(dir);
    assert(names(path@).drop_last() =~= names(dir));
}

/// Choosing a column orders by it, upwards; choosing it again turns the order over. The listings
/// are those that were put in order.
pub proof fn law_column_orders_the_panes(
    w: &mut Workspace,
    i: int,
    field: FileSortField,
    local: Vec<FileEntry>,
    remote: Vec<FileEntry>,
    once: SortSpec,
    twice: SortSpec,
    thrice: SortSpec,
)
    requires
        shows(*old(w), i),
        call_ensures(next_sort, (old(w).tabs.tabs@[i].sort, field), once),
        call_ensures(next_sort, (once, field), twice),
        call_ensures(next_sort, (twice, field), thrice),
        call_ensures(Workspace::apply_sort_field, (w, field, local, remote), ()),
    ensures
        once.field == field && twice.field == field && thrice == once,
        old(w).tabs.tabs@[i].sort.field != field ==> once.direction is Ascending,
        old(w).tabs.tabs@[i].sort.field == field ==> once.direction
            != old(w).tabs.tabs@[i].sort.direction,
        twice.direction != once.direction,
        final(w).tabs.tabs@[i].sort == once,
        final(w).tabs.tabs@[i].local.entries@ == local@,
        final(w).tabs.tabs@[i].remote.entries@ == remote@,
        final(w).tabs.tabs@[i].local.path == old(w).tabs.tabs@[i].local.path,
        final(w).tabs.tabs@[i].remote.path == old(w).tabs.tabs@[i].remote.path,
{
    lemma_shown(*old(w), i);
}

/// Nothing takes the keys of the panes: they show, and no question and no other field is open.
pub open spec fn panes_have_the_keys(w: Workspace) -> bool {
    &&& w.surface is Files
    &&& !w.go_to_path_open
    &&& w.connect_form is None
    &&& w.delete_confirm is None
    &&& w.inline_edit is None
    &&& !w.about_open
    &&& w.modals@.len() == 0
}

/// The filter of a pane.
pub open spec fn filter_at(w: Workspace, side: PaneSide) -> PaneFilter {
    match side {
        PaneSide::Local => w.local_filter,
        PaneSide::Remote => w.remote_filter,
    }
}

/// No key is held down with the stroke but shift.
pub open spec fn types(stroke: Keystroke) -> bool {
    !stroke.modifiers.platform && !stroke.modifiers.control && !stroke.modifiers.alt
        && !stroke.modifiers.function
}

/// Keys that are typed in a pane are added to its filter, backspace takes the last one off, and
/// escape takes the filter away. The filter of the other pane stays.
pub proof fn law_typing_filters_the_pane(
    w: &mut Workspace,
    side: PaneSide,
    stroke: Keystroke,
    typed: Option<String>,
    taken: bool,
)
    requires
        panes_have_the_keys(*old(w)),
        !filter_at(*old(w), side).explicit_focus,
        types(stroke),
        call_ensures(Workspace::handle_filter_key, (w, side, &stroke, typed), taken),
    ensures
        stroke.key@ == "escape"@ && !stroke.modifiers.shift ==> filter_at(
            *final(w),
            side,
        ).query@.len() == 0,
        stroke.key@ == "backspace"@ && filter_at(*old(w), side).query@.len() > 0 ==> {
            &&& taken
            &&& filter_at(*final(w), side).query@ == filter_at(*old(w), side).query@.drop_last()
            &&& filter_at(*final(w), side).input@ == filter_at(*final(w), side).query@
        },
        stroke.key@ != "escape"@ && stroke.key@ != "backspace"@ && stroke.key_char is Some && (
        forall|k: int|
            0 <= k < stroke.key_char->0@.len() ==> (#[trigger] stroke.key_char->0@[k]) >= ' '
                && stroke.key_char->0@[k] < '\u{7f}') ==> {
            &&& taken
            &&& filter_at(*final(w), side).query@ == filter_at(*old(w), side).query@
                + stroke.key_char->0@
            &&& filter_at(*final(w), side).input@ == filter_at(*final(w), side).query@
        },
        side is Local ==> final(w).remote_filter == old(w).remote_filter,
        side is Remote ==> final(w).local_filter == old(w).local_filter,
        final(w).tabs == old(w).tabs,
{
    reveal_strlit("escape");
    reveal_strlit("backspace");
    assert("escape"@[0] != "backspace"@[0]);
    let q = filter_at(*old(w), side).query@;
    if q.len() == 1 {
        assert(q.drop_last() =~= Seq::<char>::empty());
    }
}

/// With the keyboard in the filter field, what the field holds is the filter. The field opens on
/// the filter that is there.
pub proof fn law_filter_field_is_the_filter(
    a: &mut Workspace,
    b: &mut Workspace,
    stroke: Keystroke,
    text: String,
    taken: bool,
)
    requires
        panes_have_the_keys(*old(a)),
        call_ensures(Workspace::open_filter_pane, (a,), ()),
        *old(b) == *final(a),
        stroke.key@ != "escape"@,
        call_ensures(
            Workspace::handle_filter_key,
            (b, old(a).focused_side, &stroke, Some(text)),
            taken,
        ),
    ensures
        filter_at(*final(a), old(a).focused_side).explicit_focus,
        filter_at(*final(a), old(a).focused_side).query@ == filter_at(
            *old(a),
            old(a).focused_side,
        ).query@,
        filter_at(*final(a), old(a).focused_side).input@ == filter_at(
            *old(a),
            old(a).focused_side,
        ).query@,
        taken,
        filter_at(*final(b), old(a).focused_side).query@ == text@,
        filter_at(*final(b), old(a).focused_side).input@ == text@,
        final(b).focused_side == old(a).focused_side,
{
}

/// What is typed in the path field is where the focused pane is led, without the white space round
/// it. A local place that is no directory is refused, and the field stays open and says so.
pub proof fn law_path_field_leads_where_it_says(
    a: &mut Workspace,
    b: &mut Workspace,
    c: &mut Workspace,
    stroke: Keystroke,
    text: String,
    key: FieldKey,
    t: &str,
    place: String,
    target: Option<(PaneSide, String)>,
    found: PathFound,
    led: bool,
)
    requires
        panes_have_the_keys(*old(a)),
        call_ensures(Workspace::open_go_to_path, (a,), ()),
        *old(b) == *final(a),
        stroke.key@ != "enter"@,
        call_ensures(Workspace::handle_go_to_path_key, (b, &stroke, Some(text)), key),
        call_ensures(Workspace::go_to_path_target, (&*final(b), None), target),
        t@ == text@,
        call_ensures(trim, (t,), place),
        *old(c) == *final(b),
        call_ensures(Workspace::submit_go_to_path, (c, found), led),
    ensures
        final(a).go_to_path_open,
        final(a).go_to_path_input@.len() == 0,
        final(b).go_to_path_input@ == text@,
        place@.len() == 0 ==> target is None && !led,
        place@.len() > 0 ==> {
            &&& target is Some
            &&& target->0 .0 == old(a).focused_side
            &&& target->0 .1@ == place@
            &&& led <==> old(a).focused_side is Remote || found is Directory
        },
        led ==> !final(c).go_to_path_open,
        !led ==> final(c).go_to_path_open && final(c).go_to_path_error is Some
            && final(c).go_to_path_input@ == text@,
        final(c).tabs == old(a).tabs,
{
}

}
