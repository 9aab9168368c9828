//! Creating, renaming and deleting: from the selection and the typed name to what is done.

use vstd::prelude::*;

use super::common::{lemma_shown, shows};
use super::selecting::listing;
use super::texts::{is_clean, is_name, lemma_clean};
use crate::file_actions::{chosen, entry_view, entry_views, is_selected, named, InlineKey};
use crate::file_ops::{
    context_menu_items, delete_confirm_presentation, local_fs_step, ContextItem,
    DeleteConfirmPresentation, LocalFsStep,
};
use crate::keys::Keystroke;
use crate::lists::lemma_filter_holds;
use crate::model::{
    ConnectionState, EntryPath, FileEntry, FsCommand, FsEntryRef, FsOp, FsScope, PaneSide,
    PathView,
};
use crate::nav::{lemma_names_plus_name, parent_of};
use crate::selection::views;
use crate::text::{names, trim};
use crate::workspace::{Config, Workspace};

verus! {

/// The path of an entry of a side.
pub open spec fn path_on(side: PaneSide, entry: FileEntry) -> PathView {
    PathView { side, text: entry.path@ }
}

/// The entry of a listing is selected in the tab at `i`.
pub open spec fn selected_in(w: Workspace, i: int, side: PaneSide, entry: FileEntry) -> bool {
    let selected = w.tabs.tabs@[i].selected_paths@;
    exists|s: int| 0 <= s < selected.len() && (#[trigger] selected[s])@ == path_on(side, entry)
}

/// Operations on a side of the tab at `i` can run, and run there: on this machine always, and on
/// the server under the connection that is up.
pub open spec fn runs_in(w: Workspace, i: int, side: PaneSide, scope: FsScope) -> bool {
    match side {
        PaneSide::Local => scope == (FsScope::Local { tab_id: w.tabs.tabs@[i].id }),
        PaneSide::Remote => w.tabs.tabs@[i].connection matches ConnectionState::Connected {
            session_epoch,
            ..
        } && scope == (FsScope::Remote { tab_id: w.tabs.tabs@[i].id, session_epoch }),
    }
}

proof fn lemma_selected(w: Workspace, i: int, side: PaneSide, entry: FileEntry)
    ensures
        is_selected(side, views(w.tabs.tabs@[i].selected_paths@))(entry) <==> selected_in(
            w,
            i,
            side,
            entry,
        ),
{
    let selected = w.tabs.tabs@[i].selected_paths@;
    let v = views(selected);
    if v.contains(path_on(side, entry)) {
        let s = choose|s: int| 0 <= s < v.len() && v[s] == path_on(side, entry);
        assert(selected[s]@ == path_on(side, entry));
    }
    if selected_in(w, i, side, entry) {
        let s = choose|s: int|
            0 <= s < selected.len() && (#[trigger] selected[s])@ == path_on(side, entry);
        assert(v[s] == path_on(side, entry));
    }
}

proof fn lemma_filter_none<A>(s: Seq<A>, keep: spec_fn(A) -> bool)
    requires
        forall|j: int| 0 <= j < s.len() ==> !keep(#[trigger] s[j]),
    ensures
        s.filter(keep) == Seq::<A>::empty(),
    decreases s.len(),
{
    reveal(Seq::filter);
    if s.len() > 0 {
        assert forall|j: int| 0 <= j < s.drop_last().len() implies !keep(
            #[trigger] s.drop_last()[j],
        ) by {
            assert(!keep(s[j]));
        }
        lemma_filter_none(s.drop_last(), keep);
        assert(!keep(s[s.len() - 1]));
    }
    assert(s.filter(keep) =~= Seq::<A>::empty());
}

proof fn lemma_filter_one<A>(s: Seq<A>, keep: spec_fn(A) -> bool, k: int)
    requires
        0 <= k < s.len(),
        keep(s[k]),
        forall|j: int| 0 <= j < s.len() && j != k ==> !keep(#[trigger] s[j]),
    ensures
        s.filter(keep) == seq![s[k]],
    decreases s.len(),
{
    reveal(Seq::filter);
    let front = s.drop_last();
    if k == s.len() - 1 {
        assert forall|j: int| 0 <= j < front.len() implies !keep(#[trigger] front[j]) by {
            assert(!keep(s[j]));
        }
        lemma_filter_none(front, keep);
        assert(s.filter(keep) =~= seq![s[k]]);
    } else {
        assert forall|j: int| 0 <= j < front.len() && j != k implies !keep(
            #[trigger] front[j],
        ) by {
            assert(!keep(s[j]));
        }
        lemma_filter_one(front, keep, k);
        assert(!keep(s[s.len() - 1]));
        assert(front[k] == s[k]);
    }
}

/// The one selected entry of the focused pane is the one at `k` of its listing.
pub open spec fn selects_one(w: Workspace, i: int, side: PaneSide, k: int) -> bool {
    &&& w.focused_side == side
    &&& 0 <= k < listing(w, i, side).len()
    &&& forall|j: int|
        0 <= j < listing(w, i, side).len() ==> (selected_in(
            w,
            i,
            side,
            #[trigger] listing(w, i, side)[j],
        ) <==> j == k)
}

pub(crate) proof fn lemma_chosen_one(w: Workspace, i: int, side: PaneSide, k: int)
    requires
        selects_one(w, i, side, k),
    ensures
        chosen(listing(w, i, side), side, views(w.tabs.tabs@[i].selected_paths@)) == seq![
            named(side)(listing(w, i, side)[k]),
        ],
{
    let entries = listing(w, i, side);
    let keep = is_selected(side, views(w.tabs.tabs@[i].selected_paths@));
    assert forall|j: int| 0 <= j < entries.len() implies (keep(#[trigger] entries[j]) <==> j
        == k) by {
        lemma_selected(w, i, side, entries[j]);
    }
    lemma_filter_one(entries, keep, k);
    assert(seq![entries[k]].map_values(named(side)) =~= seq![named(side)(entries[k])]);
}

/// A name typed for the one selected entry renames that entry: from its path to the typed name in
/// the same directory. On this machine that is the one step that is taken.
pub proof fn law_selected_entry_gets_the_typed_name(
    a: &mut Workspace,
    b: &mut Workspace,
    c: &mut Workspace,
    i: int,
    side: PaneSide,
    k: int,
    dir: Seq<char>,
    was: Seq<char>,
    stroke: Keystroke,
    text: String,
    key: InlineKey,
    t: &str,
    name: String,
    scope: FsScope,
    r: Option<FsCommand>,
    step: LocalFsStep,
    end: LocalFsStep,
)
    requires
        shows(*old(a), i),
        selects_one(*old(a), i, side, k),
        runs_in(*old(a), i, side, scope),
        is_clean(dir),
        is_name(was),
        listing(*old(a), i, side)[k].path@ == dir + seq!['/'] + was,
        call_ensures(Workspace::begin_rename_selection, (a,), ()),
        *old(b) == *final(a),
        call_ensures(Workspace::handle_inline_edit_key, (b, &stroke, Some(text)), key),
        key is Edited,
        *old(c) == *final(b),
        t@ == text@,
        call_ensures(trim, (t,), name),
        is_name(name@),
        forall|j: int|
            0 <= j < listing(*old(a), i, side).len() ==> (#[trigger] listing(
                *old(a),
                i,
                side,
            )[j]).name@ != name@,
        call_ensures(Workspace::submit_inline_edit, (c,), r),
        r is Some ==> call_ensures(local_fs_step, (&r->0.op, 0usize), step) && call_ensures(
            local_fs_step,
            (&r->0.op, 1usize),
            end,
        ),
    ensures
        final(a).inline_edit is Some,
        final(a).inline_edit->0.input@ == was,
        r is Some,
        r->0.scope == scope,
        r->0.op matches FsOp::Rename { from, to } && {
            &&& from@ == path_on(side, listing(*old(a), i, side)[k])
            &&& to@ == (PathView { side, text: dir + seq!['/'] + name@ })
        },
        side is Local ==> {
            &&& step matches LocalFsStep::Rename { from, to }
            &&& from@ == dir + seq!['/'] + was
            &&& to@ == dir + seq!['/'] + name@
            &&& end is Done
        },
        final(c).inline_edit is None,
{
    reveal(Seq::filter);
    lemma_shown(*old(a), i);
    let entries = listing(*old(a), i, side);
    lemma_chosen_one(*old(a), i, side, k);
    let path = entries[k].path@;
    lemma_names_plus_name(dir, was);
    lemma_clean(dir);
    assert(names(path).drop_last() =~= names(dir));
    assert(names(path).last() == was);
    let proper = |q: Seq<char>| q != seq!['.'];
    assert(names(path).filter(proper).last() == was);
    assert(name@ != "."@ && name@ != ".."@) by {
        reveal_strlit(".");
        reveal_strlit("..");
        assert("."@ =~= seq!['.']);
        assert(".."@ =~= seq!['.', '.']);
    }
}

/// A name typed for a new folder makes a folder of that name in the directory that the focused
/// pane shows.
pub proof fn law_new_folder_gets_the_typed_name(
    a: &mut Workspace,
    b: &mut Workspace,
    c: &mut Workspace,
    i: int,
    side: PaneSide,
    dir: String,
    stroke: Keystroke,
    text: String,
    key: InlineKey,
    t: &str,
    name: String,
    scope: FsScope,
    r: Option<FsCommand>,
    step: LocalFsStep,
)
    requires
        shows(*old(a), i),
        old(a).focused_side == side,
        runs_in(*old(a), i, side, scope),
        match side {
            PaneSide::Local => old(a).tabs.tabs@[i].local.path == Some(dir),
            PaneSide::Remote => old(a).tabs.tabs@[i].remote.path == Some(dir),
        },
        call_ensures(Workspace::begin_new_folder, (a,), ()),
        *old(b) == *final(a),
        call_ensures(Workspace::handle_inline_edit_key, (b, &stroke, Some(text)), key),
        key is Edited,
        *old(c) == *final(b),
        t@ == text@,
        call_ensures(trim, (t,), name),
        is_name(name@),
        forall|j: int|
            0 <= j < listing(*old(a), i, side).len() ==> (#[trigger] listing(
                *old(a),
                i,
                side,
            )[j]).name@ != name@,
        call_ensures(Workspace::submit_inline_edit, (c,), r),
        r is Some ==> call_ensures(local_fs_step, (&r->0.op, 0usize), step),
    ensures
        r is Some,
        r->0.scope == scope,
        r->0.op matches FsOp::CreateDirectory { parent, name: made } && parent@ == (PathView {
            side,
            text: dir@,
        }) && made@ == name@,
        side is Local ==> (step matches LocalFsStep::CreateDirectory { parent, name: made }
            && parent@ == dir@ && made@ == name@),
        final(c).inline_edit is None,
{
    lemma_shown(*old(a), i);
    let edit = final(b).inline_edit->0;
    assert(final(b).inline_edit is Some);
    assert(edit.side == side);
    assert(old(c).entries(side) == listing(*old(a), i, side));
    assert(name@ != "."@ && name@ != ".."@) by {
        reveal_strlit(".");
        reveal_strlit("..");
        assert("."@ =~= seq!['.']);
        assert(".."@ =~= seq!['.', '.']);
    }
    assert(old(c).name_refusal(edit) is None);
}

/// A text that names no file, or that an entry has already, is refused: nothing is done, and the
/// field stays open and says so.
pub proof fn law_bad_names_are_refused(
    w: &mut Workspace,
    i: int,
    t: &str,
    name: String,
    r: Option<FsCommand>,
)
    requires
        shows(*old(w), i),
        old(w).inline_edit is Some,
        t@ == old(w).inline_edit->0.input@,
        call_ensures(trim, (t,), name),
        !is_name(name@) || exists|j: int|
            0 <= j < listing(*old(w), i, old(w).inline_edit->0.side).len() && (#[trigger] listing(
                *old(w),
                i,
                old(w).inline_edit->0.side,
            )[j]).name@ == name@,
        call_ensures(Workspace::submit_inline_edit, (w,), r),
    ensures
        r is None,
        final(w).inline_edit is Some,
        final(w).inline_edit->0.error is Some,
        final(w).inline_edit->0.input == old(w).inline_edit->0.input,
        final(w).inline_edit->0.kind == old(w).inline_edit->0.kind,
        final(w).tabs == old(w).tabs,
{
    lemma_shown(*old(w), i);
    reveal_strlit(".");
    reveal_strlit("..");
    assert("."@ =~= seq!['.']);
    assert(".."@ =~= seq!['.', '.']);
    if is_name(name@) {
        let side = old(w).inline_edit->0.side;
        let j = choose|j: int|
            0 <= j < listing(*old(w), i, side).len() && (#[trigger] listing(
                *old(w),
                i,
                side,
            )[j]).name@ == name@;
        assert(old(w).entries(side)[j].name@ == name@);
    }
}

/// An operation names the entry of a listing.
pub open spec fn names_entry(entries: Seq<FsEntryRef>, side: PaneSide, entry: FileEntry) -> bool {
    exists|m: int|
        0 <= m < entries.len() && (#[trigger] entries[m]).path@ == path_on(side, entry)
            && entries[m].is_dir == (entry.kind is Directory)
}

/// What an operation names is an entry of a listing that is selected.
pub open spec fn is_of_selected(w: Workspace, i: int, side: PaneSide, named: FsEntryRef) -> bool {
    exists|j: int|
        0 <= j < listing(w, i, side).len() && selected_in(
            w,
            i,
            side,
            #[trigger] listing(w, i, side)[j],
        ) && named.path@ == path_on(side, listing(w, i, side)[j]) && named.is_dir == (listing(
            w,
            i,
            side,
        )[j].kind is Directory)
}

/// The entries named are exactly those of the listing that are selected.
pub open spec fn names_the_selected(
    w: Workspace,
    i: int,
    side: PaneSide,
    entries: Seq<FsEntryRef>,
) -> bool {
    let all = listing(w, i, side);
    &&& forall|j: int|
        0 <= j < all.len() && selected_in(w, i, side, all[j]) ==> #[trigger] names_entry(
            entries,
            side,
            all[j],
        )
    &&& forall|m: int|
        0 <= m < entries.len() ==> #[trigger] is_of_selected(w, i, side, entries[m])
}

proof fn lemma_chosen_are_kept(
    all: Seq<FileEntry>,
    side: PaneSide,
    selected: Seq<PathView>,
    entries: Seq<FsEntryRef>,
)
    requires
        entry_views(entries) == chosen(all, side, selected),
    ensures
        entries.len() == all.filter(is_selected(side, selected)).len(),
        forall|m: int|
            0 <= m < entries.len() ==> (#[trigger] entries[m]).path@ == path_on(
                side,
                all.filter(is_selected(side, selected))[m],
            ) && entries[m].is_dir == (all.filter(
                is_selected(side, selected),
            )[m].kind is Directory),
{
    let kept = all.filter(is_selected(side, selected));
    assert(entry_views(entries).len() == entries.len());
    assert(kept.map_values(named(side)).len() == kept.len());
    assert forall|m: int| 0 <= m < entries.len() implies (#[trigger] entries[m]).path@ == path_on(
        side,
        kept[m],
    ) && entries[m].is_dir == (kept[m].kind is Directory) by {
        assert(entry_views(entries)[m] == entry_view(entries[m]));
        assert(kept.map_values(named(side))[m] == named(side)(kept[m]));
    }
}

#[verifier::spinoff_prover]
proof fn lemma_names_the_selected(w: Workspace, i: int, side: PaneSide, entries: Seq<FsEntryRef>)
    requires
        entry_views(entries) == chosen(
            listing(w, i, side),
            side,
            views(w.tabs.tabs@[i].selected_paths@),
        ),
    ensures
        names_the_selected(w, i, side, entries),
{
    let all = listing(w, i, side);
    let selected = views(w.tabs.tabs@[i].selected_paths@);
    let keep = is_selected(side, selected);
    let kept = all.filter(keep);
    lemma_chosen_are_kept(all, side, selected, entries);
    lemma_filter_holds(all, keep);
    assert forall|j: int|
        0 <= j < all.len() && selected_in(w, i, side, all[j]) implies #[trigger] names_entry(
        entries,
        side,
        all[j],
    ) by {
        lemma_selected(w, i, side, all[j]);
        assert(all.contains(all[j]));
        assert(kept.contains(all[j]));
        let m = choose|m: int| 0 <= m < kept.len() && kept[m] == all[j];
        assert(entries[m].path@ == path_on(side, all[j]));
    }
    assert forall|m: int| 0 <= m < entries.len() implies #[trigger] is_of_selected(
        w,
        i,
        side,
        entries[m],
    ) by {
        assert(entries[m].path@ == path_on(side, kept[m]));
        assert(kept.contains(kept[m]));
        let j = choose|j: int| 0 <= j < all.len() && all[j] == kept[m];
        lemma_selected(w, i, side, all[j]);
        assert(selected_in(w, i, side, listing(w, i, side)[j]));
    }
}

proof fn lemma_some_are_chosen(w: Workspace, i: int, side: PaneSide, k: int)
    requires
        0 <= k < listing(w, i, side).len(),
        selected_in(w, i, side, listing(w, i, side)[k]),
    ensures
        chosen(listing(w, i, side), side, views(w.tabs.tabs@[i].selected_paths@)).len() > 0,
{
    let all = listing(w, i, side);
    let keep = is_selected(side, views(w.tabs.tabs@[i].selected_paths@));
    lemma_filter_holds(all, keep);
    lemma_selected(w, i, side, all[k]);
    assert(all.contains(all[k]));
    assert(all.filter(keep).contains(all[k]));
}

/// What is deleted is what is selected in the focused pane, all of it and nothing else: at once
/// where the user does not want to be asked, and otherwise once they agree. On this machine each
/// is deleted in a step of its own.
#[verifier::spinoff_prover]
pub proof fn law_selected_entries_are_deleted(
    w: &mut Workspace,
    agreed: &mut Workspace,
    i: int,
    side: PaneSide,
    k: int,
    scope: FsScope,
    config: Config,
    at_once: Option<FsCommand>,
    saved: bool,
    later: Option<FsCommand>,
    done: usize,
    step: LocalFsStep,
)
    requires
        shows(*old(w), i),
        old(w).focused_side == side,
        runs_in(*old(w), i, side, scope),
        0 <= k < listing(*old(w), i, side).len(),
        selected_in(*old(w), i, side, listing(*old(w), i, side)[k]),
        call_ensures(Workspace::request_delete_selection, (w, &config), at_once),
        *old(agreed) == *final(w),
        config.confirm_delete ==> call_ensures(Workspace::confirm_delete, (agreed, saved), later),
        ({
            let command = if config.confirm_delete { later } else { at_once };
            command is Some ==> call_ensures(local_fs_step, (&command->0.op, done), step)
        }),
    ensures
        at_once is Some <==> !config.confirm_delete,
        config.confirm_delete ==> final(w).delete_confirm is Some && final(agreed).delete_confirm is None,
        ({
            let command = if config.confirm_delete { later } else { at_once };
            &&& command is Some
            &&& command->0.scope == scope
            &&& command->0.op matches FsOp::Delete { entries }
            &&& names_the_selected(*old(w), i, side, entries@)
            &&& side is Local && done < entries@.len() ==> (step matches LocalFsStep::Delete {
                path,
                is_dir,
            } && path@ == entries@[done as int].path@.text && is_dir
                == entries@[done as int].is_dir)
            &&& done >= entries@.len() ==> step is Done
        }),
{
    lemma_shown(*old(w), i);
    lemma_some_are_chosen(*old(w), i, side, k);
    assert(old(w).chosen(side).len() > 0);
    let command = if config.confirm_delete {
        later
    } else {
        at_once
    };
    assert(command is Some);
    let entries = command->0.op->Delete_entries@;
    assert(entry_views(entries) == old(w).chosen(side));
    lemma_names_the_selected(*old(w), i, side, entries);
    if side is Local && done < entries.len() {
        assert(is_of_selected(*old(w), i, side, entries[done as int]));
        assert(entries[done as int].path@.side is Local);
    }
}

/// Nothing is deleted where nothing is selected, or on a server without a connection.
pub proof fn law_nothing_selected_deletes_nothing(
    w: &mut Workspace,
    i: int,
    config: Config,
    r: Option<FsCommand>,
)
    requires
        shows(*old(w), i),
        old(w).tabs.tabs@[i].selected_paths@.len() == 0 || (old(w).focused_side is Remote && !(
        old(w).tabs.tabs@[i].connection is Connected)),
        call_ensures(Workspace::request_delete_selection, (w, &config), r),
    ensures
        r is None,
        final(w).delete_confirm == old(w).delete_confirm,
        final(w).tabs == old(w).tabs,
{
    lemma_shown(*old(w), i);
    let side = old(w).focused_side;
    let all = listing(*old(w), i, side);
    let v = views(old(w).tabs.tabs@[i].selected_paths@);
    if old(w).tabs.tabs@[i].selected_paths@.len() == 0 {
        assert(v.len() == 0);
        assert forall|j: int| 0 <= j < all.len() implies !is_selected(side, v)(
            #[trigger] all[j],
        ) by {}
        lemma_filter_none(all, is_selected(side, v));
    }
}

/// What is asked before deleting names the first eight and says how many more there are.
pub proof fn law_delete_question_counts_all(
    entries: Vec<FsEntryRef>,
    slice: &[FsEntryRef],
    r: DeleteConfirmPresentation,
)
    requires
        slice@ == entries@,
        call_ensures(delete_confirm_presentation, (slice,), r),
    ensures
        r.names@.len() + r.overflow == entries@.len(),
        r.names@.len() <= 8,
        r.overflow > 0 ==> r.names@.len() == 8,
        forall|k: int|
            0 <= k < r.names@.len() ==> (#[trigger] r.names@[k]).is_dir == entries@[k].is_dir,
{
}

/// After an operation the directory is read again in which it happened: that of the new name, of
/// the first that was deleted, or the one that got a folder.
pub proof fn law_changed_directory_is_read_again(
    op: FsOp,
    r: Option<EntryPath>,
    t: &str,
    above: Option<String>,
)
    requires
        call_ensures(FsOp::refresh_path, (&op,), r),
        match op {
            FsOp::Delete { entries } => entries@.len() > 0 && t@ == entries@[0].path@.text,
            FsOp::Rename { from, to } => t@ == to@.text,
            FsOp::CreateDirectory { .. } => true,
        },
        call_ensures(parent_of, (t,), above),
    ensures
        match op {
            FsOp::Delete { entries } => match above {
                Some(dir) => r is Some && r->0@ == (PathView {
                    side: entries@[0].path@.side,
                    text: dir@,
                }),
                None => r is None,
            },
            FsOp::Rename { from, to } => match above {
                Some(dir) => r is Some && r->0@ == (PathView { side: to@.side, text: dir@ }),
                None => r is None,
            },
            FsOp::CreateDirectory { parent, .. } => r is Some && r->0@ == parent@,
        },
{
}

/// A path of the server is never touched on this machine.
pub proof fn law_remote_paths_stay_untouched(op: FsOp, done: usize, step: LocalFsStep)
    requires
        call_ensures(local_fs_step, (&op, done), step),
        match op {
            FsOp::Delete { entries } => done < entries@.len() && entries@[done as int].path is Remote,
            FsOp::Rename { from, to } => done == 0 && (from is Remote || to is Remote),
            FsOp::CreateDirectory { parent, .. } => done == 0 && parent is Remote,
        },
    ensures
        step is Refuse,
        step->Refuse_0.title@ == "Invalid local path"@,
        step->Refuse_0.detail is None,
        step->Refuse_0.message@ == match op {
            FsOp::Delete { .. } => "Delete paths must be local."@,
            FsOp::Rename { .. } => "Rename paths must be local."@,
            FsOp::CreateDirectory { .. } => "Create-folder parent must be local."@,
        },
{
}

/// Where an entry is clicked it can be renamed, deleted and its path copied; a local one can be
/// sent and shown in the file manager, and a remote one fetched and edited over a connection. A
/// folder can be made anywhere.
pub proof fn law_context_menu_offers_what_can_be_done(
    side: PaneSide,
    on_entry: bool,
    connected: bool,
    r: Vec<ContextItem>,
)
    requires
        call_ensures(context_menu_items, (side, on_entry, connected), r),
    ensures
        r@.contains(ContextItem::NewFolder),
        r@.contains(ContextItem::Refresh) <==> !on_entry,
        r@.contains(ContextItem::Rename) <==> on_entry,
        r@.contains(ContextItem::Delete) <==> on_entry,
        r@.contains(ContextItem::CopyPath) <==> on_entry,
        r@.contains(ContextItem::Upload) <==> on_entry && side is Local,
        r@.contains(ContextItem::Reveal) <==> on_entry && side is Local,
        r@.contains(ContextItem::Edit) <==> on_entry && side is Remote && connected,
        r@.contains(ContextItem::Download) <==> on_entry && side is Remote && connected,
{
    let s = r@;
    if s.len() > 0 {
        assert(s.contains(s[0]));
    }
    if s.len() > 1 {
        assert(s.contains(s[1]));
    }
    if s.len() > 2 {
        assert(s.contains(s[2]));
    }
    if s.len() > 3 {
        assert(s.contains(s[3]));
    }
    if s.len() > 4 {
        assert(s.contains(s[4]));
    }
    if s.len() > 5 {
        assert(s.contains(s[5]));
    }
}

}
