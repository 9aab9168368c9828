//! What things are called, and what is forgotten with them: profiles, titles, shortcuts, the trail
//! of a pane and the windows that were closed.

use vstd::prelude::*;

use crate::connect_actions::{forgets, ProfileRemoval};
use crate::file_ops::{context_menu_items, ContextItem};
use crate::modals::{id_of, latest_conflict, other_questions, ModalRequestId};
use crate::model::{
    ConflictRequestId, ConnectionProfile, ModalRequest, ProfileId, TransferConflictPrompt,
    WindowSessionId,
};
use crate::nav::{breadcrumb_segments, shown_segments, trail, trail_texts};
use crate::palette_commands::{
    all_palette_commands, command_with_id, commands, keybinding_for, labeled_shortcut, registry,
    CommandView, PaletteCommand,
};
use crate::pane_view::{crumb_list, crumb_views, path_crumbs, Crumb, CrumbView};
use crate::profiles::{filtered_profiles, profile_name_or_default};
use crate::session_coordinator::{SessionCoordinator, WindowRuntimeSessions};
use crate::workspace::Workspace;

verus! {

/// A profile that was deleted is named by no tab and no form any more; every other profile still
/// is, and the tabs keep all else. One that could not be deleted is named as before.
pub proof fn law_deleted_profile_is_named_nowhere(
    w: &mut Workspace,
    id: ProfileId,
    removal: ProfileRemoval,
    i: int,
)
    requires
        old(w).wf(),
        call_ensures(Workspace::delete_profile, (w, id, &removal), ()),
        0 <= i < old(w).tabs.tabs@.len(),
    ensures
        final(w).tabs.tabs@.len() == old(w).tabs.tabs@.len(),
        final(w).tabs.active_tab_id == old(w).tabs.active_tab_id,
        final(w).tabs.mru == old(w).tabs.mru,
        final(w).tabs.switcher_open == old(w).tabs.switcher_open,
        ({
            let before = old(w).tabs.tabs@[i];
            let after = final(w).tabs.tabs@[i];
            &&& removal is Deleted ==> after.profile_id != Some(id)
            &&& removal is Deleted && after.restored_target is Some
                ==> after.restored_target->0.profile_id != Some(id)
            &&& before.profile_id != Some(id) ==> after.profile_id == before.profile_id
            &&& before.restored_target is Some <==> after.restored_target is Some
            &&& before.restored_target is Some && before.restored_target->0.profile_id != Some(id)
                ==> after.restored_target == before.restored_target
            &&& before.restored_target is Some ==> {
                &&& after.restored_target->0.host == before.restored_target->0.host
                &&& after.restored_target->0.port == before.restored_target->0.port
                &&& after.restored_target->0.username == before.restored_target->0.username
                &&& after.restored_target->0.remote_path == before.restored_target->0.remote_path
            }
            &&& after.id == before.id
            &&& after.connection == before.connection
            &&& after.local == before.local
            &&& after.remote == before.remote
            &&& !(removal is Deleted) ==> after == before
        }),
        final(w).connect_form is Some <==> old(w).connect_form is Some,
        !(removal is Failed) && final(w).connect_form is Some
            ==> final(w).connect_form->0.source_profile_id != Some(id),
        old(w).connect_form is Some && old(w).connect_form->0.source_profile_id != Some(id)
            ==> final(w).connect_form == old(w).connect_form,
        old(w).connect_form is Some ==> final(w).connect_form->0.host
            == old(w).connect_form->0.host,
        removal is Failed ==> final(w).connect_form == old(w).connect_form
            && final(w).status_message is Some && removal->0@.is_suffix_of(
            final(w).status_message->0@,
        ),
        removal is NotFound ==> final(w).status_message == old(w).status_message,
        removal is Deleted ==> final(w).status_message is Some && final(w).status_message->0@
            == "Deleted profile."@,
{
    if removal is Deleted {
        assert(final(w).tabs.tabs@[i] == forgets(id)(old(w).tabs.tabs@[i]));
    }
}

/// A profile is called what was typed, or else by its account.
pub proof fn law_profile_without_a_name_is_called_by_its_account(
    entered: String,
    user: &str,
    host: &str,
    r: String,
)
    requires
        call_ensures(profile_name_or_default, (entered, user, host), r),
    ensures
        entered@.len() > 0 ==> r@ == entered@,
        entered@.len() == 0 ==> r@ == user@ + seq!['@'] + host@,
        r@.len() > 0,
{
    reveal_strlit("@");
    assert("@"@ =~= seq!['@']);
}

/// A window is called by its tab, so that windows on different tabs can be told apart, and by the
/// application alone where there is no tab.
pub proof fn law_window_is_called_by_its_tab(a: &str, b: &str, r: String, s: String, none: String)
    requires
        call_ensures(Workspace::window_title_for_active_tab, (Some(a),), r),
        call_ensures(Workspace::window_title_for_active_tab, (Some(b),), s),
        call_ensures(Workspace::window_title_for_active_tab, (None::<&str>,), none),
    ensures
        a@.is_prefix_of(r@),
        "macSFTP"@.is_suffix_of(r@),
        a@.len() > 0 && b@.len() > 0 && r@ == s@ ==> a@ == b@,
        a@.len() > 0 ==> r@ != none@,
        a@.len() == 0 ==> r@ == none@,
        none@ == "macSFTP"@,
{
    reveal_strlit(" — macSFTP");
    reveal_strlit("macSFTP");
    if a@.len() > 0 {
        assert(r@.skip(a@.len() as int + 3) =~= "macSFTP"@);
    }
    if a@.len() > 0 && b@.len() > 0 && r@ == s@ {
        assert(r@.take(a@.len() as int) =~= a@);
        assert(s@.take(b@.len() as int) =~= b@);
    }
}

proof fn lemma_command_at(list: Seq<CommandView>, id: Seq<char>, k: int)
    requires
        0 <= k < list.len(),
        list[k].id == id,
        forall|j: int| 0 <= j < k ==> (#[trigger] list[j]).id != id,
    ensures
        command_with_id(list, id) == Some(list[k]),
    decreases k,
{
    if k > 0 {
        assert(list[0].id != id);
        assert forall|j: int| 0 <= j < k - 1 implies (#[trigger] list.drop_first()[j]).id != id by {
            assert(list.drop_first()[j] == list[j + 1]);
        }
        lemma_command_at(list.drop_first(), id, k - 1);
    }
}

/// A label names the keys of its command as the palette shows them; one without keys stands alone.
pub proof fn law_label_shows_the_keys_of_its_command(
    label: &str,
    all: Vec<PaletteCommand>,
    k: int,
    key: Option<&'static str>,
    r: String,
)
    requires
        call_ensures(all_palette_commands, (), all),
        0 <= k < all@.len(),
        forall|j: int| 0 <= j < k ==> (#[trigger] all@[j]).id@ != all@[k].id@,
        call_ensures(keybinding_for, (all@[k].id,), key),
        call_ensures(labeled_shortcut, (label, all@[k].id), r),
    ensures
        key is Some <==> all@[k].keybinding is Some,
        key is Some ==> key->0@ == all@[k].keybinding->0@,
        key is Some ==> r@ == label@ + " ("@ + all@[k].keybinding->0@ + ")"@,
        key is None ==> r@ == label@,
{
    let list = registry();
    assert(commands(all@) == list);
    assert(list.len() == all@.len());
    assert(list[k] == all@[k]@);
    assert forall|j: int| 0 <= j < k implies (#[trigger] list[j]).id != all@[k].id@ by {
        assert(list[j] == all@[j]@);
    }
    lemma_command_at(list, all@[k].id@, k);
}

/// The picker of the form lists what its filter finds, and everything where there is no form.
pub proof fn law_picker_lists_what_its_filter_finds(
    w: Workspace,
    profiles: Vec<ConnectionProfile>,
    filter: &str,
    found: Vec<ConnectionProfile>,
    r: Vec<ConnectionProfile>,
)
    requires
        w.connect_form is Some ==> filter@ == w.connect_form->0.profile_picker_filter@,
        w.connect_form is None ==> filter@ == ""@,
        call_ensures(filtered_profiles, (&profiles, filter), found),
        call_ensures(Workspace::filtered_connect_profiles, (&w, &profiles), r),
    ensures
        r@ == found@,
{
}

proof fn lemma_latest(modals: Seq<ModalRequest>, id: ModalRequestId, k: int)
    requires
        0 <= k < modals.len(),
        modals[k] is TransferConflict,
        id_of(modals[k]) != id,
        forall|j: int|
            k < j < modals.len() ==> id_of(#[trigger] modals[j]) == id
                || !(modals[j] is TransferConflict),
    ensures
        latest_conflict(modals.filter(other_questions(id))) == Some(
            modals[k]->TransferConflict_0,
        ),
    decreases modals.len(),
{
    reveal(Seq::filter);
    let keep = other_questions(id);
    let front = modals.drop_last();
    let kept = front.filter(keep);
    assert(kept.push(modals.last()).drop_last() =~= kept);
    if k < modals.len() - 1 {
        assert(front[k] == modals[k]);
        assert forall|j: int| k < j < front.len() implies id_of(#[trigger] front[j]) == id
            || !(front[j] is TransferConflict) by {
            assert(front[j] == modals[j]);
        }
        assert(modals.last() == modals[modals.len() - 1]);
        lemma_latest(front, id, k);
    }
}

/// Once a conflict is answered, the latest of the others is asked about.
pub proof fn law_next_conflict_is_the_latest_of_the_others(
    w: Workspace,
    id: ConflictRequestId,
    k: int,
    r: Option<TransferConflictPrompt>,
)
    requires
        0 <= k < w.modals@.len(),
        w.modals@[k] is TransferConflict,
        id_of(w.modals@[k]) != ModalRequestId::Conflict(id),
        forall|j: int|
            k < j < w.modals@.len() ==> id_of(#[trigger] w.modals@[j]) == ModalRequestId::Conflict(id)
                || !(w.modals@[j] is TransferConflict),
        call_ensures(Workspace::conflict_after, (&w, id), r),
    ensures
        r == Some(w.modals@[k]->TransferConflict_0),
{
    lemma_latest(w.modals@, ModalRequestId::Conflict(id), k);
}

/// The sessions of windows that are gone are let go, each with all its tabs and once; the windows
/// that are still open keep theirs.
pub proof fn law_closed_windows_are_let_go(
    c: &mut SessionCoordinator,
    live: Vec<WindowSessionId>,
    id: WindowSessionId,
    i: int,
    j: int,
    r: Vec<WindowRuntimeSessions>,
)
    requires
        call_ensures(SessionCoordinator::release_closed_window_sessions, (c, &live), r),
        old(c).runtime_sessions@.contains_key(id.0),
    ensures
        live@.contains(id) ==> final(c).runtime_sessions@.contains_key(id.0)
            && final(c).runtime_sessions@[id.0]@ == old(c).runtime_sessions@[id.0]@,
        !live@.contains(id) ==> !final(c).runtime_sessions@.contains_key(id.0),
        !live@.contains(id) && old(c).runtime_sessions@[id.0]@.len() > 0 ==> exists|k: int|
            0 <= k < r@.len() && (#[trigger] r@[k]).window_id == id && r@[k].tab_ids@
                == old(c).runtime_sessions@[id.0]@,
        0 <= i < r@.len() ==> !live@.contains(r@[i].window_id) && r@[i].tab_ids@.len() > 0,
        0 <= i < j < r@.len() ==> r@[i].window_id != r@[j].window_id,
{
    assert(old(c).served(id) is Some);
    assert(final(c).served(id) is Some || !final(c).runtime_sessions@.contains_key(id.0));
    if !live@.contains(id) && old(c).runtime_sessions@[id.0]@.len() > 0 {
        let k = choose|k: int| 0 <= k < r@.len() && (#[trigger] r@[k]).window_id == id;
        assert(r@[k].window_id == id);
    }
}

/// The menu offers what fits the pane, the row it was opened on and the connection of the tab.
pub proof fn law_menu_offers_what_fits(
    w: Workspace,
    connected: bool,
    items: Vec<ContextItem>,
    r: Option<Vec<ContextItem>>,
)
    requires
        w.context_menu is Some,
        connected == (w.tabs.active() is Some && w.tabs.active()->0.connection is Connected),
        call_ensures(
            context_menu_items,
            (w.context_menu->0.side, w.context_menu->0.entry_index is Some, connected),
            items,
        ),
        call_ensures(Workspace::context_menu_view, (&w,), r),
    ensures
        r is Some,
        r->0@ == items@,
{
}

proof fn lemma_crumbs(segments: Seq<(Seq<char>, Seq<char>)>, items: Seq<Option<int>>)
    ensures
        items.len() == 0 ==> crumb_list(segments, items).len() == 0,
        items.len() > 0 ==> {
            let list = crumb_list(segments, items);
            &&& list.len() > 0
            &&& !(list[0] is Separator)
            &&& !(list.last() is Separator)
            &&& items.last() is Some ==> list.last() == (CrumbView::Directory {
                label: segments[items.last()->0].0,
                path: segments[items.last()->0].1,
            })
            &&& items.last() is None ==> list.last() is Gap
            &&& forall|k: int|
                0 <= k < list.len() - 1 ==> {
                    let a = #[trigger] list[k];
                    let b = list[k + 1];
                    &&& !(a is Separator && b is Separator)
                    &&& !(a is Separator) && !(b is Separator) ==> a is Directory && a->label
                        == "/"@
                    &&& b is Separator && a is Directory ==> a->label != "/"@
                }
        },
    decreases items.len(),
{
    if items.len() > 0 {
        let rest = items.drop_last();
        lemma_crumbs(segments, rest);
        let front = crumb_list(segments, rest);
        let list = crumb_list(segments, items);
        assert forall|k: int| 0 <= k < list.len() - 1 implies {
            let a = #[trigger] list[k];
            let b = list[k + 1];
            &&& !(a is Separator && b is Separator)
            &&& !(a is Separator) && !(b is Separator) ==> a is Directory && a->label == "/"@
            &&& b is Separator && a is Directory ==> a->label != "/"@
        } by {
            if k < front.len() - 1 {
                assert(list[k] == front[k]);
                assert(list[k + 1] == front[k + 1]);
            } else if k == front.len() - 1 {
                assert(list[k] == front.last());
            }
        }
    }
}

/// The pieces of a path are parted by one separator each, but for the root, which needs none; the
/// last of them is the directory itself.
pub proof fn law_crumbs_are_parted(
    path: &str,
    segments: Vec<(String, String)>,
    k: int,
    r: Vec<Crumb>,
)
    requires
        call_ensures(breadcrumb_segments, (path,), segments),
        call_ensures(path_crumbs, (path,), r),
    ensures
        r@.len() > 0,
        !(r@[0] is Separator),
        r@.last() is Directory,
        r@.last()->label@ == segments@.last().0@,
        r@.last()->path@ == segments@.last().1@,
        0 <= k < r@.len() - 1 ==> {
            &&& !(r@[k] is Separator && r@[k + 1] is Separator)
            &&& !(r@[k] is Separator) && !(r@[k + 1] is Separator) ==> r@[k] is Directory
                && r@[k]->label@ == "/"@
            &&& r@[k + 1] is Separator && r@[k] is Directory ==> r@[k]->label@ != "/"@
        },
{
    let all = trail(path@);
    assert(trail_texts(segments@) == all);
    assert(all.len() == segments@.len());
    let items = shown_segments(all.len());
    lemma_crumbs(all, items);
    let list = crumb_list(all, items);
    assert(crumb_views(r@) == list);
    assert(list.len() == r@.len());
    assert(list[0] == r@[0]@);
    let last = r@.len() - 1;
    assert(list[last] == r@[last]@);
    assert(items.last() == Some(all.len() - 1));
    assert(all.last() == (segments@.last().0@, segments@.last().1@));
    if 0 <= k < r@.len() - 1 {
        assert(list[k] == r@[k]@);
        assert(list[k + 1] == r@[k + 1]@);
    }
}

} // verus!
