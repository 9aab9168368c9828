//! Questions that are put to the user, what escape closes, and what reaches which window.

use vstd::prelude::*;

use super::common::{lemma_tab_at, shows};
use super::hearing::{asked_last, lemma_asked_last};
use super::texts::is_name;
use crate::dispatch::{
    all_tabs, dispatch_event, live_tabs, owner, owner_of, tab_remote_is_ready, tell_owner,
    DispatchStep, RuntimeEvent,
};
use crate::event_coordinator::{
    asks, conflict_prompt, law_every_question_is_asked, present_orphaned_transfer_conflicts,
    questions, unasked_at,
};
use crate::events::AppEvent;
use crate::front::CancelStep;
use crate::keys::{FieldKey, Keystroke};
use crate::lists::lemma_filter_holds;
use crate::modals::{
    id_of, is_asked, latest_conflict, latest_host_key, other_questions, ModalRequestId,
};
use crate::model::{
    ConflictDecision, ConflictDecisionCommand, ConflictRequest, ConflictRequestId, Dispatch,
    HostKeyPrompt, ModalRequest, TabId, TransferConflictPrompt, TransferId,
};
use crate::resources::{ResidualTemp, TransferReport};
use crate::tabs::{lemma_has_tab, TabState};
use crate::text::trim;
use crate::workspace::Workspace;

verus! {

/// The question `prompt` about an existing file is asked at `k`, and no later one.
pub open spec fn conflict_last(
    modals: Seq<ModalRequest>,
    k: int,
    prompt: TransferConflictPrompt,
) -> bool {
    &&& 0 <= k < modals.len()
    &&& modals[k] == ModalRequest::TransferConflict(prompt)
    &&& forall|j: int| k < j < modals.len() ==> !(#[trigger] modals[j] is TransferConflict)
}

proof fn lemma_conflict_last(modals: Seq<ModalRequest>, k: int, prompt: TransferConflictPrompt)
    requires
        conflict_last(modals, k, prompt),
    ensures
        latest_conflict(modals) == Some(prompt),
    decreases modals.len(),
{
    if k < modals.len() - 1 {
        let front = modals.drop_last();
        assert(front[k] == modals[k]);
        assert forall|j: int| k < j < front.len() implies !(
        #[trigger] front[j] is TransferConflict) by {
            assert(front[j] == modals[j]);
        }
        lemma_conflict_last(front, k, prompt);
        assert(!(modals[modals.len() - 1] is TransferConflict));
    }
}

proof fn lemma_no_conflict(modals: Seq<ModalRequest>)
    requires
        forall|j: int| 0 <= j < modals.len() ==> !(#[trigger] modals[j] is TransferConflict),
    ensures
        latest_conflict(modals) is None,
    decreases modals.len(),
{
    if modals.len() > 0 {
        let front = modals.drop_last();
        assert forall|j: int| 0 <= j < front.len() implies !(
        #[trigger] front[j] is TransferConflict) by {
            assert(front[j] == modals[j]);
        }
        lemma_no_conflict(front);
        assert(!(modals[modals.len() - 1] is TransferConflict));
    }
}

/// What the runtime waits for is what the user is asked.
pub proof fn law_question_says_what_is_waited_for(
    conflict: ConflictRequest,
    r: TransferConflictPrompt,
)
    requires
        call_ensures(conflict_prompt, (&conflict,), r),
    ensures
        r.request_id == conflict.id,
        r.plan_id == conflict.plan_id,
        r.transfer_id == conflict.transfer_id,
        r.source == conflict.source,
        r.destination == conflict.destination,
        r.source_size == conflict.source_size,
        r.source_modified_at == conflict.source_modified_at,
{
}

/// A question about an existing file is asked once, in front of the others, with a name offered.
/// The name typed for it is the answer, without the white space round it; answered, the question
/// is gone and the others stay.
pub proof fn law_typed_name_answers_the_question<'a>(
    a: &mut Workspace,
    b: &mut Workspace,
    c: &mut Workspace,
    d: &mut Workspace,
    e: &mut Workspace,
    prompt: TransferConflictPrompt,
    offered: String,
    shown: Option<&'a TransferConflictPrompt>,
    stroke: Keystroke,
    text: String,
    key: FieldKey,
    t: &str,
    name: String,
    all: bool,
    r: Option<ConflictDecisionCommand>,
    next: String,
    sent: bool,
    other: ModalRequest,
)
    requires
        old(a).wf(),
        forall|j: int|
            0 <= j < old(a).modals@.len() ==> (
            #[trigger] old(a).modals@[j] matches ModalRequest::TransferConflict(p)
                ==> p.request_id != prompt.request_id),
        call_ensures(Workspace::present_transfer_conflict, (a, prompt, offered), ()),
        call_ensures(Workspace::active_transfer_conflict_prompt, (&*final(a),), shown),
        *old(b) == *final(a),
        stroke.key@ != "enter"@,
        call_ensures(Workspace::handle_transfer_conflict_key, (b, &stroke, Some(text)), key),
        *old(c) == *final(b),
        t@ == text@,
        call_ensures(trim, (t,), name),
        call_ensures(Workspace::submit_transfer_rename, (c, all), r),
        *old(d) == *final(c),
        call_ensures(
            Workspace::resolve_transfer_conflict,
            (d, prompt.request_id, next, Dispatch::Sent),
            sent,
        ),
        *old(e) == *final(a),
        call_ensures(Workspace::present_transfer_conflict, (e, prompt, next), ()),
        other matches ModalRequest::TransferConflict(p) ==> p.request_id != prompt.request_id,
    ensures
        final(a).modals@ == old(a).modals@.push(ModalRequest::TransferConflict(prompt)),
        final(a).conflict_rename@ == offered@,
        shown is Some && *shown->0 == prompt,
        final(b).conflict_rename@ == text@,
        r is Some <==> is_name(name@),
        r is Some ==> {
            &&& r->0.plan_id == prompt.plan_id
            &&& r->0.request_id == prompt.request_id
            &&& r->0.decision matches ConflictDecision::Rename { new_name, apply_to_all }
                && new_name@ == name@ && apply_to_all == all
        },
        r is None ==> final(c).conflict_rename_error is Some && final(c).modals == old(c).modals,
        sent,
        !final(d).modals@.contains(ModalRequest::TransferConflict(prompt)),
        final(d).modals@.contains(other) <==> old(a).modals@.contains(other),
        *final(e) == *final(a),
{
    let was = old(a).modals@;
    let id = ModalRequestId::Conflict(prompt.request_id);
    assert(!is_asked(was, id)) by {
        if is_asked(was, id) {
            let j = choose|j: int| 0 <= j < was.len() && id_of(#[trigger] was[j]) == id;
            assert(was[j] is TransferConflict);
        }
    }
    let now = final(a).modals@;
    assert(id_of(now[was.len() as int]) == id);
    reveal_strlit(".");
    reveal_strlit("..");
    assert("."@ =~= seq!['.']);
    assert(".."@ =~= seq!['.', '.']);
    let keep = other_questions(id);
    lemma_filter_holds(now, keep);
    assert(!keep(ModalRequest::TransferConflict(prompt)));
    assert(keep(other));
    assert(now.filter(keep).contains(other) <==> now.contains(other));
    if was.contains(other) {
        let k = choose|k: int| 0 <= k < was.len() && was[k] == other;
        assert(now[k] == other);
    }
    if now.contains(other) {
        let k = choose|k: int| 0 <= k < now.len() && now[k] == other;
        assert(k < was.len());
        assert(was[k] == other);
    }
}

/// An answer that could not be sent leaves the question asked.
pub proof fn law_unsent_answer_leaves_the_question(
    a: &mut Workspace,
    b: &mut Workspace,
    c: &mut Workspace,
    id: ConflictRequestId,
    key: crate::model::TrustRequestId,
    next: String,
    outcome: Dispatch,
    r: bool,
    s: bool,
    t: bool,
)
    requires
        old(b).wf(),
        old(c).wf(),
        !(outcome is Sent),
        call_ensures(Workspace::resolve_transfer_conflict, (a, id, next, outcome), r),
        call_ensures(Workspace::accept_host_key, (b, key, outcome), s),
        call_ensures(Workspace::reject_host_key, (c, key, outcome), t),
    ensures
        !r && !s && !t,
        final(a).modals == old(a).modals,
        final(b).modals == old(b).modals && final(b).tabs == old(b).tabs,
        final(c).modals == old(c).modals && final(c).tabs == old(c).tabs,
        final(a).status_message is Some && final(b).status_message is Some
            && final(c).status_message is Some,
{
}

/// Every question that is waited for is asked in some window after the waiting ones were put, the
/// active one where there is one, and the other windows stay as they were.
pub proof fn law_waiting_questions_are_put(
    windows: &mut Vec<Workspace>,
    active: Option<usize>,
    pending: Vec<ConflictRequest>,
    names: Vec<String>,
    k: int,
    w: int,
)
    requires
        pending@.len() == names@.len(),
        old(windows)@.len() > 0,
        0 <= k < pending@.len(),
        0 <= w < old(windows)@.len(),
        call_ensures(
            present_orphaned_transfer_conflicts,
            (windows, active, &pending, &names),
            (),
        ),
    ensures
        final(windows)@.len() == old(windows)@.len(),
        exists|v: int, m: int|
            0 <= v < final(windows)@.len() && 0 <= m < final(windows)@[v].modals@.len() && (
            #[trigger] final(windows)@[v].modals@[m] matches ModalRequest::TransferConflict(p)
                && p.request_id == pending@[k].id),
        active is Some && active->0 < old(windows)@.len() && w != active->0 ==> final(windows)@[w]
            == old(windows)@[w],
        active is None && w != 0 ==> final(windows)@[w] == old(windows)@[w],
        final(windows)@[w].tabs == old(windows)@[w].tabs,
        old(windows)@[w].modals@.is_prefix_of(final(windows)@[w].modals@),
{
    law_every_question_is_asked(
        old(windows)@,
        final(windows)@,
        active,
        pending@,
        names@,
        k,
    );
    let after = final(windows)@;
    let id = pending@[k].id;
    let v = choose|v: int| 0 <= v < after.len() && asks(#[trigger] after[v], id);
    let modals = after[v].modals@;
    let m = choose|m: int|
        0 <= m < modals.len() && id_of(#[trigger] modals[m]) == ModalRequestId::Conflict(id);
    assert(final(windows)@[v].modals@[m] matches ModalRequest::TransferConflict(p) && p.request_id
        == pending@[k].id);
    let t = crate::event_coordinator::asking_window(active, old(windows)@.len());
    if w == t {
        let added = questions(pending@, unasked_at(old(windows)@, pending@));
        assert(after[w].modals@ == old(windows)@[w].modals@ + added);
    }
}

/// No question is asked and nothing else stands in front of the panes but what is named after.
pub open spec fn nothing_asked(w: Workspace) -> bool {
    w.modals@.len() == 0
}

/// Escape closes one thing at a time, in the order in which they lie over each other: the palette,
/// the switcher, the path field, the about box, the question about a profile, the settings, the
/// question about deleting, the menu, the field for a name, and the form with its list on top.
pub proof fn law_escape_closes_the_front_alone(w: &mut Workspace, r: CancelStep)
    requires
        old(w).wf(),
        nothing_asked(*old(w)),
        call_ensures(Workspace::cancel_active_modal, (w,), r),
    ensures
        r is Done,
        final(w).palette.open <==> false,
        final(w).tabs.switcher_open <==> old(w).palette.open && old(w).tabs.switcher_open,
        final(w).go_to_path_open <==> old(w).go_to_path_open && (old(w).palette.open
            || old(w).tabs.switcher_open),
        ({
            let over = old(w).palette.open || old(w).tabs.switcher_open || old(w).go_to_path_open;
            &&& final(w).about_open <==> old(w).about_open && over
            &&& !over && old(w).about_open ==> final(w).profile_delete_confirm
                == old(w).profile_delete_confirm
        }),
        ({
            let over = old(w).palette.open || old(w).tabs.switcher_open || old(w).go_to_path_open
                || old(w).about_open;
            &&& over ==> {
                &&& final(w).profile_delete_confirm == old(w).profile_delete_confirm
                &&& final(w).surface == old(w).surface
                &&& final(w).delete_confirm == old(w).delete_confirm
                &&& final(w).context_menu == old(w).context_menu
                &&& final(w).inline_edit == old(w).inline_edit
                &&& final(w).connect_form == old(w).connect_form
                &&& final(w).profile_editor == old(w).profile_editor
            }
            &&& !over && old(w).profile_delete_confirm is Some ==> {
                &&& final(w).profile_delete_confirm is None
                &&& final(w).surface == old(w).surface
                &&& final(w).delete_confirm == old(w).delete_confirm
                &&& final(w).inline_edit == old(w).inline_edit
                &&& final(w).connect_form == old(w).connect_form
                &&& final(w).profile_editor == old(w).profile_editor
            }
            &&& !over && old(w).profile_delete_confirm is None && old(w).surface is Settings ==> {
                &&& final(w).surface is Files
                &&& final(w).profile_editor is None
                &&& final(w).delete_confirm == old(w).delete_confirm
                &&& final(w).inline_edit == old(w).inline_edit
                &&& final(w).connect_form == old(w).connect_form
            }
            &&& !over && old(w).profile_delete_confirm is None && !(old(w).surface is Settings)
                ==> if old(w).delete_confirm is Some {
                &&& final(w).delete_confirm is None
                &&& final(w).context_menu == old(w).context_menu
                &&& final(w).inline_edit == old(w).inline_edit
                &&& final(w).connect_form == old(w).connect_form
            } else if old(w).context_menu is Some {
                &&& final(w).context_menu is None
                &&& final(w).inline_edit == old(w).inline_edit
                &&& final(w).connect_form == old(w).connect_form
            } else if old(w).inline_edit is Some {
                &&& final(w).inline_edit is None
                &&& final(w).connect_form == old(w).connect_form
            } else if old(w).connect_form is Some {
                if old(w).connect_form->0.profile_picker_open {
                    &&& final(w).connect_form is Some
                    &&& !final(w).connect_form->0.profile_picker_open
                    &&& final(w).connect_form->0.host == old(w).connect_form->0.host
                } else {
                    final(w).connect_form is None
                }
            } else {
                *final(w) == *old(w)
            }
        }),
        final(w).tabs.tabs == old(w).tabs.tabs,
        final(w).tabs.active_tab_id == old(w).tabs.active_tab_id,
{
    lemma_no_conflict(old(w).modals@);
    if old(w).tabs.active_tab_id is Some {
        assert(latest_host_key(old(w).modals@, old(w).tabs.active_tab_id->0) is None);
    }
}

/// Nothing lies over the questions of the runtime.
pub open spec fn questions_in_front(w: Workspace) -> bool {
    &&& !w.palette.open
    &&& !w.tabs.switcher_open
    &&& !w.go_to_path_open
    &&& !w.about_open
    &&& w.profile_delete_confirm is None
    &&& w.surface is Files
    &&& w.delete_confirm is None
    &&& w.context_menu is None
    &&& w.inline_edit is None
    &&& w.connect_form is None
}

/// Escape answers the question in front with no: it rejects the key that the tab asks about, and
/// calls off the transfer that asks about a file.
pub proof fn law_escape_answers_with_no(
    w: &mut Workspace,
    i: int,
    k: int,
    key: HostKeyPrompt,
    prompt: TransferConflictPrompt,
    r: CancelStep,
)
    requires
        shows(*old(w), i),
        questions_in_front(*old(w)),
        call_ensures(Workspace::cancel_active_modal, (w,), r),
    ensures
        key.scope.tab_id == old(w).tabs.tabs@[i].id && asked_last(old(w).modals@, k, key) ==> r
            == CancelStep::RejectHostKey(key.request_id) && *final(w) == *old(w),
        (forall|j: int| 0 <= j < old(w).modals@.len() ==> !(#[trigger] old(w).modals@[j] is HostKey))
            && conflict_last(old(w).modals@, k, prompt) ==> r == CancelStep::ResolveConflict(
            ConflictDecisionCommand {
                plan_id: prompt.plan_id,
                request_id: prompt.request_id,
                decision: ConflictDecision::CancelJob,
            },
        ) && *final(w) == *old(w),
{
    let modals = old(w).modals@;
    if key.scope.tab_id == old(w).tabs.tabs@[i].id && asked_last(modals, k, key) {
        lemma_asked_last(modals, k, key);
    }
    if (forall|j: int| 0 <= j < modals.len() ==> !(#[trigger] modals[j] is HostKey))
        && conflict_last(modals, k, prompt) {
        lemma_conflict_last(modals, k, prompt);
        lemma_no_key(modals, old(w).tabs.tabs@[i].id);
    }
}

proof fn lemma_no_key(modals: Seq<ModalRequest>, id: TabId)
    requires
        forall|j: int| 0 <= j < modals.len() ==> !(#[trigger] modals[j] is HostKey),
    ensures
        latest_host_key(modals, id) is None,
    decreases modals.len(),
{
    if modals.len() > 0 {
        let front = modals.drop_last();
        assert forall|j: int| 0 <= j < front.len() implies !(#[trigger] front[j] is HostKey) by {
            assert(front[j] == modals[j]);
        }
        lemma_no_key(front, id);
        assert(!(modals[modals.len() - 1] is HostKey));
    }
}

/// A transfer that ended is noted, and what waited for it goes on; a question is put; and what is
/// told of a window reaches the windows as it is.
pub proof fn law_events_go_where_they_belong(
    event: RuntimeEvent,
    r: Vec<DispatchStep>,
    id: TransferId,
    told: AppEvent,
    record: ResidualTemp,
    path: String,
)
    requires
        call_ensures(dispatch_event, (event,), r),
    ensures
        event is Transfer ==> r@.len() > 0 && r@[0] is NoteTransfer && r@.last() is RefreshWindows,
        event == RuntimeEvent::Transfer(TransferReport::Completed { transfer_id: id })
            ==> r@.contains(DispatchStep::AdvanceEdits { transfer_id: id, succeeded: true }),
        event == RuntimeEvent::Transfer(TransferReport::Failed { transfer_id: id }) ==> r@.contains(
            DispatchStep::AdvanceEdits { transfer_id: id, succeeded: false },
        ),
        event is Transfer && event->Transfer_0 is Conflict ==> r@.contains(
            DispatchStep::PresentConflicts,
        ),
        event is Transfer && !(event->Transfer_0 is Completed) && !(event->Transfer_0 is Failed)
            ==> forall|k: int| 0 <= k < r@.len() ==> !(#[trigger] r@[k] is AdvanceEdits),
        event == RuntimeEvent::Window(AppEvent::ResidualTempCreated(record)) ==> r@.len() == 2
            && r@[0] == DispatchStep::RememberTemp(record) && r@[1] is SaveTemps,
        event == RuntimeEvent::Window(AppEvent::ResidualTempCleared { transfer_id: id, path })
            ==> r@.len() == 2 && r@[0] == (DispatchStep::ForgetTemp { transfer_id: id, path })
            && r@[1] is SaveTemps,
        event == RuntimeEvent::Window(told) && !(told is ResidualTempCreated)
            && !(told is ResidualTempCleared) ==> r@.len() == 1 && r@[0]
            == DispatchStep::TellWindows(told),
{
    if event is Transfer {
        if event->Transfer_0 is Completed || event->Transfer_0 is Failed
            || event->Transfer_0 is Conflict {
            assert(r@.contains(r@[1]));
        }
    }
}

proof fn lemma_owner(windows: Seq<Workspace>, id: TabId)
    ensures
        0 <= owner(windows, id) <= windows.len(),
        forall|v: int|
            0 <= v < owner(windows, id) ==> !crate::tabs::has_tab(
                (#[trigger] windows[v]).tabs.tabs@,
                id,
            ),
        owner(windows, id) < windows.len() ==> crate::tabs::has_tab(
            windows[owner(windows, id)].tabs.tabs@,
            id,
        ),
    decreases windows.len(),
{
    if windows.len() > 0 && !crate::tabs::has_tab(windows[0].tabs.tabs@, id) {
        let rest = windows.drop_first();
        lemma_owner(rest, id);
        assert forall|v: int| 0 <= v < owner(windows, id) implies !crate::tabs::has_tab(
            (#[trigger] windows[v]).tabs.tabs@,
            id,
        ) by {
            if v > 0 {
                assert(rest[v - 1] == windows[v]);
            }
        }
    }
}

/// The window has a tab with the id.
pub open spec fn holds(window: Workspace, id: TabId) -> bool {
    exists|j: int| 0 <= j < window.tabs.tabs@.len() && (#[trigger] window.tabs.tabs@[j]).id == id
}

/// What concerns a tab is told in the window that holds it, and in no other.
pub proof fn law_message_reaches_the_window_of_the_tab(
    windows: &mut Vec<Workspace>,
    id: TabId,
    w: int,
    v: int,
    message: &str,
    found: Option<usize>,
    told: bool,
)
    requires
        0 <= w < old(windows)@.len(),
        0 <= v < old(windows)@.len(),
        v != w,
        holds(old(windows)@[w], id),
        forall|u: int|
            0 <= u < old(windows)@.len() && u != w ==> !holds(#[trigger] old(windows)@[u], id),
        call_ensures(owner_of, (&*old(windows), id), found),
        call_ensures(tell_owner, (windows, id, message), told),
    ensures
        found is Some && found->0 == w,
        told,
        final(windows)@[w].status_message is Some,
        final(windows)@[w].status_message->0@ == message@,
        final(windows)@[w].tabs == old(windows)@[w].tabs,
        final(windows)@[v] == old(windows)@[v],
{
    let all = old(windows)@;
    lemma_owner(all, id);
    lemma_has_tab(all[w].tabs.tabs@, id);
    let o = owner(all, id);
    if o < all.len() && o != w {
        lemma_has_tab(all[o].tabs.tabs@, id);
        assert(!holds(all[o], id));
    }
}

/// What concerns a tab that no window holds is told nowhere.
pub proof fn law_message_of_a_closed_tab_is_dropped(
    windows: &mut Vec<Workspace>,
    id: TabId,
    v: int,
    message: &str,
    found: Option<usize>,
    told: bool,
)
    requires
        0 <= v < old(windows)@.len(),
        forall|u: int| 0 <= u < old(windows)@.len() ==> !holds(#[trigger] old(windows)@[u], id),
        call_ensures(owner_of, (&*old(windows), id), found),
        call_ensures(tell_owner, (windows, id, message), told),
    ensures
        found is None,
        !told,
        final(windows)@[v] == old(windows)@[v],
{
    let all = old(windows)@;
    lemma_owner(all, id);
    let o = owner(all, id);
    if o < all.len() {
        lemma_has_tab(all[o].tabs.tabs@, id);
        assert(!holds(all[o], id));
    }
}

proof fn lemma_all_tabs(windows: Seq<Workspace>, id: TabId)
    ensures
        all_tabs(windows).contains(id) <==> exists|w: int|
            0 <= w < windows.len() && holds(#[trigger] windows[w], id),
    decreases windows.len(),
{
    if windows.len() > 0 {
        let front = windows.drop_last();
        lemma_all_tabs(front, id);
        let last = windows.last();
        let ids = last.tabs.tabs@.map_values(|t: TabState| t.id);
        let all = all_tabs(windows);
        assert(all =~= all_tabs(front) + ids);
        if all.contains(id) {
            let k = choose|k: int| 0 <= k < all.len() && all[k] == id;
            if k < all_tabs(front).len() {
                assert(all_tabs(front)[k] == id);
                let w = choose|w: int| 0 <= w < front.len() && holds(#[trigger] front[w], id);
                assert(holds(windows[w], id));
            } else {
                let j = k - all_tabs(front).len();
                assert(ids[j] == id);
                assert(last.tabs.tabs@[j].id == id);
                assert(holds(windows[windows.len() - 1], id));
            }
        }
        if exists|w: int| 0 <= w < windows.len() && holds(#[trigger] windows[w], id) {
            let w = choose|w: int| 0 <= w < windows.len() && holds(#[trigger] windows[w], id);
            if w < windows.len() - 1 {
                assert(holds(front[w], id));
                let k = choose|k: int| 0 <= k < all_tabs(front).len() && all_tabs(front)[k] == id;
                assert(all[k] == id);
            } else {
                let j = choose|j: int|
                    0 <= j < last.tabs.tabs@.len() && (#[trigger] last.tabs.tabs@[j]).id == id;
                assert(ids[j] == id);
                assert(all[all_tabs(front).len() + j] == id);
            }
        }
    } else {
        assert(all_tabs(windows) =~= Seq::<TabId>::empty());
    }
}

/// The tabs that live are those of the windows, all of them.
pub proof fn law_live_tabs_are_those_of_the_windows(
    windows: Vec<Workspace>,
    id: TabId,
    r: Vec<TabId>,
)
    requires
        call_ensures(live_tabs, (&windows,), r),
    ensures
        r@.contains(id) <==> exists|w: int| 0 <= w < windows@.len() && holds(
            #[trigger] windows@[w],
            id,
        ),
{
    lemma_all_tabs(windows@, id);
}

/// A listing is relied on where its tab is connected and shows a directory that is not being read,
/// and nowhere else.
pub proof fn law_only_a_settled_listing_is_relied_on(
    windows: Vec<Workspace>,
    w: int,
    i: int,
    r: bool,
)
    requires
        0 <= w < windows@.len(),
        windows@[w].wf(),
        0 <= i < windows@[w].tabs.tabs@.len(),
        forall|u: int|
            0 <= u < windows@.len() && u != w ==> !holds(
                #[trigger] windows@[u],
                windows@[w].tabs.tabs@[i].id,
            ),
        call_ensures(tab_remote_is_ready, (&windows, windows@[w].tabs.tabs@[i].id), r),
    ensures
        ({
            let tab = windows@[w].tabs.tabs@[i];
            r <==> tab.connection is Connected && tab.remote.path is Some
                && !tab.remote.is_refreshing
        }),
{
    let tab = windows@[w].tabs.tabs@[i];
    lemma_tab_at(windows@[w].tabs.tabs@, i);
    if r {
        let u = choose|u: int|
            0 <= u < windows@.len() && crate::dispatch::ready_in(#[trigger] windows@[u], tab.id);
        lemma_has_tab(windows@[u].tabs.tabs@, tab.id);
        assert(holds(windows@[u], tab.id));
        assert(u == w);
        assert(crate::workspace::remote_is_ready(tab));
    }
    if tab.connection is Connected && tab.remote.path is Some && !tab.remote.is_refreshing {
        assert(crate::dispatch::ready_in(windows@[w], tab.id));
    }
}

}
