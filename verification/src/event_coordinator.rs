//! What is told to the process rather than to a window: which window asks about an existing file.

use vstd::prelude::*;

use crate::modals::{is_asked, ModalRequestId};
use crate::model::{ConflictRequest, ConflictRequestId, ModalRequest, TransferConflictPrompt};
use crate::workspace::Workspace;

verus! {

/// The question that is put to the user.
pub open spec fn prompt_of(conflict: ConflictRequest) -> TransferConflictPrompt {
    TransferConflictPrompt {
        plan_id: conflict.plan_id,
        request_id: conflict.id,
        transfer_id: conflict.transfer_id,
        source: conflict.source,
        destination: conflict.destination,
        source_size: conflict.source_size,
        source_modified_at: conflict.source_modified_at,
    }
}

/// The question that is put to the user.
pub fn conflict_prompt(conflict: &ConflictRequest) -> (r: TransferConflictPrompt)
    ensures
        r == prompt_of(*conflict),
{
    TransferConflictPrompt {
        plan_id: conflict.plan_id,
        request_id: conflict.id,
        transfer_id: conflict.transfer_id,
        source: conflict.source.clone(),
        destination: conflict.destination.clone(),
        source_size: conflict.source_size,
        source_modified_at: conflict.source_modified_at,
    }
}

/// A window asks a question.
pub open spec fn asks(window: Workspace, id: ConflictRequestId) -> bool {
    is_asked(window.modals@, ModalRequestId::Conflict(id))
}

/// Some window asks a question.
pub open spec fn asked_in(windows: Seq<Workspace>, id: ConflictRequestId) -> bool {
    exists|w: int| 0 <= w < windows.len() && asks(#[trigger] windows[w], id)
}

/// Some question of a list has the id.
pub open spec fn offers(pending: Seq<ConflictRequest>, at: Seq<int>, id: ConflictRequestId) -> bool {
    exists|k: int| 0 <= k < at.len() && pending[#[trigger] at[k]].id == id
}

/// The positions of the waiting questions that no window asks yet, each once.
pub open spec fn unasked_at(windows: Seq<Workspace>, pending: Seq<ConflictRequest>) -> Seq<int>
    decreases pending.len(),
{
    if pending.len() == 0 {
        Seq::empty()
    } else {
        let front = unasked_at(windows, pending.drop_last());
        let id = pending.last().id;
        if asked_in(windows, id) || offers(pending, front, id) {
            front
        } else {
            front.push(pending.len() - 1)
        }
    }
}

/// The questions at the given positions, as a window asks them.
pub open spec fn questions(pending: Seq<ConflictRequest>, at: Seq<int>) -> Seq<ModalRequest> {
    Seq::new(at.len(), |k: int| ModalRequest::TransferConflict(prompt_of(pending[at[k]])))
}

/// The window that asks: the active one, or else the first.
pub open spec fn asking_window(active: Option<usize>, count: nat) -> int {
    match active {
        Some(w) => if w < count {
            w as int
        } else {
            0
        },
        None => 0,
    }
}

proof fn lemma_unasked_bounds(windows: Seq<Workspace>, pending: Seq<ConflictRequest>)
    ensures
        forall|k: int|
            0 <= k < unasked_at(windows, pending).len() ==> 0 <= #[trigger] unasked_at(
                windows,
                pending,
            )[k] < pending.len(),
    decreases pending.len(),
{
    if pending.len() > 0 {
        let front = unasked_at(windows, pending.drop_last());
        lemma_unasked_bounds(windows, pending.drop_last());
        assert forall|k: int| 0 <= k < unasked_at(windows, pending).len() implies 0
            <= #[trigger] unasked_at(windows, pending)[k] < pending.len() by {
            if k < front.len() {
                assert(unasked_at(windows, pending)[k] == front[k]);
            }
        }
    }
}

proof fn lemma_asks_push(before: Workspace, after: Workspace, prompt: TransferConflictPrompt)
    requires
        after.modals@ == before.modals@.push(ModalRequest::TransferConflict(prompt)),
    ensures
        forall|id: ConflictRequestId| #[trigger]
            asks(after, id) <==> asks(before, id) || id == prompt.request_id,
{
    let m = after.modals@;
    assert forall|id: ConflictRequestId| #[trigger] asks(after, id) <==> asks(before, id) || id
        == prompt.request_id by {
        let key = ModalRequestId::Conflict(id);
        if asks(before, id) {
            let k = choose|k: int|
                0 <= k < before.modals@.len() && crate::modals::id_of(#[trigger] before.modals@[k])
                    == key;
            assert(crate::modals::id_of(m[k]) == key);
        }
        if id == prompt.request_id {
            assert(crate::modals::id_of(m[m.len() - 1]) == key);
        }
        if asks(after, id) {
            let k = choose|k: int|
                0 <= k < m.len() && crate::modals::id_of(#[trigger] m[k]) == key;
            if k < before.modals@.len() {
                assert(crate::modals::id_of(before.modals@[k]) == key);
            }
        }
    }
}

fn any_asks(windows: &Vec<Workspace>, id: ConflictRequestId) -> (r: bool)
    ensures
        r == asked_in(windows@, id),
{
    let mut w: usize = 0;
    while w < windows.len()
        invariant
            w <= windows@.len(),
            forall|k: int| 0 <= k < w ==> !asks(#[trigger] windows@[k], id),
        decreases windows@.len() - w,
    {
        if windows[w].has_transfer_conflict_modal(id) {
            assert(asks(windows@[w as int], id));
            return true;
        }
        w += 1;
    }
    false
}

/// The window that asks the waiting questions asks those at the given positions too.
pub open spec fn asks_too(
    before: Workspace,
    after: Workspace,
    pending: Seq<ConflictRequest>,
    names: Seq<String>,
    at: Seq<int>,
) -> bool {
    &&& after == (Workspace {
        modals: after.modals,
        conflict_rename: after.conflict_rename,
        conflict_rename_error: after.conflict_rename_error,
        focus: after.focus,
        ..before
    })
    &&& after.modals@ == before.modals@ + questions(pending, at)
    &&& if at.len() == 0 {
        &&& after.conflict_rename == before.conflict_rename
        &&& after.conflict_rename_error == before.conflict_rename_error
        &&& after.focus == before.focus
    } else {
        &&& after.conflict_rename == names[at.last()]
        &&& after.conflict_rename_error is None
        &&& after.focus is Modal
    }
}

/// Puts the waiting questions that no window asks to the active window, or else the first;
/// `names` are what is offered as other names.
pub fn present_orphaned_transfer_conflicts(
    windows: &mut Vec<Workspace>,
    active: Option<usize>,
    pending: &Vec<ConflictRequest>,
    names: &Vec<String>,
)
    requires
        pending@.len() == names@.len(),
    ensures
        final(windows)@.len() == old(windows)@.len(),
        old(windows)@.len() > 0 ==> {
            let t = asking_window(active, old(windows)@.len());
            &&& forall|w: int|
                0 <= w < old(windows)@.len() && w != t ==> #[trigger] final(windows)@[w] == old(
                    windows,
                )@[w]
            &&& asks_too(
                old(windows)@[t],
                final(windows)@[t],
                pending@,
                names@,
                unasked_at(old(windows)@, pending@),
            )
        },
{
    let count: usize = windows.len();
    if count == 0 {
        return;
    }
    let target: usize = match active {
        Some(w) => if w < count {
            w
        } else {
            0
        },
        None => 0,
    };
    let ghost before = windows@;
    let ghost all = pending@;
    let mut i: usize = 0;
    proof {
        assert(all.take(0) =~= Seq::<ConflictRequest>::empty());
        assert(before[target as int].modals@ =~= before[target as int].modals@ + questions(
            all,
            unasked_at(before, all.take(0)),
        ));
    }
    while i < pending.len()
        invariant
            i <= pending@.len(),
            all == pending@,
            pending@.len() == names@.len(),
            count == before.len(),
            target < count,
            windows@.len() == count,
            forall|w: int| 0 <= w < count && w != target ==> #[trigger] windows@[w] == before[w],
            asks_too(
                before[target as int],
                windows@[target as int],
                all,
                names@,
                unasked_at(before, all.take(i as int)),
            ),
            forall|id: ConflictRequestId| #[trigger]
                asks(windows@[target as int], id) <==> asks(before[target as int], id) || offers(
                    all,
                    unasked_at(before, all.take(i as int)),
                    id,
                ),
        decreases pending@.len() - i,
    {
        let ghost at = unasked_at(before, all.take(i as int));
        let ghost now = windows@[target as int];
        let id = pending[i].id;
        proof {
            let next = all.take(i + 1);
            assert(next.drop_last() =~= all.take(i as int));
            assert(next.last() == all[i as int]);
            lemma_unasked_bounds(before, all.take(i as int));
            assert(offers(next, at, id) <==> offers(all, at, id)) by {
                assert forall|k: int| 0 <= k < at.len() implies next[#[trigger] at[k]].id
                    == all[at[k]].id by {}
                if offers(all, at, id) {
                    let k = choose|k: int| 0 <= k < at.len() && all[#[trigger] at[k]].id == id;
                    assert(next[at[k]].id == id);
                }
                if offers(next, at, id) {
                    let k = choose|k: int| 0 <= k < at.len() && next[#[trigger] at[k]].id == id;
                    assert(all[at[k]].id == id);
                }
            }
            assert(asked_in(windows@, id) <==> asked_in(before, id) || offers(all, at, id)) by {
                if asked_in(windows@, id) {
                    let w = choose|w: int|
                        0 <= w < windows@.len() && asks(#[trigger] windows@[w], id);
                    if w == target {
                        assert(asks(before[w], id) || offers(all, at, id));
                    } else {
                        assert(asks(before[w], id));
                    }
                }
                if asked_in(before, id) {
                    let w = choose|w: int| 0 <= w < before.len() && asks(#[trigger] before[w], id);
                    assert(asks(windows@[w], id));
                }
                if offers(all, at, id) {
                    assert(asks(windows@[target as int], id));
                }
            }
        }
        if !any_asks(windows, id) {
            let prompt = conflict_prompt(&pending[i]);
            let name = names[i].clone();
            let ghost held = windows@;
            proof {
                assert(!asks(windows@[target as int], id));
            }
            windows[target].present_transfer_conflict(prompt, name);
            proof {
                let after = windows@[target as int];
                lemma_asks_push(now, after, prompt_of(all[i as int]));
                let grown = at.push(i as int);
                assert(unasked_at(before, all.take(i + 1)) == grown);
                assert(after.modals@ =~= before[target as int].modals@ + questions(all, grown));
                assert forall|x: ConflictRequestId| #[trigger]
                    asks(after, x) <==> asks(before[target as int], x) || offers(
                        all,
                        grown,
                        x,
                    ) by {
                    if offers(all, at, x) {
                        let k = choose|k: int| 0 <= k < at.len() && all[#[trigger] at[k]].id == x;
                        assert(all[grown[k]].id == x);
                    }
                    if x == id {
                        assert(all[grown[at.len() as int]].id == x);
                    }
                    if offers(all, grown, x) {
                        let k = choose|k: int|
                            0 <= k < grown.len() && all[#[trigger] grown[k]].id == x;
                        if k < at.len() {
                            assert(all[at[k]].id == x);
                        }
                    }
                }
            }
        }
        i += 1;
    }
    assert(all.take(i as int) =~= all);
}

/// Once the waiting questions were put, each is asked in some window.
pub proof fn law_every_question_is_asked(
    before: Seq<Workspace>,
    after: Seq<Workspace>,
    active: Option<usize>,
    pending: Seq<ConflictRequest>,
    names: Seq<String>,
    k: int,
)
    requires
        before.len() > 0,
        after.len() == before.len(),
        forall|w: int|
            0 <= w < before.len() && w != asking_window(active, before.len())
                ==> #[trigger] after[w] == before[w],
        asks_too(
            before[asking_window(active, before.len())],
            after[asking_window(active, before.len())],
            pending,
            names,
            unasked_at(before, pending),
        ),
        0 <= k < pending.len(),
    ensures
        asked_in(after, pending[k].id),
{
    let t = asking_window(active, before.len());
    let at = unasked_at(before, pending);
    lemma_covered(before, pending, k);
    lemma_unasked_bounds(before, pending);
    let id = pending[k].id;
    let key = ModalRequestId::Conflict(id);
    let own = before[t].modals@;
    if asked_in(before, id) {
        let w = choose|w: int| 0 <= w < before.len() && asks(#[trigger] before[w], id);
        if w == t {
            let j = choose|j: int|
                0 <= j < own.len() && crate::modals::id_of(#[trigger] own[j]) == key;
            assert(crate::modals::id_of(after[t].modals@[j]) == key);
        }
        assert(asks(after[w], id));
    } else {
        let j = choose|j: int| 0 <= j < at.len() && pending[#[trigger] at[j]].id == id;
        assert(after[t].modals@[own.len() + j] == questions(pending, at)[j]);
        assert(crate::modals::id_of(after[t].modals@[own.len() + j]) == key);
        assert(asks(after[t], id));
    }
}

proof fn lemma_covered(windows: Seq<Workspace>, pending: Seq<ConflictRequest>, k: int)
    requires
        0 <= k < pending.len(),
    ensures
        asked_in(windows, pending[k].id) || offers(
            pending,
            unasked_at(windows, pending),
            pending[k].id,
        ),
    decreases pending.len(),
{
    let rest = pending.drop_last();
    let front = unasked_at(windows, rest);
    let all = unasked_at(windows, pending);
    lemma_unasked_bounds(windows, rest);
    let id = pending[k].id;
    if k < rest.len() {
        lemma_covered(windows, rest, k);
        if !asked_in(windows, id) {
            let j = choose|j: int| 0 <= j < front.len() && rest[#[trigger] front[j]].id == id;
            assert(all[j] == front[j]);
            assert(pending[all[j]].id == id);
        }
    } else if !asked_in(windows, id) && !offers(pending, front, id) {
        assert(all[front.len() as int] == k);
        assert(pending[all[front.len() as int]].id == id);
    }
}

/// No question is put twice: the ones that are put are asked nowhere before, and differ from each
/// other.
pub proof fn law_no_question_is_asked_twice(
    windows: Seq<Workspace>,
    pending: Seq<ConflictRequest>,
    i: int,
    j: int,
)
    requires
        0 <= i < j < unasked_at(windows, pending).len(),
    ensures
        !asked_in(windows, pending[unasked_at(windows, pending)[i]].id),
        !asked_in(windows, pending[unasked_at(windows, pending)[j]].id),
        pending[unasked_at(windows, pending)[i]].id != pending[unasked_at(windows, pending)[j]].id,
    decreases pending.len(),
{
    let rest = pending.drop_last();
    let front = unasked_at(windows, rest);
    let all = unasked_at(windows, pending);
    lemma_unasked_bounds(windows, rest);
    assert(rest[front[i]] == pending[front[i]]);
    if j < front.len() {
        law_no_question_is_asked_twice(windows, rest, i, j);
        assert(rest[front[j]] == pending[front[j]]);
    } else {
        lemma_unasked(windows, rest, i);
        assert(all[i] == front[i]);
        assert(all[j] == pending.len() - 1);
        if pending[all[i]].id == pending[all[j]].id {
            assert(pending[front[i]].id == pending.last().id);
            assert(offers(pending, front, pending.last().id));
        }
    }
}

proof fn lemma_unasked(windows: Seq<Workspace>, pending: Seq<ConflictRequest>, i: int)
    requires
        0 <= i < unasked_at(windows, pending).len(),
    ensures
        !asked_in(windows, pending[unasked_at(windows, pending)[i]].id),
    decreases pending.len(),
{
    let rest = pending.drop_last();
    let front = unasked_at(windows, rest);
    lemma_unasked_bounds(windows, rest);
    if i < front.len() {
        lemma_unasked(windows, rest, i);
        assert(rest[front[i]] == pending[front[i]]);
    }
}

}
