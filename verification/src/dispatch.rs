//! What reaches the process as a whole: where an event goes, and which window something is told
//! in.

use vstd::prelude::*;

use crate::edit_sessions::{
    candidates, check_command, check_parts, is_sound, law_poll_looks_at_each_session_once,
    lemma_candidates, lemma_session_index, lemma_session_index_is, looked_at_in, polled_all,
    reverted, session_index, was_saved, EditSessionStore, TempLook, WatchStep,
};
use crate::events::AppEvent;
use crate::model::{Dispatch, EditSessionId, RemoteSnapshot, TabId, Timestamp, TransferId};
use crate::resources::{ResidualTemp, TransferReport};
use crate::tabs::{has_tab, tab_index};
use crate::workspace::{listed_snapshot, listing_synced, remote_is_ready, Workspace};

verus! {

/// What the runtime tells.
#[derive(PartialEq, Eq, Debug)]
pub enum RuntimeEvent {
    Transfer(TransferReport),
    Window(AppEvent),
}

/// One thing to do about an event.
#[derive(PartialEq, Eq, Debug)]
pub enum DispatchStep {
    /// The transfers and the book of speeds take the report.
    NoteTransfer,
    /// Questions that no window asks are put to one.
    PresentConflicts,
    /// The edit that waited for the transfer goes on.
    AdvanceEdits { transfer_id: TransferId, succeeded: bool },
    RefreshWindows,
    RememberTemp(ResidualTemp),
    ForgetTemp { transfer_id: TransferId, path: String },
    SaveTemps,
    /// Every window gets the event.
    TellWindows(AppEvent),
}

/// The transfer that a report ends for good, and whether it succeeded: a skipped one is neither.
pub open spec fn ended(report: TransferReport) -> Option<(TransferId, bool)> {
    match report {
        TransferReport::Completed { transfer_id } => Some((transfer_id, true)),
        TransferReport::Failed { transfer_id } => Some((transfer_id, false)),
        _ => None,
    }
}

/// What is done about an event, in order.
pub open spec fn steps_of(event: RuntimeEvent) -> Seq<DispatchStep> {
    match event {
        RuntimeEvent::Transfer(report) => {
            let asked = if report is Conflict {
                seq![DispatchStep::PresentConflicts]
            } else {
                Seq::empty()
            };
            let edits = match ended(report) {
                Some((transfer_id, succeeded)) => seq![
                    DispatchStep::AdvanceEdits { transfer_id, succeeded },
                ],
                None => Seq::empty(),
            };
            seq![DispatchStep::NoteTransfer] + asked + edits + seq![DispatchStep::RefreshWindows]
        },
        RuntimeEvent::Window(AppEvent::ResidualTempCreated(record)) => seq![
            DispatchStep::RememberTemp(record),
            DispatchStep::SaveTemps,
        ],
        RuntimeEvent::Window(AppEvent::ResidualTempCleared { transfer_id, path }) => seq![
            DispatchStep::ForgetTemp { transfer_id, path },
            DispatchStep::SaveTemps,
        ],
        RuntimeEvent::Window(event) => seq![DispatchStep::TellWindows(event)],
    }
}

/// What is done about an event, in order.
pub fn dispatch_event(event: RuntimeEvent) -> (r: Vec<DispatchStep>)
    ensures
        r@ == steps_of(event),
{
    let ghost all = steps_of(event);
    let mut steps: Vec<DispatchStep> = Vec::new();
    match event {
        RuntimeEvent::Transfer(report) => {
            steps.push(DispatchStep::NoteTransfer);
            match report {
                TransferReport::Conflict(_) => steps.push(DispatchStep::PresentConflicts),
                TransferReport::Completed { transfer_id } => steps.push(
                    DispatchStep::AdvanceEdits { transfer_id, succeeded: true },
                ),
                TransferReport::Failed { transfer_id } => steps.push(
                    DispatchStep::AdvanceEdits { transfer_id, succeeded: false },
                ),
                _ => {},
            }
            steps.push(DispatchStep::RefreshWindows);
        },
        RuntimeEvent::Window(AppEvent::ResidualTempCreated(record)) => {
            steps.push(DispatchStep::RememberTemp(record));
            steps.push(DispatchStep::SaveTemps);
        },
        RuntimeEvent::Window(AppEvent::ResidualTempCleared { transfer_id, path }) => {
            steps.push(DispatchStep::ForgetTemp { transfer_id, path });
            steps.push(DispatchStep::SaveTemps);
        },
        RuntimeEvent::Window(event) => steps.push(DispatchStep::TellWindows(event)),
    }
    assert(steps@ =~= all);
    steps
}

/// What concerns the whole process reaches no window as an event, and is done once.
pub proof fn law_shared_events_are_handled_once(event: RuntimeEvent)
    requires
        !(event is Window) || event->Window_0 is ResidualTempCreated
            || event->Window_0 is ResidualTempCleared,
    ensures
        forall|i: int| 0 <= i < steps_of(event).len() ==> !(#[trigger] steps_of(event)[i] is TellWindows),
        forall|i: int, j: int|
            0 <= i < j < steps_of(event).len() ==> #[trigger] steps_of(event)[i]
                != #[trigger] steps_of(event)[j],
{
}

/// The first window that holds a tab, or the number of windows.
pub open spec fn owner(windows: Seq<Workspace>, tab_id: TabId) -> int
    decreases windows.len(),
{
    if windows.len() == 0 || has_tab(windows[0].tabs.tabs@, tab_id) {
        0
    } else {
        1 + owner(windows.drop_first(), tab_id)
    }
}

/// The first window that lists a remote file in a tab, or the number of windows.
pub open spec fn lister(windows: Seq<Workspace>, tab_id: TabId, path: Seq<char>) -> int
    decreases windows.len(),
{
    if windows.len() == 0 || listed_snapshot(windows[0].tabs.tabs@, tab_id, path) is Some {
        0
    } else {
        1 + lister(windows.drop_first(), tab_id, path)
    }
}

proof fn lemma_owner_is(windows: Seq<Workspace>, tab_id: TabId, k: int)
    requires
        0 <= k <= windows.len(),
        forall|w: int| 0 <= w < k ==> !has_tab((#[trigger] windows[w]).tabs.tabs@, tab_id),
        k < windows.len() ==> has_tab(windows[k].tabs.tabs@, tab_id),
    ensures
        owner(windows, tab_id) == k,
    decreases k,
{
    if k > 0 {
        let rest = windows.drop_first();
        assert forall|w: int| 0 <= w < k - 1 implies !has_tab(
            (#[trigger] rest[w]).tabs.tabs@,
            tab_id,
        ) by {
            assert(rest[w] == windows[w + 1]);
        }
        lemma_owner_is(rest, tab_id, k - 1);
    }
}

proof fn lemma_lister_is(windows: Seq<Workspace>, tab_id: TabId, path: Seq<char>, k: int)
    requires
        0 <= k <= windows.len(),
        forall|w: int|
            0 <= w < k ==> listed_snapshot((#[trigger] windows[w]).tabs.tabs@, tab_id, path) is None,
        k < windows.len() ==> listed_snapshot(windows[k].tabs.tabs@, tab_id, path) is Some,
    ensures
        lister(windows, tab_id, path) == k,
    decreases k,
{
    if k > 0 {
        let rest = windows.drop_first();
        assert forall|w: int| 0 <= w < k - 1 implies listed_snapshot(
            (#[trigger] rest[w]).tabs.tabs@,
            tab_id,
            path,
        ) is None by {
            assert(rest[w] == windows[w + 1]);
        }
        lemma_lister_is(rest, tab_id, path, k - 1);
    }
}

/// The first window that holds a tab.
pub fn owner_of(windows: &Vec<Workspace>, tab_id: TabId) -> (r: Option<usize>)
    ensures
        r is Some <==> owner(windows@, tab_id) < windows@.len(),
        r matches Some(w) ==> w == owner(windows@, tab_id),
{
    let mut w: usize = 0;
    while w < windows.len()
        invariant
            w <= windows@.len(),
            forall|v: int|
                0 <= v < w ==> !has_tab((#[trigger] windows@[v]).tabs.tabs@, tab_id),
        decreases windows@.len() - w,
    {
        if windows[w].owns_tab(tab_id) {
            proof {
                lemma_owner_is(windows@, tab_id, w as int);
            }
            return Some(w);
        }
        w += 1;
    }
    proof {
        lemma_owner_is(windows@, tab_id, w as int);
    }
    None
}

/// A window holds the tab, and what it lists of the remote side can be relied on.
pub open spec fn ready_in(window: Workspace, tab_id: TabId) -> bool {
    has_tab(window.tabs.tabs@, tab_id) && remote_is_ready(
        window.tabs.tabs@[tab_index(window.tabs.tabs@, tab_id)],
    )
}

/// Some window lists the remote side of a tab reliably.
pub open spec fn ready_somewhere(windows: Seq<Workspace>, tab_id: TabId) -> bool {
    exists|w: int| 0 <= w < windows.len() && ready_in(#[trigger] windows[w], tab_id)
}

/// Whether some window lists the remote side of a tab reliably.
pub fn tab_remote_is_ready(windows: &Vec<Workspace>, tab_id: TabId) -> (r: bool)
    ensures
        r == ready_somewhere(windows@, tab_id),
{
    let mut w: usize = 0;
    while w < windows.len()
        invariant
            w <= windows@.len(),
            forall|v: int| 0 <= v < w ==> !ready_in(#[trigger] windows@[v], tab_id),
        decreases windows@.len() - w,
    {
        if windows[w].tab_remote_is_ready(tab_id) {
            assert(ready_in(windows@[w as int], tab_id));
            return true;
        }
        assert(!ready_in(windows@[w as int], tab_id));
        w += 1;
    }
    false
}

/// Tells the window that holds a tab a message. Says whether one does.
pub fn tell_owner(windows: &mut Vec<Workspace>, tab_id: TabId, message: &str) -> (r: bool)
    ensures
        ({
            let w = owner(old(windows)@, tab_id);
            &&& r == (w < old(windows)@.len())
            &&& final(windows)@.len() == old(windows)@.len()
            &&& forall|v: int|
                0 <= v < old(windows)@.len() && v != w ==> #[trigger] final(windows)@[v] == old(
                    windows,
                )@[v]
            &&& r ==> {
                let (before, after) = (old(windows)@[w], final(windows)@[w]);
                &&& after == (Workspace { status_message: after.status_message, ..before })
                &&& crate::helpers::string_of(after.status_message) == Some(message@)
            }
        }),
{
    let ghost before = windows@;
    proof {
        lemma_owner_bounds(before, tab_id);
    }
    let w: usize = match owner_of(windows, tab_id) {
        Some(w) => w,
        None => return false,
    };
    let told = windows[w].set_edit_status(tab_id, message.to_string());
    told
}

proof fn lemma_owner_bounds(windows: Seq<Workspace>, tab_id: TabId)
    ensures
        0 <= owner(windows, tab_id) <= windows.len(),
        owner(windows, tab_id) < windows.len() ==> has_tab(
            windows[owner(windows, tab_id)].tabs.tabs@,
            tab_id,
        ),
    decreases windows.len(),
{
    if windows.len() > 0 && !has_tab(windows[0].tabs.tabs@, tab_id) {
        lemma_owner_bounds(windows.drop_first(), tab_id);
    }
}

/// Makes the size and age of a remote file those of the snapshot in the first window that lists
/// it. Says whether one does.
pub fn sync_listing(
    windows: &mut Vec<Workspace>,
    tab_id: TabId,
    remote_path: &str,
    snapshot: RemoteSnapshot,
) -> (r: bool)
    requires
        forall|w: int| 0 <= w < old(windows)@.len() ==> (#[trigger] old(windows)@[w]).wf(),
    ensures
        ({
            let w = lister(old(windows)@, tab_id, remote_path@);
            &&& r == (w < old(windows)@.len())
            &&& final(windows)@.len() == old(windows)@.len()
            &&& forall|v: int|
                0 <= v < old(windows)@.len() && v != w ==> #[trigger] final(windows)@[v] == old(
                    windows,
                )@[v]
            &&& r ==> {
                &&& final(windows)@[w].wf()
                &&& listing_synced(
                    old(windows)@[w],
                    final(windows)@[w],
                    tab_id,
                    remote_path@,
                    snapshot,
                )
            }
        }),
{
    let ghost before = windows@;
    let count: usize = windows.len();
    let mut w: usize = 0;
    while w < count
        invariant
            w <= count,
            count == before.len(),
            windows@ == before,
            before == old(windows)@,
            forall|v: int| 0 <= v < before.len() ==> (#[trigger] before[v]).wf(),
            forall|v: int|
                0 <= v < w ==> listed_snapshot(
                    (#[trigger] before[v]).tabs.tabs@,
                    tab_id,
                    remote_path@,
                ) is None,
        decreases count - w,
    {
        assert(before[w as int].wf());
        if windows[w].sync_remote_entry_snapshot(tab_id, remote_path, snapshot) {
            proof {
                lemma_lister_is(before, tab_id, remote_path@, w as int);
            }
            return true;
        }
        assert(windows@ =~= before);
        w += 1;
    }
    proof {
        lemma_lister_is(before, tab_id, remote_path@, w as int);
    }
    false
}

/// The tabs of all windows, one window after the other.
pub open spec fn all_tabs(windows: Seq<Workspace>) -> Seq<TabId>
    decreases windows.len(),
{
    if windows.len() == 0 {
        Seq::empty()
    } else {
        all_tabs(windows.drop_last()) + windows.last().tabs.tabs@.map_values(
            |t: crate::tabs::TabState| t.id,
        )
    }
}

/// The tabs of all windows, one window after the other.
pub fn live_tabs(windows: &Vec<Workspace>) -> (r: Vec<TabId>)
    ensures
        r@ == all_tabs(windows@),
{
    let mut out: Vec<TabId> = Vec::new();
    let mut w: usize = 0;
    while w < windows.len()
        invariant
            w <= windows@.len(),
            out@ == all_tabs(windows@.take(w as int)),
        decreases windows@.len() - w,
    {
        let mut ids = windows[w].tab_ids();
        out.append(&mut ids);
        proof {
            assert(windows@.take(w + 1).drop_last() =~= windows@.take(w as int));
        }
        w += 1;
    }
    assert(windows@.take(w as int) =~= windows@);
    out
}

/// The sessions after a command for one of them was sent, or could not be: there is no outcome
/// where nobody holds its tab.
pub open spec fn command_followed(
    before: EditSessionStore,
    after: EditSessionStore,
    id: EditSessionId,
    restore_mtime: Option<Timestamp>,
    outcome: Option<Dispatch>,
) -> bool {
    if outcome == Some(Dispatch::Sent) || before.session(id) is None {
        after == before
    } else {
        &&& after.next_id == before.next_id
        &&& after.next_check_id == before.next_check_id
        &&& after.sessions@ == before.sessions@.update(
            session_index(before.sessions@, id),
            reverted(before.session(id)->0, restore_mtime),
        )
    }
}

impl EditSessionStore {
    /// Follows the sending of a command for an open file: where nobody holds its tab, or the
    /// runtime did not take the command, the session is open again.
    pub fn edit_command_sent(
        &mut self,
        id: EditSessionId,
        restore_mtime: Option<Timestamp>,
        outcome: Option<Dispatch>,
    )
        requires
            old(self).wf(),
        ensures
            final(self).wf(),
            command_followed(*old(self), *final(self), id, restore_mtime, outcome),
    {
        match outcome {
            Some(Dispatch::Sent) => {},
            _ => self.revert_stranded_upload(id, restore_mtime),
        }
    }
}

/// A save whose check cannot be made now is not lost: where no tab can answer, or the check is
/// not sent, the session is open as before, and a later poll that finds the tab ready asks for
/// the check of the same save. `settled` are the sessions once the outcome of sending is known;
/// what happens to other sessions until `again` does not matter.
pub proof fn law_unsent_check_is_asked_again(
    before: EditSessionStore,
    after: EditSessionStore,
    looks: Seq<(TempLook, bool)>,
    steps: Seq<WatchStep>,
    k: int,
    outcome: Option<Dispatch>,
    settled: EditSessionStore,
    again: EditSessionStore,
    later: EditSessionStore,
    later_looks: Seq<(TempLook, bool)>,
    later_steps: Seq<WatchStep>,
    j: int,
)
    requires
        before.wf(),
        polled_all(before, after, looks, steps),
        0 <= k < steps.len(),
        ({
            let id = candidates(before.sessions@)[k];
            let session = before.session(id)->0;
            &&& session.phase is Editing
            &&& looks[k].0 is Present
            &&& was_saved(session, looks[k].0->modified)
            &&& if looks[k].1 {
                &&& outcome != Some(Dispatch::Sent)
                &&& command_followed(after, settled, id, session.local_mtime, outcome)
            } else {
                settled == after
            }
            &&& again.wf()
            &&& again.session(id) == settled.session(id)
            &&& polled_all(again, later, later_looks, later_steps)
            &&& 0 <= j < later_steps.len()
            &&& candidates(again.sessions@)[j] == id
            &&& later_looks[j] == (looks[k].0, true)
        }),
    ensures
        ({
            let id = candidates(before.sessions@)[k];
            let session = before.session(id)->0;
            &&& !looks[k].1 ==> steps[k] is Nothing
            &&& settled.session(id) is Some
            &&& settled.session(id)->0.phase is Editing
            &&& settled.session(id)->0.local_mtime == session.local_mtime
            &&& settled.session(id)->0.pending_check_id is None
            &&& settled.session(id)->0.checking_local_mtime is None
            &&& candidates(again.sessions@).contains(id)
            &&& later_steps[j] is Check
            &&& check_parts(later_steps[j]->Check_0) == check_command(
                session,
                later_steps[j]->Check_0.check_id,
            )
        }),
{
    let id = candidates(before.sessions@)[k];
    let session = before.session(id)->0;
    law_poll_looks_at_each_session_once(before, after, looks, steps);
    law_poll_looks_at_each_session_once(again, later, later_looks, later_steps);
    assert(looked_at_in(before, after, id, looks[k], steps[k]));
    assert(looked_at_in(again, later, id, later_looks[j], later_steps[j]));
    lemma_session_index(before.sessions@, id);
    assert(is_sound(before.sessions@[session_index(before.sessions@, id)]));
    lemma_session_index(after.sessions@, id);
    if looks[k].1 {
        let i = session_index(after.sessions@, id);
        assert(settled.sessions@[i].id == id);
        assert forall|m: int| 0 <= m < i implies (#[trigger] settled.sessions@[m]).id != id by {
            assert(settled.sessions@[m] == after.sessions@[m]);
        }
        lemma_session_index_is(settled.sessions@, id, i);
    }
    lemma_candidates(again);
}

}
