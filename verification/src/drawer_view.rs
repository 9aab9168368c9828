//! What the transfer drawer, the tab bar, the tab switcher and the status bar show.

use vstd::prelude::*;

use crate::helpers::{connected_transfer_session, string_of, transfer_session};
use crate::lists::lemma_filter_take;
use crate::model::{TabId, Timestamp, TransferId, TransferJob, TransferState};
use crate::pane_view::count_on;
use crate::rate_sampler::{
    eta_text, format_eta, format_running_detail, format_speed, is_time, running_detail,
    snapshot_at, speed_text, unknown_rate, AggregateRate, RateSnapshot, TransferRateBook,
};
use crate::selection::{positions, views};
use crate::tabs::tab_index;
use crate::text::{decimal, decimal_text, joined, joined3};
use crate::workspace::Workspace;

verus! {

/// The groups in which transfers are listed.
#[derive(Clone, Copy, PartialEq, Eq, Structural, Debug)]
pub enum JobGroup {
    Active,
    Queued,
    Completed,
    Failed,
}

/// The group of a transfer.
pub open spec fn group_of(state: TransferState) -> JobGroup {
    match state {
        TransferState::Running { .. } => JobGroup::Active,
        TransferState::Planning => JobGroup::Active,
        TransferState::Cancelling => JobGroup::Active,
        TransferState::WaitingForConflictDecision { .. } => JobGroup::Active,
        TransferState::Queued => JobGroup::Queued,
        TransferState::Completed => JobGroup::Completed,
        TransferState::Skipped => JobGroup::Completed,
        TransferState::Failed { .. } => JobGroup::Failed,
    }
}

impl TransferState {
    /// The group of the transfer.
    pub fn group(&self) -> (r: JobGroup)
        ensures
            r == group_of(*self),
    {
        match self {
            TransferState::Running { .. } => JobGroup::Active,
            TransferState::Planning => JobGroup::Active,
            TransferState::Cancelling => JobGroup::Active,
            TransferState::WaitingForConflictDecision { .. } => JobGroup::Active,
            TransferState::Queued => JobGroup::Queued,
            TransferState::Completed => JobGroup::Completed,
            TransferState::Skipped => JobGroup::Completed,
            TransferState::Failed { .. } => JobGroup::Failed,
        }
    }
}

/// The transfer at a position is of a group.
pub open spec fn in_group(jobs: Seq<TransferJob>, group: JobGroup) -> spec_fn(int) -> bool {
    |i: int| 0 <= i < jobs.len() && group_of(jobs[i].state) == group
}

/// The positions of the transfers of a group, in order.
pub open spec fn group_at(jobs: Seq<TransferJob>, group: JobGroup) -> Seq<int> {
    positions(jobs.len()).filter(in_group(jobs, group))
}

/// The positions of the transfers of a group.
pub fn group_positions(jobs: &Vec<TransferJob>, group: JobGroup) -> (r: Vec<usize>)
    ensures
        r@.map_values(|i: usize| i as int) == group_at(jobs@, group),
        r@.len() == group_at(jobs@, group).len(),
{
    let count: usize = jobs.len();
    let ghost all = positions(jobs@.len());
    let ghost keep = in_group(jobs@, group);
    let mut out: Vec<usize> = Vec::new();
    let mut i: usize = 0;
    assert(all.take(0).filter(keep) =~= Seq::<int>::empty()) by {
        reveal(Seq::filter);
    }
    assert(out@.map_values(|i: usize| i as int) =~= Seq::<int>::empty());
    while i < count
        invariant
            i <= count,
            count == jobs@.len(),
            all == positions(jobs@.len()),
            keep == in_group(jobs@, group),
            out@.map_values(|i: usize| i as int) == all.take(i as int).filter(keep),
        decreases count - i,
    {
        proof {
            lemma_filter_take(all, keep, i as int);
        }
        let ghost before = out@;
        if jobs[i].state.group() == group {
            out.push(i);
            assert(out@.map_values(|i: usize| i as int) =~= before.map_values(
                |i: usize| i as int,
            ).push(i as int));
        }
        i += 1;
    }
    assert(all.take(i as int) =~= all);
    assert(out@.map_values(|i: usize| i as int).len() == out@.len());
    out
}

/// Every transfer is listed in exactly one group.
pub proof fn law_every_transfer_is_listed_once(jobs: Seq<TransferJob>, i: int, group: JobGroup)
    requires
        0 <= i < jobs.len(),
    ensures
        group_at(jobs, group).contains(i) <==> group_of(jobs[i].state) == group,
{
    let all = positions(jobs.len());
    crate::lists::lemma_filter_holds(all, in_group(jobs, group));
    assert(all[i] == i);
    assert(all.contains(i));
}

/// A group of transfers in the drawer.
#[derive(PartialEq, Eq, Debug)]
pub struct DrawerSection {
    pub label: &'static str,
    pub jobs: Vec<usize>,
    /// The group can be folded, and is unfolded or not.
    pub expanded: Option<bool>,
}

/// What the drawer shows.
#[derive(PartialEq, Eq, Debug)]
pub struct DrawerView {
    pub summary: String,
    /// There is nothing to list.
    pub empty: bool,
    pub sections: Vec<DrawerSection>,
}

/// The counts of the groups, and the speed and the rest of the time of all that run.
pub open spec fn drawer_summary(jobs: Seq<TransferJob>, rate: AggregateRate) -> Seq<char> {
    let counts = decimal(group_at(jobs, JobGroup::Active).len()) + " active · "@ + decimal(
        group_at(jobs, JobGroup::Queued).len(),
    ) + " queued · "@ + decimal(group_at(jobs, JobGroup::Completed).len()) + " done · "@ + decimal(
        group_at(jobs, JobGroup::Failed).len(),
    ) + " failed"@;
    let speed = match rate.speed {
        Some(speed) => counts + " · "@ + speed_text(Some(speed)),
        None => counts,
    };
    match rate.eta {
        Some(eta) => speed + " · ETA "@ + eta_text(Some(eta)),
        None => speed,
    }
}

/// A section shows a group.
pub open spec fn section_shows(
    section: DrawerSection,
    jobs: Seq<TransferJob>,
    group: JobGroup,
    expanded: Option<bool>,
) -> bool {
    &&& section.label@ == match group {
        JobGroup::Active => "Active"@,
        JobGroup::Queued => "Queued"@,
        JobGroup::Completed => "Completed"@,
        JobGroup::Failed => "Failed"@,
    }
    &&& section.jobs@.map_values(|i: usize| i as int) == group_at(jobs, group)
    &&& section.expanded == expanded
}

/// The groups that have transfers, in the order in which they are listed.
pub open spec fn listed_groups(jobs: Seq<TransferJob>) -> Seq<JobGroup> {
    seq![JobGroup::Active, JobGroup::Queued, JobGroup::Completed, JobGroup::Failed].filter(
        has_jobs(jobs),
    )
}

/// A group has transfers.
pub open spec fn has_jobs(jobs: Seq<TransferJob>) -> spec_fn(JobGroup) -> bool {
    |group: JobGroup| group_at(jobs, group).len() > 0
}

/// Whether a group is unfolded: the first two always are.
pub open spec fn group_expanded(w: Workspace, group: JobGroup) -> Option<bool> {
    match group {
        JobGroup::Active => None,
        JobGroup::Queued => None,
        JobGroup::Completed => Some(w.completed_section_expanded),
        JobGroup::Failed => Some(w.failed_section_expanded),
    }
}

/// The transfers that run, with how far they are.
pub open spec fn running_of(jobs: Seq<TransferJob>) -> Seq<(TransferId, u64, Option<u64>)>
    decreases jobs.len(),
{
    if jobs.len() == 0 {
        Seq::empty()
    } else {
        let front = running_of(jobs.drop_last());
        match jobs.last().state {
            TransferState::Running { bytes_done, bytes_total } => front.push(
                (jobs.last().id, bytes_done, bytes_total),
            ),
            _ => front,
        }
    }
}

/// The transfers that run, with how far they are.
pub fn running_transfers(jobs: &Vec<TransferJob>) -> (r: Vec<(TransferId, u64, Option<u64>)>)
    ensures
        r@ == running_of(jobs@),
{
    let mut out: Vec<(TransferId, u64, Option<u64>)> = Vec::new();
    let mut i: usize = 0;
    assert(jobs@.take(0) =~= Seq::<TransferJob>::empty());
    while i < jobs.len()
        invariant
            i <= jobs@.len(),
            out@ == running_of(jobs@.take(i as int)),
        decreases jobs@.len() - i,
    {
        assert(jobs@.take(i + 1).drop_last() =~= jobs@.take(i as int));
        assert(jobs@.take(i + 1).last() == jobs@[i as int]);
        if let TransferState::Running { bytes_done, bytes_total } = &jobs[i].state {
            out.push((jobs[i].id, *bytes_done, *bytes_total));
        }
        i += 1;
    }
    assert(jobs@.take(i as int) =~= jobs@);
    out
}

fn summary_of(
    active: usize,
    queued: usize,
    done: usize,
    failed: usize,
    rate: &AggregateRate,
) -> (r: String)
    requires
        is_time(rate.eta),
        rate.speed matches Some(speed) ==> speed.wf(),
    ensures
        ({
            let counts = decimal(active as nat) + " active · "@ + decimal(queued as nat)
                + " queued · "@ + decimal(done as nat) + " done · "@ + decimal(failed as nat)
                + " failed"@;
            let speed = match rate.speed {
                Some(speed) => counts + " · "@ + speed_text(Some(speed)),
                None => counts,
            };
            r@ == match rate.eta {
                Some(eta) => speed + " · ETA "@ + eta_text(Some(eta)),
                None => speed,
            }
        }),
{
    let mut out = joined(decimal_text(active as u64).as_str(), " active · ");
    out.append(decimal_text(queued as u64).as_str());
    out.append(" queued · ");
    out.append(decimal_text(done as u64).as_str());
    out.append(" done · ");
    out.append(decimal_text(failed as u64).as_str());
    out.append(" failed");
    if rate.speed.is_some() {
        out.append(" · ");
        out.append(format_speed(rate.speed).as_str());
    }
    if rate.eta.is_some() {
        out.append(" · ETA ");
        out.append(format_eta(rate.eta).as_str());
    }
    out
}

/// The drawer shows the transfers.
pub open spec fn drawer_shows(
    w: Workspace,
    jobs: Seq<TransferJob>,
    history_count: nat,
    rate: AggregateRate,
    view: DrawerView,
) -> bool {
    let groups = listed_groups(jobs);
    &&& view.summary@ == drawer_summary(jobs, rate)
    &&& view.empty == (jobs.len() == 0 && history_count == 0)
    &&& view.sections@.len() == groups.len()
    &&& forall|k: int|
        0 <= k < groups.len() ==> section_shows(
            #[trigger] view.sections@[k],
            jobs,
            groups[k],
            group_expanded(w, groups[k]),
        )
}

impl JobGroup {
    /// The heading of the group.
    pub fn label(&self) -> (r: &'static str)
        ensures
            r@ == match *self {
                JobGroup::Active => "Active"@,
                JobGroup::Queued => "Queued"@,
                JobGroup::Completed => "Completed"@,
                JobGroup::Failed => "Failed"@,
            },
    {
        match self {
            JobGroup::Active => "Active",
            JobGroup::Queued => "Queued",
            JobGroup::Completed => "Completed",
            JobGroup::Failed => "Failed",
        }
    }
}

impl Workspace {
    /// What the drawer shows of the transfers.
    pub fn drawer_view(
        &self,
        jobs: &Vec<TransferJob>,
        history_count: usize,
        rates: &TransferRateBook,
        now: u64,
    ) -> (r: DrawerView)
        ensures
            drawer_shows(
                *self,
                jobs@,
                history_count as nat,
                rates.total_rate(running_of(jobs@), now),
                r,
            ),
    {
        let running = running_transfers(jobs);
        let rate = rates.aggregate(&running, now);
        let mut groups: Vec<JobGroup> = Vec::new();
        groups.push(JobGroup::Active);
        groups.push(JobGroup::Queued);
        groups.push(JobGroup::Completed);
        groups.push(JobGroup::Failed);
        let ghost all = groups@;
        let ghost keep = has_jobs(jobs@);
        assert(all =~= seq![
            JobGroup::Active,
            JobGroup::Queued,
            JobGroup::Completed,
            JobGroup::Failed,
        ]);
        let mut sections: Vec<DrawerSection> = Vec::new();
        let mut counts: Vec<usize> = Vec::new();
        let mut i: usize = 0;
        assert(all.take(0).filter(keep) =~= Seq::<JobGroup>::empty()) by {
            reveal(Seq::filter);
        }
        while i < groups.len()
            invariant
                i <= groups@.len(),
                groups@ == all,
                keep == has_jobs(jobs@),
                counts@.len() == i,
                forall|k: int| 0 <= k < i ==> counts@[k] == group_at(jobs@, #[trigger] all[k]).len(),
                sections@.len() == all.take(i as int).filter(keep).len(),
                forall|k: int|
                    0 <= k < sections@.len() ==> section_shows(
                        #[trigger] sections@[k],
                        jobs@,
                        all.take(i as int).filter(keep)[k],
                        group_expanded(*self, all.take(i as int).filter(keep)[k]),
                    ),
            decreases groups@.len() - i,
        {
            proof {
                lemma_filter_take(all, keep, i as int);
            }
            let ghost front = all.take(i as int).filter(keep);
            let group = groups[i];
            let at = group_positions(jobs, group);
            counts.push(at.len());
            let expanded = match group {
                JobGroup::Active => None,
                JobGroup::Queued => None,
                JobGroup::Completed => Some(self.completed_section_expanded),
                JobGroup::Failed => Some(self.failed_section_expanded),
            };
            if at.len() > 0 {
                let ghost before = sections@;
                sections.push(DrawerSection { label: group.label(), jobs: at, expanded });
                proof {
                    let grown = all.take(i + 1).filter(keep);
                    assert(grown == front.push(group));
                    assert forall|k: int| 0 <= k < sections@.len() implies section_shows(
                        #[trigger] sections@[k],
                        jobs@,
                        grown[k],
                        group_expanded(*self, grown[k]),
                    ) by {
                        if k < before.len() {
                            assert(sections@[k] == before[k]);
                            assert(grown[k] == front[k]);
                        }
                    }
                }
            }
            i += 1;
        }
        assert(all.take(i as int) =~= all);
        assert(all[0] is Active && all[1] is Queued && all[2] is Completed && all[3] is Failed);
        let summary = summary_of(counts[0], counts[1], counts[2], counts[3], &rate);
        DrawerView { summary, empty: jobs.len() == 0 && history_count == 0, sections }
    }

    /// Folds or unfolds a group of the drawer.
    pub fn toggle_section(&mut self, group: JobGroup)
        ensures
            *final(self) == match group {
                JobGroup::Completed => Workspace {
                    completed_section_expanded: !old(self).completed_section_expanded,
                    ..*old(self)
                },
                JobGroup::Failed => Workspace {
                    failed_section_expanded: !old(self).failed_section_expanded,
                    ..*old(self)
                },
                _ => *old(self),
            },
    {
        match group {
            JobGroup::Completed => self.completed_section_expanded
                = !self.completed_section_expanded,
            JobGroup::Failed => self.failed_section_expanded = !self.failed_section_expanded,
            _ => {},
        }
    }
}

/// What a transfer plan has found so far.
#[derive(PartialEq, Eq, Debug)]
pub struct PlanLine {
    pub planned_count: usize,
    /// The size of it all, as it is shown.
    pub size_text: String,
}

/// The position of the first plan with the given root; the number of plans where there is none.
/// A plan is given with the transfer that is its root.
pub open spec fn plan_index(plans: Seq<(TransferId, PlanLine)>, id: TransferId) -> int
    decreases plans.len(),
{
    if plans.len() == 0 || plans[0].0 == id {
        0
    } else {
        1 + plan_index(plans.drop_first(), id)
    }
}

/// The first plan with the given root.
pub open spec fn plan_with_root(plans: Seq<(TransferId, PlanLine)>, id: TransferId) -> Option<
    PlanLine,
> {
    if plan_index(plans, id) < plans.len() {
        Some(plans[plan_index(plans, id)].1)
    } else {
        None
    }
}

/// The position of the first plan with the given root.
pub fn plan_of(plans: &Vec<(TransferId, PlanLine)>, id: TransferId) -> (r: Option<usize>)
    ensures
        r is Some <==> plan_with_root(plans@, id) is Some,
        r is Some ==> r->0 == plan_index(plans@, id) && r->0 < plans@.len() && plans@[r->0 as int].0
            == id,
{
    let mut i: usize = 0;
    assert(plans@.skip(0) =~= plans@);
    while i < plans.len()
        invariant
            i <= plans@.len(),
            plan_index(plans@, id) == i + plan_index(plans@.skip(i as int), id),
        decreases plans@.len() - i,
    {
        assert(plans@.skip(i as int).drop_first() =~= plans@.skip(i + 1));
        if plans[i].0 == id {
            return Some(i);
        }
        i += 1;
    }
    None
}

/// The sizes of a running transfer, as they are shown.
#[derive(PartialEq, Eq, Debug)]
pub struct SizeTexts {
    pub done: String,
    pub total: Option<String>,
}

/// How a row is coloured.
#[derive(Clone, Copy, PartialEq, Eq, Structural, Debug)]
pub enum RowTone {
    Muted,
    Info,
    Warning,
    Accent,
    Success,
    Error,
}

/// A row of the transfer drawer.
#[derive(PartialEq, Eq, Debug)]
pub struct JobRow {
    pub state_label: String,
    pub tone: RowTone,
    pub detail: String,
    /// How much of how much is done, where that is shown.
    pub progress: Option<(u64, u64)>,
    pub can_cancel: bool,
    pub can_retry: bool,
}

/// The state of a transfer in words.
pub open spec fn state_label(state: TransferState) -> Seq<char> {
    match state {
        TransferState::Queued => "Queued"@,
        TransferState::Planning => "Planning…"@,
        TransferState::WaitingForConflictDecision { .. } => "Waiting for decision"@,
        TransferState::Running { bytes_done, bytes_total } => match bytes_total {
            Some(total) => if total > 0 {
                decimal((bytes_done * 100 / total as int) as nat) + "%"@
            } else {
                "Running"@
            },
            None => "Running"@,
        },
        TransferState::Cancelling => "Cancelling…"@,
        TransferState::Completed => "Completed"@,
        TransferState::Skipped => "Skipped"@,
        TransferState::Failed { .. } => "Failed"@,
    }
}

/// The share of a running transfer of known size can be worked out.
pub open spec fn percent_fits(state: TransferState) -> bool {
    match state {
        TransferState::Running { bytes_done, bytes_total: Some(total) } => total > 0
            ==> bytes_done * 100 <= u64::MAX,
        _ => true,
    }
}

/// The colour of a transfer.
pub open spec fn state_tone(state: TransferState) -> RowTone {
    match state {
        TransferState::Queued => RowTone::Muted,
        TransferState::Planning => RowTone::Info,
        TransferState::WaitingForConflictDecision { .. } => RowTone::Warning,
        TransferState::Running { .. } => RowTone::Accent,
        TransferState::Cancelling => RowTone::Warning,
        TransferState::Completed => RowTone::Success,
        TransferState::Skipped => RowTone::Muted,
        TransferState::Failed { .. } => RowTone::Error,
    }
}

/// The line below a transfer.
pub open spec fn job_detail(
    job: TransferJob,
    plan: Option<PlanLine>,
    sizes: SizeTexts,
    rate: RateSnapshot,
) -> Seq<char> {
    match job.state {
        TransferState::Planning => match plan {
            Some(plan) => decimal(plan.planned_count as nat) + " items · "@ + plan.size_text@,
            None => "Planning…"@,
        },
        TransferState::Running { .. } => running_detail(
            sizes.done@,
            string_of(sizes.total),
            rate,
        ),
        TransferState::Completed => if job.warnings@.len() > 0 {
            job.warnings@.last()@
        } else {
            Seq::empty()
        },
        TransferState::Failed { error } => if job.warnings@.len() > 0 {
            error.message@ + " · "@ + job.warnings@.last()@
        } else {
            error.message@
        },
        _ => Seq::empty(),
    }
}

/// How much of how much of a transfer is done, where that is shown.
pub open spec fn job_progress(state: TransferState) -> Option<(u64, u64)> {
    match state {
        TransferState::Running { bytes_done, bytes_total } => match bytes_total {
            Some(total) => if total > 0 {
                Some((bytes_done, total))
            } else {
                Some((0, 1))
            },
            None => Some((0, 1)),
        },
        TransferState::Completed => Some((1, 1)),
        _ => None,
    }
}

/// The row of a transfer. The root of a plan can only be called off while it is planned.
pub open spec fn job_row_shows(
    row: JobRow,
    job: TransferJob,
    plan: Option<PlanLine>,
    sizes: SizeTexts,
    rate: RateSnapshot,
) -> bool {
    &&& row.state_label@ == state_label(job.state)
    &&& row.tone == state_tone(job.state)
    &&& row.detail@ == job_detail(job, plan, sizes, rate)
    &&& row.progress == job_progress(job.state)
    &&& row.can_cancel == (job.state is Planning || (plan is None && (job.state is Queued
        || job.state is Running)))
    &&& row.can_retry == (job.state is Failed)
}

/// The state of a transfer as the book of speeds has it.
pub open spec fn rate_of(rates: TransferRateBook, job: TransferJob, now: u64) -> RateSnapshot {
    match job.state {
        TransferState::Running { bytes_done, bytes_total } => match rates.reports(job.id) {
            Some(v) => snapshot_at(v, bytes_done, bytes_total, now),
            None => unknown_rate(),
        },
        _ => unknown_rate(),
    }
}

fn label_of_state(state: &TransferState) -> (r: String)
    requires
        percent_fits(*state),
    ensures
        r@ == state_label(*state),
{
    match state {
        TransferState::Queued => "Queued".to_string(),
        TransferState::Planning => "Planning…".to_string(),
        TransferState::WaitingForConflictDecision { .. } => "Waiting for decision".to_string(),
        TransferState::Running { bytes_done, bytes_total } => match bytes_total {
            Some(total) => if *total > 0 {
                let percent: u64 = *bytes_done * 100 / *total;
                joined(decimal_text(percent).as_str(), "%")
            } else {
                "Running".to_string()
            },
            None => "Running".to_string(),
        },
        TransferState::Cancelling => "Cancelling…".to_string(),
        TransferState::Completed => "Completed".to_string(),
        TransferState::Skipped => "Skipped".to_string(),
        TransferState::Failed { .. } => "Failed".to_string(),
    }
}

fn tone_of_state(state: &TransferState) -> (r: RowTone)
    ensures
        r == state_tone(*state),
{
    match state {
        TransferState::Queued => RowTone::Muted,
        TransferState::Planning => RowTone::Info,
        TransferState::WaitingForConflictDecision { .. } => RowTone::Warning,
        TransferState::Running { .. } => RowTone::Accent,
        TransferState::Cancelling => RowTone::Warning,
        TransferState::Completed => RowTone::Success,
        TransferState::Skipped => RowTone::Muted,
        TransferState::Failed { .. } => RowTone::Error,
    }
}

fn detail_of(
    job: &TransferJob,
    plans: &Vec<(TransferId, PlanLine)>,
    sizes: &SizeTexts,
    rates: &TransferRateBook,
    now: u64,
) -> (r: String)
    ensures
        r@ == job_detail(
            *job,
            plan_with_root(plans@, job.id),
            *sizes,
            rate_of(*rates, *job, now),
        ),
{
    let warned: usize = job.warnings.len();
    match &job.state {
        TransferState::Planning => match plan_of(plans, job.id) {
            Some(i) => joined3(
                decimal_text(plans[i].1.planned_count as u64).as_str(),
                " items · ",
                plans[i].1.size_text.as_str(),
            ),
            None => "Planning…".to_string(),
        },
        TransferState::Running { bytes_done, bytes_total } => {
            let rate = rates.snapshot(job.id, *bytes_done, *bytes_total, now);
            match &sizes.total {
                Some(total) => format_running_detail(
                    sizes.done.as_str(),
                    Some(total.as_str()),
                    &rate,
                ),
                None => format_running_detail(sizes.done.as_str(), None, &rate),
            }
        },
        TransferState::Completed => if warned > 0 {
            job.warnings[warned - 1].clone()
        } else {
            String::new()
        },
        TransferState::Failed { error } => if warned > 0 {
            joined3(error.message.as_str(), " · ", job.warnings[warned - 1].as_str())
        } else {
            error.message.clone()
        },
        _ => String::new(),
    }
}

/// The row of a transfer in the drawer. `plans` holds each plan with the transfer that is its
/// root.
pub fn transfer_job_row(
    job: &TransferJob,
    plans: &Vec<(TransferId, PlanLine)>,
    sizes: &SizeTexts,
    rates: &TransferRateBook,
    now: u64,
) -> (r: JobRow)
    requires
        percent_fits(job.state),
    ensures
        job_row_shows(
            r,
            *job,
            plan_with_root(plans@, job.id),
            *sizes,
            rate_of(*rates, *job, now),
        ),
{
    proof {
        reveal_strlit("");
        assert(""@ =~= Seq::<char>::empty());
    }
    let progress = match &job.state {
        TransferState::Running { bytes_done, bytes_total } => match bytes_total {
            Some(total) => if *total > 0 {
                Some((*bytes_done, *total))
            } else {
                Some((0, 1))
            },
            None => Some((0, 1)),
        },
        TransferState::Completed => Some((1, 1)),
        _ => None,
    };
    let is_plan_root = plan_of(plans, job.id).is_some();
    let can_cancel = match &job.state {
        TransferState::Planning => true,
        TransferState::Queued => !is_plan_root,
        TransferState::Running { .. } => !is_plan_root,
        _ => false,
    };
    let can_retry = match &job.state {
        TransferState::Failed { .. } => true,
        _ => false,
    };
    JobRow {
        state_label: label_of_state(&job.state),
        tone: tone_of_state(&job.state),
        detail: detail_of(job, plans, sizes, rates, now),
        progress,
        can_cancel,
        can_retry,
    }
}

/// How a transfer of an earlier time ended.
#[derive(Clone, Copy, PartialEq, Eq, Structural, Debug)]
pub enum HistoryStatus {
    Unfinished,
    Completed,
    Cancelled,
    Failed,
}

/// A transfer of an earlier time.
#[derive(PartialEq, Eq, Debug)]
pub struct HistoryRecord {
    pub id: u64,
    pub status: HistoryStatus,
    pub last_updated: Timestamp,
    pub retryable: bool,
}

/// The end of a transfer in words.
pub open spec fn history_label(status: HistoryStatus) -> Seq<char> {
    match status {
        HistoryStatus::Unfinished => "Unfinished"@,
        HistoryStatus::Completed => "Completed"@,
        HistoryStatus::Cancelled => "Cancelled"@,
        HistoryStatus::Failed => "Failed"@,
    }
}

/// A row of the history.
#[derive(PartialEq, Eq, Debug)]
pub struct HistoryRow {
    pub id: u64,
    pub state_label: &'static str,
    pub tone: RowTone,
    pub can_retry: bool,
}

/// The colour of the end of a transfer.
pub open spec fn history_tone(status: HistoryStatus) -> RowTone {
    match status {
        HistoryStatus::Unfinished => RowTone::Warning,
        HistoryStatus::Completed => RowTone::Success,
        HistoryStatus::Cancelled => RowTone::Muted,
        HistoryStatus::Failed => RowTone::Error,
    }
}

/// The records of one time.
pub open spec fn updated_at(time: Timestamp) -> spec_fn(HistoryRecord) -> bool {
    |r: HistoryRecord| r.last_updated == time
}

/// The records are ordered by time, the latest first, those of one time as they were.
pub open spec fn latest_first(from: Seq<HistoryRecord>, to: Seq<HistoryRecord>) -> bool {
    &&& to.len() == from.len()
    &&& forall|i: int, j: int|
        0 <= i < j < to.len() ==> (#[trigger] to[i]).last_updated.0 >= (
        #[trigger] to[j]).last_updated.0
    &&& forall|time: Timestamp| #[trigger] to.filter(updated_at(time)) == from.filter(
        updated_at(time),
    )
}

proof fn lemma_filter_insert(
    s: Seq<HistoryRecord>,
    p: int,
    x: HistoryRecord,
    keep: spec_fn(HistoryRecord) -> bool,
)
    requires
        0 <= p <= s.len(),
    ensures
        s.insert(p, x).filter(keep) == s.take(p).filter(keep) + seq![x].filter(keep) + s.skip(
            p,
        ).filter(keep),
        s.filter(keep) == s.take(p).filter(keep) + s.skip(p).filter(keep),
        seq![x].filter(keep) == if keep(x) {
            seq![x]
        } else {
            Seq::empty()
        },
{
    assert(s.insert(p, x) =~= s.take(p) + seq![x] + s.skip(p));
    Seq::filter_distributes_over_add(s.take(p) + seq![x], s.skip(p), keep);
    Seq::filter_distributes_over_add(s.take(p), seq![x], keep);
    assert(s =~= s.take(p) + s.skip(p));
    Seq::filter_distributes_over_add(s.take(p), s.skip(p), keep);
    assert(seq![x].filter(keep) =~= if keep(x) {
        seq![x]
    } else {
        Seq::empty()
    }) by {
        let one = seq![x];
        lemma_filter_take(one, keep, 0);
        assert(one.take(1) =~= one);
        assert(one.take(0).filter(keep) =~= Seq::<HistoryRecord>::empty()) by {
            reveal(Seq::filter);
        }
    }
}

proof fn lemma_none_kept(s: Seq<HistoryRecord>, time: Timestamp)
    requires
        forall|i: int| 0 <= i < s.len() ==> (#[trigger] s[i]).last_updated.0 < time.0,
    ensures
        s.filter(updated_at(time)).len() == 0,
{
    crate::lists::lemma_filter_holds(s, updated_at(time));
    let kept = s.filter(updated_at(time));
    if kept.len() > 0 {
        assert(kept.contains(kept[0]));
        let k = choose|k: int| 0 <= k < s.len() && s[k] == kept[0];
        assert(s[k].last_updated == time);
    }
}

/// Orders the records by time, the latest first.
pub fn order_history(records: Vec<HistoryRecord>) -> (r: Vec<HistoryRecord>)
    ensures
        latest_first(records@, r@),
{
    let ghost all = records@;
    let mut rest = records;
    let mut out: Vec<HistoryRecord> = Vec::new();
    let count: usize = rest.len();
    let mut i: usize = 0;
    proof {
        assert(all.skip(0) =~= all);
        assert(all.take(0) =~= out@);
    }
    while i < count
        invariant
            i <= count,
            count == all.len(),
            rest@ == all.skip(i as int),
            latest_first(all.take(i as int), out@),
        decreases count - i,
    {
        let record = rest.remove(0);
        let ghost x = record;
        assert(x == all[i as int]);
        assert(rest@ =~= all.skip(i + 1));
        let ghost before = out@;
        let mut p: usize = 0;
        while p < out.len() && out[p].last_updated.0 >= record.last_updated.0
            invariant
                p <= out@.len(),
                out@ == before,
                record == x,
                forall|k: int| 0 <= k < p ==> (#[trigger] before[k]).last_updated.0
                    >= x.last_updated.0,
            decreases out@.len() - p,
        {
            p += 1;
        }
        out.insert(p, record);
        proof {
            let place = p as int;
            assert(out@ == before.insert(place, x));
            assert forall|a: int, b: int| 0 <= a < b < out@.len() implies (
            #[trigger] out@[a]).last_updated.0 >= (#[trigger] out@[b]).last_updated.0 by {
                let fa = if a < place {
                    a
                } else {
                    a - 1
                };
                let fb = if b < place {
                    b
                } else {
                    b - 1
                };
                if a == place {
                    assert(before[place].last_updated.0 < x.last_updated.0);
                    assert(before[place].last_updated.0 >= before[fb].last_updated.0);
                } else if b == place {
                    assert(before[fa].last_updated.0 >= x.last_updated.0);
                } else {
                    assert(before[fa].last_updated.0 >= before[fb].last_updated.0);
                }
            }
            let next = all.take(i + 1);
            assert(next =~= all.take(i as int).push(x));
            assert forall|time: Timestamp| #[trigger] out@.filter(updated_at(time)) == next.filter(
                updated_at(time),
            ) by {
                let keep = updated_at(time);
                lemma_filter_insert(before, place, x, keep);
                lemma_filter_take(all, keep, i as int);
                assert(before.filter(keep) == all.take(i as int).filter(keep));
                if keep(x) {
                    assert forall|k: int| 0 <= k < before.skip(place).len() implies (
                    #[trigger] before.skip(place)[k]).last_updated.0 < time.0 by {
                        assert(before[place].last_updated.0 < x.last_updated.0);
                        assert(before[place + k].last_updated.0 <= before[place].last_updated.0);
                    }
                    lemma_none_kept(before.skip(place), time);
                    assert(out@.filter(keep) =~= before.filter(keep).push(x));
                } else {
                    assert(out@.filter(keep) =~= before.filter(keep));
                }
            }
        }
        i += 1;
    }
    assert(all.take(i as int) =~= all);
    out
}

/// The row of a transfer of an earlier time; it can be tried again only over a connection.
pub open spec fn history_row_shows(w: Workspace, record: HistoryRecord, row: HistoryRow) -> bool {
    &&& row.id == record.id
    &&& row.state_label@ == history_label(record.status)
    &&& row.tone == history_tone(record.status)
    &&& row.can_retry == (record.retryable && w.tabs.active() is Some && transfer_session(
        w.tabs.active()->0,
    ) is Some)
}

/// The rows are those of the records in the given order, which is the latest first.
pub open spec fn rows_of_history(
    w: Workspace,
    records: Seq<HistoryRecord>,
    ordered: Seq<HistoryRecord>,
    rows: Seq<HistoryRow>,
) -> bool {
    &&& latest_first(records, ordered)
    &&& rows.len() == ordered.len()
    &&& forall|i: int|
        0 <= i < rows.len() ==> history_row_shows(w, ordered[i], #[trigger] rows[i])
}

/// The rows are those of the records, the latest first.
pub open spec fn history_shows(
    w: Workspace,
    records: Seq<HistoryRecord>,
    rows: Seq<HistoryRow>,
) -> bool {
    exists|ordered: Seq<HistoryRecord>| #[trigger] rows_of_history(w, records, ordered, rows)
}

/// A tab of the tab bar.
#[derive(PartialEq, Eq, Debug)]
pub struct TabItem {
    pub id: TabId,
    pub title: String,
    pub active: bool,
}

/// A row of the tab switcher.
#[derive(PartialEq, Eq, Debug)]
pub struct SwitcherRow {
    pub id: TabId,
    pub title: String,
    pub selected: bool,
}

/// What the status bar shows.
#[derive(PartialEq, Eq, Debug)]
pub struct StatusBar {
    pub connection: String,
    pub selected: Option<String>,
    pub message: Option<String>,
    pub active: String,
    pub failed: Option<String>,
    pub tone: RowTone,
}

/// The status bar shows the window; `label` names the state of the active connection.
pub open spec fn status_bar_shows(
    bar: StatusBar,
    w: Workspace,
    label: Seq<char>,
    jobs: Seq<TransferJob>,
) -> bool {
    let selected = match w.tabs.active() {
        Some(tab) => count_on(views(tab.selected_paths@), w.focused_side),
        None => 0,
    };
    let active = group_at(jobs, JobGroup::Active).len();
    let failed = group_at(jobs, JobGroup::Failed).len();
    &&& bar.connection@ == match w.tabs.active() {
        Some(tab) => label + " · "@ + tab.title@,
        None => "No connection"@,
    }
    &&& string_of(bar.selected) == if selected > 0 {
        Some(decimal(selected) + " selected"@)
    } else {
        None
    }
    &&& string_of(bar.message) == match w.status_message {
        Some(message) => Some("— "@ + message@),
        None => None,
    }
    &&& bar.active@ == decimal(active) + " active"@
    &&& string_of(bar.failed) == if failed > 0 {
        Some("· "@ + decimal(failed) + " failed"@)
    } else {
        None
    }
    &&& bar.tone == if failed > 0 {
        RowTone::Error
    } else if active > 0 {
        RowTone::Accent
    } else {
        RowTone::Muted
    }
}

impl Workspace {
    /// The row of a transfer of an earlier time; it can be tried again only over a connection.
    pub fn history_row(&self, record: &HistoryRecord) -> (r: HistoryRow)
        ensures
            history_row_shows(*self, *record, r),
    {
        let connected = match self.tabs.active_position() {
            Some(i) => connected_transfer_session(&self.tabs.tabs[i]).is_some(),
            None => false,
        };
        let (state_label, tone) = match record.status {
            HistoryStatus::Unfinished => ("Unfinished", RowTone::Warning),
            HistoryStatus::Completed => ("Completed", RowTone::Success),
            HistoryStatus::Cancelled => ("Cancelled", RowTone::Muted),
            HistoryStatus::Failed => ("Failed", RowTone::Error),
        };
        HistoryRow { id: record.id, state_label, tone, can_retry: record.retryable && connected }
    }

    /// The rows of the history, the latest transfer first.
    pub fn history_rows(&self, records: Vec<HistoryRecord>) -> (r: Vec<HistoryRow>)
        ensures
            history_shows(*self, records@, r@),
    {
        let ghost all = records@;
        let ordered = order_history(records);
        let mut out: Vec<HistoryRow> = Vec::new();
        let mut i: usize = 0;
        while i < ordered.len()
            invariant
                i <= ordered@.len(),
                out@.len() == i,
                forall|k: int|
                    0 <= k < i ==> history_row_shows(*self, ordered@[k], #[trigger] out@[k]),
            decreases ordered@.len() - i,
        {
            out.push(self.history_row(&ordered[i]));
            i += 1;
        }
        assert(rows_of_history(*self, all, ordered@, out@));
        out
    }

    /// The tabs of the tab bar.
    pub fn tab_bar(&self) -> (r: Vec<TabItem>)
        ensures
            r@.len() == self.tabs.tabs@.len(),
            forall|i: int|
                0 <= i < r@.len() ==> (#[trigger] r@[i]).id == self.tabs.tabs@[i].id && r@[i].title
                    == self.tabs.tabs@[i].title && r@[i].active == (self.tabs.active_tab_id == Some(
                    self.tabs.tabs@[i].id,
                )),
    {
        let mut out: Vec<TabItem> = Vec::new();
        let mut i: usize = 0;
        while i < self.tabs.tabs.len()
            invariant
                i <= self.tabs.tabs@.len(),
                out@.len() == i,
                forall|k: int|
                    0 <= k < i ==> (#[trigger] out@[k]).id == self.tabs.tabs@[k].id && out@[k].title
                        == self.tabs.tabs@[k].title && out@[k].active == (self.tabs.active_tab_id
                        == Some(self.tabs.tabs@[k].id)),
            decreases self.tabs.tabs@.len() - i,
        {
            let tab = &self.tabs.tabs[i];
            out.push(
                TabItem {
                    id: tab.id,
                    title: tab.title.clone(),
                    active: self.tabs.active_tab_id == Some(tab.id),
                },
            );
            i += 1;
        }
        out
    }

    /// The rows of the tab switcher, in the order of use, while it is open.
    pub fn switcher_rows(&self) -> (r: Option<Vec<SwitcherRow>>)
        requires
            self.wf(),
        ensures
            r is Some <==> self.tabs.switcher_open,
            r matches Some(rows) ==> {
                &&& rows@.len() == self.tabs.mru@.len()
                &&& forall|k: int|
                    0 <= k < rows@.len() ==> (#[trigger] rows@[k]).id == self.tabs.mru@[k]
                        && rows@[k].title == self.tabs.tabs@[tab_index(
                        self.tabs.tabs@,
                        self.tabs.mru@[k],
                    )].title && rows@[k].selected == (k == self.tabs.switcher_index)
            },
    {
        if !self.tabs.switcher_open {
            return None;
        }
        let mut out: Vec<SwitcherRow> = Vec::new();
        let count: usize = self.tabs.mru.len();
        let mut k: usize = 0;
        while k < count
            invariant
                self.wf(),
                k <= count,
                count == self.tabs.mru@.len(),
                out@.len() == k,
                forall|j: int|
                    0 <= j < k ==> (#[trigger] out@[j]).id == self.tabs.mru@[j] && out@[j].title
                        == self.tabs.tabs@[tab_index(
                        self.tabs.tabs@,
                        self.tabs.mru@[j],
                    )].title && out@[j].selected == (j == self.tabs.switcher_index),
            decreases count - k,
        {
            let id = self.tabs.mru[k];
            assert(self.tabs.mru@.contains(id));
            if let Some(i) = self.tabs.position(id) {
                out.push(
                    SwitcherRow {
                        id,
                        title: self.tabs.tabs[i].title.clone(),
                        selected: k == self.tabs.switcher_index,
                    },
                );
            }
            k += 1;
        }
        Some(out)
    }

    /// A click on a row of the open tab switcher shows that tab.
    pub fn switcher_clicked(&mut self, index: usize)
        requires
            old(self).wf(),
            old(self).tabs.switcher_open,
            index < old(self).tabs.mru@.len(),
        ensures
            final(self).wf(),
            final(self).shows_tab(
                Workspace {
                    focus: crate::workspace::pane_focus(old(self).focused_side),
                    tabs: crate::tabs::TabStore { switcher_index: index, ..old(self).tabs },
                    ..*old(self)
                },
                old(self).tabs.mru@[index as int],
            ),
    {
        self.tabs.switcher_index = index;
        self.confirm_tab_switcher();
    }

    /// What the status bar shows; `label` names the state of the active connection.
    pub fn status_bar(&self, label: &str, jobs: &Vec<TransferJob>) -> (r: StatusBar)
        ensures
            status_bar_shows(r, *self, label@, jobs@),
    {
        let connection = match self.tabs.active_position() {
            Some(i) => joined3(label, " · ", self.tabs.tabs[i].title.as_str()),
            None => "No connection".to_string(),
        };
        let count: usize = self.focused_selection_count();
        let selected = if count > 0 {
            Some(joined(decimal_text(count as u64).as_str(), " selected"))
        } else {
            None
        };
        let message = match &self.status_message {
            Some(message) => Some(joined("— ", message.as_str())),
            None => None,
        };
        let active: usize = group_positions(jobs, JobGroup::Active).len();
        let failed: usize = group_positions(jobs, JobGroup::Failed).len();
        StatusBar {
            connection,
            selected,
            message,
            active: joined(decimal_text(active as u64).as_str(), " active"),
            failed: if failed > 0 {
                Some(joined3("· ", decimal_text(failed as u64).as_str(), " failed"))
            } else {
                None
            },
            tone: if failed > 0 {
                RowTone::Error
            } else if active > 0 {
                RowTone::Accent
            } else {
                RowTone::Muted
            },
        }
    }
}

}
