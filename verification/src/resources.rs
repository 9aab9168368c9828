//! State that all windows of the process share.

use vstd::prelude::*;

use crate::model::{ConflictRequest, TabId, TransferId, TransferJob, TransferState};
use crate::edit_sessions::EditSessionStore;
use crate::rate_sampler::{no_reports, observed, unknown_rate, TransferRateBook};
use crate::text::{decimal, decimal_text, digit, joined, wide_decimal_text};

verus! {

/// The number after another; after the largest comes zero.
pub open spec fn next_number(n: u64) -> u64 {
    if n < u64::MAX {
        (n + 1) as u64
    } else {
        0
    }
}

/// The number that a counter stands at after some draws.
pub open spec fn after_draws(n: u64, draws: nat) -> u64
    decreases draws,
{
    if draws == 0 {
        n
    } else {
        next_number(after_draws(n, (draws - 1) as nat))
    }
}

proof fn lemma_after_draws(n: u64, draws: nat)
    ensures
        after_draws(n, draws) == (n + draws) % 0x1_0000_0000_0000_0000,
    decreases draws,
{
    if draws > 0 {
        lemma_after_draws(n, (draws - 1) as nat);
    }
}

/// A counter hands out no number twice, as long as it does not go all the way round.
pub proof fn law_draws_never_repeat(n: u64, first: nat, second: nat)
    requires
        first < second,
        second - first < 0x1_0000_0000_0000_0000,
    ensures
        after_draws(n, first) != after_draws(n, second),
{
    lemma_after_draws(n, first);
    lemma_after_draws(n, second);
}

/// The source of tab ids: each is handed out once in the process.
#[derive(PartialEq, Eq, Debug)]
pub struct TabIdCounter {
    pub next: u64,
}

impl TabIdCounter {
    pub fn new() -> (r: Self)
        ensures
            r.next == 1,
    {
        TabIdCounter { next: 1 }
    }

    /// The next tab id.
    pub fn next_tab_id(&mut self) -> (r: TabId)
        ensures
            r == TabId(old(self).next),
            final(self).next == next_number(old(self).next),
    {
        let id = TabId(self.next);
        self.next = self.next.wrapping_add(1);
        id
    }
}

/// The source of the numbers that tell the runs of one process apart.
#[derive(PartialEq, Eq, Debug)]
pub struct RunCounter {
    pub next: u64,
}

impl RunCounter {
    pub fn new() -> (r: Self)
        ensures
            r.next == 0,
    {
        RunCounter { next: 0 }
    }

    /// The number of the next run.
    pub fn next_run(&mut self) -> (r: u64)
        ensures
            r == old(self).next,
            final(self).next == next_number(old(self).next),
    {
        let number: u64 = self.next;
        self.next = self.next.wrapping_add(1);
        number
    }
}

/// The name under which the temporary files of one run of the program are kept.
pub open spec fn run_name(process_id: u32, launched_at: u128, sequence: u64) -> Seq<char> {
    decimal(process_id as nat) + "-"@ + decimal(launched_at as nat) + "-"@ + decimal(
        sequence as nat,
    )
}

/// The name under which the temporary files of one run of the program are kept: the process, the
/// time and a number within the process.
pub fn edit_run_id(process_id: u32, launched_at: u128, sequence: u64) -> (r: String)
    ensures
        r@ == run_name(process_id, launched_at, sequence),
{
    let mut out = joined(decimal_text(process_id as u64).as_str(), "-");
    out.append(wide_decimal_text(launched_at).as_str());
    out.append("-");
    out.append(decimal_text(sequence).as_str());
    out
}

/// Two runs of the program, or two in one process, keep their temporary files apart.
pub proof fn law_run_names_differ(p: u32, t: u128, n: u64, q: u32, u: u128, m: u64)
    requires
        run_name(p, t, n) == run_name(q, u, m),
    ensures
        p == q,
        t == u,
        n == m,
{
    let (a, b, c) = (decimal(p as nat), decimal(t as nat), decimal(n as nat));
    let (x, y, z) = (decimal(q as nat), decimal(u as nat), decimal(m as nat));
    lemma_decimal_is_digits(p as nat);
    lemma_decimal_is_digits(t as nat);
    lemma_decimal_is_digits(q as nat);
    lemma_decimal_is_digits(u as nat);
    lemma_grouped(a, "-"@, b, c);
    lemma_grouped(x, "-"@, y, z);
    lemma_same_front(a, b + ("-"@ + c), x, y + ("-"@ + z));
    lemma_same_front(b, c, y, z);
    lemma_decimal_injective(p as nat, q as nat);
    lemma_decimal_injective(t as nat, u as nat);
    lemma_decimal_injective(n as nat, m as nat);
}

proof fn lemma_grouped(a: Seq<char>, d: Seq<char>, b: Seq<char>, c: Seq<char>)
    ensures
        a + d + b + d + c == a + (d + (b + (d + c))),
{
    assert(a + d + b + d + c =~= a + (d + (b + (d + c))));
}

/// Where two texts are digits up to their first dash, and equal, both parts are equal.
proof fn lemma_same_front(a: Seq<char>, b: Seq<char>, x: Seq<char>, y: Seq<char>)
    requires
        a + ("-"@ + b) == x + ("-"@ + y),
        forall|i: int| 0 <= i < a.len() ==> #[trigger] a[i] != '-',
        forall|i: int| 0 <= i < x.len() ==> #[trigger] x[i] != '-',
    ensures
        a == x,
        b == y,
{
    reveal_strlit("-");
    let whole = a + ("-"@ + b);
    let other = x + ("-"@ + y);
    assert(whole[a.len() as int] == '-');
    assert(other[x.len() as int] == '-');
    if a.len() < x.len() {
        assert(other[a.len() as int] == x[a.len() as int]);
    }
    if x.len() < a.len() {
        assert(whole[x.len() as int] == a[x.len() as int]);
    }
    assert(a =~= x) by {
        assert forall|i: int| 0 <= i < a.len() implies a[i] == x[i] by {
            assert(whole[i] == a[i] && other[i] == x[i]);
        }
    }
    assert(whole.skip(a.len() as int + 1) =~= b);
    assert(other.skip(x.len() as int + 1) =~= y);
}

/// A decimal number holds neither a dash nor a separator.
pub proof fn lemma_decimal_is_digits(n: nat)
    ensures
        decimal(n).len() > 0,
        forall|i: int| 0 <= i < decimal(n).len() ==> #[trigger] decimal(n)[i] != '-',
        !decimal(n).contains('/'),
    decreases n,
{
    if n >= 10 {
        lemma_decimal_is_digits(n / 10);
        let front = decimal(n / 10);
        assert forall|i: int| 0 <= i < decimal(n).len() implies decimal(n)[i] != '/' by {
            if i < front.len() {
                assert(front.contains(front[i]));
            }
        }
    }
}

/// Two numbers that are written alike are the same.
pub(crate) proof fn lemma_decimal_injective(a: nat, b: nat)
    requires
        decimal(a) == decimal(b),
    ensures
        a == b,
    decreases a,
{
    let x = decimal(a);
    let y = decimal(b);
    if a >= 10 {
        lemma_decimal_is_digits(a / 10);
    }
    if b >= 10 {
        lemma_decimal_is_digits(b / 10);
    }
    assert(x.last() == digit(a % 10) && y.last() == digit(b % 10));
    assert(a % 10 == b % 10);
    assert(x.len() == 1 <==> a < 10);
    assert(y.len() == 1 <==> b < 10);
    if a >= 10 && b >= 10 {
        assert(x.drop_last() =~= decimal(a / 10));
        assert(y.drop_last() =~= decimal(b / 10));
        lemma_decimal_injective(a / 10, b / 10);
    }
}

/// What the runtime tells of a transfer.
#[derive(PartialEq, Eq, Debug)]
pub enum TransferReport {
    Running(TransferJob),
    Progress { transfer_id: TransferId, bytes_done: u64 },
    Completed { transfer_id: TransferId },
    Skipped { transfer_id: TransferId },
    Failed { transfer_id: TransferId },
    /// A destination exists, and the user is to be asked.
    Conflict(ConflictRequest),
    /// A transfer of many files is being planned, or its plan grew.
    Planned { root_job_id: TransferId, planned_count: usize, total_bytes: Option<u64> },
    Other,
}

/// The transfer and the bytes that a report gives progress of.
pub open spec fn reported_progress(report: TransferReport) -> Option<(TransferId, u64)> {
    match report {
        TransferReport::Running(job) => match job.state {
            TransferState::Running { bytes_done, .. } => Some((job.id, bytes_done)),
            _ => None,
        },
        TransferReport::Progress { transfer_id, bytes_done } => Some((transfer_id, bytes_done)),
        _ => None,
    }
}

/// The transfer that a report ends.
pub open spec fn reported_end(report: TransferReport) -> Option<TransferId> {
    match report {
        TransferReport::Completed { transfer_id } => Some(transfer_id),
        TransferReport::Skipped { transfer_id } => Some(transfer_id),
        TransferReport::Failed { transfer_id } => Some(transfer_id),
        _ => None,
    }
}

/// The book of speeds after a report: progress is noted, and the end of a transfer forgets it.
pub open spec fn noted(
    before: TransferRateBook,
    after: TransferRateBook,
    report: TransferReport,
    now: u64,
) -> bool {
    &&& reported_progress(report) is Some ==> {
        let (id, bytes) = reported_progress(report)->0;
        &&& after.reports(id) == Some(
            observed(
                match before.reports(id) {
                    Some(v) => v,
                    None => no_reports(),
                },
                bytes,
                now,
            ),
        )
        &&& forall|other: TransferId|
            other != id ==> #[trigger] after.reports(other) == before.reports(other)
    }
    &&& reported_end(report) is Some ==> {
        let id = reported_end(report)->0;
        &&& after.reports(id) is None
        &&& forall|other: TransferId|
            other != id ==> #[trigger] after.reports(other) == before.reports(other)
    }
    &&& reported_progress(report) is None && reported_end(report) is None ==> after == before
}

/// What all windows know of the transfers, beside their list.
#[derive(PartialEq, Eq, Debug)]
pub struct SharedTransfers {
    pub rates: TransferRateBook,
}

impl SharedTransfers {
    pub fn new() -> (r: Self)
        ensures
            forall|id: TransferId| #[trigger] r.rates.reports(id) is None,
    {
        SharedTransfers { rates: TransferRateBook::new() }
    }

    /// Takes a report into the book of speeds: progress is noted, and the end of a transfer
    /// forgets it.
    pub fn apply_transfer_event(&mut self, report: &TransferReport, now: u64)
        ensures
            noted(old(self).rates, final(self).rates, *report, now),
    {
        match report {
            TransferReport::Running(job) => {
                if let TransferState::Running { bytes_done, .. } = &job.state {
                    self.rates.observe(job.id, *bytes_done, now);
                }
            },
            TransferReport::Progress { transfer_id, bytes_done } => {
                self.rates.observe(*transfer_id, *bytes_done, now);
            },
            TransferReport::Completed { transfer_id } => self.rates.clear(*transfer_id),
            TransferReport::Skipped { transfer_id } => self.rates.clear(*transfer_id),
            TransferReport::Failed { transfer_id } => self.rates.clear(*transfer_id),
            TransferReport::Conflict(_) => {},
            TransferReport::Planned { .. } => {},
            TransferReport::Other => {},
        }
    }
}

/// A transfer that ended leaves no speed behind, whatever was reported of it before.
pub proof fn law_ended_transfer_has_no_speed(
    before: TransferRateBook,
    after: TransferRateBook,
    report: TransferReport,
    now: u64,
    done: u64,
    total: Option<u64>,
)
    requires
        noted(before, after, report, now),
        reported_end(report) is Some,
    ensures
        after.state_of((reported_end(report)->0, done, total), now) == unknown_rate(),
{
}

/// A temporary file that an interrupted transfer left.
#[derive(PartialEq, Eq, Debug)]
pub struct ResidualTemp {
    pub transfer_id: TransferId,
    pub path: String,
    pub is_local: bool,
}

/// What became of an attempt to remove a file.
#[derive(Clone, Copy, PartialEq, Eq, Structural, Debug)]
pub enum RemoveOutcome {
    Removed,
    NotFound,
    Failed,
}

/// The record is done with: a local file that is gone.
pub open spec fn is_settled(record: ResidualTemp, outcome: RemoveOutcome) -> bool {
    record.is_local && !(outcome is Failed)
}

/// The records that remain, each with the outcome of removing its file.
pub open spec fn unsettled(records: Seq<ResidualTemp>, outcomes: Seq<RemoveOutcome>) -> Seq<
    ResidualTemp,
>
    decreases records.len(),
{
    if records.len() == 0 {
        Seq::empty()
    } else {
        let front = unsettled(records.drop_last(), outcomes.drop_last());
        if is_settled(records.last(), outcomes.last()) {
            front
        } else {
            front.push(records.last())
        }
    }
}

/// The records that remain after the local files were removed at the start: remote ones, and
/// those whose file is still there.
pub fn reconcile_local_residual_temps(
    records: Vec<ResidualTemp>,
    outcomes: &Vec<RemoveOutcome>,
) -> (r: Vec<ResidualTemp>)
    requires
        records@.len() == outcomes@.len(),
    ensures
        r@ == unsettled(records@, outcomes@),
{
    let ghost all = records@;
    let mut rest = records;
    let mut out: Vec<ResidualTemp> = Vec::new();
    let count: usize = rest.len();
    let mut i: usize = 0;
    assert(all.skip(0) =~= all);
    assert(out@ =~= unsettled(all.take(0), outcomes@.take(0)));
    while i < count
        invariant
            i <= count,
            count == all.len(),
            outcomes@.len() == all.len(),
            rest@ == all.skip(i as int),
            out@ == unsettled(all.take(i as int), outcomes@.take(i as int)),
        decreases count - i,
    {
        let record = rest.remove(0);
        assert(record == all[i as int]);
        assert(rest@ =~= all.skip(i + 1));
        assert(all.take(i + 1).drop_last() =~= all.take(i as int));
        assert(outcomes@.take(i + 1).drop_last() =~= outcomes@.take(i as int));
        let settled = record.is_local && outcomes[i] != RemoveOutcome::Failed;
        if !settled {
            out.push(record);
        }
        i += 1;
    }
    assert(all.take(i as int) =~= all);
    assert(outcomes@.take(i as int) =~= outcomes@);
    out
}

/// What all windows of the process share.
#[derive(PartialEq, Eq, Debug)]
pub struct AppResources {
    pub edit_sessions: EditSessionStore,
    pub edit_run_id: String,
    pub residual_temps: Vec<ResidualTemp>,
    pub tab_ids: TabIdCounter,
}

impl AppResources {
    /// What holds at the start of a run: no file is edited, and tab ids start anew.
    pub open spec fn is_loaded(&self, process_id: u32, launched_at: u128, sequence: u64) -> bool {
        &&& self.edit_sessions.wf()
        &&& self.edit_sessions.sessions@.len() == 0
        &&& self.edit_run_id@ == run_name(process_id, launched_at, sequence)
        &&& self.tab_ids.next == 1
    }

    /// The state at the start of a run: no file is edited, tab ids start anew, and the records of
    /// temporary files are those that remain after the local ones were removed. The run takes its
    /// number from the counter of the process.
    pub fn load(
        process_id: u32,
        launched_at: u128,
        runs: &mut RunCounter,
        records: Vec<ResidualTemp>,
        outcomes: &Vec<RemoveOutcome>,
    ) -> (r: Self)
        requires
            records@.len() == outcomes@.len(),
        ensures
            r.is_loaded(process_id, launched_at, old(runs).next),
            r.residual_temps@ == unsettled(records@, outcomes@),
            final(runs).next == next_number(old(runs).next),
    {
        let sequence: u64 = runs.next_run();
        AppResources {
            edit_sessions: EditSessionStore::new(),
            edit_run_id: edit_run_id(process_id, launched_at, sequence),
            residual_temps: reconcile_local_residual_temps(records, outcomes),
            tab_ids: TabIdCounter::new(),
        }
    }

    /// The next tab id of the process.
    pub fn next_tab_id(&mut self) -> (r: TabId)
        ensures
            r == TabId(old(self).tab_ids.next),
            *final(self) == (AppResources { tab_ids: final(self).tab_ids, ..*old(self) }),
            final(self).tab_ids.next == next_number(old(self).tab_ids.next),
    {
        self.tab_ids.next_tab_id()
    }
}

/// Two loads of one process, of which the second comes some loads after the first, keep their
/// temporary files apart, whatever the clock says; neither edits anything yet, and both start
/// their tab ids anew.
pub proof fn law_loads_keep_apart(
    a: AppResources,
    b: AppResources,
    process_id: u32,
    launched_at: u128,
    relaunched_at: u128,
    start: u64,
    first: nat,
    second: nat,
)
    requires
        first < second,
        second - first < 0x1_0000_0000_0000_0000,
        a.is_loaded(process_id, launched_at, after_draws(start, first)),
        b.is_loaded(process_id, relaunched_at, after_draws(start, second)),
    ensures
        a.edit_run_id@ != b.edit_run_id@,
        a.edit_sessions.sessions@.len() == 0,
        b.edit_sessions.sessions@.len() == 0,
        a.tab_ids.next == 1,
        b.tab_ids.next == 1,
{
    law_draws_never_repeat(start, first, second);
    if a.edit_run_id@ == b.edit_run_id@ {
        law_run_names_differ(
            process_id,
            launched_at,
            after_draws(start, first),
            process_id,
            relaunched_at,
            after_draws(start, second),
        );
    }
}

/// Of the tab ids that one run draws, one after the other, no two are the same.
pub proof fn law_tab_ids_never_repeat(resources: AppResources, first: nat, second: nat)
    requires
        first < second,
        second - first < 0x1_0000_0000_0000_0000,
    ensures
        TabId(after_draws(resources.tab_ids.next, first)) != TabId(
            after_draws(resources.tab_ids.next, second),
        ),
{
    law_draws_never_repeat(resources.tab_ids.next, first, second);
}

}
