//! How transfers are told of: their speed, the time they still take, and how they are listed.

use vstd::prelude::*;

use super::common::{lemma_shown, shows};
use crate::drawer_view::{
    group_at, group_positions, law_every_transfer_is_listed_once, order_history, transfer_job_row,
    updated_at, HistoryRecord, HistoryRow, JobGroup, JobRow, PlanLine, SizeTexts,
};
use crate::lists::lemma_filter_holds;
use crate::model::{TabId, TransferId, TransferJob, TransferState};
use crate::rate_sampler::{
    format_eta, format_speed, law_total_rate_is_the_sum, lemma_speed_bound, lemma_speed_of_units,
    lemma_state_speed, nearest, pruned, rounded_up, scaled_up, tenths_shown, AggregateRate, Eta,
    Pace, Progress, RateSample, RateSnapshot, Speed, TransferRateBook, SPEED_UNIT,
};
use crate::resources::{
    edit_run_id, law_run_names_differ, reconcile_local_residual_temps, unsettled, AppResources,
    RemoveOutcome, ResidualTemp, SharedTransfers, TransferReport,
};
use crate::text::decimal;
use crate::workspace::Workspace;

verus! {

/// A speed in billionths of a billionth of a byte per second.
pub open spec fn units_of(speed: Speed) -> int {
    speed.whole * 1_000_000_000_000_000_000 + speed.part
}

proof fn lemma_rounding(n: nat, d: nat)
    requires
        0 < d,
    ensures
        0 <= rounded_up(n, d) * d - n < d,
{
    vstd::arithmetic::div_mod::lemma_fundamental_div_mod(n as int, d as int);
    let (q, r) = (n / d, n % d);
    assert((q + 1) * d == d * q + d && q * d == d * q) by (nonlinear_arith);
}

/// Two reports, half a second to four seconds apart, tell a speed: the bytes between them over the
/// time between them. The rest of the transfer is taken to come at that pace. Reports that lie
/// closer tell none.
pub proof fn law_speed_is_bytes_over_time(
    a: &mut TransferRateBook,
    b: &mut TransferRateBook,
    c: &mut TransferRateBook,
    id: TransferId,
    first: u64,
    second: u64,
    from: u64,
    to: u64,
    done: u64,
    total: u64,
    now: u64,
    r: RateSnapshot,
)
    requires
        call_ensures(TransferRateBook::clear, (a, id), ()),
        *old(b) == *final(a),
        call_ensures(TransferRateBook::observe, (b, id, first, from), ()),
        *old(c) == *final(b),
        call_ensures(TransferRateBook::observe, (c, id, second, to), ()),
        call_ensures(TransferRateBook::snapshot, (&*final(c), id, done, Some(total), now), r),
        first < second,
        from <= to,
        to - from <= 4_000_000_000,
        to <= now,
    ensures
        to - from < 500_000_000 ==> r.speed is None && r.eta is None,
        to - from >= 500_000_000 ==> {
            &&& r.speed is Some
            &&& !r.stalled
            &&& 0 <= units_of(r.speed->0) * (to - from) - (second - first) * 1_000_000_000
                * 1_000_000_000_000_000_000 < to - from
            &&& done <= total ==> r.eta == Some(
                Eta {
                    bytes: (total - done) as u64,
                    pace: Pace::Measured(
                        Progress { bytes: (second - first) as u64, nanos: (to - from) as u64 },
                    ),
                },
            )
            &&& done > total ==> r.eta is None
        },
        now - to >= 3_000_000_000 && to - from < 500_000_000 ==> r.stalled,
        now - to < 3_000_000_000 ==> !r.stalled,
{
    reveal_with_fuel(pruned, 3);
    let one = seq![RateSample { at: from, bytes_done: first }];
    let two = seq![
        RateSample { at: from, bytes_done: first },
        RateSample { at: to, bytes_done: second },
    ];
    assert(final(a).reports(id) is None);
    assert(Seq::<RateSample>::empty().push(RateSample { at: from, bytes_done: first }) =~= one);
    assert(final(b).reports(id)->0.samples == one);
    assert(one.push(RateSample { at: to, bytes_done: second }) =~= two);
    assert(final(c).reports(id)->0.samples == two);
    if to - from >= 500_000_000 {
        let progress = Progress { bytes: (second - first) as u64, nanos: (to - from) as u64 };
        lemma_speed_bound(progress);
        let n = progress.bytes as nat * 1_000_000_000 * SPEED_UNIT as nat;
        let units = rounded_up(n, progress.nanos as nat);
        lemma_rounding(n, progress.nanos as nat);
        lemma_speed_of_units(units);
        assert(units / SPEED_UNIT as nat <= u128::MAX);
        assert(r.speed->0.units() == units);
        assert(units > 0) by (nonlinear_arith)
            requires
                0 <= units * progress.nanos - n,
                n == progress.bytes as nat * 1_000_000_000 * SPEED_UNIT as nat,
                progress.bytes > 0,
                SPEED_UNIT > 0,
        ;
    }
}

/// A transfer that reports no more for three seconds is stalled, and no time is told.
pub proof fn law_silent_transfer_is_stalled(
    a: &mut TransferRateBook,
    b: &mut TransferRateBook,
    id: TransferId,
    bytes: u64,
    at: u64,
    done: u64,
    total: Option<u64>,
    now: u64,
    r: RateSnapshot,
)
    requires
        call_ensures(TransferRateBook::clear, (a, id), ()),
        *old(b) == *final(a),
        call_ensures(TransferRateBook::observe, (b, id, bytes, at), ()),
        call_ensures(TransferRateBook::snapshot, (&*final(b), id, done, total, now), r),
        at <= now,
    ensures
        r.stalled <==> now - at >= 3_000_000_000,
        r.speed is None,
        r.eta is None,
{
    assert(final(b).reports(id)->0.samples =~= seq![RateSample { at, bytes_done: bytes }]);
}

/// What is reported of one transfer says nothing of another, and a transfer that ended has no
/// speed.
pub proof fn law_transfers_are_told_apart(
    a: &mut SharedTransfers,
    id: TransferId,
    other: TransferId,
    report: TransferReport,
    at: u64,
    done: u64,
    total: Option<u64>,
    now: u64,
    before: RateSnapshot,
    after: RateSnapshot,
    own: RateSnapshot,
)
    requires
        id != other,
        match report {
            TransferReport::Running(job) => job.id == id,
            TransferReport::Progress { transfer_id, .. } => transfer_id == id,
            TransferReport::Completed { transfer_id } => transfer_id == id,
            TransferReport::Skipped { transfer_id } => transfer_id == id,
            TransferReport::Failed { transfer_id } => transfer_id == id,
            _ => true,
        },
        call_ensures(
            TransferRateBook::snapshot,
            (&old(a).rates, other, done, total, now),
            before,
        ),
        call_ensures(SharedTransfers::apply_transfer_event, (a, &report, at), ()),
        call_ensures(
            TransferRateBook::snapshot,
            (&final(a).rates, other, done, total, now),
            after,
        ),
        call_ensures(TransferRateBook::snapshot, (&final(a).rates, id, done, total, now), own),
    ensures
        after == before,
        report is Completed || report is Skipped || report is Failed ==> own.speed is None
            && own.eta is None && !own.stalled,
{
    assert(final(a).rates.reports(other) == old(a).rates.reports(other));
}

/// Progress that the runtime reports counts as a report, from a transfer that starts to run too.
pub proof fn law_progress_is_taken_in(
    a: &mut SharedTransfers,
    b: &mut TransferRateBook,
    id: TransferId,
    bytes: u64,
    job: TransferJob,
    report: TransferReport,
    at: u64,
    done: u64,
    total: Option<u64>,
    now: u64,
    r: RateSnapshot,
    s: RateSnapshot,
)
    requires
        report == (TransferReport::Progress { transfer_id: id, bytes_done: bytes }) || (report
            == TransferReport::Running(job) && job.id == id && job.state is Running
            && job.state->bytes_done == bytes),
        *old(b) == old(a).rates,
        call_ensures(SharedTransfers::apply_transfer_event, (a, &report, at), ()),
        call_ensures(TransferRateBook::observe, (b, id, bytes, at), ()),
        call_ensures(TransferRateBook::snapshot, (&final(a).rates, id, done, total, now), r),
        call_ensures(TransferRateBook::snapshot, (&*final(b), id, done, total, now), s),
    ensures
        r == s,
{
}

/// One more transfer adds its speed to that of all, unless it is stalled or has none.
pub proof fn law_speeds_add_up(
    book: TransferRateBook,
    running: Vec<(TransferId, u64, Option<u64>)>,
    more: Vec<(TransferId, u64, Option<u64>)>,
    id: TransferId,
    done: u64,
    total: Option<u64>,
    now: u64,
    one: RateSnapshot,
    before: AggregateRate,
    after: AggregateRate,
)
    requires
        more@ == running@.push((id, done, total)),
        more@.len() <= isize::MAX,
        call_ensures(TransferRateBook::snapshot, (&book, id, done, total, now), one),
        call_ensures(TransferRateBook::aggregate, (&book, &running, now), before),
        call_ensures(TransferRateBook::aggregate, (&book, &more, now), after),
    ensures
        one.speed is None || one.stalled ==> after.speed == before.speed,
        one.speed is Some && !one.stalled && before.speed is None ==> after.speed is Some
            && units_of(after.speed->0) == units_of(one.speed->0),
        one.speed is Some && !one.stalled && before.speed is Some ==> after.speed is Some
            && units_of(after.speed->0) == units_of(before.speed->0) + units_of(one.speed->0),
        running@.len() == 0 && total is Some && one.speed is Some && !one.stalled && units_of(
            one.speed->0,
        ) > 0 ==> after.eta is Some && after.eta->0.bytes == (if total->0 >= done {
            total->0 - done
        } else {
            0
        }) && after.eta->0.pace == Pace::Total(after.speed->0),
{
    assert(more@.drop_last() =~= running@);
    law_total_rate_is_the_sum(book, running@, now);
    law_total_rate_is_the_sum(book, more@, now);
    if one.speed is Some {
        lemma_state_speed(book, (id, done, total), now);
        assert(book.state_of((id, done, total), now) == one);
    }
}

/// The time that is left is told in seconds, rounded up, below a minute; in minutes and seconds
/// below an hour; and in hours and minutes from there on.
pub proof fn law_time_left_is_told(bytes: u64, progress: Progress, s: nat, r: String, none: String)
    requires
        progress.bytes > 0,
        s * progress.bytes * 1_000_000_000 == bytes * progress.nanos,
        call_ensures(
            format_eta,
            (Some(Eta { bytes, pace: Pace::Measured(progress) }),),
            r,
        ),
        call_ensures(format_eta, (None,), none),
    ensures
        s < 60 ==> r@ == decimal(s) + seq!['s'],
        60 <= s < 3600 ==> r@ == decimal(s / 60) + seq!['m', ' '] + decimal(s % 60) + seq!['s'],
        3600 <= s ==> r@ == decimal(s / 3600) + seq!['h', ' '] + decimal((s % 3600) / 60) + seq![
            'm',
        ],
        none@ == seq!['—'],
{
    let n = bytes as nat * progress.nanos as nat;
    let d = progress.bytes as nat * 1_000_000_000;
    assert(n == s * d) by (nonlinear_arith)
        requires
            s * progress.bytes * 1_000_000_000 == bytes * progress.nanos,
            n == bytes as nat * progress.nanos as nat,
            d == progress.bytes as nat * 1_000_000_000,
    ;
    vstd::arithmetic::div_mod::lemma_fundamental_div_mod_converse(
        n as int,
        d as int,
        s as int,
        0,
    );
    reveal_strlit("s");
    reveal_strlit("m ");
    reveal_strlit("h ");
    reveal_strlit("m");
    reveal_strlit("—");
    assert("s"@ =~= seq!['s']);
    assert("m "@ =~= seq!['m', ' ']);
    assert("h "@ =~= seq!['h', ' ']);
    assert("m"@ =~= seq!['m']);
    assert("—"@ =~= seq!['—']);
}

proof fn lemma_scaled_up_exact(m: nat, d: nat, n: nat, f: nat)
    requires
        0 < d,
        0 < f,
        n == m * d,
    ensures
        scaled_up(n, d, f).1 > 0,
        scaled_up(n, d, f).0 * f == m * scaled_up(n, d, f).1,
    decreases crate::rate_sampler::monus((0x10_0000_0000_0000 * d) as int, n as int),
{
    if n == 0 || n >= 0x10_0000_0000_0000 * d {
        vstd::arithmetic::div_mod::lemma_fundamental_div_mod_converse(
            n as int,
            d as int,
            m as int,
            0,
        );
    } else {
        assert(2 * n == (2 * m) * d) by (nonlinear_arith)
            requires
                n == m * d,
        ;
        lemma_scaled_up_exact(2 * m, d, 2 * n, 2 * f);
        let (a, b) = scaled_up(n, d, f);
        assert(a * f == m * b) by (nonlinear_arith)
            requires
                a * (2 * f) == (2 * m) * b,
        ;
    }
}

/// A whole number of megabytes per second is told as such, and below a megabyte a whole number of
/// kilobytes.
pub proof fn law_speed_is_told(m: nat, k: nat, fast: Speed, slow: Speed, r: String, s: String)
    requires
        1 <= m < 1_000_000_000,
        fast.whole == m * 1_000_000,
        fast.part == 0,
        k < 1000,
        slow.whole == k * 1000,
        slow.part == 0,
        call_ensures(format_speed, (Some(fast),), r),
        call_ensures(format_speed, (Some(slow),), s),
    ensures
        r@ == decimal(m) + seq!['.', '0', ' ', 'M', 'B', '/', 's'],
        s@ == decimal(k) + seq!['.', '0', ' ', 'K', 'B', '/', 's'],
{
    let unit = SPEED_UNIT as nat;
    assert(fast.units() == m * (1_000_000 * unit)) by (nonlinear_arith)
        requires
            fast.units() == fast.whole as nat * unit + fast.part as nat,
            fast.whole == m * 1_000_000,
            fast.part == 0,
    ;
    assert(slow.units() == k * (1000 * unit)) by (nonlinear_arith)
        requires
            slow.units() == slow.whole as nat * unit + slow.part as nat,
            slow.whole == k * 1000,
            slow.part == 0,
    ;
    lemma_tenths_exact(m, 1_000_000 * SPEED_UNIT as nat, fast.units());
    lemma_tenths_exact(k, 1000 * SPEED_UNIT as nat, slow.units());
    reveal_strlit(".");
    reveal_strlit(" MB/s");
    reveal_strlit(" KB/s");
    assert(decimal(0) =~= seq!['0']);
    assert((10 * m) / 10 == m && (10 * m) % 10 == 0);
    assert((10 * k) / 10 == k && (10 * k) % 10 == 0);
    assert(r@ =~= decimal(m) + seq!['.', '0', ' ', 'M', 'B', '/', 's']);
    assert(s@ =~= decimal(k) + seq!['.', '0', ' ', 'K', 'B', '/', 's']);
}

proof fn lemma_tenths_exact(m: nat, d: nat, n: nat)
    requires
        0 < d,
        n == m * d,
        m < 0x20_0000_0000_0000,
    ensures
        tenths_shown(n, d) == 10 * m,
{
    assert(n < 0x20_0000_0000_0000 * d) by (nonlinear_arith)
        requires
            0 < d,
            n == m * d,
            m < 0x20_0000_0000_0000,
    ;
    lemma_scaled_up_exact(m, d, n, 1);
    let (a, b) = scaled_up(n, d, 1);
    assert(10 * a == (10 * m) * b) by (nonlinear_arith)
        requires
            a * 1 == m * b,
    ;
    vstd::arithmetic::div_mod::lemma_fundamental_div_mod_converse(
        (10 * a) as int,
        b as int,
        (10 * m) as int,
        0,
    );
    assert(nearest(10 * a, b) == 10 * m);
}

/// Every transfer stands in the group of its state, in the order of the list: those that run, are
/// planned, are called off or wait for an answer; those that wait their turn; those that are done
/// or were skipped; and those that failed.
pub proof fn law_transfers_are_grouped_by_state(
    jobs: Vec<TransferJob>,
    group: JobGroup,
    i: usize,
    r: Vec<usize>,
)
    requires
        call_ensures(group_positions, (&jobs, group), r),
        i < jobs@.len(),
    ensures
        r@.contains(i) <==> match group {
            JobGroup::Active => jobs@[i as int].state is Running || jobs@[i as int].state is Planning
                || jobs@[i as int].state is Cancelling
                || jobs@[i as int].state is WaitingForConflictDecision,
            JobGroup::Queued => jobs@[i as int].state is Queued,
            JobGroup::Completed => jobs@[i as int].state is Completed
                || jobs@[i as int].state is Skipped,
            JobGroup::Failed => jobs@[i as int].state is Failed,
        },
{
    law_every_transfer_is_listed_once(jobs@, i as int, group);
    let at = group_at(jobs@, group);
    let all = r@.map_values(|k: usize| k as int);
    if r@.contains(i) {
        let k = choose|k: int| 0 <= k < r@.len() && r@[k] == i;
        assert(all[k] == i as int);
        assert(at.contains(i as int));
    }
    if at.contains(i as int) {
        let k = choose|k: int| 0 <= k < all.len() && all[k] == i as int;
        assert(r@[k] == i);
    }
}

/// The row of a transfer says how far it is and what can be done about it: one that failed can be
/// tried again, one that is planned can be called off, and so can one that waits or runs and is not
/// the root of a plan.
pub proof fn law_row_tells_the_transfer(
    job: TransferJob,
    plans: Vec<(TransferId, PlanLine)>,
    sizes: SizeTexts,
    rates: TransferRateBook,
    now: u64,
    r: JobRow,
)
    requires
        forall|k: int| 0 <= k < plans@.len() ==> (#[trigger] plans@[k]).0 != job.id,
        job.state matches TransferState::Running { bytes_done, .. } ==> bytes_done * 100 <= u64::MAX,
        call_ensures(transfer_job_row, (&job, &plans, &sizes, &rates, now), r),
    ensures
        r.can_retry <==> job.state is Failed,
        r.can_cancel <==> job.state is Planning || job.state is Queued || job.state is Running,
        job.state matches TransferState::Running { bytes_done, bytes_total: Some(total) } ==> (total
            > 0 ==> r.progress == Some((bytes_done, total)) && r.state_label@ == decimal(
            (bytes_done * 100 / total as int) as nat,
        ) + seq!['%']),
        job.state is Completed ==> r.progress == Some((1u64, 1u64)),
        job.state is Queued || job.state is Failed || job.state is Skipped ==> r.progress is None,
        job.state is Failed && job.warnings@.len() == 0 ==> r.detail@
            == job.state->error.message@,
        job.state is Completed && job.warnings@.len() > 0 ==> r.detail@
            == job.warnings@.last()@,
{
    lemma_no_plan(plans@, job.id);
    reveal_strlit("%");
    assert("%"@ =~= seq!['%']);
}

proof fn lemma_no_plan(plans: Seq<(TransferId, PlanLine)>, id: TransferId)
    requires
        forall|k: int| 0 <= k < plans.len() ==> (#[trigger] plans[k]).0 != id,
    ensures
        crate::drawer_view::plan_with_root(plans, id) is None,
        crate::drawer_view::plan_index(plans, id) == plans.len(),
    decreases plans.len(),
{
    if plans.len() > 0 {
        let rest = plans.drop_first();
        assert forall|k: int| 0 <= k < rest.len() implies (#[trigger] rest[k]).0 != id by {
            assert(rest[k] == plans[k + 1]);
        }
        assert(plans[0].0 != id);
        lemma_no_plan(rest, id);
    }
}

/// The history lists every transfer once, the latest first.
pub proof fn law_history_lists_the_latest_first(
    records: Vec<HistoryRecord>,
    record: HistoryRecord,
    i: int,
    j: int,
    r: Vec<HistoryRecord>,
)
    requires
        call_ensures(order_history, (records,), r),
    ensures
        r@.len() == records@.len(),
        r@.contains(record) <==> records@.contains(record),
        0 <= i < j < r@.len() ==> r@[i].last_updated.0 >= r@[j].last_updated.0,
{
    let keep = updated_at(record.last_updated);
    lemma_filter_holds(records@, keep);
    lemma_filter_holds(r@, keep);
    assert(r@.filter(keep) == records@.filter(keep));
    assert(r@.filter(keep).contains(record) <==> r@.contains(record));
    assert(records@.filter(keep).contains(record) <==> records@.contains(record));
}

/// A transfer of an earlier time can be tried again where that makes sense and the tab that is
/// shown is connected.
pub proof fn law_earlier_transfer_can_be_tried_again(
    w: Workspace,
    i: int,
    record: HistoryRecord,
    r: HistoryRow,
)
    requires
        shows(w, i),
        call_ensures(Workspace::history_row, (&w, &record), r),
    ensures
        r.id == record.id,
        r.can_retry <==> record.retryable && w.tabs.tabs@[i].connection is Connected,
{
    lemma_shown(w, i);
}

/// Of the temporary files of earlier runs, those remain that lie on a server or could not be
/// removed.
pub proof fn law_leftovers_remain_until_they_are_gone(
    records: Vec<ResidualTemp>,
    outcomes: Vec<RemoveOutcome>,
    k: int,
    m: int,
    r: Vec<ResidualTemp>,
)
    requires
        records@.len() == outcomes@.len(),
        0 <= k < records@.len(),
        call_ensures(reconcile_local_residual_temps, (records, &outcomes), r),
    ensures
        !records@[k].is_local || outcomes@[k] is Failed ==> r@.contains(records@[k]),
        0 <= m < r@.len() ==> exists|j: int|
            0 <= j < records@.len() && #[trigger] records@[j] == r@[m] && (!records@[j].is_local
                || outcomes@[j] is Failed),
{
    lemma_unsettled(records@, outcomes@, k, m);
}

proof fn lemma_unsettled(
    records: Seq<ResidualTemp>,
    outcomes: Seq<RemoveOutcome>,
    k: int,
    m: int,
)
    requires
        records.len() == outcomes.len(),
        0 <= k < records.len(),
    ensures
        !records[k].is_local || outcomes[k] is Failed ==> unsettled(records, outcomes).contains(
            records[k],
        ),
        0 <= m < unsettled(records, outcomes).len() ==> exists|j: int|
            0 <= j < records.len() && #[trigger] records[j] == unsettled(records, outcomes)[m] && (
            !records[j].is_local || outcomes[j] is Failed),
    decreases records.len(),
{
    let front = records.drop_last();
    let ends = outcomes.drop_last();
    let left = unsettled(records, outcomes);
    let before = unsettled(front, ends);
    let n = records.len() - 1;
    if front.len() > 0 {
        let kk = if k < n {
            k
        } else {
            0
        };
        lemma_unsettled(front, ends, kk, m);
    } else {
        assert(before =~= Seq::<ResidualTemp>::empty());
    }
    if k < n && (!records[k].is_local || outcomes[k] is Failed) {
        assert(front[k] == records[k]);
        let p = choose|p: int| 0 <= p < before.len() && before[p] == records[k];
        assert(left[p] == records[k]);
    }
    if k == n && (!records[k].is_local || outcomes[k] is Failed) {
        assert(left[before.len() as int] == records[k]);
    }
    if 0 <= m < left.len() {
        if m < before.len() {
            let j = choose|j: int|
                0 <= j < front.len() && #[trigger] front[j] == before[m] && (!front[j].is_local
                    || ends[j] is Failed);
            assert(records[j] == left[m]);
        } else {
            assert(records[n] == left[m]);
        }
    }
}

/// Tabs get ids that were not handed out before, and two runs never share the name under which
/// they keep their temporary files.
pub proof fn law_ids_are_handed_out_once(
    a: &mut AppResources,
    b: &mut AppResources,
    first: TabId,
    second: TabId,
    p: u32,
    t: u128,
    n: u64,
    q: u32,
    u: u128,
    m: u64,
    run: String,
    other: String,
)
    requires
        call_ensures(AppResources::next_tab_id, (a,), first),
        *old(b) == *final(a),
        call_ensures(AppResources::next_tab_id, (b,), second),
        call_ensures(edit_run_id, (p, t, n), run),
        call_ensures(edit_run_id, (q, u, m), other),
    ensures
        second != first,
        first.0 < u64::MAX ==> second.0 == first.0 + 1,
        run@ == other@ <==> p == q && t == u && n == m,
        final(b).edit_sessions == old(a).edit_sessions,
        final(b).residual_temps == old(a).residual_temps,
{
    if run@ == other@ {
        law_run_names_differ(p, t, n, q, u, m);
    }
}

}
