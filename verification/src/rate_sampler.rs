//! How fast transfers run and how long they still take, from a sliding window of progress
//! reports.
//!
//! Times are nanoseconds of a clock that never runs backwards. Speeds are bytes per second and
//! fractions of one, `SPEED_UNIT` of which make a byte per second; they are rounded up, so that
//! adding them up never makes an estimate longer.

use std::collections::HashMap;

use vstd::prelude::*;

use crate::model::TransferId;
use crate::text::{decimal, joined, joined3, wide_decimal_text};

verus! {

broadcast use vstd::std_specs::hash::group_hash_axioms;

/// How far back the window reaches.
pub const WINDOW_NANOS: u64 = 4_000_000_000;

/// How long reports must span before a speed is told from them.
pub const WARMUP_NANOS: u64 = 500_000_000;

/// How long without progress makes a transfer stalled.
pub const STALL_NANOS: u64 = 3_000_000_000;

/// How many units of speed make one byte per second.
pub const SPEED_UNIT: u64 = 1_000_000_000_000_000_000;

/// A speed: bytes per second, and a fraction of one in units.
#[derive(Clone, Copy, PartialEq, Eq, Structural, Debug)]
pub struct Speed {
    pub whole: u128,
    pub part: u64,
}

impl Speed {
    /// The fraction is less than a byte per second.
    pub open spec fn wf(&self) -> bool {
        self.part < SPEED_UNIT
    }

    /// The speed in units.
    pub open spec fn units(&self) -> nat {
        self.whole as nat * SPEED_UNIT as nat + self.part as nat
    }
}

/// The speed of so many units; the largest where there are too many.
pub open spec fn speed_of_units(units: nat) -> Speed {
    if units / SPEED_UNIT as nat <= u128::MAX {
        Speed {
            whole: (units / SPEED_UNIT as nat) as u128,
            part: (units % SPEED_UNIT as nat) as u64,
        }
    } else {
        Speed { whole: u128::MAX, part: (SPEED_UNIT - 1) as u64 }
    }
}

pub(crate) proof fn lemma_speed_of_units(units: nat)
    ensures
        speed_of_units(units).wf(),
        units / SPEED_UNIT as nat <= u128::MAX ==> speed_of_units(units).units() == units,
{
}

/// The bytes that came in some time.
#[derive(Clone, Copy, PartialEq, Eq, Structural, Debug)]
pub struct Progress {
    pub bytes: u64,
    pub nanos: u64,
}

/// How fast the rest of a transfer is taken to come.
#[derive(Clone, Copy, PartialEq, Eq, Structural, Debug)]
pub enum Pace {
    /// As the bytes of the window came.
    Measured(Progress),
    /// At a speed added up from several transfers.
    Total(Speed),
}

/// The time that some bytes still take.
#[derive(Clone, Copy, PartialEq, Eq, Structural, Debug)]
pub struct Eta {
    pub bytes: u64,
    pub pace: Pace,
}

/// The seconds that an estimate stands for, as a fraction.
pub open spec fn eta_fraction(eta: Eta) -> (nat, nat) {
    match eta.pace {
        Pace::Measured(progress) => (
            eta.bytes as nat * progress.nanos as nat,
            progress.bytes as nat * 1_000_000_000,
        ),
        Pace::Total(speed) => (eta.bytes as nat * SPEED_UNIT as nat, speed.units()),
    }
}

/// The estimate is a number of seconds.
pub open spec fn is_time(eta: Option<Eta>) -> bool {
    eta matches Some(eta) ==> 0 < eta_fraction(eta).1 && (eta.pace matches Pace::Total(speed)
        ==> speed.wf())
}

/// The state of one transfer.
#[derive(Clone, Copy, PartialEq, Eq, Structural, Debug)]
pub struct RateSnapshot {
    pub speed: Option<Speed>,
    pub stalled: bool,
    pub eta: Option<Eta>,
}

/// The state of all running transfers together.
#[derive(Clone, Copy, PartialEq, Eq, Structural, Debug)]
pub struct AggregateRate {
    pub speed: Option<Speed>,
    pub eta: Option<Eta>,
}

/// A progress report.
#[derive(Clone, Copy, PartialEq, Eq, Structural, Debug)]
pub struct RateSample {
    pub at: u64,
    pub bytes_done: u64,
}

/// The reports of one transfer.
#[derive(PartialEq, Eq, Debug)]
pub struct RateSampler {
    pub samples: Vec<RateSample>,
    pub last_bytes_change_at: Option<u64>,
    pub last_bytes: Option<u64>,
}

/// The reports of one transfer, as contracts speak of them.
pub struct SamplerView {
    pub samples: Seq<RateSample>,
    pub changed_at: Option<u64>,
    pub last_bytes: Option<u64>,
}

impl View for RateSampler {
    type V = SamplerView;

    open spec fn view(&self) -> SamplerView {
        SamplerView {
            samples: self.samples@,
            changed_at: self.last_bytes_change_at,
            last_bytes: self.last_bytes,
        }
    }
}

/// No report yet.
pub open spec fn no_reports() -> SamplerView {
    SamplerView { samples: Seq::empty(), changed_at: None, last_bytes: None }
}

/// The report lies before the window that ends now.
pub open spec fn too_old(sample: RateSample, now: u64) -> bool {
    now - sample.at > WINDOW_NANOS
}

/// The reports without those at the front that lie before the window; the last always stays.
pub open spec fn pruned(samples: Seq<RateSample>, now: u64) -> Seq<RateSample>
    decreases samples.len(),
{
    if samples.len() > 1 && too_old(samples[0], now) {
        pruned(samples.drop_first(), now)
    } else {
        samples
    }
}

/// The reports after one more. Only a report of more bytes than ever counts as progress.
pub open spec fn observed(v: SamplerView, bytes_done: u64, now: u64) -> SamplerView {
    let progress = v.last_bytes is None || bytes_done > v.last_bytes->0;
    SamplerView {
        samples: pruned(v.samples.push(RateSample { at: now, bytes_done }), now),
        changed_at: if progress {
            Some(now)
        } else {
            v.changed_at
        },
        last_bytes: if progress {
            Some(bytes_done)
        } else {
            v.last_bytes
        },
    }
}

/// The difference, or zero where it would be negative.
pub open spec fn monus(a: int, b: int) -> int {
    if a >= b {
        a - b
    } else {
        0
    }
}

/// What came between the first and the last report, where there are two of them far enough apart.
pub open spec fn window_progress(samples: Seq<RateSample>) -> Option<Progress> {
    if samples.len() < 2 {
        None
    } else {
        let nanos = monus(samples.last().at as int, samples[0].at as int);
        let bytes = monus(samples.last().bytes_done as int, samples[0].bytes_done as int);
        if nanos < WARMUP_NANOS {
            None
        } else {
            Some(Progress { bytes: bytes as u64, nanos: nanos as u64 })
        }
    }
}

/// The speed at which bytes came, rounded up to whole units.
pub open spec fn speed_of(progress: Progress) -> Speed {
    speed_of_units(
        rounded_up(
            progress.bytes as nat * 1_000_000_000 * SPEED_UNIT as nat,
            progress.nanos as nat,
        ),
    )
}

/// The speed between the first and the last report, where there are two of them far enough
/// apart.
pub open spec fn window_speed(samples: Seq<RateSample>) -> Option<Speed> {
    match window_progress(samples) {
        Some(progress) => Some(speed_of(progress)),
        None => None,
    }
}

/// The transfer made no progress for long enough, and the window shows none.
pub open spec fn is_stalled(v: SamplerView, now: u64) -> bool {
    &&& v.changed_at is Some
    &&& monus(now as int, v.changed_at->0 as int) >= STALL_NANOS
    &&& (window_speed(v.samples) is None || window_speed(v.samples)->0.units() == 0)
}

/// The state of a transfer at the given time.
pub open spec fn snapshot_at(
    v: SamplerView,
    bytes_done: u64,
    bytes_total: Option<u64>,
    now: u64,
) -> RateSnapshot {
    let speed = window_speed(v.samples);
    let stalled = is_stalled(v, now);
    RateSnapshot {
        speed,
        stalled,
        eta: if stalled || speed is None || speed->0.units() == 0 || bytes_total is None
            || bytes_total->0 < bytes_done {
            None
        } else {
            Some(
                Eta {
                    bytes: (bytes_total->0 - bytes_done) as u64,
                    pace: Pace::Measured(window_progress(v.samples)->0),
                },
            )
        },
    }
}

/// The state of a transfer of which nothing was reported.
pub open spec fn unknown_rate() -> RateSnapshot {
    RateSnapshot { speed: None, stalled: false, eta: None }
}

/// The reports of every running transfer.
#[derive(PartialEq, Eq, Debug)]
pub struct TransferRateBook {
    /// By the number of the transfer.
    pub samplers: HashMap<u64, RateSampler>,
}

impl TransferRateBook {
    /// The reports of a transfer, where there are any.
    pub open spec fn reports(&self, id: TransferId) -> Option<SamplerView> {
        if self.samplers@.contains_key(id.0) {
            Some(self.samplers@[id.0]@)
        } else {
            None
        }
    }

    pub fn new() -> (r: Self)
        ensures
            forall|id: TransferId| #[trigger] r.reports(id) is None,
    {
        TransferRateBook { samplers: HashMap::new() }
    }

    /// Takes in a progress report.
    pub fn observe(&mut self, id: TransferId, bytes_done: u64, now: u64)
        ensures
            final(self).reports(id) == Some(
                observed(
                    match old(self).reports(id) {
                        Some(v) => v,
                        None => no_reports(),
                    },
                    bytes_done,
                    now,
                ),
            ),
            forall|other: TransferId|
                other != id ==> #[trigger] final(self).reports(other) == old(self).reports(other),
    {
        let grown = match self.samplers.get(&id.0) {
            Some(sampler) => with_report(sampler, bytes_done, now),
            None => {
                let fresh = RateSampler {
                    samples: Vec::new(),
                    last_bytes_change_at: None,
                    last_bytes: None,
                };
                assert(fresh@.samples =~= no_reports().samples);
                with_report(&fresh, bytes_done, now)
            },
        };
        let _ = self.samplers.insert(id.0, grown);
    }

    /// Forgets the reports of a transfer.
    pub fn clear(&mut self, id: TransferId)
        ensures
            final(self).reports(id) is None,
            forall|other: TransferId|
                other != id ==> #[trigger] final(self).reports(other) == old(self).reports(other),
    {
        let _ = self.samplers.remove(&id.0);
    }

    /// The state of a transfer at the given time.
    pub fn snapshot(
        &self,
        id: TransferId,
        bytes_done: u64,
        bytes_total: Option<u64>,
        now: u64,
    ) -> (r: RateSnapshot)
        ensures
            r == match self.reports(id) {
                Some(v) => snapshot_at(v, bytes_done, bytes_total, now),
                None => unknown_rate(),
            },
            is_time(r.eta),
            r.speed matches Some(speed) ==> speed.wf(),
    {
        let sampler = match self.samplers.get(&id.0) {
            Some(sampler) => sampler,
            None => return RateSnapshot { speed: None, stalled: false, eta: None },
        };
        let progress = progress_from_samples(&sampler.samples);
        let speed = speed_from_samples(&sampler.samples);
        let no_speed = match speed {
            Some(speed) => speed.whole == 0 && speed.part == 0,
            None => true,
        };
        let stalled = match sampler.last_bytes_change_at {
            Some(changed) => now >= changed && now - changed >= STALL_NANOS && no_speed,
            None => false,
        };
        let eta = match (progress, bytes_total) {
            (Some(progress), Some(total)) => {
                if stalled || no_speed || total < bytes_done {
                    None
                } else {
                    Some(Eta { bytes: total - bytes_done, pace: Pace::Measured(progress) })
                }
            },
            _ => None,
        };
        RateSnapshot { speed, stalled, eta }
    }

    /// The state of a running transfer, given as its id, the bytes done and the bytes in all.
    pub open spec fn state_of(&self, job: (TransferId, u64, Option<u64>), now: u64) -> RateSnapshot {
        match self.reports(job.0) {
            Some(v) => snapshot_at(v, job.1, job.2, now),
            None => unknown_rate(),
        }
    }

    /// The speeds of the transfers that are not stalled, added up; none where there is none.
    pub open spec fn total_speed(
        &self,
        running: Seq<(TransferId, u64, Option<u64>)>,
        now: u64,
    ) -> Option<Speed>
        decreases running.len(),
    {
        if running.len() == 0 {
            None
        } else {
            let rest = self.total_speed(running.drop_last(), now);
            let last = self.state_of(running.last(), now);
            if last.speed is None || last.stalled {
                rest
            } else {
                match rest {
                    None => last.speed,
                    Some(sum) => Some(speed_of_units(sum.units() + last.speed->0.units())),
                }
            }
        }
    }

    /// The state of all running transfers together: their speeds summed, and the time that the
    /// rest of them takes at that speed.
    pub open spec fn total_rate(
        &self,
        running: Seq<(TransferId, u64, Option<u64>)>,
        now: u64,
    ) -> AggregateRate {
        let speed = self.total_speed(running, now);
        AggregateRate {
            speed,
            eta: if speed is Some && speed->0.units() > 0 && total_remaining(running) is Some {
                Some(Eta { bytes: total_remaining(running)->0, pace: Pace::Total(speed->0) })
            } else {
                None
            },
        }
    }

    /// The state of all running transfers together.
    pub fn aggregate(&self, running: &Vec<(TransferId, u64, Option<u64>)>, now: u64) -> (r:
        AggregateRate)
        ensures
            r == self.total_rate(running@, now),
            is_time(r.eta),
            r.speed matches Some(speed) ==> speed.wf(),
    {
        let mut speed: Option<Speed> = None;
        let mut remaining: Option<u64> = None;
        let mut i: usize = 0;
        while i < running.len()
            invariant
                i <= running@.len(),
                speed == self.total_speed(running@.take(i as int), now),
                speed matches Some(sum) ==> sum.wf(),
                remaining == total_remaining(running@.take(i as int)),
            decreases running@.len() - i,
        {
            let (id, done, total) = running[i];
            let ghost front = running@.take(i + 1);
            assert(front.drop_last() =~= running@.take(i as int));
            assert(front.last() == running@[i as int]);
            let state = self.snapshot(id, done, total, now);
            if let Some(s) = state.speed {
                if !state.stalled {
                    speed = match speed {
                        None => Some(s),
                        Some(sum) => Some(together(sum, s)),
                    };
                }
            }
            if let Some(t) = total {
                let left: u64 = if t >= done {
                    t - done
                } else {
                    0
                };
                remaining = match remaining {
                    None => Some(left),
                    Some(sum) => Some(
                        if left > u64::MAX - sum {
                            u64::MAX
                        } else {
                            sum + left
                        },
                    ),
                };
            }
            i += 1;
        }
        assert(running@.take(i as int) =~= running@);
        let eta = match (speed, remaining) {
            (Some(speed), Some(bytes)) => {
                if speed.whole > 0 || speed.part > 0 {
                    Some(Eta { bytes, pace: Pace::Total(speed) })
                } else {
                    None
                }
            },
            _ => None,
        };
        AggregateRate { speed, eta }
    }
}

fn together(a: Speed, b: Speed) -> (r: Speed)
    requires
        a.wf(),
        b.wf(),
    ensures
        r == speed_of_units(a.units() + b.units()),
        r.wf(),
{
    let parts: u64 = a.part + b.part;
    let (carry, part): (u128, u64) = if parts >= SPEED_UNIT {
        (1, parts - SPEED_UNIT)
    } else {
        (0, parts)
    };
    let ghost whole = a.whole + b.whole + carry;
    proof {
        let units = a.units() + b.units();
        assert(units == whole * SPEED_UNIT + part);
        assert(units / SPEED_UNIT as nat == whole);
        assert(units % SPEED_UNIT as nat == part);
    }
    if a.whole > u128::MAX - b.whole || a.whole + b.whole > u128::MAX - carry {
        Speed { whole: u128::MAX, part: SPEED_UNIT - 1 }
    } else {
        Speed { whole: a.whole + b.whole + carry, part }
    }
}

/// The bytes still to go of the transfers whose size is known; none where there is none.
pub open spec fn total_remaining(running: Seq<(TransferId, u64, Option<u64>)>) -> Option<u64>
    decreases running.len(),
{
    if running.len() == 0 {
        None
    } else {
        let rest = total_remaining(running.drop_last());
        match running.last().2 {
            None => rest,
            Some(total) => {
                let left = monus(total as int, running.last().1 as int);
                match rest {
                    None => Some(left as u64),
                    Some(sum) => if sum + left > u64::MAX {
                        Some(u64::MAX)
                    } else {
                        Some((sum + left) as u64)
                    },
                }
            },
        }
    }
}

fn with_report(sampler: &RateSampler, bytes_done: u64, now: u64) -> (r: RateSampler)
    ensures
        r@ == observed(sampler@, bytes_done, now),
{
    let mut samples: Vec<RateSample> = sampler.samples.clone();
    assert(samples@ =~= sampler.samples@);
    samples.push(RateSample { at: now, bytes_done });
    let ghost all = samples@;
    while samples.len() > 1 && now > samples[0].at && now - samples[0].at > WINDOW_NANOS
        invariant
            pruned(all, now) == pruned(samples@, now),
        decreases samples@.len(),
    {
        let ghost held = samples@;
        let _ = samples.remove(0);
        assert(samples@ =~= held.drop_first());
    }
    let progress = match sampler.last_bytes {
        Some(last) => bytes_done > last,
        None => true,
    };
    RateSampler {
        samples,
        last_bytes_change_at: if progress {
            Some(now)
        } else {
            sampler.last_bytes_change_at
        },
        last_bytes: if progress {
            Some(bytes_done)
        } else {
            sampler.last_bytes
        },
    }
}

/// What came between the first and the last report, where there are two of them far enough apart.
pub fn progress_from_samples(samples: &Vec<RateSample>) -> (r: Option<Progress>)
    ensures
        r == window_progress(samples@),
{
    let count: usize = samples.len();
    if count < 2 {
        return None;
    }
    let first = samples[0];
    let last = samples[count - 1];
    let nanos: u64 = if last.at >= first.at {
        last.at - first.at
    } else {
        0
    };
    if nanos < WARMUP_NANOS {
        return None;
    }
    let bytes: u64 = if last.bytes_done >= first.bytes_done {
        last.bytes_done - first.bytes_done
    } else {
        0
    };
    Some(Progress { bytes, nanos })
}

/// A fraction of a multiple can be rounded up part by part.
proof fn lemma_rounded_up_in_parts(n: nat, unit: nat, d: nat)
    requires
        0 < d,
    ensures
        rounded_up(n * unit, d) == (n / d) * unit + rounded_up((n % d) * unit, d),
{
    let whole = n / d;
    let rest = n % d;
    vstd::arithmetic::div_mod::lemma_fundamental_div_mod(n as int, d as int);
    assert(n * unit == d * (whole * unit) + rest * unit) by (nonlinear_arith)
        requires
            n == d * whole + rest,
    ;
    vstd::arithmetic::div_mod::lemma_hoist_over_denominator(
        (rest * unit) as int,
        (whole * unit) as int,
        d,
    );
    vstd::arithmetic::div_mod::lemma_mod_multiples_vanish(
        (whole * unit) as int,
        (rest * unit) as int,
        d as int,
    );
    assert((whole * unit) * d == d * (whole * unit)) by (nonlinear_arith);
}

proof fn lemma_rounded_up_bounds(n: nat, d: nat)
    requires
        0 < d,
    ensures
        rounded_up(n, d) <= n,
        n > 0 ==> rounded_up(n, d) > 0,
{
    vstd::arithmetic::div_mod::lemma_fundamental_div_mod(n as int, d as int);
    let (q, r) = (n / d, n % d);
    assert(q + (if r == 0 {
        0int
    } else {
        1int
    }) <= n && (n > 0 && r == 0 ==> q > 0)) by (nonlinear_arith)
        requires
            n == d * q + r,
            0 < d,
            0 <= r,
            0 <= q,
    ;
}

pub(crate) proof fn lemma_speed_bound(progress: Progress)
    requires
        WARMUP_NANOS <= progress.nanos,
    ensures
        rounded_up(
            progress.bytes as nat * 1_000_000_000 * SPEED_UNIT as nat,
            progress.nanos as nat,
        ) <= 2 * progress.bytes * SPEED_UNIT,
{
    let n = progress.bytes as nat * 1_000_000_000 * SPEED_UNIT as nat;
    let d = progress.nanos as nat;
    let top = 2 * progress.bytes as nat * SPEED_UNIT as nat;
    vstd::arithmetic::div_mod::lemma_fundamental_div_mod(n as int, d as int);
    let (q, r) = (n / d, n % d);
    assert(n <= d * top) by (nonlinear_arith)
        requires
            n == progress.bytes as nat * 1_000_000_000 * SPEED_UNIT as nat,
            top == 2 * progress.bytes as nat * SPEED_UNIT as nat,
            500_000_000 <= d,
    ;
    assert(q + (if r == 0 {
        0int
    } else {
        1int
    }) <= top) by (nonlinear_arith)
        requires
            n == d * q + r,
            n <= d * top,
            0 < d,
            0 <= r,
    ;
}

fn speed_at(progress: Progress) -> (r: Speed)
    requires
        WARMUP_NANOS <= progress.nanos,
    ensures
        r == speed_of(progress),
        r.wf(),
        r.units() == 0 <==> progress.bytes == 0,
{
    let n: u128 = (progress.bytes as u128) * 1_000_000_000;
    let d: u128 = progress.nanos as u128;
    let unit: u128 = SPEED_UNIT as u128;
    let whole: u128 = n / d;
    let rest: u128 = n % d;
    assert(rest < d) by (nonlinear_arith)
        requires
            0 < d,
            rest == n % d,
    ;
    let part: u128 = up(rest * unit, d);
    let ghost units = rounded_up(n as nat * unit as nat, d as nat);
    proof {
        lemma_rounded_up_in_parts(n as nat, unit as nat, d as nat);
        assert(units == whole * unit + part);
        vstd::arithmetic::div_mod::lemma_fundamental_div_mod(rest * unit, d as int);
        assert(part <= unit) by (nonlinear_arith)
            requires
                rest * unit == d * ((rest * unit) / d as int) + (rest * unit) % (d as int),
                0 < d,
                rest < d,
                part == rounded_up((rest * unit) as nat, d as nat),
                part == (rest * unit) / d as int + (if (rest * unit) % (d as int) == 0 {
                    0int
                } else {
                    1int
                }),
                0 <= (rest * unit) % (d as int),
        ;
        lemma_speed_bound(progress);
        assert(units <= 2 * progress.bytes * unit);
        lemma_rounded_up_bounds((n * unit) as nat, d as nat);
        lemma_speed_of_units(units);
        assert(n > 0 ==> n * unit > 0) by (nonlinear_arith)
            requires
                unit > 0,
        ;
        assert(n == 0 ==> n * unit == 0) by (nonlinear_arith);
    }
    if part == unit {
        Speed { whole: whole + 1, part: 0 }
    } else {
        Speed { whole, part: part as u64 }
    }
}

/// The speed between the first and the last report, where there are two of them far enough
/// apart.
pub fn speed_from_samples(samples: &Vec<RateSample>) -> (r: Option<Speed>)
    ensures
        r == window_speed(samples@),
        r matches Some(speed) ==> speed.wf() && (speed.units() == 0 <==> window_progress(
            samples@,
        )->0.bytes == 0),
{
    match progress_from_samples(samples) {
        Some(progress) => Some(speed_at(progress)),
        None => None,
    }
}

/// The quotient to the nearest whole number, to the even one where both are as near.
pub open spec fn nearest(n: nat, unit: nat) -> nat {
    let down = n / unit;
    let rest = n % unit;
    if 2 * rest < unit || (2 * rest == unit && down % 2 == 0) {
        down
    } else {
        down + 1
    }
}

/// A number of tenths with one digit behind the point.
pub open spec fn with_tenth(tenths: nat) -> Seq<char> {
    decimal(tenths / 10) + "."@ + decimal(tenths % 10)
}

/// The fraction with its value doubled until it has the digits of a double: one that is nearest
/// to it, to be divided by the factor.
pub open spec fn scaled_up(n: nat, d: nat, factor: nat) -> (nat, nat)
    decreases monus((0x10_0000_0000_0000 * d) as int, n as int),
{
    if n == 0 || n >= 0x10_0000_0000_0000 * d {
        (nearest(n, d), factor)
    } else {
        scaled_up(2 * n, d, 2 * factor)
    }
}

/// The fraction with its value halved until it has no more than the digits of a double: one that
/// is nearest to it, times the factor.
pub open spec fn scaled_down(n: nat, d: nat, factor: nat) -> nat
    decreases monus(n as int, d as int),
{
    if d == 0 || n < 0x20_0000_0000_0000 * d {
        nearest(n, d) * factor
    } else {
        scaled_down(n, 2 * d, 2 * factor)
    }
}

/// The double-precision number nearest to a fraction, as a fraction itself.
pub open spec fn as_double(n: nat, d: nat) -> (nat, nat) {
    if n >= 0x20_0000_0000_0000 * d {
        (scaled_down(n, d, 1), 1)
    } else {
        scaled_up(n, d, 1)
    }
}

/// The tenths that the double nearest to a fraction is shown with.
pub open spec fn tenths_shown(n: nat, d: nat) -> nat {
    let (a, b) = as_double(n, d);
    nearest(10 * a, b)
}

fn nearest_to(n: u128, unit: u128) -> (r: u128)
    requires
        0 < unit,
        n < u128::MAX,
    ensures
        r == nearest(n as nat, unit as nat),
        r <= n + 1,
{
    let down: u128 = n / unit;
    let rest: u128 = n % unit;
    assert(down <= n && rest < unit) by (nonlinear_arith)
        requires
            0 < unit,
            down == n / unit,
            rest == n % unit,
    ;
    if rest < unit - rest || (rest == unit - rest && down % 2 == 0) {
        down
    } else {
        down + 1
    }
}

/// The quotient and the rest of a division by a product can be had factor by factor.
proof fn lemma_divided(n: nat, d: nat, q: nat, r: nat)
    requires
        n == q * d + r,
        r < d,
    ensures
        n / d == q,
        n % d == r,
{
    vstd::arithmetic::div_mod::lemma_fundamental_div_mod_converse(
        n as int,
        d as int,
        q as int,
        r as int,
    );
}

/// The tenths of a large number, of which the last digits are lost.
fn tenths_of_large(q: u128, r: u128, d: u128) -> (tenths: u128)
    requires
        r < d,
        0x20_0000_0000_0000 <= q < 0x100_0000_0000_0000_0000_0000_0000_0000,
    ensures
        tenths == 10 * scaled_down((q * d + r) as nat, d as nat, 1),
{
    let ghost n = (q * d + r) as nat;
    let mut m: u128 = q;
    let mut low: u128 = 0;
    let mut factor: u128 = 1;
    proof {
        assert(q == m * factor + low) by (nonlinear_arith)
            requires
                m == q,
                factor == 1,
                low == 0,
        ;
        assert(d * factor == d) by (nonlinear_arith)
            requires
                factor == 1,
        ;
    }
    while m >= 0x20_0000_0000_0000
        invariant
            r < d,
            n == q * d + r,
            q < 0x100_0000_0000_0000_0000_0000_0000_0000,
            q == m * factor + low,
            low < factor,
            factor >= 2 || m == q,
            factor >= 2 ==> factor % 2 == 0,
            q >= 0x20_0000_0000_0000,
            m >= 0x10_0000_0000_0000,
            scaled_down(n, d as nat, 1) == scaled_down(
                n,
                (d * factor) as nat,
                factor as nat,
            ),
        decreases m,
    {
        let bit: u128 = m % 2;
        let half: u128 = m / 2;
        proof {
            assert(m == 2 * half + bit && 0 <= bit < 2);
            assert(n >= 0x20_0000_0000_0000 * (d * factor)) by (nonlinear_arith)
                requires
                    n == q * d + r,
                    q == m * factor + low,
                    m >= 0x20_0000_0000_0000,
                    0 <= low,
                    0 <= r,
                    0 <= d,
                    0 <= factor,
            ;
            assert(d * factor > 0) by (nonlinear_arith)
                requires
                    d > 0,
                    factor > 0,
            ;
            assert(d * (2 * factor) == 2 * (d * factor)) by (nonlinear_arith);
            assert(m * factor == half * (2 * factor) + bit * factor) by (nonlinear_arith)
                requires
                    m == 2 * half + bit,
            ;
            assert(bit * factor <= factor) by (nonlinear_arith)
                requires
                    0 <= bit <= 1,
                    0 <= factor,
            ;
            assert(2 * factor <= q) by (nonlinear_arith)
                requires
                    q == m * factor + low,
                    m >= 2,
                    0 <= low,
                    0 <= factor,
            ;
            assert(bit * factor == if bit == 1 {
                factor as int
            } else {
                0int
            }) by (nonlinear_arith)
                requires
                    0 <= bit <= 1,
            ;
        }
        if bit == 1 {
            low = low + factor;
        }
        m = half;
        factor = 2 * factor;
    }
    let middle: u128 = factor / 2;
    let ghost wide = (d * factor) as nat;
    let ghost rest = (low * d + r) as nat;
    proof {
        assert(n == m * wide + rest) by (nonlinear_arith)
            requires
                n == q * d + r,
                q == m * factor + low,
                wide == d * factor,
                rest == low * d + r,
        ;
        assert(rest < wide) by (nonlinear_arith)
            requires
                rest == low * d + r,
                wide == d * factor,
                r < d,
                low + 1 <= factor,
        ;
        lemma_divided(n, wide, m as nat, rest);
        assert(n < 0x20_0000_0000_0000 * wide) by (nonlinear_arith)
            requires
                n == m * wide + rest,
                rest < wide,
                m + 1 <= 0x20_0000_0000_0000,
        ;
        assert(wide == 2 * (middle * d)) by (nonlinear_arith)
            requires
                wide == d * factor,
                factor == 2 * middle,
        ;
        assert(low < middle ==> rest < middle * d) by (nonlinear_arith)
            requires
                rest == low * d + r,
                r < d,
        ;
        assert(low > middle ==> rest > middle * d) by (nonlinear_arith)
            requires
                rest == low * d + r,
                0 <= r < d,
        ;
        assert(low == middle ==> rest == middle * d + r);
    }
    let rounded: u128 = if low < middle || (low == middle && r == 0 && m % 2 == 0) {
        m
    } else {
        m + 1
    };
    proof {
        assert(rounded == nearest(n, wide));
        assert(rounded * factor <= 2 * q) by (nonlinear_arith)
            requires
                rounded <= m + 1,
                m >= 1,
                q == m * factor + low,
                0 <= low,
                0 <= factor,
        ;
    }
    10 * (rounded * factor)
}

/// The tenths of a number with fewer digits before the point than a double has.
fn tenths_of_small(q: u128, r: u128, d: u128) -> (tenths: u128)
    requires
        r < d,
        q < 0x20_0000_0000_0000,
        q > 0 || r > 0,
        d <= 1_000_000_000_000_000_000_000_000,
        q > 0 || d <= 1_000_000_000_000_000_000_000,
    ensures
        tenths == ({
            let (a, b) = scaled_up((q * d + r) as nat, d as nat, 1);
            nearest(10 * a, b)
        }),
        tenths <= 0x2_0000_0000_0000_0000,
{
    let ghost n = (q * d + r) as nat;
    let mut m: u128 = q;
    let mut rest: u128 = r;
    let mut factor: u128 = 1;
    proof {
        assert(n > 0) by (nonlinear_arith)
            requires
                n == q * d + r,
                q > 0 || r > 0,
                d > 0,
                0 <= q,
                0 <= r,
        ;
        assert(q > 0 ==> n >= d) by (nonlinear_arith)
            requires
                n == q * d + r,
                0 <= r,
                0 <= d,
        ;
    }
    while m < 0x10_0000_0000_0000
        invariant
            0 < n,
            d > 0,
            rest < d,
            m < 0x20_0000_0000_0000,
            factor > 0,
            n * factor == m * d + rest,
            d <= 1_000_000_000_000_000_000_000_000,
            n >= d || d <= 1_000_000_000_000_000_000_000,
            scaled_up(n, d as nat, 1) == scaled_up(
                (n * factor) as nat,
                d as nat,
                factor as nat,
            ),
        decreases 0x20_0000_0000_0000 * d - n * factor,
    {
        proof {
            assert(n * factor < 0x10_0000_0000_0000 * d) by (nonlinear_arith)
                requires
                    n * factor == m * d + rest,
                    rest < d,
                    m + 1 <= 0x10_0000_0000_0000,
            ;
            assert(n * factor > 0) by (nonlinear_arith)
                requires
                    n > 0,
                    factor > 0,
            ;
            assert(factor <= n * factor) by (nonlinear_arith)
                requires
                    n >= 1,
                    factor > 0,
            ;
            assert(n >= d ==> factor < 0x10_0000_0000_0000) by (nonlinear_arith)
                requires
                    n * factor < 0x10_0000_0000_0000 * d,
                    d > 0,
                    factor > 0,
            ;
            assert(n * (2 * factor) == 2 * (n * factor)) by (nonlinear_arith);
        }
        let twice: u128 = 2 * rest;
        let ghost held = m;
        let ghost left = rest;
        if twice >= d {
            m = 2 * m + 1;
            rest = twice - d;
        } else {
            m = 2 * m;
            rest = twice;
        }
        proof {
            assert(m * d + rest == 2 * (held * d + left)) by (nonlinear_arith)
                requires
                    (m == 2 * held + 1 && rest == 2 * left - d) || (m == 2 * held && rest == 2
                        * left),
            ;
            assert(m * d + rest < 0x20_0000_0000_0000 * d) by (nonlinear_arith)
                requires
                    m + 1 <= 0x20_0000_0000_0000,
                    rest < d,
            ;
        }
        factor = 2 * factor;
    }
    let rounded: u128 = if rest < d - rest || (rest == d - rest && m % 2 == 0) {
        m
    } else {
        m + 1
    };
    proof {
        let wide = (n * factor) as nat;
        lemma_divided(wide, d as nat, m as nat, rest as nat);
        assert(wide >= 0x10_0000_0000_0000 * d) by (nonlinear_arith)
            requires
                wide == m * d + rest,
                m >= 0x10_0000_0000_0000,
                0 <= rest,
                d > 0,
        ;
        assert(rounded == nearest(wide, d as nat));
    }
    nearest_to(10 * rounded, factor)
}

fn tenths_text(speed: Speed, unit: u128) -> (r: String)
    requires
        speed.wf(),
        unit == 1000 || unit == 1_000_000,
        unit == 1_000_000 ==> speed.whole >= 1_000_000,
    ensures
        r@ == with_tenth(tenths_shown(speed.units(), (unit * SPEED_UNIT) as nat)),
{
    let d: u128 = unit * (SPEED_UNIT as u128);
    let q: u128 = speed.whole / unit;
    let rest: u128 = (speed.whole % unit) * (SPEED_UNIT as u128) + speed.part as u128;
    proof {
        let over = speed.whole % unit;
        assert(speed.whole == q * unit + over && over < unit);
        assert(speed.whole * SPEED_UNIT == q * d + over * SPEED_UNIT) by (nonlinear_arith)
            requires
                speed.whole == q * unit + over,
                d == unit * SPEED_UNIT,
        ;
        assert(speed.units() == q * d + rest);
        assert(rest < d);
    }
    let tenths: u128 = if q >= 0x20_0000_0000_0000 {
        proof {
            let n = speed.units();
            assert(n >= 0x20_0000_0000_0000 * d) by (nonlinear_arith)
                requires
                    n == q * d + rest,
                    q >= 0x20_0000_0000_0000,
                    0 <= rest,
                    0 <= d,
            ;
            let a = scaled_down(n, d as nat, 1);
            assert((10 * a) / 1 == 10 * a && (10 * a) % 1 == 0);
        }
        tenths_of_large(q, rest, d)
    } else {
        proof {
            let n = speed.units();
            assert(n < 0x20_0000_0000_0000 * d) by (nonlinear_arith)
                requires
                    n == q * d + rest,
                    q + 1 <= 0x20_0000_0000_0000,
                    rest < d,
            ;
        }
        if q == 0 && rest == 0 {
            proof {
                assert(speed.units() == 0);
                assert(0nat / d as nat == 0 && 0nat % d as nat == 0);
                assert(nearest(0, d as nat) == 0);
                assert(nearest(0, 1) == 0);
            }
            0
        } else {
            tenths_of_small(q, rest, d)
        }
    };
    let whole = wide_decimal_text(tenths / 10);
    let digit = wide_decimal_text(tenths % 10);
    joined3(whole.as_str(), ".", digit.as_str())
}

/// A speed as it is shown: megabytes per second from one megabyte on, kilobytes below, each as
/// the double nearest to it and then to the nearest tenth.
pub open spec fn speed_text(speed: Option<Speed>) -> Seq<char> {
    match speed {
        None => "— MB/s"@,
        Some(s) => if s.whole >= 1_000_000 {
            with_tenth(tenths_shown(s.units(), 1_000_000 * SPEED_UNIT as nat)) + " MB/s"@
        } else {
            with_tenth(tenths_shown(s.units(), 1000 * SPEED_UNIT as nat)) + " KB/s"@
        },
    }
}

/// A speed as it is shown: megabytes per second from one megabyte on, kilobytes below, each as
/// the double nearest to it and then to the nearest tenth.
pub fn format_speed(speed: Option<Speed>) -> (r: String)
    requires
        speed matches Some(s) ==> s.wf(),
    ensures
        r@ == speed_text(speed),
{
    match speed {
        None => "— MB/s".to_string(),
        Some(s) => {
            if s.whole >= 1_000_000 {
                joined(tenths_text(s, 1_000_000).as_str(), " MB/s")
            } else {
                joined(tenths_text(s, 1000).as_str(), " KB/s")
            }
        },
    }
}

/// The smallest whole number that is not below the fraction.
pub open spec fn rounded_up(n: nat, d: nat) -> nat {
    if n % d == 0 {
        n / d
    } else {
        n / d + 1
    }
}

/// An estimate as it is shown: seconds, rounded up, below a minute, minutes and seconds below an
/// hour, hours and minutes from there on.
pub open spec fn eta_text(eta: Option<Eta>) -> Seq<char> {
    match eta {
        None => "—"@,
        Some(eta) => {
            let (n, d) = eta_fraction(eta);
            let whole = n / d;
            let seconds = rounded_up(n, d);
            if whole < 60 {
                decimal(seconds) + "s"@
            } else if whole < 3600 {
                decimal(whole / 60) + "m "@ + decimal((seconds - 60 * (whole / 60)) as nat) + "s"@
            } else {
                decimal(whole / 3600) + "h "@ + decimal((whole % 3600) / 60) + "m"@
            }
        },
    }
}

/// An estimate as it is shown: seconds, rounded up, below a minute, minutes and seconds below an
/// hour, hours and minutes from there on.
pub fn format_eta(eta: Option<Eta>) -> (r: String)
    requires
        is_time(eta),
    ensures
        r@ == eta_text(eta),
{
    match eta {
        None => "—".to_string(),
        Some(eta) => {
            let (whole, seconds) = seconds_of(eta);
            if whole < 60 {
                joined(wide_decimal_text(seconds).as_str(), "s")
            } else if whole < 3600 {
                let minutes: u128 = whole / 60;
                let mut out = joined(wide_decimal_text(minutes).as_str(), "m ");
                out.append(wide_decimal_text(seconds - 60 * minutes).as_str());
                out.append("s");
                out
            } else {
                let mut out = joined(wide_decimal_text(whole / 3600).as_str(), "h ");
                out.append(wide_decimal_text((whole % 3600) / 60).as_str());
                out.append("m");
                out
            }
        },
    }
}

/// The seconds of an estimate, rounded down and rounded up.
fn seconds_of(eta: Eta) -> (r: (u128, u128))
    requires
        is_time(Some(eta)),
    ensures
        r.0 == eta_fraction(eta).0 / eta_fraction(eta).1,
        r.1 == rounded_up(eta_fraction(eta).0, eta_fraction(eta).1),
{
    let (n, d): (u128, u128) = match eta.pace {
        Pace::Measured(progress) => {
            assert(eta.bytes * progress.nanos <= u128::MAX) by (nonlinear_arith)
                requires
                    eta.bytes <= u64::MAX,
                    progress.nanos <= u64::MAX,
            ;
            (
                (eta.bytes as u128) * (progress.nanos as u128),
                (progress.bytes as u128) * 1_000_000_000,
            )
        },
        Pace::Total(speed) => {
            if speed.whole > u64::MAX as u128 {
                proof {
                    let (n, d) = eta_fraction(eta);
                    assert(n < d);
                    lemma_divided(n, d, 0, n);
                }
                return (
                    0,
                    if eta.bytes > 0 {
                        1
                    } else {
                        0
                    },
                );
            }
            (
                (eta.bytes as u128) * (SPEED_UNIT as u128),
                speed.whole * (SPEED_UNIT as u128) + speed.part as u128,
            )
        },
    };
    (n / d, up(n, d))
}

fn up(n: u128, d: u128) -> (r: u128)
    requires
        0 < d,
    ensures
        r == rounded_up(n as nat, d as nat),
{
    if n % d == 0 {
        n / d
    } else {
        assert(n / d < u128::MAX) by (nonlinear_arith)
            requires
                0 < d,
                n % d != 0,
                n <= u128::MAX,
        ;
        n / d + 1
    }
}

/// The line below a running transfer, from the texts of its sizes.
pub open spec fn running_detail(
    done: Seq<char>,
    total: Option<Seq<char>>,
    state: RateSnapshot,
) -> Seq<char> {
    let size = match total {
        Some(total) => done + " / "@ + total,
        None => done,
    };
    if state.stalled {
        size + " · Stalled"@
    } else if total is Some {
        size + " · "@ + speed_text(state.speed) + " · ETA "@ + eta_text(state.eta)
    } else {
        size + " · "@ + speed_text(state.speed)
    }
}

/// The line below a running transfer, from the texts of its sizes: stalled, or its speed and,
/// where the size is known, the time it still takes.
pub fn format_running_detail(done: &str, total: Option<&str>, state: &RateSnapshot) -> (r: String)
    requires
        is_time(state.eta),
        state.speed matches Some(speed) ==> speed.wf(),
    ensures
        r@ == running_detail(done@, crate::helpers::text_of(total), *state),
{
    let mut out = done.to_string();
    if let Some(total) = total {
        out.append(" / ");
        out.append(total);
        assert(out@ =~= done@ + " / "@ + total@);
    }
    if state.stalled {
        out.append(" · Stalled");
        return out;
    }
    out.append(" · ");
    out.append(format_speed(state.speed).as_str());
    if total.is_some() {
        out.append(" · ETA ");
        out.append(format_eta(state.eta).as_str());
    }
    out
}

/// A stalled transfer has no estimate.
pub proof fn law_stalled_has_no_eta(v: SamplerView, done: u64, total: Option<u64>, now: u64)
    ensures
        snapshot_at(v, done, total, now).stalled ==> snapshot_at(v, done, total, now).eta is None,
{
}

/// The speed of a transfer counts in the total.
pub open spec fn counts(state: RateSnapshot) -> bool {
    state.speed is Some && !state.stalled
}

impl TransferRateBook {
    /// The speeds of the transfers that count, added up, in units.
    pub open spec fn speed_sum(
        &self,
        running: Seq<(TransferId, u64, Option<u64>)>,
        now: u64,
    ) -> nat
        decreases running.len(),
    {
        if running.len() == 0 {
            0
        } else {
            let last = self.state_of(running.last(), now);
            self.speed_sum(running.drop_last(), now) + if counts(last) {
                last.speed->0.units()
            } else {
                0
            }
        }
    }
}

/// The bytes still to go of the transfers whose size is known, added up; one that has more bytes
/// than it should has none to go.
pub open spec fn bytes_to_go(running: Seq<(TransferId, u64, Option<u64>)>) -> int
    decreases running.len(),
{
    if running.len() == 0 {
        0
    } else {
        bytes_to_go(running.drop_last()) + match running.last().2 {
            Some(total) => monus(total as int, running.last().1 as int),
            None => 0,
        }
    }
}

pub(crate) proof fn lemma_state_speed(
    book: TransferRateBook,
    job: (TransferId, u64, Option<u64>),
    now: u64,
)
    requires
        book.state_of(job, now).speed is Some,
    ensures
        book.state_of(job, now).speed->0.wf(),
        book.state_of(job, now).speed->0.units() <= 2 * u64::MAX * SPEED_UNIT,
{
    let progress = window_progress(book.reports(job.0)->0.samples)->0;
    lemma_speed_bound(progress);
    lemma_speed_of_units(
        rounded_up(
            progress.bytes as nat * 1_000_000_000 * SPEED_UNIT as nat,
            progress.nanos as nat,
        ),
    );
}

proof fn lemma_total(
    book: TransferRateBook,
    running: Seq<(TransferId, u64, Option<u64>)>,
    now: u64,
)
    requires
        running.len() <= isize::MAX,
    ensures
        book.speed_sum(running, now) <= running.len() * (2 * u64::MAX * SPEED_UNIT),
        book.total_speed(running, now) is Some <==> exists|i: int|
            0 <= i < running.len() && counts(book.state_of(#[trigger] running[i], now)),
        book.total_speed(running, now) is None ==> book.speed_sum(running, now) == 0,
        book.total_speed(running, now) matches Some(speed) ==> speed.units() == book.speed_sum(
            running,
            now,
        ),
        total_remaining(running) is Some <==> exists|i: int|
            0 <= i < running.len() && (#[trigger] running[i]).2 is Some,
        total_remaining(running) is None ==> bytes_to_go(running) == 0,
        0 <= bytes_to_go(running),
        total_remaining(running) matches Some(bytes) ==> bytes == if bytes_to_go(running)
            <= u64::MAX {
            bytes_to_go(running)
        } else {
            u64::MAX as int
        },
    decreases running.len(),
{
    if running.len() > 0 {
        let front = running.drop_last();
        let job = running.last();
        let last = book.state_of(job, now);
        lemma_total(book, front, now);
        assert(running[running.len() - 1] == job);
        assert forall|i: int| 0 <= i < front.len() implies #[trigger] front[i] == running[i] by {}
        if exists|i: int| 0 <= i < front.len() && counts(book.state_of(#[trigger] front[i], now)) {
            let i = choose|i: int|
                0 <= i < front.len() && counts(book.state_of(#[trigger] front[i], now));
            assert(running[i] == front[i]);
        }
        if exists|i: int| 0 <= i < front.len() && (#[trigger] front[i]).2 is Some {
            let i = choose|i: int| 0 <= i < front.len() && (#[trigger] front[i]).2 is Some;
            assert(running[i] == front[i]);
        }
        if exists|i: int| 0 <= i < running.len() && counts(
            book.state_of(#[trigger] running[i], now),
        ) {
            let i = choose|i: int|
                0 <= i < running.len() && counts(book.state_of(#[trigger] running[i], now));
            assert(i < front.len() ==> front[i] == running[i]);
        }
        if exists|i: int| 0 <= i < running.len() && (#[trigger] running[i]).2 is Some {
            let i = choose|i: int| 0 <= i < running.len() && (#[trigger] running[i]).2 is Some;
            assert(i < front.len() ==> front[i] == running[i]);
        }
        if counts(last) {
            lemma_state_speed(book, job, now);
        }
        let most = 2 * u64::MAX * SPEED_UNIT;
        assert(front.len() * most + most == running.len() * most) by (nonlinear_arith)
            requires
                running.len() == front.len() + 1,
        ;
        let sum = book.speed_sum(running, now);
        assert(running.len() * most <= isize::MAX * most) by (nonlinear_arith)
            requires
                running.len() <= isize::MAX,
                0 <= most,
        ;
        assert(sum <= isize::MAX * most);
        assert(sum / SPEED_UNIT as nat <= u128::MAX) by (nonlinear_arith)
            requires
                sum <= isize::MAX * (2 * u64::MAX * SPEED_UNIT),
                isize::MAX <= 0x7fff_ffff_ffff_ffff,
                SPEED_UNIT == 1_000_000_000_000_000_000,
        ;
        lemma_speed_of_units(sum);
    }
}

/// The speed of all transfers together is the sum of the speeds of those that are not stalled,
/// and there is none where there is no such transfer. The time that is left is that of the bytes
/// still to go, those of stalled transfers too, at that speed; no more than `u64::MAX` bytes are
/// counted. It is known where the speed is not nothing and some size is known. A list holds no more than `isize::MAX` transfers.
pub proof fn law_total_rate_is_the_sum(
    book: TransferRateBook,
    running: Seq<(TransferId, u64, Option<u64>)>,
    now: u64,
)
    requires
        running.len() <= isize::MAX,
    ensures
        ({
            let rate = book.total_rate(running, now);
            let sum = book.speed_sum(running, now);
            let bytes = if bytes_to_go(running) <= u64::MAX {
                bytes_to_go(running)
            } else {
                u64::MAX as int
            };
            &&& rate.speed is Some <==> exists|i: int|
                0 <= i < running.len() && counts(book.state_of(#[trigger] running[i], now))
            &&& rate.speed is Some ==> rate.speed->0.units() == sum
            &&& rate.eta is Some <==> sum > 0 && exists|i: int|
                0 <= i < running.len() && (#[trigger] running[i]).2 is Some
            &&& rate.eta is Some ==> eta_fraction(rate.eta->0) == (
                (bytes * SPEED_UNIT) as nat,
                sum,
            )
        }),
{
    lemma_total(book, running, now);
}

/// The reports are in the order of their times.
pub open spec fn in_time_order(samples: Seq<RateSample>) -> bool {
    forall|i: int, j: int|
        0 <= i <= j < samples.len() ==> (#[trigger] samples[i]).at <= (#[trigger] samples[j]).at
}

proof fn lemma_pruned(samples: Seq<RateSample>, now: u64)
    requires
        samples.len() > 0,
        in_time_order(samples),
        samples.last().at == now,
    ensures
        in_time_order(pruned(samples, now)),
        pruned(samples, now).len() > 0,
        pruned(samples, now).last() == samples.last(),
        forall|i: int|
            0 <= i < pruned(samples, now).len() ==> !too_old(
                #[trigger] pruned(samples, now)[i],
                now,
            ),
    decreases samples.len(),
{
    if samples.len() > 1 && too_old(samples[0], now) {
        let rest = samples.drop_first();
        assert forall|i: int, j: int| 0 <= i <= j < rest.len() implies (#[trigger] rest[i]).at <= (
        #[trigger] rest[j]).at by {
            assert(samples[i + 1].at <= samples[j + 1].at);
        }
        assert(rest.last() == samples.last());
        lemma_pruned(rest, now);
    } else {
        assert forall|i: int| 0 <= i < samples.len() implies !too_old(
            #[trigger] samples[i],
            now,
        ) by {
            if samples.len() > 1 {
                assert(samples[0].at <= samples[i].at);
            } else {
                assert(samples[i] == samples.last());
            }
        }
    }
}

/// Reports that come in the order of time stay in that order, none of them lies before the
/// window, and so a speed is never told from more than the window.
pub proof fn law_window_is_bounded(v: SamplerView, bytes_done: u64, now: u64)
    requires
        in_time_order(v.samples),
        v.samples.len() > 0 ==> v.samples.last().at <= now,
    ensures
        in_time_order(observed(v, bytes_done, now).samples),
        observed(v, bytes_done, now).samples.last() == (RateSample { at: now, bytes_done }),
        forall|i: int|
            0 <= i < observed(v, bytes_done, now).samples.len() ==> !too_old(
                #[trigger] observed(v, bytes_done, now).samples[i],
                now,
            ),
{
    let all = v.samples.push(RateSample { at: now, bytes_done });
    assert forall|i: int, j: int| 0 <= i <= j < all.len() implies (#[trigger] all[i]).at <= (
    #[trigger] all[j]).at by {
        if j < v.samples.len() {
            assert(v.samples[i].at <= v.samples[j].at);
        } else if i < v.samples.len() {
            assert(v.samples[i].at <= v.samples[v.samples.len() - 1].at);
        }
    }
    assert(all.last() == (RateSample { at: now, bytes_done }));
    lemma_pruned(all, now);
}

}
