//! Daily telemetry summaries: folding samples into a day's record, and rolling
//! records up over a period.

use crate::accounts::Lookup;
use crate::clock::{
    clock_label, clock_label_at, clock_text, clock_text_at, date_label, date_text,
    read_local_clock, LocalMoment, IST_OFFSET,
};
use vstd::prelude::*;

verus! {

/// One telemetry sample from a vehicle.
#[derive(Clone, Copy, Debug)]
pub struct Message {
    pub gear: Option<u32>,
    pub rpm: Option<u32>,
    pub speed: Option<u32>,
    pub temp: Option<u32>,
    pub fuel: Option<u32>,
    pub odo: u32,
    pub stressed: bool,
}

/// The summary of one vehicle's day.
#[derive(Debug)]
pub struct DailyLog {
    /// The day, as `D-M-YYYY`.
    pub date: String,
    pub average_speed: u32,
    pub distance: u32,
    pub stress: u32,
    pub last_odometer: u32,
    pub message_count: u32,
    /// The highest speed of the day and the time it was reached.
    pub max_speed: (u32, String),
}

pub struct LogView {
    pub date: Seq<char>,
    pub average_speed: nat,
    pub distance: nat,
    pub stress: nat,
    pub last_odometer: nat,
    pub message_count: nat,
    pub max_speed: nat,
    pub max_speed_at: Seq<char>,
}

impl View for DailyLog {
    type V = LogView;

    open spec fn view(&self) -> LogView {
        LogView {
            date: self.date@,
            average_speed: self.average_speed as nat,
            distance: self.distance as nat,
            stress: self.stress as nat,
            last_odometer: self.last_odometer as nat,
            message_count: self.message_count as nat,
            max_speed: self.max_speed.0 as nat,
            max_speed_at: self.max_speed.1@,
        }
    }
}

/// Why a sample cannot be folded into a day's record.
#[derive(Clone, Copy, Debug, PartialEq, Eq, Structural)]
pub enum FoldError {
    /// The latest record could not be read, so whether today's record exists is unknown.
    LookupFailed,
    /// A stressed sample without a speed arrived before any counted sample.
    NothingCounted,
    /// A total would leave the range of the record's fields.
    Overflow,
}

/// The running mean after one more speed sample.
pub open spec fn next_average(average: nat, count: nat, speed: nat) -> nat {
    if average > 0 {
        (average * count + speed) / (count + 1)
    } else {
        speed
    }
}

/// The message count after the speed part of a sample.
pub open spec fn count_after_speed(count: nat, m: Message) -> nat {
    if m.speed is Some {
        count + 1
    } else {
        count
    }
}

/// Whether sample `m` moves the odometer on: it never reads less than the day's
/// last reading.
pub open spec fn odometer_advances(log: LogView, m: Message) -> bool {
    m.odo as nat >= log.last_odometer
}

/// What sample `m` adds to the day's distance: the odometer's advance when it reads
/// above zero, nothing when it reads zero or less than the last reading.
pub open spec fn distance_step(log: LogView, m: Message) -> nat {
    if m.odo > 0 && odometer_advances(log, m) {
        (m.odo - log.last_odometer) as nat
    } else {
        0
    }
}

/// Which fault, if any, keeps sample `m` out of the record `log`.
pub open spec fn fold_fault(log: LogView, m: Message) -> Option<FoldError> {
    let c1 = count_after_speed(log.message_count, m);
    let c2 = if m.stressed {
        c1 + 1
    } else {
        c1
    };
    if m.stressed && c1 == 0 {
        Some(FoldError::NothingCounted)
    } else if log.distance + distance_step(log, m) > u32::MAX || c2 > u32::MAX {
        Some(FoldError::Overflow)
    } else {
        None
    }
}

/// The record after folding sample `m` at time `hit_at` into `log`. A reading below
/// the last one, zero included, adds no distance and leaves the last reading as it
/// was; the sample's speed, stress and count are folded all the same.
pub open spec fn fold_spec(log: LogView, m: Message, hit_at: Seq<char>) -> LogView {
    let distance = log.distance + distance_step(log, m);
    let c1 = count_after_speed(log.message_count, m);
    let (average_speed, max_speed, max_speed_at) = match m.speed {
        Some(s) => (
            next_average(log.average_speed, log.message_count, s as nat),
            if s > log.max_speed {
                s as nat
            } else {
                log.max_speed
            },
            if s > log.max_speed {
                hit_at
            } else {
                log.max_speed_at
            },
        ),
        None => (log.average_speed, log.max_speed, log.max_speed_at),
    };
    let stress = if m.stressed {
        (log.stress * ((c1 - 1) as nat) + 1) / c1
    } else {
        log.stress
    };
    LogView {
        date: log.date,
        average_speed,
        distance,
        stress,
        last_odometer: if odometer_advances(log, m) {
            m.odo as nat
        } else {
            log.last_odometer
        },
        message_count: if m.stressed {
            c1 + 1
        } else {
            c1
        },
        max_speed,
        max_speed_at,
    }
}

/// The record a day starts with: its first sample at time `hit_at`.
pub open spec fn start_spec(m: Message, date: Seq<char>, hit_at: Seq<char>) -> LogView {
    let speed = match m.speed {
        Some(s) => s as nat,
        None => 0,
    };
    LogView {
        date,
        average_speed: speed,
        distance: 0,
        stress: 0,
        last_odometer: m.odo as nat,
        message_count: 0,
        max_speed: speed,
        max_speed_at: hit_at,
    }
}

proof fn lemma_mean_bound(a: nat, c: nat, s: nat, hi: nat)
    requires
        a <= hi,
        s <= hi,
    ensures
        (a * c + s) / (c + 1) <= hi,
{
    assert(a * c <= hi * c) by (nonlinear_arith)
        requires
            a <= hi,
    ;
    assert((a * c + s) / (c + 1) <= (hi * c + hi) / (c + 1)) by (nonlinear_arith)
        requires
            a * c + s <= hi * c + hi,
    ;
    assert((hi * c + hi) / (c + 1) == hi) by (nonlinear_arith);
}

/// Folds sample `m`, taken at time `hit_at`, into the day's record `log`.
pub fn fold_sample(log: &DailyLog, m: &Message, hit_at: String) -> (r: Result<
    DailyLog,
    FoldError,
>)
    ensures
        match r {
            Ok(n) => fold_fault(log@, *m) is None && n@ == fold_spec(log@, *m, hit_at@),
            Err(e) => fold_fault(log@, *m) == Some(e),
        },
{
    let count: u64 = log.message_count as u64;
    let c1: u64 = if m.speed.is_some() {
        count + 1
    } else {
        count
    };
    if m.stressed && c1 == 0 {
        return Err(FoldError::NothingCounted);
    }
    let c2: u64 = if m.stressed {
        c1 + 1
    } else {
        c1
    };
    let advances = m.odo >= log.last_odometer;
    let step: u64 = if m.odo > 0 && advances {
        (m.odo - log.last_odometer) as u64
    } else {
        0
    };
    if log.distance as u64 + step > u32::MAX as u64 || c2 > u32::MAX as u64 {
        return Err(FoldError::Overflow);
    }
    let distance: u32 = (log.distance as u64 + step) as u32;
    let mut average_speed: u32 = log.average_speed;
    let mut max_speed: u32 = log.max_speed.0;
    let mut max_speed_at: String = log.max_speed.1.clone();
    match m.speed {
        Some(s) => {
            if s > max_speed {
                max_speed = s;
                max_speed_at = hit_at;
            }
            if log.average_speed > 0 {
                let a: u64 = log.average_speed as u64;
                proof {
                    assert(a * count <= (u32::MAX as u64) * (u32::MAX as u64)) by (nonlinear_arith)
                        requires
                            a <= u32::MAX,
                            count <= u32::MAX,
                    ;
                    let hi: nat = if a >= s {
                        a as nat
                    } else {
                        s as nat
                    };
                    lemma_mean_bound(a as nat, count as nat, s as nat, hi);
                }
                average_speed = ((a * count + s as u64) / (count + 1)) as u32;
            } else {
                average_speed = s;
            }
        },
        None => {},
    }
    let mut stress: u32 = log.stress;
    if m.stressed {
        let st: u64 = log.stress as u64;
        proof {
            assert(st * (c1 - 1) <= (u32::MAX as u64) * (u32::MAX as u64)) by (nonlinear_arith)
                requires
                    st <= u32::MAX,
                    c1 - 1 <= u32::MAX,
            ;
            let hi: nat = if st >= 1 {
                st as nat
            } else {
                1
            };
            lemma_mean_bound(st as nat, (c1 - 1) as nat, 1, hi);
        }
        stress = ((st * (c1 - 1) + 1) / c1) as u32;
    }
    Ok(
        DailyLog {
            date: log.date.clone(),
            average_speed,
            distance,
            stress,
            last_odometer: if advances {
                m.odo
            } else {
                log.last_odometer
            },
            message_count: c2 as u32,
            max_speed: (max_speed, max_speed_at),
        },
    )
}

/// The record of a day whose first sample is `m`, taken at time `hit_at`.
pub fn start_day(m: &Message, date: String, hit_at: String) -> (r: DailyLog)
    ensures
        r@ == start_spec(*m, date@, hit_at@),
{
    let speed: u32 = match m.speed {
        Some(s) => s,
        None => 0,
    };
    DailyLog {
        date,
        average_speed: speed,
        distance: 0,
        stress: 0,
        last_odometer: m.odo,
        message_count: 0,
        max_speed: (speed, hit_at),
    }
}

/// What to do with a sample: update the day's record in place, or start a new one.
#[derive(Debug)]
pub enum SampleOutcome {
    Update(DailyLog),
    Insert(DailyLog),
}

pub enum OutcomeView {
    Update(LogView),
    Insert(LogView),
}

pub open spec fn outcome_view(r: Result<SampleOutcome, FoldError>) -> Result<OutcomeView, FoldError> {
    match r {
        Ok(SampleOutcome::Update(l)) => Ok(OutcomeView::Update(l@)),
        Ok(SampleOutcome::Insert(l)) => Ok(OutcomeView::Insert(l@)),
        Err(e) => Err(e),
    }
}

/// The lookup of the latest record: the record, none, or a failed read.
pub open spec fn latest_view(latest: &Lookup<DailyLog>) -> Result<Option<LogView>, ()> {
    match latest {
        Lookup::Found(l) => Ok(Some(l@)),
        Lookup::Missing => Ok(None),
        Lookup::Failed(_) => Err(()),
    }
}

/// A sample folds into the latest record when that record is today's, and starts a
/// new record when there is none or it is of another day. When the latest record
/// could not be read the sample is refused, so that no second record of a day is
/// started.
pub open spec fn plan_spec(
    latest: Result<Option<LogView>, ()>,
    today: Seq<char>,
    m: Message,
    local_label: Seq<char>,
    ist_label: Seq<char>,
) -> Result<OutcomeView, FoldError> {
    match latest {
        Err(_) => Err(FoldError::LookupFailed),
        Ok(Some(l)) => if l.date == today {
            match fold_fault(l, m) {
                Some(e) => Err(e),
                None => Ok(OutcomeView::Update(fold_spec(l, m, ist_label))),
            }
        } else {
            Ok(OutcomeView::Insert(start_spec(m, today, local_label)))
        },
        Ok(None) => Ok(OutcomeView::Insert(start_spec(m, today, local_label))),
    }
}

/// Decides what sample `m` does, given the lookup of the vehicle's latest record,
/// today's date (`D-M-YYYY`), the local time label and the time label in Indian
/// Standard Time.
pub fn plan_sample(
    latest: &Lookup<DailyLog>,
    today: String,
    m: &Message,
    local_label: String,
    ist_label: String,
) -> (r: Result<SampleOutcome, FoldError>)
    ensures
        outcome_view(r) == plan_spec(latest_view(latest), today@, *m, local_label@, ist_label@),
{
    match latest {
        Lookup::Failed(_) => Err(FoldError::LookupFailed),
        Lookup::Found(l) => {
            if l.date == today {
                match fold_sample(l, m, ist_label) {
                    Ok(n) => Ok(SampleOutcome::Update(n)),
                    Err(e) => Err(e),
                }
            } else {
                Ok(SampleOutcome::Insert(start_day(m, today, local_label)))
            }
        },
        Lookup::Missing => Ok(SampleOutcome::Insert(start_day(m, today, local_label))),
    }
}

/// Decides what sample `m` does now, reading the wall clock for today's date and
/// the time labels.
pub fn record_sample(latest: &Lookup<DailyLog>, m: &Message) -> (r: Result<
    SampleOutcome,
    FoldError,
>)
    ensures
        exists|t: LocalMoment|
            t.wf() && outcome_view(r) == plan_spec(
                latest_view(latest),
                date_text(t.year as int, t.month as nat, t.day as nat),
                *m,
                clock_text(t.hour as nat, t.minute as nat),
                clock_text_at(t, IST_OFFSET as int),
            ),
{
    let t = read_local_clock();
    let today = date_label(t.year, t.month, t.day);
    let local_label = clock_label(t.hour, t.minute);
    let ist_label = clock_label_at(&t, IST_OFFSET);
    plan_sample(latest, today, m, local_label, ist_label)
}

/// The speed a sample reports, zero when it reports none.
pub open spec fn speed_of(m: Message) -> nat {
    match m.speed {
        Some(s) => s as nat,
        None => 0,
    }
}

/// The highest speed that the samples `ms` report.
pub open spec fn max_speed_of(ms: Seq<Message>) -> nat
    decreases ms.len(),
{
    if ms.len() == 0 {
        0
    } else {
        let a = max_speed_of(ms.drop_last());
        let b = speed_of(ms.last());
        if b > a {
            b
        } else {
            a
        }
    }
}

/// The running mean of speeds and the message count over the samples of one day:
/// the first sample sets the mean and counts nothing; each later sample with a
/// speed moves the mean by `(mean * count + speed) / (count + 1)` (or takes the
/// speed while the mean is zero) and counts one, and each stressed sample counts one.
pub open spec fn mean_and_count(ms: Seq<Message>) -> (nat, nat)
    decreases ms.len(),
{
    if ms.len() <= 1 {
        (
            if ms.len() == 1 {
                speed_of(ms[0])
            } else {
                0
            },
            0,
        )
    } else {
        let (a, c) = mean_and_count(ms.drop_last());
        let m = ms.last();
        let a2 = match m.speed {
            Some(s) => next_average(a, c, s as nat),
            None => a,
        };
        let c2 = c + (if m.speed is Some {
            1nat
        } else {
            0nat
        }) + (if m.stressed {
            1nat
        } else {
            0nat
        });
        (a2, c2)
    }
}

/// The record of a day whose samples, in order, are `ms`.
pub open spec fn replay(ms: Seq<Message>, date: Seq<char>, hit_at: Seq<char>) -> LogView
    decreases ms.len(),
{
    if ms.len() <= 1 {
        start_spec(ms[0], date, hit_at)
    } else {
        fold_spec(replay(ms.drop_last(), date, hit_at), ms.last(), hit_at)
    }
}

/// Over any non-empty run of samples of one day, the record's top speed is the
/// highest speed reported, no sample exceeds it, and the record's mean speed and
/// count follow the integer recurrence exactly. `replay` is the record that
/// `start_day` and `fold_sample` keep when no sample of the run is refused, which
/// `fold_refuses_only_undefined_or_overflowing` bounds.
pub proof fn day_record_tracks_speeds(ms: Seq<Message>, date: Seq<char>, hit_at: Seq<char>)
    requires
        ms.len() >= 1,
    ensures
        replay(ms, date, hit_at).max_speed == max_speed_of(ms),
        replay(ms, date, hit_at).average_speed == mean_and_count(ms).0,
        replay(ms, date, hit_at).message_count == mean_and_count(ms).1,
        forall|k: int| 0 <= k < ms.len() ==> speed_of(#[trigger] ms[k]) <= replay(
            ms,
            date,
            hit_at,
        ).max_speed,
    decreases ms.len(),
{
    if ms.len() == 1 {
        assert(ms.drop_last().len() == 0);
        assert(max_speed_of(ms.drop_last()) == 0);
        assert(ms.last() == ms[0]);
    } else {
        let init = ms.drop_last();
        day_record_tracks_speeds(init, date, hit_at);
        assert forall|k: int| 0 <= k < ms.len() implies speed_of(#[trigger] ms[k]) <= replay(
            ms,
            date,
            hit_at,
        ).max_speed by {
            if k < ms.len() - 1 {
                assert(ms[k] == init[k]);
            }
        }
    }
}

/// A sample is refused only when it is stressed, reports no speed and nothing of the
/// day has been counted yet (the stress recurrence would divide by zero), or when
/// the distance or the count would leave `u32`. An odometer reading below the last
/// one, zero included, is never a reason: it adds no distance and keeps the last
/// reading, and the sample's speed and count are folded.
pub proof fn fold_refuses_only_undefined_or_overflowing(log: LogView, m: Message, hit_at: Seq<char>)
    ensures
        fold_fault(log, m) == Some(FoldError::NothingCounted) <==> (m.stressed && m.speed is None
            && log.message_count == 0),
        fold_fault(log, m) is None <==> (!(m.stressed && m.speed is None && log.message_count == 0)
            && log.distance + distance_step(log, m) <= u32::MAX && count_after_speed(
            log.message_count,
            m,
        ) + (if m.stressed {
            1nat
        } else {
            0nat
        }) <= u32::MAX),
        (m.odo as nat) < log.last_odometer ==> {
            let n = fold_spec(log, m, hit_at);
            &&& n.distance == log.distance
            &&& n.last_odometer == log.last_odometer
            &&& n.average_speed == match m.speed {
                Some(s) => next_average(log.average_speed, log.message_count, s as nat),
                None => log.average_speed,
            }
            &&& n.message_count == log.message_count + (if m.speed is Some {
                1nat
            } else {
                0nat
            }) + (if m.stressed {
                1nat
            } else {
                0nat
            })
        },
{
}

/// A vehicle's records rolled up over a period.
#[derive(Debug)]
pub struct Rollup {
    pub distance: u64,
    /// The mean of the days' mean speeds, by integer division.
    pub average_speed: u64,
    pub stress_count: u64,
    /// The last odometer reading of the last record.
    pub last_odometer: u32,
    /// The highest top speed, and its time, of the first record that reached it.
    pub max_speed: (u32, String),
    pub days: u64,
}

pub open spec fn logs_view(logs: Seq<DailyLog>) -> Seq<LogView> {
    logs.map_values(|l: DailyLog| l@)
}

pub open spec fn sum_distance(ls: Seq<LogView>) -> nat
    decreases ls.len(),
{
    if ls.len() == 0 {
        0
    } else {
        sum_distance(ls.drop_last()) + ls.last().distance
    }
}

pub open spec fn sum_average(ls: Seq<LogView>) -> nat
    decreases ls.len(),
{
    if ls.len() == 0 {
        0
    } else {
        sum_average(ls.drop_last()) + ls.last().average_speed
    }
}

pub open spec fn sum_stress(ls: Seq<LogView>) -> nat
    decreases ls.len(),
{
    if ls.len() == 0 {
        0
    } else {
        sum_stress(ls.drop_last()) + ls.last().stress
    }
}

/// The top speed and its time over `ls`: a record replaces the best so far only
/// when it is strictly faster; none yet is `(0, "")`.
pub open spec fn best_speed(ls: Seq<LogView>) -> (nat, Seq<char>)
    decreases ls.len(),
{
    if ls.len() == 0 {
        (0, Seq::empty())
    } else {
        let b = best_speed(ls.drop_last());
        if b.0 < ls.last().max_speed {
            (ls.last().max_speed, ls.last().max_speed_at)
        } else {
            b
        }
    }
}

proof fn lemma_sums_bounded(ls: Seq<LogView>)
    requires
        forall|k: int|
            0 <= k < ls.len() ==> (#[trigger] ls[k]).distance <= u32::MAX && ls[k].average_speed
                <= u32::MAX && ls[k].stress <= u32::MAX,
    ensures
        sum_distance(ls) <= ls.len() * u32::MAX,
        sum_average(ls) <= ls.len() * u32::MAX,
        sum_stress(ls) <= ls.len() * u32::MAX,
    decreases ls.len(),
{
    if ls.len() > 0 {
        let init = ls.drop_last();
        assert forall|k: int| 0 <= k < init.len() implies (#[trigger] init[k]).distance
            <= u32::MAX && init[k].average_speed <= u32::MAX && init[k].stress <= u32::MAX by {
            assert(init[k] == ls[k]);
        }
        lemma_sums_bounded(init);
        assert(ls.last() == ls[ls.len() - 1]);
        assert(init.len() * u32::MAX + u32::MAX == ls.len() * u32::MAX) by (nonlinear_arith)
            requires
                init.len() + 1 == ls.len(),
        ;
    }
}

/// Rolls the records `logs` up; `None` when there are none.
pub fn summarize(logs: &Vec<DailyLog>) -> (r: Option<Rollup>)
    requires
        logs.len() <= u32::MAX,
    ensures
        match r {
            None => logs.len() == 0,
            Some(u) => {
                let ls = logs_view(logs@);
                &&& logs.len() > 0
                &&& u.days == logs.len()
                &&& u.distance == sum_distance(ls)
                &&& u.stress_count == sum_stress(ls)
                &&& u.average_speed == sum_average(ls) / (logs.len() as nat)
                &&& u.last_odometer == ls.last().last_odometer
                &&& u.max_speed.0 == best_speed(ls).0
                &&& u.max_speed.1@ == best_speed(ls).1
            },
        },
{
    if logs.len() == 0 {
        return None;
    }
    let ghost ls = logs_view(logs@);
    proof {
        assert forall|k: int| 0 <= k < ls.len() implies (#[trigger] ls[k]).distance <= u32::MAX
            && ls[k].average_speed <= u32::MAX && ls[k].stress <= u32::MAX by {
            assert(ls[k] == logs@[k]@);
        }
    }
    let mut distance: u64 = 0;
    let mut average: u64 = 0;
    let mut stress: u64 = 0;
    let mut best: u32 = 0;
    let mut best_at = String::new();
    let mut i: usize = 0;
    while i < logs.len()
        invariant
            i <= logs.len() <= u32::MAX,
            ls == logs_view(logs@),
            forall|k: int|
                0 <= k < ls.len() ==> (#[trigger] ls[k]).distance <= u32::MAX
                    && ls[k].average_speed <= u32::MAX && ls[k].stress <= u32::MAX,
            distance == sum_distance(ls.take(i as int)),
            average == sum_average(ls.take(i as int)),
            stress == sum_stress(ls.take(i as int)),
            best == best_speed(ls.take(i as int)).0,
            best_at@ == best_speed(ls.take(i as int)).1,
        decreases logs.len() - i,
    {
        let ghost pre = ls.take(i as int);
        let ghost next = ls.take(i as int + 1);
        proof {
            assert(next.drop_last() =~= pre);
            assert(next.last() == logs@[i as int]@);
            lemma_sums_bounded(next);
            assert(next.len() * u32::MAX <= u32::MAX * u32::MAX) by (nonlinear_arith)
                requires
                    next.len() <= u32::MAX,
            ;
        }
        let log = &logs[i];
        distance = distance + log.distance as u64;
        average = average + log.average_speed as u64;
        stress = stress + log.stress as u64;
        if best < log.max_speed.0 {
            best = log.max_speed.0;
            best_at = log.max_speed.1.clone();
        }
        i = i + 1;
    }
    assert(ls.take(i as int) =~= ls);
    let last = &logs[logs.len() - 1];
    assert(ls.last() == logs@[logs.len() - 1]@);
    Some(
        Rollup {
            distance,
            average_speed: average / (logs.len() as u64),
            stress_count: stress,
            last_odometer: last.last_odometer,
            max_speed: (best, best_at),
            days: logs.len() as u64,
        },
    )
}

} // verus!
