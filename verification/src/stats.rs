//! Runtime statistics: what is measured of an operator to report in its
//! status.

use crate::clock::{now_millis, now_seconds};
use crate::crd::WasmOperatorStatistics;
use crate::outside::{rfc3339_seconds, rfc3339_text, LAST_SECOND};
use crate::text::{opt_str, parse_uint, texts, uint_of};
use std::collections::VecDeque;
use vstd::prelude::*;
use vstd::string::*;

verus! {

/// A FIFO buffer of a fixed size.
pub struct FixedFifoBuffer<T> {
    data: VecDeque<T>,
    limit: usize,
}

/// What a buffer holds after one more item: at the limit the oldest item is
/// dropped first, and with a limit of 0 nothing is kept.
pub open spec fn pushed<T>(items: Seq<T>, limit: nat, item: T) -> Seq<T> {
    if limit == 0 {
        items
    } else if items.len() >= limit {
        items.drop_first().push(item)
    } else {
        items.push(item)
    }
}

/// What a buffer holds after all of a list have been pushed in turn.
pub open spec fn pushed_all<T>(items: Seq<T>, limit: nat) -> Seq<T>
    decreases items.len(),
{
    if items.len() == 0 {
        Seq::empty()
    } else {
        pushed(pushed_all(items.drop_last(), limit), limit, items.last())
    }
}

/// A buffer holds the newest items that were pushed, as many as its limit says
/// and oldest first.
pub proof fn buffer_holds_the_newest<T>(items: Seq<T>, limit: nat)
    ensures
        pushed_all(items, limit) == items.skip(
            if items.len() < limit {
                0
            } else {
                items.len() - limit
            },
        ),
    decreases items.len(),
{
    let from = if items.len() < limit {
        0
    } else {
        items.len() - limit
    };
    if items.len() > 0 {
        buffer_holds_the_newest(items.drop_last(), limit);
    }
    assert(pushed_all(items, limit) =~= items.skip(from));
}

impl<T> View for FixedFifoBuffer<T> {
    type V = Seq<T>;

    closed spec fn view(&self) -> Seq<T> {
        self.data@
    }
}

impl<T> FixedFifoBuffer<T> {
    /// How many items the buffer is to hold.
    pub closed spec fn limit(self) -> nat {
        self.limit as nat
    }

    /// Creates an empty buffer.
    pub fn new(limit: usize) -> (r: FixedFifoBuffer<T>)
        ensures
            r@ == Seq::<T>::empty(),
            r.limit() == limit,
    {
        FixedFifoBuffer { data: VecDeque::new(), limit }
    }

    /// Pushes a new item into the buffer, removing the oldest if at the limit.
    pub fn push(&mut self, item: T)
        ensures
            final(self)@ == pushed(old(self)@, old(self).limit(), item),
            final(self).limit() == old(self).limit(),
    {
        if self.limit == 0 {
            return;
        }
        if self.data.len() >= self.limit {
            let _oldest = self.data.pop_front();
        }
        self.data.push_back(item);
        assert(self@ =~= pushed(old(self)@, old(self).limit(), item));
    }

    /// Returns the most recently added item in the buffer.
    pub fn get_last_added(&self) -> (r: Option<T>) where T: Clone
        ensures
            match r {
                Some(item) => self@.len() > 0 && cloned(self@.last(), item),
                None => self@.len() == 0,
            },
    {
        let n: usize = self.data.len();
        if n == 0 {
            None
        } else {
            Some(self.data[n - 1].clone())
        }
    }

    /// Returns all items in the buffer, optionally in reverse order.
    pub fn get_all(&self, reverse: bool) -> (r: Vec<T>) where T: Clone
        ensures
            r@.len() == self@.len(),
            forall|i: int|
                0 <= i < r@.len() ==> cloned(
                    if reverse {
                        self@[self@.len() - 1 - i]
                    } else {
                        self@[i]
                    },
                    #[trigger] r@[i],
                ),
    {
        let n: usize = self.data.len();
        let mut r: Vec<T> = Vec::new();
        let mut i: usize = 0;
        while i < n
            invariant
                n == self.data@.len(),
                i <= n,
                r@.len() == i,
                forall|j: int|
                    0 <= j < i ==> cloned(
                        if reverse {
                            self.data@[n - 1 - j]
                        } else {
                            self.data@[j]
                        },
                        #[trigger] r@[j],
                    ),
            decreases n - i,
        {
            let at: usize = if reverse {
                n - 1 - i
            } else {
                i
            };
            r.push(self.data[at].clone());
            i = i + 1;
        }
        r
    }

    /// Clears all items from the buffer.
    pub fn clear(&mut self)
        ensures
            final(self)@ == Seq::<T>::empty(),
            final(self).limit() == old(self).limit(),
    {
        self.data.clear();
    }
}

/// Records runtime statistics and metrics for a WasmOperator.
pub struct WasmOperatorStatisticsRecorder {
    /// When the last reconciles were, in milliseconds since the start of 1970.
    recent_reconcile_history: FixedFifoBuffer<i64>,
    /// Reconciles by hour of the day.
    reconciles: Vec<u16>,
    reconcile_total: u64,
    load_total: u64,
    unload_total: u64,
    /// For how many loads it is known how long they took.
    timed_load_total: u64,
    /// While the operator is loaded, since when, in milliseconds since the start
    /// of 1970.
    loaded_since: Option<i64>,
    /// How long it has been active since then.
    active_now_ms: u64,
    load_total_duration_ms: u64,
    load_max_duration_ms: u32,
    idle_total_duration_ms: u64,
    idle_max_duration_ms: u64,
    active_total_duration_ms: u64,
    active_max_duration_ms: u64,
    memory_usage_bytes: u32,
    error_log: FixedFifoBuffer<String>,
}

/// What has been recorded.  Of the time that the operator is loaded, what runs
/// and calls of it took is active and the rest is idle.
#[verifier::ext_equal]
pub struct RecorderView {
    pub history: Seq<i64>,
    pub hours: Seq<u16>,
    pub reconcile_total: u64,
    pub loads: u64,
    pub unloads: u64,
    /// For how many loads it is known how long they took.
    pub timed_loads: u64,
    /// While it is loaded, since when.
    pub loaded_since: Option<i64>,
    /// How long it has been active since then.
    pub active_now_ms: u64,
    pub load_total_ms: u64,
    pub load_max_ms: u32,
    /// How long it was idle, up to the last unload.
    pub idle_total_ms: u64,
    /// The longest that it was idle from a load to an unload.
    pub idle_max_ms: u64,
    /// How long it has been active.
    pub active_total_ms: u64,
    /// The longest that it was active from a load to an unload.
    pub active_max_ms: u64,
    pub memory: u32,
    pub errors: Seq<Seq<char>>,
    pub error_limit: nat,
}

/// How many reconciles the history goes back.
pub const HISTORY_LIMIT: usize = 25;

/// The hour, counted from the start of 1970, of a time in milliseconds.
pub open spec fn hour_of(ms: i64) -> int {
    (ms as int / 1000) / 3600
}

/// The time of the last reconcile; 0 where there was none.
pub open spec fn last_time(history: Seq<i64>) -> i64 {
    if history.len() == 0 {
        0
    } else {
        history.last()
    }
}

/// Whether the count of an hour of the day is out of date when the time passes
/// from hour `last` to hour `now`: those after `last`, up to `now`.
#[verifier::opaque]
pub open spec fn is_dropped(bucket: int, last: int, now: int) -> bool {
    now > last && (bucket - last - 1) % 24 < now - last
}

/// The counts by hour of the day that are still of the last 24 hours, when the
/// time has passed from hour `last` to hour `now`.
pub open spec fn kept_between(hours: Seq<u16>, last: int, now: int) -> Seq<u16> {
    Seq::new(
        24,
        |b: int|
            if is_dropped(b, last, now) {
                0u16
            } else {
                hours[b]
            },
    )
}

/// The counts by hour of the day that are still of the last 24 hours.
pub open spec fn kept_hours(hours: Seq<u16>, last_ms: i64, now_ms: i64) -> Seq<u16> {
    kept_between(hours, hour_of(last_ms), hour_of(now_ms))
}

/// The counts by hour of the day after one more reconcile.
pub open spec fn next_hours(hours: Seq<u16>, last_ms: i64, now_ms: i64) -> Seq<u16> {
    let kept = kept_hours(hours, last_ms, now_ms);
    let at = hour_of(now_ms) % 24;
    kept.update(at, vstd::wrapping::u16_specs::wrapping_add(kept[at], 1))
}

/// The sum of a list of counts.
pub open spec fn sum(counts: Seq<u16>) -> nat
    decreases counts.len(),
{
    if counts.len() == 0 {
        0
    } else {
        sum(counts.drop_last()) + counts.last() as nat
    }
}

/// The time from one moment to a later one; none where the clock was set back.
pub open spec fn time_since(last: i64, now: i64) -> u64 {
    if now >= last {
        (now - last) as u64
    } else {
        0
    }
}

/// What is left of some time after a part of it; none where the part is larger.
pub open spec fn time_left(all: u64, part: u64) -> u64 {
    if all >= part {
        (all - part) as u64
    } else {
        0
    }
}

/// A sum, or the largest number where it does not fit.
pub open spec fn sum_of(a: u64, b: u64) -> u64 {
    if a + b <= u64::MAX {
        (a + b) as u64
    } else {
        u64::MAX
    }
}

pub(crate) fn plus(a: u64, b: u64) -> (r: u64)
    ensures
        r == sum_of(a, b),
{
    if a <= u64::MAX - b {
        a + b
    } else {
        u64::MAX
    }
}

/// The larger of two numbers.
pub open spec fn larger(a: u64, b: u64) -> u64 {
    if a >= b {
        a
    } else {
        b
    }
}

/// The entry in the error log.
pub open spec fn log_entry(time: Seq<char>, error: Seq<char>) -> Seq<char> {
    "["@ + time + "] "@ + error
}

impl RecorderView {
    /// What a recorder starts with.
    pub open spec fn blank(error_limit: nat) -> RecorderView {
        RecorderView {
            history: Seq::empty(),
            hours: Seq::new(24, |b: int| 0u16),
            reconcile_total: 0,
            loads: 0,
            unloads: 0,
            timed_loads: 0,
            loaded_since: None,
            active_now_ms: 0,
            load_total_ms: 0,
            load_max_ms: 0,
            idle_total_ms: 0,
            idle_max_ms: 0,
            active_total_ms: 0,
            active_max_ms: 0,
            memory: 0,
            errors: Seq::empty(),
            error_limit,
        }
    }

    /// After a reconcile.
    pub open spec fn reconciled(self, now_ms: i64) -> RecorderView {
        RecorderView {
            history: pushed(self.history, HISTORY_LIMIT as nat, now_ms),
            hours: next_hours(self.hours, last_time(self.history), now_ms),
            reconcile_total: vstd::wrapping::u64_specs::wrapping_add(self.reconcile_total, 1),
            ..self
        }
    }

    /// After a load that took some time.
    pub open spec fn load_took(self, duration_ms: u32) -> RecorderView {
        RecorderView {
            timed_loads: vstd::wrapping::u64_specs::wrapping_add(self.timed_loads, 1),
            load_total_ms: vstd::wrapping::u64_specs::wrapping_add(
                self.load_total_ms,
                duration_ms as u64,
            ),
            load_max_ms: if duration_ms >= self.load_max_ms {
                duration_ms
            } else {
                self.load_max_ms
            },
            ..self
        }
    }

    /// After a load: the operator is loaded from now on.
    pub open spec fn loading(self, now_ms: i64) -> RecorderView {
        RecorderView {
            loads: vstd::wrapping::u64_specs::wrapping_add(self.loads, 1),
            ..self.loaded_at(now_ms)
        }
    }

    /// Loaded from now on, and not active yet.
    pub open spec fn loaded_at(self, now_ms: i64) -> RecorderView {
        RecorderView { loaded_since: Some(now_ms), active_now_ms: 0, ..self }
    }

    /// After a load that failed: it stays counted, and the operator is not
    /// loaded.
    pub open spec fn load_failed(self) -> RecorderView {
        RecorderView { loaded_since: None, active_now_ms: 0, ..self }
    }

    /// After the operator was active for some time.
    pub open spec fn active(self, elapsed_ms: u64) -> RecorderView {
        let now = sum_of(self.active_now_ms, elapsed_ms);
        RecorderView {
            active_now_ms: now,
            active_total_ms: sum_of(self.active_total_ms, elapsed_ms),
            active_max_ms: larger(self.active_max_ms, now),
            ..self
        }
    }

    /// How long the operator has been idle since it was loaded.
    pub open spec fn idle_now(self, now_ms: i64) -> u64 {
        match self.loaded_since {
            Some(since) => time_left(time_since(since, now_ms), self.active_now_ms),
            None => 0,
        }
    }

    /// After an unload: how long the operator was idle since it was loaded is
    /// now known.
    pub open spec fn unloading(self, now_ms: i64) -> RecorderView {
        RecorderView {
            unloads: vstd::wrapping::u64_specs::wrapping_add(self.unloads, 1),
            idle_total_ms: sum_of(self.idle_total_ms, self.idle_now(now_ms)),
            idle_max_ms: larger(self.idle_max_ms, self.idle_now(now_ms)),
            loaded_since: None,
            active_now_ms: 0,
            ..self
        }
    }

    /// After an error was logged with a time.
    pub open spec fn logged(self, time: Seq<char>, error: Seq<char>) -> RecorderView {
        RecorderView {
            errors: pushed(self.errors, self.error_limit, log_entry(time, error)),
            ..self
        }
    }

    /// After an error.
    pub open spec fn failed(self, now_s: i64, error: Seq<char>) -> RecorderView {
        self.logged(rfc3339_text(now_s), error)
    }

    /// Loads for each hundred reconciles, up to 255.
    pub open spec fn cold_start_ratio(self) -> int {
        if self.reconcile_total == 0 {
            0
        } else {
            let ratio = (self.loads * 100) / self.reconcile_total as int;
            if ratio < 255 {
                ratio
            } else {
                255
            }
        }
    }

    pub open spec fn load_ms_avg(self) -> int {
        if self.timed_loads == 0 {
            0
        } else {
            (self.load_total_ms as int / self.timed_loads as int) % 0x1_0000_0000
        }
    }

    /// Of each hundred parts of the time loaded, those active.
    pub open spec fn activity_ratio(self, now_ms: i64) -> int {
        let idle = self.idle_total_ms + self.idle_now(now_ms);
        let active = self.active_total_ms as int;
        if idle + active == 0 {
            0
        } else {
            (active * 100) / (idle + active)
        }
    }

    /// How long the operator was idle from a load to an unload, on average.
    pub open spec fn idle_s_avg(self) -> int {
        if self.unloads == 0 {
            0
        } else {
            (self.idle_total_ms as int / self.unloads as int) / 1000
        }
    }

    /// How long the operator was active each time that it was loaded, on
    /// average.
    pub open spec fn active_s_avg(self) -> int {
        if self.loads == 0 {
            0
        } else {
            (self.active_total_ms as int / self.loads as int) / 1000
        }
    }

    /// The reconciles of the last 24 hours, by the hour.
    pub open spec fn total_24h(self, now_ms: i64) -> nat {
        sum(kept_hours(self.hours, last_time(self.history), now_ms))
    }

    /// The report on what has been recorded, with the newest error first.
    pub open spec fn reported_as(self, now_ms: i64, r: WasmOperatorStatistics) -> bool {
        &&& r.reconcile_total_24h == self.total_24h(now_ms)
        &&& r.reconcile_cold_start_ratio == self.cold_start_ratio()
        &&& r.wasm_load_duration_msec_avg == self.load_ms_avg()
        &&& r.wasm_load_duration_msec_max == self.load_max_ms
        &&& r.memory_usage_bytes == self.memory
        &&& r.activity_ratio == self.activity_ratio(now_ms)
        &&& r.idle_duration_sec_avg == self.idle_s_avg()
        &&& r.idle_duration_sec_max == self.idle_max_ms / 1000
        &&& r.active_duration_sec_avg == self.active_s_avg()
        &&& r.active_duration_sec_max == self.active_max_ms / 1000
        &&& texts(r.recent_errors@) == self.errors.reverse()
    }
}

#[verifier::spinoff_prover]
proof fn lemma_age(bucket: int, last: int, now: int)
    requires
        0 <= bucket < 24,
        last >= 0,
    ensures
        is_dropped(bucket, last, now) == (now > last && (bucket + 47 - last % 24) % 24 < now - last),
{
    reveal(is_dropped);
}

#[verifier::spinoff_prover]
proof fn lemma_kept(hour: int, last: int, now: int)
    requires
        now - 23 <= hour <= now,
        last <= now,
    ensures
        is_dropped(hour % 24, last, now) == (hour > last),
{
    reveal(is_dropped);
}

proof fn lemma_sum_bound(counts: Seq<u16>)
    ensures
        sum(counts) <= counts.len() * 65535,
    decreases counts.len(),
{
    if counts.len() > 0 {
        lemma_sum_bound(counts.drop_last());
    }
}

impl View for WasmOperatorStatisticsRecorder {
    type V = RecorderView;

    closed spec fn view(&self) -> RecorderView {
        RecorderView {
            history: self.recent_reconcile_history@,
            hours: self.reconciles@,
            reconcile_total: self.reconcile_total,
            loads: self.load_total,
            unloads: self.unload_total,
            timed_loads: self.timed_load_total,
            loaded_since: self.loaded_since,
            active_now_ms: self.active_now_ms,
            load_total_ms: self.load_total_duration_ms,
            load_max_ms: self.load_max_duration_ms,
            idle_total_ms: self.idle_total_duration_ms,
            idle_max_ms: self.idle_max_duration_ms,
            active_total_ms: self.active_total_duration_ms,
            active_max_ms: self.active_max_duration_ms,
            memory: self.memory_usage_bytes,
            errors: texts(self.error_log@),
            error_limit: self.error_log.limit(),
        }
    }
}

/// The size of the error log that a setting asks for; 10 where it asks for
/// none.
pub open spec fn error_log_size(setting: Option<Seq<char>>) -> nat {
    match setting {
        Some(text) => match uint_of(text, usize::MAX as nat) {
            Ok(n) => n,
            Err(_) => 10,
        },
        None => 10,
    }
}

impl WasmOperatorStatisticsRecorder {
    /// Times are not before 1970, and the day has 24 hours.
    pub closed spec fn wf(self) -> bool {
        &&& self.reconciles@.len() == 24
        &&& self.recent_reconcile_history.limit() == HISTORY_LIMIT
        &&& forall|i: int|
            0 <= i < self.recent_reconcile_history@.len()
                ==> #[trigger] self.recent_reconcile_history@[i] >= 0
        &&& self.loaded_since matches Some(since) ==> since >= 0
    }

    /// Creates a recorder, with the size of the error log as a setting asks for
    /// it.
    pub fn new(error_log_size: Option<&str>) -> (r: WasmOperatorStatisticsRecorder)
        ensures
            r.wf(),
            r@ == RecorderView::blank(self::error_log_size(opt_str(error_log_size))),
    {
        let size: usize = match error_log_size {
            Some(text) => match parse_uint(text, usize::MAX as u64) {
                Ok(n) => n as usize,
                Err(_) => 10,
            },
            None => 10,
        };
        let mut reconciles: Vec<u16> = Vec::new();
        let mut h: usize = 0;
        while h < 24
            invariant
                h <= 24,
                reconciles@ == Seq::new(h as nat, |b: int| 0u16),
            decreases 24 - h,
        {
            reconciles.push(0);
            h = h + 1;
            assert(reconciles@ =~= Seq::new(h as nat, |b: int| 0u16));
        }
        let r = WasmOperatorStatisticsRecorder {
            recent_reconcile_history: FixedFifoBuffer::new(HISTORY_LIMIT),
            reconciles,
            reconcile_total: 0,
            load_total: 0,
            unload_total: 0,
            timed_load_total: 0,
            loaded_since: None,
            active_now_ms: 0,
            load_total_duration_ms: 0,
            load_max_duration_ms: 0,
            idle_total_duration_ms: 0,
            idle_max_duration_ms: 0,
            active_total_duration_ms: 0,
            active_max_duration_ms: 0,
            memory_usage_bytes: 0,
            error_log: FixedFifoBuffer::new(size),
        };
        assert(r@.errors =~= Seq::<Seq<char>>::empty());
        r
    }

    /// Records a reconcile event, updating historical data and counters.
    pub fn record_reconcile(&mut self)
        requires
            old(self).wf(),
        ensures
            final(self).wf(),
            exists|now_ms: i64| now_ms >= 0 && final(self)@ == #[trigger] old(self)@.reconciled(
                now_ms,
            ),
    {
        let now: i64 = now_millis();
        self.record_reconcile_at(now);
    }

    /// Records a reconcile event of the given time.
    #[verifier::spinoff_prover]
    pub fn record_reconcile_at(&mut self, now_ms: i64)
        requires
            old(self).wf(),
            now_ms >= 0,
        ensures
            final(self).wf(),
            final(self)@ == old(self)@.reconciled(now_ms),
    {
        let last_ms: i64 = match self.recent_reconcile_history.get_last_added() {
            Some(ms) => ms,
            None => 0,
        };
        assert(last_ms == last_time(old(self)@.history));
        self.recent_reconcile_history.push(now_ms);
        let now: i64 = (now_ms / 1000) / 3600;
        let last: i64 = (last_ms / 1000) / 3600;
        assert(now == hour_of(now_ms) && last == hour_of(last_ms));
        let ghost before = old(self)@.hours;
        let diff: i64 = now - last;
        let dropped: i64 = if diff < 24 {
            diff
        } else {
            24
        };
        let mut h: i64 = 0;
        while h < dropped
            invariant
                0 <= last <= 0x7fff_ffff_ffff,
                diff == now - last,
                dropped == (if diff < 24 {
                    diff
                } else {
                    24
                }),
                dropped < 0 ==> h == 0,
                dropped >= 0 ==> 0 <= h <= dropped,
                self.reconciles@.len() == 24,
                before.len() == 24,
                forall|b: int|
                    0 <= b < 24 ==> #[trigger] self.reconciles@[b] == (if (b - last - 1) % 24 < h {
                        0u16
                    } else {
                        before[b]
                    }),
                self.recent_reconcile_history.limit() == HISTORY_LIMIT,
                self.recent_reconcile_history@ == pushed(
                    old(self)@.history,
                    HISTORY_LIMIT as nat,
                    now_ms,
                ),
                self.loaded_since matches Some(since) ==> since >= 0,
                (RecorderView { hours: before, ..self@ }) == (RecorderView {
                    history: pushed(old(self)@.history, HISTORY_LIMIT as nat, now_ms),
                    ..old(self)@
                }),
            decreases dropped - h,
        {
            let reset_hour: i64 = (last + h + 1) % 24;
            self.reconciles.set(reset_hour as usize, 0);
            h = h + 1;
        }
        let at: usize = (now % 24) as usize;
        assert(self.reconciles@ =~= kept_hours(before, last_ms, now_ms)) by {
            reveal(is_dropped);
        }
        let count: u16 = self.reconciles[at];
        self.reconciles.set(at, count.wrapping_add(1));
        self.reconcile_total = self.reconcile_total.wrapping_add(1);
        assert(self@ =~= old(self)@.reconciled(now_ms));
    }

    /// Records the duration of a Wasm module load operation.
    pub fn record_load_duration(&mut self, duration_ms: u32)
        requires
            old(self).wf(),
        ensures
            final(self).wf(),
            final(self)@ == old(self)@.load_took(duration_ms),
    {
        self.timed_load_total = self.timed_load_total.wrapping_add(1);
        self.load_total_duration_ms = self.load_total_duration_ms.wrapping_add(duration_ms as u64);
        if duration_ms >= self.load_max_duration_ms {
            self.load_max_duration_ms = duration_ms;
        }
    }

    /// Records the current memory usage of the operator.
    pub fn record_memory_usage(&mut self, bytes: u32)
        requires
            old(self).wf(),
        ensures
            final(self).wf(),
            final(self)@ == (RecorderView { memory: bytes, ..old(self)@ }),
    {
        self.memory_usage_bytes = bytes;
    }

    /// Records a load operation: the operator is loaded from now on.
    pub fn record_loading_operation(&mut self)
        requires
            old(self).wf(),
        ensures
            final(self).wf(),
            exists|now_ms: i64|
                now_ms >= 0 && final(self)@ == #[trigger] old(self)@.loading(now_ms),
    {
        let now: i64 = now_millis();
        self.record_loading_operation_at(now);
    }

    /// Records a load operation of the given time.
    pub fn record_loading_operation_at(&mut self, now_ms: i64)
        requires
            old(self).wf(),
            now_ms >= 0,
        ensures
            final(self).wf(),
            final(self)@ == old(self)@.loading(now_ms),
    {
        self.load_total = self.load_total.wrapping_add(1);
        self.record_loaded_at(now_ms);
    }

    /// Records that a load operation was done at the given time.
    pub fn record_loaded_at(&mut self, now_ms: i64)
        requires
            old(self).wf(),
            now_ms >= 0,
        ensures
            final(self).wf(),
            final(self)@ == old(self)@.loaded_at(now_ms),
    {
        self.loaded_since = Some(now_ms);
        self.active_now_ms = 0;
    }

    /// Records that a load operation has failed.
    pub fn record_load_failed(&mut self)
        requires
            old(self).wf(),
        ensures
            final(self).wf(),
            final(self)@ == old(self)@.load_failed(),
    {
        self.loaded_since = None;
        self.active_now_ms = 0;
    }

    /// Records that the operator was active for some time.
    pub fn record_active(&mut self, elapsed_ms: u64)
        requires
            old(self).wf(),
        ensures
            final(self).wf(),
            final(self)@ == old(self)@.active(elapsed_ms),
    {
        self.active_now_ms = plus(self.active_now_ms, elapsed_ms);
        self.active_total_duration_ms = plus(self.active_total_duration_ms, elapsed_ms);
        if self.active_now_ms > self.active_max_duration_ms {
            self.active_max_duration_ms = self.active_now_ms;
        }
    }

    fn idle_since_load(&self, now_ms: i64) -> (r: u64)
        requires
            self.wf(),
            now_ms >= 0,
        ensures
            r == self@.idle_now(now_ms),
    {
        match self.loaded_since {
            Some(since) => {
                let loaded: u64 = if now_ms >= since {
                    (now_ms - since) as u64
                } else {
                    0
                };
                if loaded >= self.active_now_ms {
                    loaded - self.active_now_ms
                } else {
                    0
                }
            },
            None => 0,
        }
    }

    /// Records an unload operation, updating idle durations.
    pub fn record_unloading_operation(&mut self)
        requires
            old(self).wf(),
        ensures
            final(self).wf(),
            exists|now_ms: i64|
                now_ms >= 0 && final(self)@ == #[trigger] old(self)@.unloading(now_ms),
    {
        let now: i64 = now_millis();
        self.record_unloading_operation_at(now);
    }

    /// Records an unload operation of the given time.
    pub fn record_unloading_operation_at(&mut self, now_ms: i64)
        requires
            old(self).wf(),
            now_ms >= 0,
        ensures
            final(self).wf(),
            final(self)@ == old(self)@.unloading(now_ms),
    {
        let idle: u64 = self.idle_since_load(now_ms);
        self.unload_total = self.unload_total.wrapping_add(1);
        self.idle_total_duration_ms = plus(self.idle_total_duration_ms, idle);
        if idle > self.idle_max_duration_ms {
            self.idle_max_duration_ms = idle;
        }
        self.loaded_since = None;
        self.active_now_ms = 0;
    }

    /// Logs an error encountered during operator execution.
    pub fn record_error(&mut self, error: &str)
        requires
            old(self).wf(),
        ensures
            final(self).wf(),
            exists|now_s: i64|
                0 <= now_s <= LAST_SECOND && final(self)@ == #[trigger] old(self)@.failed(
                    now_s,
                    error@,
                ),
    {
        let now: i64 = now_seconds();
        self.record_error_at(now, error);
    }

    /// Logs an error of the given time.
    pub fn record_error_at(&mut self, now_s: i64, error: &str)
        requires
            old(self).wf(),
            0 <= now_s <= LAST_SECOND,
        ensures
            final(self).wf(),
            final(self)@ == old(self)@.failed(now_s, error@),
    {
        let time = rfc3339_seconds(now_s);
        self.log_error(time.as_str(), error);
    }

    /// Logs an error with a time.
    pub fn log_error(&mut self, time: &str, error: &str)
        requires
            old(self).wf(),
        ensures
            final(self).wf(),
            final(self)@ == old(self)@.logged(time@, error@),
    {
        let entry = "[".to_owned().concat(time).concat("] ").concat(error);
        self.error_log.push(entry);
        assert(self@.errors =~= old(self)@.logged(time@, error@).errors);
        assert(self@ =~= old(self)@.logged(time@, error@));
    }

    /// Calculates the total number of reconciles in the last 24 hours.
    pub fn get_reconcile_total_24h(&self, now_ms: i64) -> (r: u32)
        requires
            self.wf(),
            now_ms >= 0,
        ensures
            r == self@.total_24h(now_ms),
    {
        let last_ms: i64 = match self.recent_reconcile_history.get_last_added() {
            Some(ms) => ms,
            None => 0,
        };
        assert(last_ms == last_time(self@.history));
        let now: i64 = (now_ms / 1000) / 3600;
        let last: i64 = (last_ms / 1000) / 3600;
        assert(now == hour_of(now_ms) && last == hour_of(last_ms));
        self.sum_kept(last, now)
    }

    fn sum_kept(&self, last: i64, now: i64) -> (total: u32)
        requires
            self.wf(),
            0 <= last <= 0x7fff_ffff_ffff,
            0 <= now <= 0x7fff_ffff_ffff,
        ensures
            total == sum(kept_between(self@.hours, last as int, now as int)),
    {
        let ghost kept = kept_between(self@.hours, last as int, now as int);
        let mut total: u32 = 0;
        let mut i: usize = 0;
        while i < 24
            invariant
                i <= 24,
                self.reconciles@.len() == 24,
                0 <= last <= 0x7fff_ffff_ffff,
                0 <= now <= 0x7fff_ffff_ffff,
                kept == kept_between(self.reconciles@, last as int, now as int),
                total == sum(kept.take(i as int)),
            decreases 24 - i,
        {
            proof {
                lemma_sum_bound(kept.take(i as int));
                assert(kept.take(i + 1).drop_last() =~= kept.take(i as int));
                lemma_age(i as int, last as int, now as int);
            }
            let age: i64 = (i as i64 + 47 - last % 24) % 24;
            if now <= last || age >= now - last {
                total = total + self.reconciles[i] as u32;
            }
            i = i + 1;
        }
        assert(kept.take(24) =~= kept);
        total
    }

    /// Returns the total number of load operations.
    pub fn get_load_total(&self) -> (r: u64)
        ensures
            r == self@.loads,
    {
        self.load_total
    }

    /// Returns the total number of unload operations.
    pub fn get_unload_total(&self) -> (r: u64)
        ensures
            r == self@.unloads,
    {
        self.unload_total
    }

    /// Calculates the ratio of cold starts to total reconciles.
    pub fn get_reconcile_cold_start_ratio(&self) -> (r: u8)
        ensures
            r == self@.cold_start_ratio(),
    {
        let total: u64 = self.reconcile_total;
        if total == 0 {
            return 0;
        }
        let ratio: u128 = (self.load_total as u128 * 100) / total as u128;
        if ratio < 255 {
            ratio as u8
        } else {
            255
        }
    }

    /// Calculates the average duration of WASM load operations.
    pub fn get_wasm_load_duration_msec_avg(&self) -> (r: u32)
        ensures
            r == self@.load_ms_avg(),
    {
        let timed: u64 = self.timed_load_total;
        if timed == 0 {
            return 0;
        }
        let avg: u64 = self.load_total_duration_ms / timed;
        assert(avg as u32 == avg % 0x1_0000_0000) by (bit_vector);
        avg as u32
    }

    /// Calculates the ratio of active time to the time loaded.
    pub fn get_activity_ratio(&self, now_ms: i64) -> (r: u8)
        requires
            self.wf(),
            now_ms >= 0,
        ensures
            r == self@.activity_ratio(now_ms),
            r <= 100,
    {
        let idle: u128 = self.idle_total_duration_ms as u128 + self.idle_since_load(
            now_ms,
        ) as u128;
        let active: u128 = self.active_total_duration_ms as u128;
        let total: u128 = idle + active;
        if total == 0 {
            return 0;
        }
        let ratio: u128 = (active * 100) / total;
        assert(ratio <= 100) by (nonlinear_arith)
            requires
                ratio == (active * 100) / total as int,
                active <= total,
                total > 0,
        ;
        ratio as u8
    }

    /// Calculates the average duration of idle periods.
    pub fn get_idle_duration_sec_avg(&self) -> (r: u64)
        ensures
            r == self@.idle_s_avg(),
    {
        let unloads: u64 = self.unload_total;
        if unloads == 0 {
            return 0;
        }
        (self.idle_total_duration_ms / unloads) / 1000
    }

    /// Calculates the average duration of active running periods.
    pub fn get_running_duration_s_avg(&self) -> (r: u64)
        ensures
            r == self@.active_s_avg(),
    {
        let loads: u64 = self.load_total;
        if loads == 0 {
            return 0;
        }
        (self.active_total_duration_ms / loads) / 1000
    }

    /// Generates a comprehensive statistics report for the operator.
    pub fn get_statistics(&self) -> (r: WasmOperatorStatistics)
        requires
            self.wf(),
        ensures
            exists|now_ms: i64| now_ms >= 0 && #[trigger] self@.reported_as(now_ms, r),
    {
        let now: i64 = now_millis();
        self.get_statistics_at(now)
    }

    /// Generates the report as of the given time.
    pub fn get_statistics_at(&self, now_ms: i64) -> (r: WasmOperatorStatistics)
        requires
            self.wf(),
            now_ms >= 0,
        ensures
            self@.reported_as(now_ms, r),
    {
        let recent_errors = self.error_log.get_all(true);
        let r = WasmOperatorStatistics {
            reconcile_total_24h: self.get_reconcile_total_24h(now_ms),
            reconcile_cold_start_ratio: self.get_reconcile_cold_start_ratio(),
            wasm_load_duration_msec_avg: self.get_wasm_load_duration_msec_avg(),
            wasm_load_duration_msec_max: self.load_max_duration_ms,
            memory_usage_bytes: self.memory_usage_bytes,
            activity_ratio: self.get_activity_ratio(now_ms),
            idle_duration_sec_avg: self.get_idle_duration_sec_avg(),
            idle_duration_sec_max: self.idle_max_duration_ms / 1000,
            active_duration_sec_avg: self.get_running_duration_s_avg(),
            active_duration_sec_max: self.active_max_duration_ms / 1000,
            recent_errors,
        };
        assert(texts(r.recent_errors@) =~= self@.errors.reverse());
        r
    }

    /// Returns the recent reconcile history as timestamps in milliseconds since
    /// the start of 1970, oldest first.
    pub fn get_recent_reconcile_history(&self) -> (r: Vec<i64>)
        ensures
            r@ == self@.history,
    {
        let r = self.recent_reconcile_history.get_all(false);
        assert(r@ =~= self@.history);
        r
    }
}

/// A recorder after reconciles at the given times.
pub open spec fn after_reconciles(times: Seq<i64>, error_limit: nat) -> RecorderView
    decreases times.len(),
{
    if times.len() == 0 {
        RecorderView::blank(error_limit)
    } else {
        after_reconciles(times.drop_last(), error_limit).reconciled(times.last())
    }
}

/// How many of the times are in the given hour.
pub open spec fn count_in(times: Seq<i64>, hour: int) -> nat
    decreases times.len(),
{
    if times.len() == 0 {
        0
    } else if hour_of(times.last()) == hour {
        count_in(times.drop_last(), hour) + 1
    } else {
        count_in(times.drop_last(), hour)
    }
}

/// How many of the times are in the given hour or later.
pub open spec fn count_since(times: Seq<i64>, hour: int) -> nat
    decreases times.len(),
{
    if times.len() == 0 {
        0
    } else if hour_of(times.last()) >= hour {
        count_since(times.drop_last(), hour) + 1
    } else {
        count_since(times.drop_last(), hour)
    }
}

/// Times that a clock gives which is never set back.
pub open spec fn in_order(times: Seq<i64>) -> bool {
    &&& forall|i: int| 0 <= i < times.len() ==> #[trigger] times[i] >= 0
    &&& forall|i: int, j: int| 0 <= i <= j < times.len() ==> times[i] <= times[j]
}

proof fn lemma_sum_update(counts: Seq<u16>, at: int, count: u16)
    requires
        0 <= at < counts.len(),
    ensures
        sum(counts.update(at, count)) == sum(counts) - counts[at] + count,
    decreases counts.len(),
{
    let updated = counts.update(at, count);
    if at == counts.len() - 1 {
        assert(updated.drop_last() =~= counts.drop_last());
    } else {
        assert(updated.drop_last() =~= counts.drop_last().update(at, count));
        lemma_sum_update(counts.drop_last(), at, count);
    }
}

proof fn lemma_sum_zeros(counts: Seq<u16>)
    requires
        forall|i: int| 0 <= i < counts.len() ==> counts[i] == 0,
    ensures
        sum(counts) == 0,
    decreases counts.len(),
{
    if counts.len() > 0 {
        lemma_sum_zeros(counts.drop_last());
    }
}

proof fn lemma_none_in_later_hour(times: Seq<i64>, hour: int)
    requires
        in_order(times),
        times.len() == 0 || hour > hour_of(times.last()),
    ensures
        count_in(times, hour) == 0,
    decreases times.len(),
{
    if times.len() > 0 {
        let before = times.drop_last();
        if before.len() > 0 {
            assert(before.last() == times[times.len() - 2]);
            assert(times[times.len() - 2] <= times.last());
        }
        lemma_none_in_later_hour(before, hour);
    }
}

proof fn lemma_last_time(times: Seq<i64>, error_limit: nat)
    ensures
        after_reconciles(times, error_limit).hours.len() == 24,
        last_time(after_reconciles(times, error_limit).history) == last_time(times),
    decreases times.len(),
{
    if times.len() > 0 {
        lemma_last_time(times.drop_last(), error_limit);
    }
}

/// The count of each of the last 24 hours is that of the reconciles in that hour
/// (as far as 16 bits can tell).
#[verifier::spinoff_prover]
pub proof fn hours_hold_their_reconciles(
    times: Seq<i64>,
    error_limit: nat,
    now_ms: i64,
    hour: int,
)
    requires
        in_order(times),
        now_ms >= last_time(times),
        hour_of(now_ms) - 23 <= hour <= hour_of(now_ms),
    ensures
        kept_hours(
            after_reconciles(times, error_limit).hours,
            last_time(after_reconciles(times, error_limit).history),
            now_ms,
        )[hour % 24] == count_in(times, hour) % 65536,
    decreases times.len(),
{
    lemma_last_time(times, error_limit);
    let now = hour_of(now_ms);
    let m = after_reconciles(times, error_limit);
    if times.len() == 0 {
        assert(m.hours[hour % 24] == 0);
    } else {
        let before = times.drop_last();
        let last = hour_of(times.last());
        lemma_last_time(before, error_limit);
        if before.len() > 0 {
            assert(before.last() == times[times.len() - 2]);
            assert(times[times.len() - 2] <= times.last());
        }
        assert(times.last() == times[times.len() - 1]);
        lemma_kept(hour, last, now);
        if hour > last {
            lemma_none_in_later_hour(times, hour);
        } else {
            hours_hold_their_reconciles(before, error_limit, times.last(), hour);
            let kept = kept_hours(
                after_reconciles(before, error_limit).hours,
                last_time(before),
                times.last(),
            );
            assert(m.hours == next_hours(
                after_reconciles(before, error_limit).hours,
                last_time(before),
                times.last(),
            ));
            if hour == last {
                assert(m.hours[hour % 24] == vstd::wrapping::u16_specs::wrapping_add(
                    kept[hour % 24],
                    1,
                ));
            } else {
                assert(hour % 24 != last % 24);
                assert(m.hours[hour % 24] == kept[hour % 24]);
            }
        }
    }
}

#[verifier::spinoff_prover]
proof fn lemma_dropped(bucket: int, first: int, mid: int, last: int)
    requires
        0 <= bucket < 24,
        first <= mid <= last,
    ensures
        is_dropped(bucket, first, last) == (is_dropped(bucket, first, mid) || is_dropped(
            bucket,
            mid,
            last,
        )),
        is_dropped(mid % 24, mid, last) == (mid < last - 23),
{
    reveal(is_dropped);
}

/// The total in the report is the number of reconciles in the last 24 hours,
/// as long as no hour had more of them than 16 bits can count.
#[verifier::spinoff_prover]
pub proof fn total_is_of_the_last_day(times: Seq<i64>, error_limit: nat, now_ms: i64)
    requires
        in_order(times),
        now_ms >= last_time(times),
        forall|hour: int| #[trigger] count_in(times, hour) <= 65535,
    ensures
        after_reconciles(times, error_limit).total_24h(now_ms) == count_since(
            times,
            hour_of(now_ms) - 23,
        ),
    decreases times.len(),
{
    lemma_last_time(times, error_limit);
    let m = after_reconciles(times, error_limit);
    let now = hour_of(now_ms);
    if times.len() == 0 {
        lemma_sum_zeros(kept_hours(m.hours, last_time(m.history), now_ms));
    } else {
        let before = times.drop_last();
        let last_ms = times.last();
        let last = hour_of(last_ms);
        lemma_last_time(before, error_limit);
        assert(times.last() == times[times.len() - 1]);
        if before.len() > 0 {
            assert(before.last() == times[times.len() - 2]);
            assert(times[times.len() - 2] <= times.last());
        }
        assert forall|hour: int| #[trigger] count_in(before, hour) <= 65535 by {
            assert(count_in(times, hour) <= 65535);
        }
        total_is_of_the_last_day(before, error_limit, now_ms);
        hours_hold_their_reconciles(before, error_limit, last_ms, last);
        let b = after_reconciles(before, error_limit);
        let at = last % 24;
        let kept = kept_hours(b.hours, last_time(before), last_ms);
        let through = kept_hours(b.hours, last_time(before), now_ms);
        assert(count_in(times, last) == count_in(before, last) + 1);
        assert(m.hours == next_hours(b.hours, last_time(before), last_ms));
        let total = kept_hours(m.hours, last_ms, now_ms);
        assert forall|bucket: int| 0 <= bucket < 24 implies is_dropped(
            bucket,
            hour_of(last_time(before)),
            now,
        ) == (is_dropped(bucket, hour_of(last_time(before)), last) || is_dropped(
            bucket,
            last,
            now,
        )) by {
            lemma_dropped(bucket, hour_of(last_time(before)), last, now);
        }
        lemma_dropped(at, hour_of(last_time(before)), last, now);
        if last >= now - 23 {
            assert(total =~= through.update(at, (kept[at] + 1) as u16));
            assert(through[at] == kept[at]);
            lemma_sum_update(through, at, (kept[at] + 1) as u16);
        } else {
            assert(total =~= through);
        }
    }
}

/// What is recorded of an operator that is loaded and unloaded.
pub enum Operation {
    /// It was loaded, and that took some time.
    Load(i64, u32),
    /// It was active for some time.
    Active(u64),
    /// It was unloaded.
    Unload(i64),
}

impl RecorderView {
    /// After some operations.
    pub open spec fn after_operations(self, all: Seq<Operation>) -> RecorderView
        decreases all.len(),
    {
        if all.len() == 0 {
            self
        } else {
            let before = self.after_operations(all.drop_last());
            match all.last() {
                Operation::Load(now_ms, duration_ms) => before.loading(now_ms).load_took(
                    duration_ms,
                ),
                Operation::Active(elapsed_ms) => before.active(elapsed_ms),
                Operation::Unload(now_ms) => before.unloading(now_ms),
            }
        }
    }
}

/// How many of some operations are loads.
pub open spec fn load_count(all: Seq<Operation>) -> nat
    decreases all.len(),
{
    if all.len() == 0 {
        0
    } else {
        load_count(all.drop_last()) + if all.last() is Load {
            1nat
        } else {
            0
        }
    }
}

/// How many of some operations are unloads.
pub open spec fn unload_count(all: Seq<Operation>) -> nat
    decreases all.len(),
{
    if all.len() == 0 {
        0
    } else {
        unload_count(all.drop_last()) + if all.last() is Unload {
            1nat
        } else {
            0
        }
    }
}

/// How long the loads among some operations took in all.
pub open spec fn load_time(all: Seq<Operation>) -> nat
    decreases all.len(),
{
    if all.len() == 0 {
        0
    } else {
        load_time(all.drop_last()) + match all.last() {
            Operation::Load(_, duration_ms) => duration_ms as nat,
            _ => 0,
        }
    }
}

/// The longest of the loads among some operations.
pub open spec fn load_time_max(all: Seq<Operation>) -> u32
    decreases all.len(),
{
    if all.len() == 0 {
        0
    } else {
        let before = load_time_max(all.drop_last());
        match all.last() {
            Operation::Load(_, duration_ms) => if duration_ms >= before {
                duration_ms
            } else {
                before
            },
            _ => before,
        }
    }
}

proof fn lemma_load_time(all: Seq<Operation>)
    ensures
        load_time(all) <= load_count(all) * load_time_max(all),
    decreases all.len(),
{
    if all.len() > 0 {
        let before = all.drop_last();
        lemma_load_time(before);
        let n = load_count(before);
        let m = load_time_max(before);
        let k = load_time_max(all);
        assert(n * m <= n * k) by (nonlinear_arith)
            requires
                m <= k,
                0 <= n,
        ;
        if all.last() is Load {
            assert((n + 1) * k == n * k + k) by (nonlinear_arith);
        }
    }
}

/// After some loads and unloads, in turns or not, their totals are told, and of
/// the loads how long they took on average and at most, as long as there are not
/// more than can be counted.
pub proof fn loads_and_unloads_are_counted(all: Seq<Operation>, error_limit: nat)
    requires
        load_count(all) <= u64::MAX,
        unload_count(all) <= u64::MAX,
        load_time(all) <= u64::MAX,
    ensures
        ({
            let m = RecorderView::blank(error_limit).after_operations(all);
            &&& m.loads == load_count(all)
            &&& m.unloads == unload_count(all)
            &&& m.load_max_ms == load_time_max(all)
            &&& m.load_ms_avg() == if load_count(all) == 0 {
                0
            } else {
                load_time(all) as int / load_count(all) as int
            }
            &&& m.load_ms_avg() <= m.load_max_ms
        }),
{
    lemma_operations(all, error_limit);
    lemma_load_time(all);
    let n = load_count(all) as int;
    let t = load_time(all) as int;
    let k = load_time_max(all) as int;
    if n > 0 {
        assert(0 <= t / n <= k) by (nonlinear_arith)
            requires
                n > 0,
                0 <= t <= n * k,
        ;
    }
}

proof fn lemma_operations(all: Seq<Operation>, error_limit: nat)
    requires
        load_count(all) <= u64::MAX,
        unload_count(all) <= u64::MAX,
        load_time(all) <= u64::MAX,
    ensures
        ({
            let m = RecorderView::blank(error_limit).after_operations(all);
            &&& m.loads == load_count(all)
            &&& m.unloads == unload_count(all)
            &&& m.timed_loads == load_count(all)
            &&& m.load_total_ms == load_time(all)
            &&& m.load_max_ms == load_time_max(all)
        }),
    decreases all.len(),
{
    if all.len() > 0 {
        lemma_operations(all.drop_last(), error_limit);
    }
}

/// Being idle is being loaded: from a load to the next unload an operator is
/// idle no longer than it is loaded, and what it was active for is not part of
/// that.  Time that it is unloaded does not count.
pub proof fn idle_time_is_loaded_time(
    m: RecorderView,
    load_ms: i64,
    elapsed_ms: u64,
    unload_ms: i64,
    next_ms: i64,
)
    requires
        load_ms <= unload_ms,
        elapsed_ms <= unload_ms - load_ms,
        m.idle_total_ms + (unload_ms - load_ms) <= u64::MAX,
    ensures
        ({
            let loaded = m.loading(load_ms).active(elapsed_ms);
            let unloaded = loaded.unloading(unload_ms);
            &&& loaded.idle_now(unload_ms) + elapsed_ms == unload_ms - load_ms
            &&& unloaded.idle_total_ms == m.idle_total_ms + (unload_ms - load_ms - elapsed_ms)
            &&& unloaded.idle_now(next_ms) == 0
            &&& unloaded.loading(next_ms).idle_total_ms == unloaded.idle_total_ms
            &&& unloaded.loading(next_ms).idle_max_ms == unloaded.idle_max_ms
        }),
{
}

/// How active an operator is, is a percentage: none where it was never loaded,
/// and all of it only where it was never idle.
pub proof fn activity_is_a_percentage(m: RecorderView, now_ms: i64)
    ensures
        0 <= m.activity_ratio(now_ms) <= 100,
        m.active_total_ms == 0 ==> m.activity_ratio(now_ms) == 0,
        m.activity_ratio(now_ms) == 100 <==> m.active_total_ms > 0 && m.idle_total_ms
            + m.idle_now(now_ms) == 0,
{
    let i = m.idle_total_ms + m.idle_now(now_ms);
    let a = m.active_total_ms as int;
    if i + a > 0 {
        let q = (a * 100) / (i + a);
        assert(0 <= q <= 100 && (a == 0 ==> q == 0) && (q == 100 <==> i == 0)) by (nonlinear_arith)
            requires
                i >= 0,
                a >= 0,
                i + a > 0,
                q == (a * 100) / (i + a),
        ;
    }
}

/// A ratio of cold starts above 100 means that the operator was loaded more
/// often than it reconciled.
pub proof fn high_cold_start_ratios_mean_early_loads(m: RecorderView)
    requires
        m.cold_start_ratio() > 100,
    ensures
        m.loads > m.reconcile_total,
{
    let n = m.loads as int;
    let r = m.reconcile_total as int;
    assert(n > r) by (nonlinear_arith)
        requires
            r > 0,
            (n * 100) / r > 100,
    ;
}

/// No more errors are kept than the setting says, and the last one is among
/// them.
pub proof fn error_log_is_bounded(m: RecorderView, time: Seq<char>, error: Seq<char>)
    requires
        m.errors.len() <= m.error_limit,
    ensures
        m.logged(time, error).errors.len() <= m.error_limit,
        m.error_limit > 0 ==> m.logged(time, error).errors.last() == log_entry(time, error),
{
}

/// One more item is the newest; of those before, all stay while there is room, and
/// all but the oldest where there is none.
pub proof fn the_newest_item_is_last<T>(items: Seq<T>, limit: nat, item: T, i: int)
    requires
        items.len() <= limit,
    ensures
        pushed(items, limit, item).len() <= limit,
        limit > 0 ==> pushed(items, limit, item).len() > 0 && pushed(items, limit, item).last()
            == item,
        items.len() < limit ==> pushed(items, limit, item).len() == items.len() + 1 && (0 <= i
            < items.len() ==> pushed(items, limit, item)[i] == items[i]),
        items.len() == limit ==> pushed(items, limit, item).len() == items.len() && (0 < i
            < items.len() ==> pushed(items, limit, item)[i - 1] == items[i]),
{
}

/// An hour is as long as sixty minutes of sixty seconds: a time is in it from its
/// first millisecond up to the first of the next.
pub proof fn hours_are_whole(ms: i64, later: i64)
    requires
        ms >= 0,
    ensures
        hour_of(ms) * 3_600_000 <= ms < (hour_of(ms) + 1) * 3_600_000,
        ms <= later ==> hour_of(ms) <= hour_of(later),
        later == ms + 3_600_000 ==> hour_of(later) == hour_of(ms) + 1,
{
}

/// How many of the times are not before a given one.
pub open spec fn count_from(times: Seq<i64>, from_ms: int) -> nat
    decreases times.len(),
{
    if times.len() == 0 {
        0
    } else if times.last() >= from_ms {
        count_from(times.drop_last(), from_ms) + 1
    } else {
        count_from(times.drop_last(), from_ms)
    }
}

proof fn lemma_count_from(times: Seq<i64>, now_ms: i64)
    requires
        now_ms >= 0,
        forall|i: int| 0 <= i < times.len() ==> #[trigger] times[i] >= 0,
    ensures
        count_from(times, now_ms - 23 * 3_600_000) <= count_since(times, hour_of(now_ms) - 23),
        count_since(times, hour_of(now_ms) - 23) <= count_from(times, now_ms - 24 * 3_600_000 + 1),
    decreases times.len(),
{
    if times.len() > 0 {
        let before = times.drop_last();
        assert forall|i: int| 0 <= i < before.len() implies #[trigger] before[i] >= 0 by {
            assert(times[i] >= 0);
        }
        lemma_count_from(before, now_ms);
        let last = times.last();
        assert(last == times[times.len() - 1]);
        hours_are_whole(last, now_ms);
        hours_are_whole(now_ms, now_ms);
    }
}

/// Every reconcile of the last 23 hours is in the total, and none that was 24
/// hours ago or more, whatever the time of the day.
pub proof fn totals_forget_after_a_day(times: Seq<i64>, error_limit: nat, now_ms: i64)
    requires
        in_order(times),
        now_ms >= last_time(times),
        forall|hour: int| #[trigger] count_in(times, hour) <= 65535,
    ensures
        count_from(times, now_ms - 23 * 3_600_000) <= after_reconciles(
            times,
            error_limit,
        ).total_24h(now_ms) <= count_from(times, now_ms - 24 * 3_600_000 + 1),
{
    total_is_of_the_last_day(times, error_limit, now_ms);
    lemma_count_from(times, now_ms);
}

/// A reconcile is one more, and the last in the history; what is recorded of
/// loads, of time, of memory and of errors does not change.
pub proof fn reconciles_are_counted(m: RecorderView, now_ms: i64)
    ensures
        ({
            let next = m.reconciled(now_ms);
            &&& m.reconcile_total < u64::MAX ==> next.reconcile_total == m.reconcile_total + 1
            &&& next.history.last() == now_ms
            &&& m.history.len() <= 25 ==> next.history.len() <= 25
            &&& m.history.len() < 25 ==> next.history == m.history.push(now_ms)
            &&& next.only_reconciles_differ(m)
        }),
{
}

impl RecorderView {
    /// Two recorders have recorded the same but for reconciles.
    pub open spec fn only_reconciles_differ(self, other: RecorderView) -> bool {
        &&& self.loads == other.loads
        &&& self.unloads == other.unloads
        &&& self.timed_loads == other.timed_loads
        &&& self.loaded_since == other.loaded_since
        &&& self.active_now_ms == other.active_now_ms
        &&& self.load_total_ms == other.load_total_ms
        &&& self.load_max_ms == other.load_max_ms
        &&& self.idle_total_ms == other.idle_total_ms
        &&& self.idle_max_ms == other.idle_max_ms
        &&& self.active_total_ms == other.active_total_ms
        &&& self.active_max_ms == other.active_max_ms
        &&& self.memory == other.memory
        &&& self.errors == other.errors
        &&& self.error_limit == other.error_limit
    }

    /// Two recorders have recorded the same but for loads and how time was spent.
    pub open spec fn only_times_differ(self, other: RecorderView) -> bool {
        &&& self.history == other.history
        &&& self.hours == other.hours
        &&& self.reconcile_total == other.reconcile_total
        &&& self.memory == other.memory
        &&& self.errors == other.errors
        &&& self.error_limit == other.error_limit
    }
}

/// A load counts as one, an unload as one, and neither as the other; being active
/// as none.  How long a load took goes into the sum and the longest one.
pub proof fn loads_count_once(
    m: RecorderView,
    now_ms: i64,
    duration_ms: u32,
    elapsed_ms: u64,
)
    ensures
        m.loading(now_ms).only_times_differ(m),
        m.loaded_at(now_ms).only_times_differ(m),
        m.load_failed().only_times_differ(m),
        m.load_took(duration_ms).only_times_differ(m),
        m.unloading(now_ms).only_times_differ(m),
        m.active(elapsed_ms).only_times_differ(m),
        m.loads < u64::MAX ==> m.loading(now_ms).loads == m.loads + 1,
        m.loaded_at(now_ms).loads == m.loads,
        m.load_failed().loads == m.loads,
        m.load_took(duration_ms).loads == m.loads,
        m.unloading(now_ms).loads == m.loads,
        m.active(elapsed_ms).loads == m.loads,
        m.unloads < u64::MAX ==> m.unloading(now_ms).unloads == m.unloads + 1,
        m.loading(now_ms).unloads == m.unloads,
        m.loaded_at(now_ms).unloads == m.unloads,
        m.load_failed().unloads == m.unloads,
        m.load_took(duration_ms).unloads == m.unloads,
        m.active(elapsed_ms).unloads == m.unloads,
        m.timed_loads < u64::MAX ==> m.load_took(duration_ms).timed_loads == m.timed_loads + 1,
        m.loading(now_ms).timed_loads == m.timed_loads,
        m.unloading(now_ms).timed_loads == m.timed_loads,
        m.active(elapsed_ms).timed_loads == m.timed_loads,
        m.load_total_ms + duration_ms <= u64::MAX ==> m.load_took(duration_ms).load_total_ms
            == m.load_total_ms + duration_ms,
        m.load_took(duration_ms).load_max_ms >= duration_ms,
        m.load_took(duration_ms).load_max_ms >= m.load_max_ms,
        m.load_took(duration_ms).load_max_ms == duration_ms || m.load_took(duration_ms).load_max_ms
            == m.load_max_ms,
        m.loading(now_ms).load_total_ms == m.load_total_ms,
        m.loading(now_ms).load_max_ms == m.load_max_ms,
        m.unloading(now_ms).load_total_ms == m.load_total_ms,
        m.unloading(now_ms).load_max_ms == m.load_max_ms,
{
}

/// Time runs from the end of a load to the next unload or failed load: what it was
/// active for counts from none, and neither being timed nor being active ends it.
pub proof fn loads_begin_anew(
    m: RecorderView,
    now_ms: i64,
    duration_ms: u32,
    elapsed_ms: u64,
)
    ensures
        m.loading(now_ms).loaded_since == Some(now_ms),
        m.loaded_at(now_ms).loaded_since == Some(now_ms),
        m.load_failed().loaded_since is None,
        m.unloading(now_ms).loaded_since is None,
        m.load_took(duration_ms).loaded_since == m.loaded_since,
        m.active(elapsed_ms).loaded_since == m.loaded_since,
        m.loading(now_ms).active_now_ms == 0,
        m.loaded_at(now_ms).active_now_ms == 0,
        m.load_failed().active_now_ms == 0,
        m.unloading(now_ms).active_now_ms == 0,
        m.load_took(duration_ms).active_now_ms == m.active_now_ms,
        m.active_now_ms + elapsed_ms <= u64::MAX ==> m.active(elapsed_ms).active_now_ms
            == m.active_now_ms + elapsed_ms,
{
}

/// Time that an operator is active adds up, over loads too; the longest is that of
/// a load, and is never less than what was active since the last one.  Nothing but
/// being active counts towards it.
pub proof fn active_time_adds_up(
    m: RecorderView,
    now_ms: i64,
    duration_ms: u32,
    elapsed_ms: u64,
)
    ensures
        m.active_total_ms + elapsed_ms <= u64::MAX ==> m.active(elapsed_ms).active_total_ms
            == m.active_total_ms + elapsed_ms,
        m.active(elapsed_ms).active_max_ms >= m.active_max_ms,
        m.active(elapsed_ms).active_max_ms >= m.active(elapsed_ms).active_now_ms,
        m.active(elapsed_ms).active_max_ms == m.active_max_ms || m.active(elapsed_ms).active_max_ms
            == m.active(elapsed_ms).active_now_ms,
        m.active(elapsed_ms).idle_total_ms == m.idle_total_ms,
        m.active(elapsed_ms).idle_max_ms == m.idle_max_ms,
        m.loading(now_ms).active_total_ms == m.active_total_ms,
        m.loading(now_ms).active_max_ms == m.active_max_ms,
        m.loaded_at(now_ms).active_total_ms == m.active_total_ms,
        m.loaded_at(now_ms).active_max_ms == m.active_max_ms,
        m.load_failed().active_total_ms == m.active_total_ms,
        m.load_failed().active_max_ms == m.active_max_ms,
        m.load_took(duration_ms).active_total_ms == m.active_total_ms,
        m.load_took(duration_ms).active_max_ms == m.active_max_ms,
        m.unloading(now_ms).active_total_ms == m.active_total_ms,
        m.unloading(now_ms).active_max_ms == m.active_max_ms,
{
}

/// Time that an operator is idle is known once it is unloaded; the longest is that
/// of one load.  Being loaded or failing to be does not change it.
pub proof fn idle_time_adds_up(m: RecorderView, since: i64, now_ms: i64, duration_ms: u32)
    ensures
        m.loaded_since == Some(since) && now_ms - since >= m.active_now_ms ==> m.idle_now(now_ms)
            == now_ms - since - m.active_now_ms,
        m.loaded_since == Some(since) && now_ms - since <= m.active_now_ms ==> m.idle_now(now_ms)
            == 0,
        m.loaded_since is None ==> m.idle_now(now_ms) == 0,
        m.idle_total_ms + m.idle_now(now_ms) <= u64::MAX ==> m.unloading(now_ms).idle_total_ms
            == m.idle_total_ms + m.idle_now(now_ms),
        m.unloading(now_ms).idle_max_ms >= m.idle_now(now_ms),
        m.unloading(now_ms).idle_max_ms >= m.idle_max_ms,
        m.unloading(now_ms).idle_max_ms == m.idle_max_ms || m.unloading(now_ms).idle_max_ms
            == m.idle_now(now_ms),
        m.loading(now_ms).idle_total_ms == m.idle_total_ms,
        m.loading(now_ms).idle_max_ms == m.idle_max_ms,
        m.loaded_at(now_ms).idle_total_ms == m.idle_total_ms,
        m.load_failed().idle_total_ms == m.idle_total_ms,
        m.load_failed().idle_max_ms == m.idle_max_ms,
        m.load_took(duration_ms).idle_total_ms == m.idle_total_ms,
{
}

/// Sums of time stop at the largest number that can be told, and are exact up to
/// there; what is left of some time and the rest of it make up all of it.
pub proof fn times_are_sums_and_rests(a: u64, b: u64, last: i64, now: i64)
    ensures
        a + b <= u64::MAX ==> sum_of(a, b) == a + b,
        a + b > u64::MAX ==> sum_of(a, b) == u64::MAX,
        sum_of(a, b) == sum_of(b, a),
        b <= a ==> time_left(a, b) + b == a,
        a <= b ==> time_left(a, b) == 0,
        last <= now ==> last + time_since(last, now) == now,
        now <= last ==> time_since(last, now) == 0,
        larger(a, b) >= a,
        larger(a, b) >= b,
        larger(a, b) == a || larger(a, b) == b,
{
}

/// The ratio of cold starts is the number of loads for each hundred reconciles,
/// rounded down; it is told as 255 where it is more, and as 0 where there were no
/// reconciles.
pub proof fn cold_start_ratios_are_per_hundred(m: RecorderView)
    ensures
        m.reconcile_total == 0 ==> m.cold_start_ratio() == 0,
        0 <= m.cold_start_ratio() <= 255,
        m.reconcile_total > 0 && m.cold_start_ratio() < 255 ==> m.cold_start_ratio()
            * m.reconcile_total <= 100 * m.loads < (m.cold_start_ratio() + 1) * m.reconcile_total,
        m.reconcile_total > 0 && m.cold_start_ratio() == 255 ==> 255 * m.reconcile_total <= 100
            * m.loads,
{
    let n = m.loads as int;
    let r = m.reconcile_total as int;
    if r > 0 {
        let q = (n * 100) / r;
        assert(0 <= q && q * r <= 100 * n < (q + 1) * r) by (nonlinear_arith)
            requires
                n >= 0,
                r > 0,
                q == (n * 100) / r,
        ;
        if q >= 255 {
            assert(255 * r <= q * r) by (nonlinear_arith)
                requires
                    q >= 255,
                    r > 0,
            ;
        }
    }
}

/// The activity is the part of each hundred of the time loaded that was active,
/// rounded down.
pub proof fn activity_is_per_hundred(m: RecorderView, now_ms: i64)
    ensures
        ({
            let idle = m.idle_total_ms + m.idle_now(now_ms);
            let all = idle + m.active_total_ms;
            &&& all == 0 ==> m.activity_ratio(now_ms) == 0
            &&& all > 0 ==> m.activity_ratio(now_ms) * all <= 100 * m.active_total_ms < (
            m.activity_ratio(now_ms) + 1) * all
        }),
{
    let i = m.idle_total_ms + m.idle_now(now_ms);
    let a = m.active_total_ms as int;
    if i + a > 0 {
        let q = (a * 100) / (i + a);
        assert(q * (i + a) <= 100 * a < (q + 1) * (i + a)) by (nonlinear_arith)
            requires
                i >= 0,
                a >= 0,
                i + a > 0,
                q == (a * 100) / (i + a),
        ;
    }
}

/// Averages are sums shared out, rounded down: of how long loads took, in
/// milliseconds; of how long the operator was idle for each unload and active for
/// each load, in seconds.
pub proof fn averages_share_sums_out(m: RecorderView)
    ensures
        m.timed_loads == 0 ==> m.load_ms_avg() == 0,
        m.timed_loads > 0 && m.load_total_ms < 0x1_0000_0000 * m.timed_loads ==> m.load_ms_avg()
            * m.timed_loads <= m.load_total_ms < (m.load_ms_avg() + 1) * m.timed_loads,
        m.unloads == 0 ==> m.idle_s_avg() == 0,
        m.unloads > 0 ==> m.idle_s_avg() * m.unloads * 1000 <= m.idle_total_ms < (m.idle_s_avg()
            + 1) * m.unloads * 1000,
        m.loads == 0 ==> m.active_s_avg() == 0,
        m.loads > 0 ==> m.active_s_avg() * m.loads * 1000 <= m.active_total_ms < (m.active_s_avg()
            + 1) * m.loads * 1000,
{
    if m.timed_loads > 0 {
        let t = m.load_total_ms as int;
        let n = m.timed_loads as int;
        let q = t / n;
        assert(0 <= q && q * n <= t < (q + 1) * n && (t < 0x1_0000_0000 * n ==> q < 0x1_0000_0000))
            by (nonlinear_arith)
            requires
                t >= 0,
                n > 0,
                q == t / n,
        ;
    }
    if m.unloads > 0 {
        lemma_seconds_shared(m.idle_total_ms as int, m.unloads as int);
    }
    if m.loads > 0 {
        lemma_seconds_shared(m.active_total_ms as int, m.loads as int);
    }
}

proof fn lemma_seconds_shared(t: int, n: int)
    requires
        t >= 0,
        n > 0,
    ensures
        ({
            let s = (t / n) / 1000;
            s * n * 1000 <= t < (s + 1) * n * 1000
        }),
{
    let q = t / n;
    let s = q / 1000;
    assert(q * n <= t < (q + 1) * n) by (nonlinear_arith)
        requires
            t >= 0,
            n > 0,
            q == t / n,
    ;
    assert(1000 * s <= q <= 1000 * s + 999);
    assert(s * n * 1000 <= q * n && (q + 1) * n <= (s + 1) * n * 1000) by (nonlinear_arith)
        requires
            n > 0,
            1000 * s <= q <= 1000 * s + 999,
    ;
}

/// An error is logged with its time before it; where there is room the errors
/// before it stay, and nothing else that was recorded changes.
pub proof fn errors_are_logged_with_their_time(m: RecorderView, time: Seq<char>, error: Seq<char>)
    ensures
        error.is_suffix_of(log_entry(time, error)),
        ("["@ + time + "] "@).is_prefix_of(log_entry(time, error)),
        log_entry(time, error).len() == time.len() + error.len() + 3,
        log_entry(time, error)[0] == '[',
        log_entry(time, error)[time.len() as int + 1] == ']',
        log_entry(time, error)[time.len() as int + 2] == ' ',
        m.errors.len() < m.error_limit ==> m.logged(time, error).errors == m.errors.push(
            log_entry(time, error),
        ),
        m.logged(time, error) == (RecorderView { errors: m.logged(time, error).errors, ..m }),
{
    reveal_strlit("[");
    reveal_strlit("] ");
    let entry = log_entry(time, error);
    assert(entry.subrange(entry.len() - error.len(), entry.len() as int) =~= error);
}

/// As many errors are kept as a setting says in digits, however many that is; ten
/// where there is no setting or it says no number.
pub proof fn error_log_sizes_are_taken(n: nat, text: Seq<char>)
    ensures
        error_log_size(None) == 10,
        n <= usize::MAX ==> error_log_size(Some(crate::text::dec_text(n))) == n,
        uint_of(text, usize::MAX as nat) is Err ==> error_log_size(Some(text)) == 10,
        uint_of(text, usize::MAX as nat) matches Ok(size) ==> error_log_size(Some(text)) == size,
{
    if n <= usize::MAX {
        crate::text::numbers_are_read_back(n, usize::MAX as nat);
    }
}

/// A report tells each figure as what it is: averages and ratios as they are
/// recorded, the longest times in whole seconds, and the last error first.
pub proof fn reports_tell_what_was_recorded(
    m: RecorderView,
    now_ms: i64,
    r: WasmOperatorStatistics,
    i: int,
)
    requires
        m.reported_as(now_ms, r),
    ensures
        r.reconcile_total_24h == m.total_24h(now_ms),
        r.reconcile_cold_start_ratio == m.cold_start_ratio(),
        r.wasm_load_duration_msec_avg == m.load_ms_avg(),
        r.wasm_load_duration_msec_max == m.load_max_ms,
        r.memory_usage_bytes == m.memory,
        r.activity_ratio == m.activity_ratio(now_ms),
        r.idle_duration_sec_avg == m.idle_s_avg(),
        r.active_duration_sec_avg == m.active_s_avg(),
        r.idle_duration_sec_max * 1000 <= m.idle_max_ms < (r.idle_duration_sec_max + 1) * 1000,
        r.active_duration_sec_max * 1000 <= m.active_max_ms < (r.active_duration_sec_max + 1)
            * 1000,
        r.recent_errors@.len() == m.errors.len(),
        0 <= i < m.errors.len() ==> r.recent_errors@[i]@ == m.errors[m.errors.len() - 1 - i],
{
    assert(texts(r.recent_errors@).len() == r.recent_errors@.len());
    if 0 <= i < m.errors.len() {
        assert(texts(r.recent_errors@)[i] == r.recent_errors@[i]@);
    }
}

/// A recorder starts with nothing recorded.
pub proof fn recorders_start_blank(limit: nat, now_ms: i64)
    ensures
        ({
            let m = RecorderView::blank(limit);
            &&& m.history.len() == 0
            &&& m.reconcile_total == 0
            &&& m.loads == 0
            &&& m.unloads == 0
            &&& m.timed_loads == 0
            &&& m.loaded_since is None
            &&& m.active_now_ms == 0
            &&& m.load_total_ms == 0
            &&& m.idle_total_ms == 0
            &&& m.active_total_ms == 0
            &&& m.total_24h(now_ms) == 0
            &&& m.cold_start_ratio() == 0
            &&& m.load_ms_avg() == 0
            &&& m.load_max_ms == 0
            &&& m.activity_ratio(now_ms) == 0
            &&& m.idle_s_avg() == 0
            &&& m.active_s_avg() == 0
            &&& m.idle_max_ms == 0
            &&& m.active_max_ms == 0
            &&& m.memory == 0
            &&& m.errors.len() == 0
            &&& m.error_limit == limit
        }),
{
    let m = RecorderView::blank(limit);
    lemma_sum_zeros(kept_hours(m.hours, last_time(m.history), now_ms));
}

} // verus!
