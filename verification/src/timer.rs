//! Count-down and scheduled timers attached to tasks, and the alarm.
//!
//! Time is given in whole seconds since the Unix epoch. The functions whose
//! names end in `_at` take the current time as an argument and are exact; the
//! others read the clock first.

use vstd::prelude::*;
use std::collections::HashMap;
use crate::text::{decimal, decimal_pad2, owned, push_char, push_decimal_pad2, u64_to_string};

verus! {

broadcast use vstd::std_specs::hash::group_hash_axioms;

/// A running timer.
#[derive(Debug)]
pub struct Timer {
    pub task_id: i64,
    /// `countdown` or `scheduled`.
    pub timer_type: String,
    /// When the timer runs out.
    pub target_time: u64,
    pub is_running: bool,
}

impl Clone for Timer {
    fn clone(&self) -> (r: Self)
        ensures
            r == *self,
    {
        Timer {
            task_id: self.task_id,
            timer_type: self.timer_type.clone(),
            target_time: self.target_time,
            is_running: self.is_running,
        }
    }
}

/// What a timer shows at a given moment.
#[derive(Debug)]
pub struct TimerStatus {
    pub task_id: i64,
    pub timer_type: String,
    pub remaining: u64,
    pub hours: u64,
    pub minutes: u64,
    pub seconds: u64,
    /// `HH:MM:SS`, the hours with at least two digits.
    pub formatted: String,
    pub is_running: bool,
}

/// The seconds left on a timer at `now` (none once it has run out).
pub open spec fn remaining_at(target_time: u64, now: u64) -> u64 {
    if now >= target_time {
        0
    } else {
        (target_time - now) as u64
    }
}

/// `HH:MM:SS` for a number of seconds.
pub open spec fn clock_text(remaining: nat) -> Seq<char> {
    decimal_pad2(remaining / 3600) + seq![':'] + decimal_pad2((remaining % 3600) / 60) + seq![':']
        + decimal_pad2(remaining % 60)
}

/// `s` describes timer `t` at `now`, with `running` as its running flag.
pub open spec fn status_of(s: TimerStatus, t: Timer, now: u64, running: bool) -> bool {
    let rem = remaining_at(t.target_time, now);
    &&& s.task_id == t.task_id
    &&& s.timer_type == t.timer_type
    &&& s.remaining == rem
    &&& s.hours == rem / 3600
    &&& s.minutes == (rem % 3600) / 60
    &&& s.seconds == rem % 60
    &&& s.formatted@ == clock_text(rem as nat)
    &&& s.is_running == running
}

/// The hours, minutes and seconds of a status add up to what remains.
pub proof fn lemma_clock_parts(rem: u64)
    ensures
        (rem / 3600) * 3600 + ((rem % 3600) / 60) * 60 + rem % 60 == rem,
        (rem % 3600) / 60 < 60,
        rem % 60 < 60,
{
    assert((rem / 3600) * 3600 + ((rem % 3600) / 60) * 60 + rem % 60 == rem) by (nonlinear_arith);
}

/// A timer counts down: what remains never grows as time passes, is all of
/// the time to the target at any moment before it, and is zero from the
/// target on.
pub proof fn lemma_remaining_counts_down(target_time: u64, t1: u64, t2: u64)
    requires
        t1 <= t2,
    ensures
        remaining_at(target_time, t2) <= remaining_at(target_time, t1),
        t1 < target_time ==> remaining_at(target_time, t1) == target_time - t1,
        t2 >= target_time ==> remaining_at(target_time, t2) == 0,
{
}

/// A count-down of 1 to 1440 minutes started at `now` succeeds unless its end
/// is past the largest time; then the task's timer is a running count-down
/// that shows exactly those minutes at `now`, and the other tasks' timers are
/// unchanged.
pub proof fn lemma_countdown_shows_its_minutes(
    old: Map<i64, Timer>,
    new: Map<i64, Timer>,
    r: Result<String, String>,
    task_id: i64,
    minutes: i32,
    now: u64,
)
    requires
        countdown_started(old, new, r, task_id, minutes, now),
        1 <= minutes <= 1440,
        now + minutes * 60 <= u64::MAX,
    ensures
        r is Ok,
        new.contains_key(task_id),
        new[task_id].timer_type@ == "countdown"@,
        new[task_id].is_running,
        remaining_at(new[task_id].target_time, now) == minutes * 60,
        forall|id: i64| id != task_id && old.contains_key(id) ==> #[trigger] new[id] == old[id],
{
}

/// Calibrating a timer a second time at the same moment changes nothing
/// more and reports the same status.
pub proof fn lemma_calibrate_settles(t: Timer, t2: Timer, r: Option<TimerStatus>, t3: Timer, r2: Option<TimerStatus>, now: u64)
    requires
        calibrated(t, t2, r, now),
        calibrated(t2, t3, r2, now),
    ensures
        t3 == t2,
        r2->0.remaining == r->0.remaining,
        r2->0.formatted@ == r->0.formatted@,
        r2->0.is_running == r->0.is_running,
{
}

fn status(t: &Timer, now: u64, running: bool) -> (s: TimerStatus)
    ensures
        status_of(s, *t, now, running),
{
    let remaining = if now >= t.target_time {
        0
    } else {
        t.target_time - now
    };
    let hours = remaining / 3600;
    let minutes = (remaining % 3600) / 60;
    let seconds = remaining % 60;
    let mut formatted = String::new();
    push_decimal_pad2(&mut formatted, hours);
    push_char(&mut formatted, ':');
    push_decimal_pad2(&mut formatted, minutes);
    push_char(&mut formatted, ':');
    push_decimal_pad2(&mut formatted, seconds);
    assert(formatted@ =~= clock_text(remaining as nat));
    TimerStatus {
        task_id: t.task_id,
        timer_type: t.timer_type.clone(),
        remaining,
        hours,
        minutes,
        seconds,
        formatted,
        is_running: running,
    }
}

/// `new_t` and `r` are what calibrating `t` at `now` gives.
pub open spec fn calibrated(t: Timer, new_t: Timer, r: Option<TimerStatus>, now: u64) -> bool {
    let running = t.is_running && now < t.target_time;
    &&& new_t == Timer { is_running: running, ..t }
    &&& r matches Some(s) && status_of(s, t, now, running)
}

/// `new` is `old` with a running timer of kind `kind` for `task_id` that
/// runs out at `target`, in place of any the task had; the other timers stay.
pub open spec fn installed(old: Map<i64, Timer>, new: Map<i64, Timer>, task_id: i64, kind: Seq<char>, target: u64) -> bool {
    &&& new.dom() == old.dom().insert(task_id)
    &&& new[task_id].task_id == task_id
    &&& new[task_id].timer_type@ == kind
    &&& new[task_id].target_time == target
    &&& new[task_id].is_running
    &&& forall|id: i64| id != task_id && old.contains_key(id) ==> #[trigger] new[id] == old[id]
}

/// Starting a count-down of `minutes` minutes at `now` turns the timers
/// `old` into `new` and answers `r`: refused unless `minutes` is 1 to 1440,
/// refused when the end of the count-down is past the largest time, and
/// otherwise the end of the count-down, in decimal.
pub open spec fn countdown_started(
    old: Map<i64, Timer>,
    new: Map<i64, Timer>,
    r: Result<String, String>,
    task_id: i64,
    minutes: i32,
    now: u64,
) -> bool {
    if minutes < 1 || minutes > 1440 {
        r is Err && r->Err_0@ == "分钟数必须在 1-1440 之间"@ && new == old
    } else if now + minutes * 60 > u64::MAX {
        r is Err && r->Err_0@ == "系统时间超出范围"@ && new == old
    } else {
        let target = now + minutes * 60;
        &&& r is Ok
        &&& r->Ok_0@ == decimal(target as nat)
        &&& installed(old, new, task_id, "countdown"@, target as u64)
    }
}

/// Starting a timer that runs out at `target` at `now`: refused unless the
/// target is later than `now`. `restore` picks the messages: a timer brought
/// back after a restart is refused as expired and reported as restored.
pub open spec fn scheduled_started(
    old: Map<i64, Timer>,
    new: Map<i64, Timer>,
    r: Result<String, String>,
    task_id: i64,
    target: u64,
    now: u64,
    restore: bool,
) -> bool {
    if target <= now {
        &&& r is Err
        &&& new == old
        &&& r->Err_0@ == if restore { "目标时间已过期"@ } else { "目标时间必须大于当前时间"@ }
    } else {
        &&& r is Ok
        &&& r->Ok_0@ == if restore { "定时任务已恢复"@ } else { "定时任务已启动"@ }
        &&& installed(old, new, task_id, "scheduled"@, target)
    }
}

/// What the ticking of a timer calls for.
#[derive(Debug)]
pub enum TimerTick {
    /// The timer was stopped or removed: stop ticking.
    Stop,
    /// Report the status and tick again.
    Update(TimerStatus),
    /// Report the status; the timer has run out: report that, then stop.
    Expired(TimerStatus),
}

/// The timers of the tasks and the state of the alarm.
pub struct TimerManager {
    timers: HashMap<i64, Timer>,
    is_alarm_playing: bool,
}

impl TimerManager {
    /// Wraps `SystemTime::now()`: the whole seconds since the Unix epoch
    /// (zero for a clock set before it). Nothing is promised of the value.
    #[verifier::external_body]
    fn get_current_timestamp() -> (r: u64) {
        std::time::SystemTime::now().duration_since(std::time::UNIX_EPOCH).unwrap_or_default().as_secs()
    }

    /// The timers, by task.
    pub closed spec fn timers(&self) -> Map<i64, Timer> {
        self.timers@
    }

    pub closed spec fn alarm_playing(&self) -> bool {
        self.is_alarm_playing
    }

    /// Each timer is filed under its own task.
    #[verifier::type_invariant]
    spec fn filed_by_task(&self) -> bool {
        forall|id: i64| #[trigger] self.timers@.contains_key(id) ==> self.timers@[id].task_id == id
    }

    /// Takes the timers out, leaving none behind.
    fn take_timers(&mut self) -> (t: HashMap<i64, Timer>)
        ensures
            t@ == old(self).timers@,
            final(self).timers@ == Map::<i64, Timer>::empty(),
            final(self).is_alarm_playing == old(self).is_alarm_playing,
    {
        let mut t: HashMap<i64, Timer> = HashMap::new();
        std::mem::swap(&mut t, &mut self.timers);
        t
    }

    /// Replaces the timer of a task that has one.
    fn put_timer(&mut self, task_id: i64, t: Timer)
        requires
            old(self).timers@.contains_key(task_id),
            t.task_id == task_id,
        ensures
            final(self).timers@ == old(self).timers@.insert(task_id, t),
            final(self).is_alarm_playing == old(self).is_alarm_playing,
    {
        proof {
            use_type_invariant(&*self);
        }
        let mut timers = self.take_timers();
        timers.insert(task_id, t);
        assert forall|id: i64| #[trigger] timers@.contains_key(id) implies timers@[id].task_id == id by {
            if id != task_id {
                assert(old(self).timers@.contains_key(id));
            }
        }
        self.timers = timers;
    }

    pub fn new() -> (m: Self)
        ensures
            m.timers() == Map::<i64, Timer>::empty(),
            !m.alarm_playing(),
    {
        TimerManager { timers: HashMap::new(), is_alarm_playing: false }
    }

    fn install(&mut self, task_id: i64, timer_type: &str, target_time: u64)
        ensures
            final(self).alarm_playing() == old(self).alarm_playing(),
            installed(old(self).timers(), final(self).timers(), task_id, timer_type@, target_time),
    {
        proof {
            use_type_invariant(&*self);
        }
        let mut timers = self.take_timers();
        timers.remove(&task_id);
        let t = Timer { task_id, timer_type: owned(timer_type), target_time, is_running: true };
        timers.insert(task_id, t);
        assert(timers@.dom() =~= old(self).timers@.dom().insert(task_id));
        assert forall|id: i64| #[trigger] timers@.contains_key(id) implies timers@[id].task_id == id by {
            if id != task_id {
                assert(old(self).timers@.contains_key(id));
            }
        }
        self.timers = timers;
    }

    /// Starts a count-down of `minutes` minutes for a task at `now`, in place
    /// of any timer the task had (see `countdown_started`).
    pub fn start_countdown_at(&mut self, task_id: i64, minutes: i32, now: u64) -> (r: Result<String, String>)
        ensures
            final(self).alarm_playing() == old(self).alarm_playing(),
            countdown_started(old(self).timers(), final(self).timers(), r, task_id, minutes, now),
    {
        if minutes < 1 || minutes > 1440 {
            return Err(owned("分钟数必须在 1-1440 之间"));
        }
        let seconds: u64 = (minutes as u64) * 60;
        if now > u64::MAX - seconds {
            return Err(owned("系统时间超出范围"));
        }
        let target_time = now + seconds;
        self.install(task_id, "countdown", target_time);
        Ok(u64_to_string(target_time))
    }

    /// Reads the clock, then starts a count-down (`start_countdown_at`).
    pub fn start_countdown(&mut self, task_id: i64, minutes: i32) -> (r: Result<String, String>)
        ensures
            final(self).alarm_playing() == old(self).alarm_playing(),
            exists|now: u64| #[trigger]
                countdown_started(old(self).timers(), final(self).timers(), r, task_id, minutes, now),
            (minutes < 1 || minutes > 1440) ==> r is Err && r->Err_0@ == "分钟数必须在 1-1440 之间"@
                && final(self).timers() == old(self).timers(),
    {
        let now = Self::get_current_timestamp();
        let r = self.start_countdown_at(task_id, minutes, now);
        assert(countdown_started(old(self).timers(), self.timers(), r, task_id, minutes, now));
        r
    }

    /// Starts a timer that runs out at `target_timestamp`, in place of any
    /// timer the task had (see `scheduled_started`).
    pub fn start_scheduled_timer_at(&mut self, task_id: i64, target_timestamp: u64, now: u64, restore: bool) -> (r: Result<String, String>)
        ensures
            final(self).alarm_playing() == old(self).alarm_playing(),
            scheduled_started(old(self).timers(), final(self).timers(), r, task_id, target_timestamp, now, restore),
    {
        if target_timestamp <= now {
            if restore {
                return Err(owned("目标时间已过期"));
            } else {
                return Err(owned("目标时间必须大于当前时间"));
            }
        }
        self.install(task_id, "scheduled", target_timestamp);
        if restore {
            Ok(owned("定时任务已恢复"))
        } else {
            Ok(owned("定时任务已启动"))
        }
    }

    /// Reads the clock, then starts a scheduled timer
    /// (`start_scheduled_timer_at`, not restoring).
    pub fn start_scheduled_timer(&mut self, task_id: i64, target_timestamp: u64) -> (r: Result<String, String>)
        ensures
            final(self).alarm_playing() == old(self).alarm_playing(),
            exists|now: u64| #[trigger]
                scheduled_started(old(self).timers(), final(self).timers(), r, task_id, target_timestamp, now, false),
    {
        let now = Self::get_current_timestamp();
        let r = self.start_scheduled_timer_at(task_id, target_timestamp, now, false);
        assert(scheduled_started(old(self).timers(), self.timers(), r, task_id, target_timestamp, now, false));
        r
    }

    /// Reads the clock, then brings back a scheduled timer
    /// (`start_scheduled_timer_at`, restoring).
    pub fn restore_scheduled_timer(&mut self, task_id: i64, target_timestamp: u64) -> (r: Result<String, String>)
        ensures
            final(self).alarm_playing() == old(self).alarm_playing(),
            exists|now: u64| #[trigger]
                scheduled_started(old(self).timers(), final(self).timers(), r, task_id, target_timestamp, now, true),
    {
        let now = Self::get_current_timestamp();
        let r = self.start_scheduled_timer_at(task_id, target_timestamp, now, true);
        assert(scheduled_started(old(self).timers(), self.timers(), r, task_id, target_timestamp, now, true));
        r
    }

    /// Removes the task's timer, if any.
    pub fn stop_timer(&mut self, task_id: i64)
        ensures
            final(self).timers() == old(self).timers().remove(task_id),
            final(self).alarm_playing() == old(self).alarm_playing(),
    {
        proof {
            use_type_invariant(&*self);
        }
        let mut timers = self.take_timers();
        timers.remove(&task_id);
        assert forall|id: i64| #[trigger] timers@.contains_key(id) implies timers@[id].task_id == id by {
            assert(old(self).timers@.contains_key(id));
        }
        self.timers = timers;
    }

    /// Removes every timer.
    pub fn stop_all_timers(&mut self)
        ensures
            final(self).timers() == Map::<i64, Timer>::empty(),
            final(self).alarm_playing() == old(self).alarm_playing(),
    {
        self.timers = HashMap::new();
    }

    /// The task's timer as it stands at `now`, if the task has one.
    pub fn get_timer_status_at(&self, task_id: i64, now: u64) -> (r: Option<TimerStatus>)
        ensures
            r is Some <==> self.timers().contains_key(task_id),
            r matches Some(s) ==> status_of(s, self.timers()[task_id], now, self.timers()[task_id].is_running)
                && s.task_id == task_id,
    {
        proof {
            use_type_invariant(self);
        }
        match self.timers.get(&task_id) {
            Some(t) => Some(status(t, now, t.is_running)),
            None => None,
        }
    }

    /// Reads the clock, then reports the task's timer.
    pub fn get_timer_status(&self, task_id: i64) -> (r: Option<TimerStatus>)
        ensures
            r is Some <==> self.timers().contains_key(task_id),
            r matches Some(s) ==> exists|now: u64| status_of(s, self.timers()[task_id], now, self.timers()[task_id].is_running),
    {
        let now = Self::get_current_timestamp();
        self.get_timer_status_at(task_id, now)
    }

    /// Like `get_timer_status_at`, and a timer that has run out is marked as
    /// no longer running.
    pub fn calibrate_timer_at(&mut self, task_id: i64, now: u64) -> (r: Option<TimerStatus>)
        ensures
            final(self).alarm_playing() == old(self).alarm_playing(),
            r is Some <==> old(self).timers().contains_key(task_id),
            final(self).timers().dom() == old(self).timers().dom(),
            forall|id: i64| id != task_id && old(self).timers().contains_key(id) ==> #[trigger] final(self).timers()[id] == old(self).timers()[id],
            old(self).timers().contains_key(task_id) ==> calibrated(
                old(self).timers()[task_id],
                final(self).timers()[task_id],
                r,
                now,
            ),
    {
        proof {
            use_type_invariant(&*self);
        }
        let found = match self.timers.get(&task_id) {
            Some(t) => Some(t.clone()),
            None => None,
        };
        match found {
            Some(t) => {
                let mut t2 = t;
                if now >= t2.target_time {
                    t2.is_running = false;
                }
                let s = status(&t2, now, t2.is_running);
                self.put_timer(task_id, t2);
                Some(s)
            },
            None => None,
        }
    }

    /// Reads the clock, then calibrates the task's timer.
    pub fn calibrate_timer(&mut self, task_id: i64) -> (r: Option<TimerStatus>)
        ensures
            final(self).alarm_playing() == old(self).alarm_playing(),
            r is Some <==> old(self).timers().contains_key(task_id),
            final(self).timers().dom() == old(self).timers().dom(),
            forall|id: i64| id != task_id && old(self).timers().contains_key(id) ==> #[trigger] final(self).timers()[id] == old(self).timers()[id],
            old(self).timers().contains_key(task_id) ==> exists|now: u64| #[trigger] calibrated(
                old(self).timers()[task_id],
                final(self).timers()[task_id],
                r,
                now,
            ),
    {
        let now = Self::get_current_timestamp();
        self.calibrate_timer_at(task_id, now)
    }

    /// One tick of a task's timer at `now`: a missing or stopped timer stops
    /// the ticking; otherwise its status is reported, and a timer that has
    /// run out is marked as stopped and reported as expired.
    pub fn tick_at(&mut self, task_id: i64, now: u64) -> (r: TimerTick)
        ensures
            final(self).alarm_playing() == old(self).alarm_playing(),
            final(self).timers().dom() == old(self).timers().dom(),
            forall|id: i64| id != task_id && old(self).timers().contains_key(id) ==> #[trigger] final(self).timers()[id] == old(self).timers()[id],
            r matches TimerTick::Update(s) ==> s.task_id == task_id,
            r matches TimerTick::Expired(s) ==> s.task_id == task_id,
            !(old(self).timers().contains_key(task_id) && old(self).timers()[task_id].is_running) ==> r is Stop
                && final(self).timers() == old(self).timers(),
            old(self).timers().contains_key(task_id) && old(self).timers()[task_id].is_running ==> {
                let t = old(self).timers()[task_id];
                if now >= t.target_time {
                    &&& r matches TimerTick::Expired(s) && status_of(s, t, now, true)
                    &&& final(self).timers()[task_id] == Timer { is_running: false, ..t }
                } else {
                    &&& r matches TimerTick::Update(s) && status_of(s, t, now, true)
                    &&& final(self).timers() == old(self).timers()
                }
            },
    {
        proof {
            use_type_invariant(&*self);
        }
        let found = match self.timers.get(&task_id) {
            Some(t) => Some(t.clone()),
            None => None,
        };
        match found {
            Some(t) => {
                if !t.is_running {
                    return TimerTick::Stop;
                }
                let s = status(&t, now, true);
                if now >= t.target_time {
                    let mut t2 = t;
                    t2.is_running = false;
                    self.put_timer(task_id, t2);
                    TimerTick::Expired(s)
                } else {
                    TimerTick::Update(s)
                }
            },
            None => TimerTick::Stop,
        }
    }

    pub fn is_alarm_playing(&self) -> (r: bool)
        ensures
            r == self.alarm_playing(),
    {
        self.is_alarm_playing
    }

    /// Marks the alarm as started, unless it already plays; says whether it
    /// was started.
    pub fn start_alarm(&mut self) -> (started: bool)
        ensures
            started == !old(self).alarm_playing(),
            final(self).alarm_playing(),
            final(self).timers() == old(self).timers(),
    {
        proof {
            use_type_invariant(&*self);
        }
        if self.is_alarm_playing {
            false
        } else {
            self.is_alarm_playing = true;
            true
        }
    }

    /// Marks the alarm as stopped.
    pub fn stop_alarm(&mut self)
        ensures
            !final(self).alarm_playing(),
            final(self).timers() == old(self).timers(),
    {
        proof {
            use_type_invariant(&*self);
        }
        self.is_alarm_playing = false;
    }

    /// When the alarm's time is up: stops it if it still plays, and says
    /// whether it did (then the sound is to be stopped).
    pub fn alarm_time_up(&mut self) -> (was_playing: bool)
        ensures
            was_playing == old(self).alarm_playing(),
            !final(self).alarm_playing(),
            final(self).timers() == old(self).timers(),
    {
        proof {
            use_type_invariant(&*self);
        }
        let was = self.is_alarm_playing;
        self.is_alarm_playing = false;
        was
    }
}

} // verus!
