//! The reminder scheduler: a round-robin list of reminder strings and a
//! wall-clock cadence. `tick` produces at most one pending message at a
//! time; `get_message` consumes it; while one is pending no new reminder is
//! produced. The caller owns the instance and passes the current time in as
//! a plain millisecond count.

use vstd::prelude::*;

verus! {

/// How often a reminder is queued, in seconds.
pub const REMINDER_INTERVAL: u64 = 1800;

/// The same cadence in milliseconds, the unit `tick` is fed.
pub const REMINDER_INTERVAL_MS: u64 = 1800 * 1000;

/// The mathematical value of a `SchedulerState`.
pub ghost struct SchedulerModel {
    pub reminders: Seq<Seq<char>>,
    pub reminder_index: nat,
    pub last_reminder_time_ms: nat,
    pub pending_message: Option<Seq<char>>,
}

/// The view of an optional owned string.
pub open spec fn option_text(o: Option<String>) -> Option<Seq<char>> {
    match o {
        Some(s) => Some(s@),
        None => None,
    }
}

/// The round-robin cursor never runs past the list.
pub open spec fn sched_wf(m: SchedulerModel) -> bool {
    m.reminders.len() > 0 ==> m.reminder_index < m.reminders.len()
}

/// When `tick` at `now_ms` produces a message: the pending slot is empty,
/// there is something to deliver, and the cadence has elapsed.
pub open spec fn reminder_due(m: SchedulerModel, now_ms: nat) -> bool {
    &&& m.pending_message is None
    &&& m.reminders.len() > 0
    &&& now_ms >= m.last_reminder_time_ms + REMINDER_INTERVAL_MS
}

/// What `tick` does: either queue the reminder under the cursor, advance the
/// cursor and reset the cadence clock, or change nothing at all.
pub open spec fn sched_tick(m: SchedulerModel, now_ms: nat) -> SchedulerModel {
    if reminder_due(m, now_ms) {
        SchedulerModel {
            pending_message: Some(m.reminders[(m.reminder_index % m.reminders.len()) as int]),
            reminder_index: (m.reminder_index % m.reminders.len() + 1) % m.reminders.len(),
            last_reminder_time_ms: now_ms,
            ..m
        }
    } else {
        m
    }
}

/// What `get_message` does: empty the pending slot, returning what was there.
pub open spec fn sched_take(m: SchedulerModel) -> (Option<Seq<char>>, SchedulerModel) {
    (m.pending_message, SchedulerModel { pending_message: None, ..m })
}

/// Reminder strings loaded once at startup, a round-robin cursor, the time
/// the last reminder was produced, and the single-slot pending buffer.
pub struct SchedulerState {
    reminders: Vec<String>,
    reminder_index: usize,
    last_reminder_time_ms: u64,
    pending_message: Option<String>,
}

impl View for SchedulerState {
    type V = SchedulerModel;

    closed spec fn view(&self) -> SchedulerModel {
        SchedulerModel {
            reminders: self.reminders@.map_values(|s: String| s@),
            reminder_index: self.reminder_index as nat,
            last_reminder_time_ms: self.last_reminder_time_ms as nat,
            pending_message: option_text(self.pending_message),
        }
    }
}

impl SchedulerState {
    /// A fresh scheduler over the given reminder list: cursor at the start,
    /// cadence measured from `now_ms`, nothing pending.
    pub fn new(reminders: Vec<String>, now_ms: u64) -> (r: Self)
        ensures
            r@ == (SchedulerModel {
                reminders: reminders@.map_values(|s: String| s@),
                reminder_index: 0,
                last_reminder_time_ms: now_ms as nat,
                pending_message: None,
            }),
            sched_wf(r@),
    {
        SchedulerState {
            reminders,
            reminder_index: 0,
            last_reminder_time_ms: now_ms,
            pending_message: None,
        }
    }

    /// If nothing is pending, the list is non-empty and the cadence has
    /// elapsed since the last reminder, queue the next reminder (round
    /// robin) and reset the cadence clock; otherwise do nothing.
    pub fn tick(&mut self, now_ms: u64)
        ensures
            final(self)@ == sched_tick(old(self)@, now_ms as nat),
            sched_wf(old(self)@) ==> sched_wf(final(self)@),
    {
        if self.pending_message.is_none() && self.reminders.len() > 0 {
            if now_ms >= self.last_reminder_time_ms
                && now_ms - self.last_reminder_time_ms >= REMINDER_INTERVAL_MS {
                let len = self.reminders.len();
                let at = self.reminder_index % len;
                let msg = self.reminders[at].clone();
                self.pending_message = Some(msg);
                self.reminder_index = (at + 1) % len;
                self.last_reminder_time_ms = now_ms;
                proof {
                    assert(self.reminders@.map_values(|s: String| s@)[at as int]
                        == self.reminders@[at as int]@);
                }
            }
        }
    }

    /// Whether a produced reminder is waiting to be consumed.
    pub fn has_message_ready(&self) -> (r: bool)
        ensures
            r == (self@.pending_message is Some),
    {
        self.pending_message.is_some()
    }

    /// Take the pending message out, leaving the slot empty; a message is
    /// delivered at most once.
    pub fn get_message(&mut self) -> (r: Option<String>)
        ensures
            option_text(r) == sched_take(old(self)@).0,
            final(self)@ == sched_take(old(self)@).1,
    {
        self.pending_message.take()
    }
}

/// While a message is pending, `tick` never produces a second one: whatever
/// the current time, the whole scheduler state is left untouched.
pub proof fn lemma_at_most_one_pending(m: SchedulerModel, now_ms: nat)
    requires
        m.pending_message is Some,
    ensures
        sched_tick(m, now_ms) == m,
{
}

/// One ready-and-consume cycle: `tick` at a due time followed by
/// `get_message`.
pub open spec fn sched_cycle(m: SchedulerModel, now_ms: nat) -> (Seq<char>, SchedulerModel) {
    let ticked = sched_tick(m, now_ms);
    let (msg, rest) = sched_take(ticked);
    (msg->0, rest)
}

/// The messages that a run of ready-and-consume cycles delivers, one cycle
/// per entry of `times`.
pub open spec fn sched_deliveries(m: SchedulerModel, times: Seq<nat>) -> Seq<Seq<char>>
    decreases times.len(),
{
    if times.len() == 0 {
        Seq::empty()
    } else {
        let (msg, rest) = sched_cycle(m, times[0]);
        seq![msg] + sched_deliveries(rest, times.drop_first())
    }
}

/// The scheduler state that such a run leaves behind.
pub open spec fn sched_after(m: SchedulerModel, times: Seq<nat>) -> SchedulerModel
    decreases times.len(),
{
    if times.len() == 0 {
        m
    } else {
        let (msg, rest) = sched_cycle(m, times[0]);
        sched_after(rest, times.drop_first())
    }
}

/// Each time in the run leaves a full cadence after the one before it, the
/// first a full cadence after the scheduler's own clock.
pub open spec fn cadence_spaced(last_ms: nat, times: Seq<nat>) -> bool
    decreases times.len(),
{
    times.len() == 0
        || (times[0] >= last_ms + REMINDER_INTERVAL_MS
            && cadence_spaced(times[0], times.drop_first()))
}

/// Round robin: a run of consecutive ready-and-consume cycles over a
/// non-empty reminder list delivers the reminders one after the other in
/// list order, wrapping at the end, each consumed exactly once. With the
/// cursor at the start, `times.len()` cycles deliver every reminder once in
/// file order, and a further run repeats them identically.
pub proof fn lemma_round_robin(m: SchedulerModel, times: Seq<nat>)
    requires
        sched_wf(m),
        m.pending_message is None,
        m.reminders.len() > 0,
        cadence_spaced(m.last_reminder_time_ms, times),
    ensures
        sched_deliveries(m, times).len() == times.len(),
        forall|k: int| 0 <= k < times.len()
            ==> sched_deliveries(m, times)[k]
                == m.reminders[((m.reminder_index + k) % (m.reminders.len() as int))],
        sched_after(m, times) == (SchedulerModel {
            reminder_index: ((m.reminder_index + times.len()) % m.reminders.len() as nat),
            last_reminder_time_ms: if times.len() == 0 {
                m.last_reminder_time_ms
            } else {
                times.last()
            },
            ..m
        }),
    decreases times.len(),
{
    let n = m.reminders.len() as int;
    if times.len() == 0 {
        assert(m.reminder_index % m.reminders.len() as nat == m.reminder_index)
            by (nonlinear_arith)
            requires m.reminder_index < m.reminders.len();
        assert(sched_after(m, times) =~= SchedulerModel {
            reminder_index: ((m.reminder_index + times.len()) % m.reminders.len() as nat),
            last_reminder_time_ms: m.last_reminder_time_ms,
            ..m
        });
    } else {
        let (msg, rest) = sched_cycle(m, times[0]);
        assert(reminder_due(m, times[0]));
        assert(m.reminder_index % m.reminders.len() as nat == m.reminder_index)
            by (nonlinear_arith)
            requires m.reminder_index < m.reminders.len();
        assert(msg == m.reminders[m.reminder_index as int]);
        assert(rest.reminder_index == (m.reminder_index + 1) % m.reminders.len() as nat);
        assert(sched_wf(rest)) by {
            assert(((m.reminder_index + 1) % (m.reminders.len() as nat)) < m.reminders.len())
                by (nonlinear_arith)
                requires m.reminders.len() > 0;
        }
        lemma_round_robin(rest, times.drop_first());
        let tail = sched_deliveries(rest, times.drop_first());
        assert(sched_deliveries(m, times) == seq![msg] + tail);
        assert forall|k: int| 0 <= k < times.len()
            implies sched_deliveries(m, times)[k]
                == m.reminders[((m.reminder_index + k) % n)] by {
            if k == 0 {
                assert((m.reminder_index as int + 0) % n == m.reminder_index as int % n);
                assert(m.reminder_index as int % n == m.reminder_index) by (nonlinear_arith)
                    requires 0 <= m.reminder_index < n;
                assert(sched_deliveries(m, times)[0] == msg);
            } else {
                assert(sched_deliveries(m, times)[k] == tail[k - 1]);
                assert(tail[k - 1]
                    == m.reminders[((rest.reminder_index + (k - 1)) % n)]);
                assert((rest.reminder_index + (k - 1)) % n == (m.reminder_index + k) % n) by {
                    let i1: int = m.reminder_index as int + 1;
                    assert(rest.reminder_index as int == i1 % n);
                    vstd::arithmetic::div_mod::lemma_add_mod_noop_right(k - 1, i1, n);
                    assert(((k - 1) + i1 % n) % n == ((k - 1) + i1) % n);
                }
            }
        }
        assert(sched_after(m, times) == sched_after(rest, times.drop_first()));
        assert(rest.last_reminder_time_ms == times[0]);
        if times.len() == 1 {
            assert(times.last() == times[0]);
        } else {
            assert(times.drop_first().last() == times.last());
        }
        assert((rest.reminder_index + times.drop_first().len()) % (m.reminders.len() as nat)
            == (m.reminder_index + times.len()) % (m.reminders.len() as nat)) by {
            let i1: int = m.reminder_index as int + 1;
            let rem: int = times.len() - 1;
            vstd::arithmetic::div_mod::lemma_add_mod_noop_right(rem, i1, n);
            assert((rem + i1 % n) % n == (rem + i1) % n);
        }
        assert(sched_after(m, times) =~= SchedulerModel {
            reminder_index: ((m.reminder_index + times.len()) % m.reminders.len() as nat),
            last_reminder_time_ms: times.last(),
            ..m
        });
    }
}

} // verus!
