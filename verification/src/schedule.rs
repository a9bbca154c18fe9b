//! Messages for later: context reminders, wake-ups and recorded surprises.

use crate::five_whys::{surprises, Surprise, SurpriseV};
use crate::state::{
    reminders, wake_ups, ContextReminder, ConversationState, ReminderV, StateV, WakeUp, WakeUpV,
};
use crate::text::texts;
use vstd::prelude::*;

verus! {

/// `a + b`, or the greatest number where that is beyond it.
pub open spec fn sat_add(a: u64, b: u64) -> u64 {
    if a + b > u64::MAX {
        u64::MAX
    } else {
        (a + b) as u64
    }
}

/// Whether the reminder is set off by `used` tokens.
pub open spec fn crossed(r: ReminderV, used: u64) -> bool {
    used > r.threshold
}

/// The messages of the first `n` reminders that `used` tokens set off.
pub open spec fn fired_reminders(rs: Seq<ReminderV>, used: u64, n: int) -> Seq<Seq<char>>
    decreases n,
{
    if n <= 0 {
        Seq::empty()
    } else if crossed(rs[n - 1], used) {
        fired_reminders(rs, used, n - 1).push(rs[n - 1].message)
    } else {
        fired_reminders(rs, used, n - 1)
    }
}

/// Those of the first `n` reminders that `used` tokens leave.
pub open spec fn kept_reminders(rs: Seq<ReminderV>, used: u64, n: int) -> Seq<ReminderV>
    decreases n,
{
    if n <= 0 {
        Seq::empty()
    } else if crossed(rs[n - 1], used) {
        kept_reminders(rs, used, n - 1)
    } else {
        kept_reminders(rs, used, n - 1).push(rs[n - 1])
    }
}

/// What becomes of a wake-up at the time `now`: a recurring one that is due is set to
/// the next interval, a single one that is due goes once it has fired.
pub open spec fn next_wake_up(w: WakeUpV, now: u64, idle: bool) -> Option<WakeUpV> {
    if w.due > now {
        Some(w)
    } else {
        match w.interval {
            Some(i) => Some(WakeUpV { due: sat_add(now, i), ..w }),
            None => if idle {
                None
            } else {
                Some(w)
            },
        }
    }
}

/// The messages of the first `n` wake-ups that fire at the time `now`: none while the
/// agent is busy.
pub open spec fn fired_wake_ups(ws: Seq<WakeUpV>, now: u64, idle: bool, n: int) -> Seq<Seq<char>>
    decreases n,
{
    if n <= 0 {
        Seq::empty()
    } else if idle && ws[n - 1].due <= now {
        fired_wake_ups(ws, now, idle, n - 1).push(ws[n - 1].message)
    } else {
        fired_wake_ups(ws, now, idle, n - 1)
    }
}

/// What becomes of the first `n` wake-ups at the time `now`.
pub open spec fn kept_wake_ups(ws: Seq<WakeUpV>, now: u64, idle: bool, n: int) -> Seq<WakeUpV>
    decreases n,
{
    if n <= 0 {
        Seq::empty()
    } else {
        match next_wake_up(ws[n - 1], now, idle) {
            Some(w) => kept_wake_ups(ws, now, idle, n - 1).push(w),
            None => kept_wake_ups(ws, now, idle, n - 1),
        }
    }
}

impl StateV {
    pub open spec fn record_surprise(self, s: SurpriseV) -> StateV {
        StateV { surprises: self.surprises.push(s), ..self }
    }

    /// The messages of the reminders that `used` tokens set off.
    pub open spec fn due_reminders(self, used: u64) -> Seq<Seq<char>> {
        fired_reminders(self.reminders, used, self.reminders.len() as int)
    }

    pub open spec fn check_reminders(self, used: u64) -> StateV {
        StateV {
            pending_messages: self.pending_messages + self.due_reminders(used),
            reminders: kept_reminders(self.reminders, used, self.reminders.len() as int),
            ..self
        }
    }

    /// The messages of the wake-ups that fire at the time `now`.
    pub open spec fn due_wake_ups(self, now: u64) -> Seq<Seq<char>> {
        fired_wake_ups(self.wake_ups, now, self.idle(), self.wake_ups.len() as int)
    }

    pub open spec fn check_wake_ups(self, now: u64) -> StateV {
        StateV {
            pending_messages: self.pending_messages + self.due_wake_ups(now),
            wake_ups: kept_wake_ups(self.wake_ups, now, self.idle(), self.wake_ups.len() as int),
            ..self
        }
    }

    pub open spec fn add_wake_up(
        self,
        now: u64,
        delay: u64,
        interval: Option<u64>,
        message: Seq<char>,
    ) -> StateV {
        StateV {
            wake_ups: self.wake_ups.push(WakeUpV { due: sat_add(now, delay), interval, message }),
            ..self
        }
    }
}

impl ConversationState {
    /// Records an incident for the next context refresh.
    pub fn record_surprise(&mut self, s: Surprise)
        ensures
            final(self)@ == old(self)@.record_surprise(s@),
    {
        let ghost before = self.surprises@;
        self.surprises.push(s);
        assert(surprises(self.surprises@) =~= surprises(before).push(s@));
    }

    /// Takes the recorded incidents.
    pub fn take_surprises(&mut self) -> (r: Vec<Surprise>)
        ensures
            surprises(r@) == old(self)@.surprises,
            final(self)@ == (StateV { surprises: Seq::empty(), ..old(self)@ }),
    {
        let mut out: Vec<Surprise> = Vec::new();
        std::mem::swap(&mut out, &mut self.surprises);
        assert(surprises(self.surprises@) =~= Seq::empty());
        out
    }

    /// Sets a reminder for when the usage exceeds `threshold_tokens`.
    pub fn add_context_reminder(&mut self, threshold_tokens: u64, message: &str)
        ensures
            final(self)@ == (StateV {
                reminders: old(self)@.reminders.push(
                    ReminderV { threshold: threshold_tokens, message: message@ },
                ),
                ..old(self)@
            }),
    {
        let ghost before = self.context_reminders@;
        let r = ContextReminder { threshold_tokens, message: message.to_owned() };
        self.context_reminders.push(r);
        assert(reminders(self.context_reminders@) =~= reminders(before).push(r@));
    }

    /// Queues the message of each reminder that `used` tokens set off, and drops the
    /// reminder; says which messages it queued.
    pub fn check_context_reminders(&mut self, used: u64) -> (r: Vec<String>)
        ensures
            final(self)@ == old(self)@.check_reminders(used),
            texts(r@) == old(self)@.due_reminders(used),
    {
        let ghost rs = reminders(self.context_reminders@);
        let ghost queued = texts(self.pending_messages@);
        let mut kept: Vec<ContextReminder> = Vec::new();
        let mut fired: Vec<String> = Vec::new();
        let mut i: usize = 0;
        assert(reminders(kept@) =~= Seq::empty());
        assert(texts(fired@) =~= Seq::empty());
        assert(queued + fired_reminders(rs, used, 0) =~= queued);
        let n: usize = self.context_reminders.len();
        while i < n
            invariant
                i <= n == rs.len(),
                rs == reminders(self.context_reminders@),
                self@ == (StateV {
                    pending_messages: queued + fired_reminders(rs, used, i as int),
                    ..old(self)@
                }),
                reminders(kept@) == kept_reminders(rs, used, i as int),
                texts(fired@) == fired_reminders(rs, used, i as int),
            decreases n - i,
        {
            assert(rs.len() == self.context_reminders@.len());
            assert(rs[i as int] == self.context_reminders@[i as int]@);
            if used > self.context_reminders[i].threshold_tokens {
                let message = self.context_reminders[i].message.clone();
                let ghost before = fired@;
                self.buffer_user_message(message.clone());
                fired.push(message);
                assert(texts(fired@) =~= texts(before).push(rs[i as int].message));
                assert(queued + fired_reminders(rs, used, i + 1) =~= (queued + fired_reminders(
                    rs,
                    used,
                    i as int,
                )).push(rs[i as int].message));
            } else {
                let ghost before = kept@;
                let r = ContextReminder {
                    threshold_tokens: self.context_reminders[i].threshold_tokens,
                    message: self.context_reminders[i].message.clone(),
                };
                kept.push(r);
                assert(reminders(kept@) =~= reminders(before).push(rs[i as int]));
            }
            i = i + 1;
        }
        self.context_reminders = kept;
        fired
    }

    fn push_wake_up(&mut self, w: WakeUp)
        ensures
            final(self)@ == (StateV { wake_ups: old(self)@.wake_ups.push(w@), ..old(self)@ }),
    {
        let ghost before = self.wake_ups@;
        self.wake_ups.push(w);
        assert(wake_ups(self.wake_ups@) =~= wake_ups(before).push(w@));
    }

    /// Schedules a message for once, `delay` seconds after `now`.
    pub fn add_one_shot_wake_up(&mut self, now: u64, delay: u64, message: &str)
        ensures
            final(self)@ == old(self)@.add_wake_up(now, delay, None, message@),
    {
        self.push_wake_up(
            WakeUp {
                due: now.saturating_add(delay),
                interval: None,
                message: message.to_owned(),
            },
        );
    }

    /// Schedules a message for `delay` seconds after `now`, and every `interval` seconds.
    pub fn add_cron_wake_up(&mut self, now: u64, delay: u64, interval: u64, message: &str)
        ensures
            final(self)@ == old(self)@.add_wake_up(now, delay, Some(interval), message@),
    {
        self.push_wake_up(
            WakeUp {
                due: now.saturating_add(delay),
                interval: Some(interval),
                message: message.to_owned(),
            },
        );
    }

    /// Queues the message of each wake-up that is due, if the agent is idle. While it is
    /// busy a single wake-up waits, and a recurring one moves to its next interval. Says
    /// which messages it queued.
    pub fn check_wake_ups(&mut self, now: u64) -> (r: Vec<String>)
        ensures
            final(self)@ == old(self)@.check_wake_ups(now),
            texts(r@) == old(self)@.due_wake_ups(now),
    {
        let idle = self.all_tool_calls_resolved() && !self.inference_in_flight;
        let ghost ws = wake_ups(self.wake_ups@);
        let ghost queued = texts(self.pending_messages@);
        let mut kept: Vec<WakeUp> = Vec::new();
        let mut fired: Vec<String> = Vec::new();
        let mut i: usize = 0;
        assert(wake_ups(kept@) =~= Seq::empty());
        assert(texts(fired@) =~= Seq::empty());
        assert(queued + fired_wake_ups(ws, now, idle, 0) =~= queued);
        let n: usize = self.wake_ups.len();
        while i < n
            invariant
                i <= n == ws.len(),
                ws == wake_ups(self.wake_ups@),
                self@ == (StateV {
                    pending_messages: queued + fired_wake_ups(ws, now, idle, i as int),
                    ..old(self)@
                }),
                wake_ups(kept@) == kept_wake_ups(ws, now, idle, i as int),
                texts(fired@) == fired_wake_ups(ws, now, idle, i as int),
            decreases n - i,
        {
            assert(ws.len() == self.wake_ups@.len());
            assert(ws[i as int] == self.wake_ups@[i as int]@);
            let due: u64 = self.wake_ups[i].due;
            let interval = self.wake_ups[i].interval;
            let message = self.wake_ups[i].message.clone();
            if idle && due <= now {
                let ghost before = fired@;
                self.buffer_user_message(message.clone());
                fired.push(message.clone());
                assert(texts(fired@) =~= texts(before).push(ws[i as int].message));
                assert(queued + fired_wake_ups(ws, now, idle, i + 1) =~= (queued + fired_wake_ups(
                    ws,
                    now,
                    idle,
                    i as int,
                )).push(ws[i as int].message));
            }
            let next: Option<u64> = if due > now {
                Some(due)
            } else {
                match interval {
                    Some(n) => Some(now.saturating_add(n)),
                    None => if idle {
                        None
                    } else {
                        Some(due)
                    },
                }
            };
            if let Some(d) = next {
                let ghost before = kept@;
                let w = WakeUp { due: d, interval, message };
                kept.push(w);
                assert(wake_ups(kept@) =~= wake_ups(before).push(w@));
            }
            i = i + 1;
        }
        self.wake_ups = kept;
        fired
    }
}

proof fn lemma_kept_not_crossed(rs: Seq<ReminderV>, used: u64, n: int)
    requires
        0 <= n <= rs.len(),
    ensures
        forall|i: int|
            0 <= i < kept_reminders(rs, used, n).len() ==> !crossed(
                #[trigger] kept_reminders(rs, used, n)[i],
                used,
            ),
    decreases n,
{
    if n > 0 {
        lemma_kept_not_crossed(rs, used, n - 1);
        let before = kept_reminders(rs, used, n - 1);
        let after = kept_reminders(rs, used, n);
        assert forall|i: int| 0 <= i < after.len() implies !crossed(#[trigger] after[i], used) by {
            if i < before.len() {
                assert(!crossed(before[i], used));
            }
        }
    }
}

proof fn lemma_none_fire(rs: Seq<ReminderV>, used: u64, n: int)
    requires
        0 <= n <= rs.len(),
        forall|i: int| 0 <= i < n ==> !crossed(#[trigger] rs[i], used),
    ensures
        fired_reminders(rs, used, n) == Seq::<Seq<char>>::empty(),
    decreases n,
{
    if n > 0 {
        lemma_none_fire(rs, used, n - 1);
    }
}

/// A reminder fires once: after a check, none fires again before the usage grows.
pub proof fn lemma_reminder_fires_once(s: StateV, used: u64, later: u64)
    requires
        later <= used,
    ensures
        s.check_reminders(used).due_reminders(later) == Seq::<Seq<char>>::empty(),
{
    let n = s.reminders.len() as int;
    lemma_kept_not_crossed(s.reminders, used, n);
    let kept = kept_reminders(s.reminders, used, n);
    assert forall|i: int| 0 <= i < kept.len() implies !crossed(#[trigger] kept[i], later) by {
        assert(!crossed(kept[i], used));
    }
    lemma_none_fire(kept, later, kept.len() as int);
}

proof fn lemma_busy_fires_none(ws: Seq<WakeUpV>, now: u64, n: int)
    requires
        0 <= n <= ws.len(),
    ensures
        fired_wake_ups(ws, now, false, n) == Seq::<Seq<char>>::empty(),
    decreases n,
{
    if n > 0 {
        lemma_busy_fires_none(ws, now, n - 1);
    }
}

/// While the agent is busy no wake-up fires, and a single one is kept as it is.
pub proof fn lemma_busy_defers(s: StateV, now: u64, w: WakeUpV)
    requires
        !s.idle(),
        w.interval is None,
        s.wake_ups.contains(w),
    ensures
        s.due_wake_ups(now) == Seq::<Seq<char>>::empty(),
        s.check_wake_ups(now).pending_messages == s.pending_messages,
        s.check_wake_ups(now).wake_ups.contains(w),
{
    lemma_busy_fires_none(s.wake_ups, now, s.wake_ups.len() as int);
    assert(s.check_wake_ups(now).pending_messages =~= s.pending_messages);
    let i = choose|i: int| 0 <= i < s.wake_ups.len() && s.wake_ups[i] == w;
    lemma_kept_holds(s.wake_ups, now, false, s.wake_ups.len() as int, i);
}

proof fn lemma_kept_holds(ws: Seq<WakeUpV>, now: u64, idle: bool, n: int, i: int)
    requires
        0 <= i < n <= ws.len(),
        next_wake_up(ws[i], now, idle) is Some,
    ensures
        kept_wake_ups(ws, now, idle, n).contains(next_wake_up(ws[i], now, idle)->0),
    decreases n,
{
    let x = next_wake_up(ws[i], now, idle)->0;
    let k = kept_wake_ups(ws, now, idle, n);
    if i == n - 1 {
        assert(k[k.len() - 1] == x);
    } else {
        lemma_kept_holds(ws, now, idle, n - 1, i);
        let before = kept_wake_ups(ws, now, idle, n - 1);
        let j = choose|j: int| 0 <= j < before.len() && before[j] == x;
        assert(k[j] == x);
    }
}

/// When the agent is idle, what a check leaves is not due at that time, but for a
/// recurring wake-up with an interval of zero.
pub proof fn lemma_idle_fires_all(s: StateV, now: u64)
    requires
        s.idle(),
    ensures
        forall|i: int|
            0 <= i < s.check_wake_ups(now).wake_ups.len() ==> (#[trigger] s.check_wake_ups(
                now,
            ).wake_ups[i]).due > now || s.check_wake_ups(now).wake_ups[i].interval == Some(0u64)
                || now == u64::MAX,
{
    lemma_kept_later(s.wake_ups, now, s.wake_ups.len() as int);
}

proof fn lemma_kept_later(ws: Seq<WakeUpV>, now: u64, n: int)
    requires
        0 <= n <= ws.len(),
    ensures
        forall|i: int|
            0 <= i < kept_wake_ups(ws, now, true, n).len() ==> (#[trigger] kept_wake_ups(
                ws,
                now,
                true,
                n,
            )[i]).due > now || kept_wake_ups(ws, now, true, n)[i].interval == Some(0u64) || now
                == u64::MAX,
    decreases n,
{
    if n > 0 {
        lemma_kept_later(ws, now, n - 1);
    }
}

} // verus!
