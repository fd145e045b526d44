use vstd::prelude::*;

use crate::utils::timestamp;

verus! {

/// Seconds in one minute: the delay of the default one-shot frequency.
pub const ONE_MINUTE: u64 = 60;

/// How often a task fires, as configured by its builder.
#[derive(Clone, Copy, Debug, PartialEq, Eq)]
pub enum FrequencySeconds {
    /// Fires once, the given number of seconds after creation.
    Once(u64),
    /// Fires every given number of seconds, forever.
    Repeated(u64),
    /// `CountDown(count, seconds)`: fires every `seconds` seconds, `count` times.
    CountDown(u64, u64),
}

impl FrequencySeconds {
    /// The spacing in seconds between two firings (and the delay of the first).
    pub open spec fn period(self) -> u64 {
        match self {
            FrequencySeconds::Once(s) => s,
            FrequencySeconds::Repeated(s) => s,
            FrequencySeconds::CountDown(_, s) => s,
        }
    }

    /// How many firings the frequency allows; `None` when unbounded.
    pub open spec fn firings(self) -> Option<nat> {
        match self {
            FrequencySeconds::Once(_) => Some(1),
            FrequencySeconds::Repeated(_) => None,
            FrequencySeconds::CountDown(n, _) => Some(n as nat),
        }
    }

    pub fn period_seconds(&self) -> (r: u64)
        ensures
            r == self.period(),
    {
        match self {
            FrequencySeconds::Once(s) => *s,
            FrequencySeconds::Repeated(s) => *s,
            FrequencySeconds::CountDown(_, s) => *s,
        }
    }
}

impl Default for FrequencySeconds {
    fn default() -> (r: FrequencySeconds)
        ensures
            r == FrequencySeconds::Once(ONE_MINUTE),
    {
        FrequencySeconds::Once(ONE_MINUTE)
    }
}

/// The arithmetic progression `head, head + step, head + 2 * step, ...`,
/// cut where it would leave the range of `u64`.
#[derive(Clone, Copy, Debug, PartialEq, Eq)]
pub struct SecondsState {
    /// The next value, if the progression has not left `u64`.
    pub head: Option<u64>,
    /// The distance between two values.
    pub step: u64,
}

impl SecondsState {
    /// The progression with its first value dropped.
    pub open spec fn advanced(self) -> SecondsState {
        SecondsState {
            head: match self.head {
                Some(t) => if t + self.step <= u64::MAX {
                    Some((t + self.step) as u64)
                } else {
                    None
                },
                None => None,
            },
            step: self.step,
        }
    }

    /// The progression after `k` values have been taken from it.
    pub open spec fn after(self, k: nat) -> SecondsState
        decreases k,
    {
        if k == 0 {
            self
        } else {
            self.after((k - 1) as nat).advanced()
        }
    }

    /// The progression that starts `step` seconds after `now`.
    pub open spec fn starting(now: u64, step: u64) -> SecondsState {
        SecondsState {
            head: if now + step <= u64::MAX {
                Some((now + step) as u64)
            } else {
                None
            },
            step,
        }
    }

    fn starting_at(now: u64, step: u64) -> (r: SecondsState)
        ensures
            r == SecondsState::starting(now, step),
    {
        SecondsState { head: now.checked_add(step), step }
    }

    fn next(&mut self) -> (r: Option<u64>)
        ensures
            r == old(self).head,
            *final(self) == old(self).advanced(),
    {
        let r = self.head;
        if let Some(t) = self.head {
            self.head = t.checked_add(self.step);
        }
        r
    }

    /// Taking `k` values from a progression whose head is `h` leaves
    /// `h + k * step` at its head, as long as that fits in `u64`.
    pub proof fn lemma_after(self, k: nat)
        requires
            self.head is Some,
        ensures
            self.after(k).step == self.step,
            self.after(k).head == (if self.head->0 + k * self.step <= u64::MAX {
                Some((self.head->0 + k * self.step) as u64)
            } else {
                None::<u64>
            }),
        decreases k,
    {
        if k > 0 {
            let k1 = (k - 1) as nat;
            self.lemma_after(k1);
            let h = self.head->0 as int;
            let s = self.step as int;
            let prev = self.after(k1);
            assert(self.after(k) == prev.advanced());
            assert(h + k * s == (h + k1 * s) + s) by (nonlinear_arith)
                requires
                    k == k1 + 1,
            ;
            if h + k1 * s <= u64::MAX {
                assert(prev.head == Some((h + k1 * s) as u64));
            } else {
                assert(prev.head is None);
            }
        } else {
            assert(k * self.step == 0) by (nonlinear_arith)
                requires
                    k == 0,
            ;
            assert(self.after(k) == self);
        }
    }
}

/// The lazy sequence of the absolute times (epoch seconds) at which a task fires.
#[derive(Clone, Copy, Debug, PartialEq, Eq)]
pub enum FrequencyState {
    /// Every value of the progression.
    SecondsRepeated(SecondsState),
    /// The first `count` values of the progression.
    SecondsCountDown(u64, SecondsState),
}

impl FrequencyState {
    /// The progression the state draws from.
    pub open spec fn seconds(self) -> SecondsState {
        match self {
            FrequencyState::SecondsRepeated(s) => s,
            FrequencyState::SecondsCountDown(_, s) => s,
        }
    }

    /// A state is well formed when its timestamps are spaced by a positive period.
    pub open spec fn wf(self) -> bool {
        self.seconds().step > 0
    }

    /// The next firing time, if any.
    pub open spec fn peek_spec(self) -> Option<u64> {
        match self {
            FrequencyState::SecondsRepeated(s) => s.head,
            FrequencyState::SecondsCountDown(n, s) => if n > 0 {
                s.head
            } else {
                None
            },
        }
    }

    /// The state once its next firing time has been taken.
    pub open spec fn advanced(self) -> FrequencyState {
        match self {
            FrequencyState::SecondsRepeated(s) => FrequencyState::SecondsRepeated(s.advanced()),
            FrequencyState::SecondsCountDown(n, s) => if n > 0 {
                FrequencyState::SecondsCountDown((n - 1) as u64, s.advanced())
            } else {
                self
            },
        }
    }

    /// The state after `k` firing times have been taken.
    pub open spec fn after(self, k: nat) -> FrequencyState
        decreases k,
    {
        if k == 0 {
            self
        } else {
            self.after((k - 1) as nat).advanced()
        }
    }

    /// The state of a frequency created at time `now`: its first firing is one
    /// period after `now`.
    pub open spec fn from_spec(frequency: FrequencySeconds, now: u64) -> FrequencyState {
        match frequency {
            FrequencySeconds::Once(s) => FrequencyState::SecondsCountDown(
                1,
                SecondsState::starting(now, s),
            ),
            FrequencySeconds::Repeated(s) => FrequencyState::SecondsRepeated(
                SecondsState::starting(now, s),
            ),
            FrequencySeconds::CountDown(n, s) => FrequencyState::SecondsCountDown(
                n,
                SecondsState::starting(now, s),
            ),
        }
    }

    /// The `k`-th firing time (counting from zero) of a frequency created at
    /// `now`: `now + (k + 1) * period`, while the frequency allows a `k`-th
    /// firing and the time fits in `u64`.
    pub open spec fn nth_alarm(frequency: FrequencySeconds, now: u64, k: nat) -> Option<u64> {
        let t = now + (k + 1) * frequency.period();
        let allowed = match frequency.firings() {
            Some(n) => k < n,
            None => true,
        };
        if allowed && t <= u64::MAX {
            Some(t as u64)
        } else {
            None
        }
    }

    /// Builds the state of `frequency` created at time `now`.
    pub fn from_timestamp(frequency: FrequencySeconds, now: u64) -> (r: FrequencyState)
        requires
            frequency.period() > 0,
        ensures
            r == FrequencyState::from_spec(frequency, now),
            r.wf(),
    {
        match frequency {
            FrequencySeconds::Once(s) => FrequencyState::SecondsCountDown(
                1,
                SecondsState::starting_at(now, s),
            ),
            FrequencySeconds::Repeated(s) => FrequencyState::SecondsRepeated(
                SecondsState::starting_at(now, s),
            ),
            FrequencySeconds::CountDown(n, s) => FrequencyState::SecondsCountDown(
                n,
                SecondsState::starting_at(now, s),
            ),
        }
    }

    /// Builds the state of `frequency` created now, by the wall clock.
    pub fn from(frequency: FrequencySeconds) -> (r: FrequencyState)
        requires
            frequency.period() > 0,
        ensures
            exists|now: u64| r == #[trigger] FrequencyState::from_spec(frequency, now),
            r.wf(),
    {
        let now = timestamp();
        FrequencyState::from_timestamp(frequency, now)
    }

    /// The next firing time, without consuming it.
    pub fn peek_alarm_timestamp(&self) -> (r: Option<u64>)
        ensures
            r == self.peek_spec(),
    {
        match self {
            FrequencyState::SecondsRepeated(s) => s.head,
            FrequencyState::SecondsCountDown(n, s) => if *n > 0 {
                s.head
            } else {
                None
            },
        }
    }

    /// Takes the next firing time; a countdown loses one firing.
    pub fn next_alarm_timestamp(&mut self) -> (r: Option<u64>)
        ensures
            r == old(self).peek_spec(),
            *final(self) == old(self).advanced(),
    {
        match self {
            FrequencyState::SecondsRepeated(s) => s.next(),
            FrequencyState::SecondsCountDown(n, s) => {
                if *n > 0 {
                    *n = *n - 1;
                    s.next()
                } else {
                    None
                }
            },
        }
    }

    /// Drops one firing from a countdown without reading it; a countdown at
    /// zero stays at zero, and a repeated frequency is unchanged.
    pub fn down_count(&mut self)
        ensures
            *final(self) == match *old(self) {
                FrequencyState::SecondsCountDown(n, s) => FrequencyState::SecondsCountDown(
                    if n > 0 {
                        (n - 1) as u64
                    } else {
                        0
                    },
                    s,
                ),
                FrequencyState::SecondsRepeated(s) => FrequencyState::SecondsRepeated(s),
            },
    {
        if let FrequencyState::SecondsCountDown(count, _) = self {
            *count = count.saturating_sub(1);
        }
    }
}

/// Two successive firing times of a well-formed state are exactly one period
/// apart, so the sequence is strictly increasing; taking a time keeps the
/// state well formed and its period unchanged.
pub proof fn lemma_successive_alarms_one_period_apart(state: FrequencyState)
    requires
        state.wf(),
    ensures
        state.advanced().wf(),
        state.advanced().seconds().step == state.seconds().step,
        state.peek_spec() is Some && state.advanced().peek_spec() is Some ==> {
            &&& state.advanced().peek_spec()->0 == state.peek_spec()->0
                + state.seconds().step
            &&& state.peek_spec()->0 < state.advanced().peek_spec()->0
        },
{
}

/// The `k`-th firing time of a frequency created at `now` is
/// `now + (k + 1) * period`: the times are strictly increasing and exactly one
/// period apart. A countdown of `n` (and a one-shot, with `n = 1`) yields
/// exactly `n` times and then nothing; a repeated frequency never ends while
/// its times fit in `u64`.
pub proof fn lemma_alarm_sequence(frequency: FrequencySeconds, now: u64, k: nat)
    requires
        frequency.period() > 0,
    ensures
        FrequencyState::from_spec(frequency, now).after(k).peek_spec()
            == FrequencyState::nth_alarm(frequency, now, k),
{
    let start = FrequencyState::from_spec(frequency, now);
    let p = frequency.period();
    let s0 = start.seconds();
    lemma_state_after(start, k);
    if now + p <= u64::MAX {
        s0.lemma_after(k);
        assert((now + p) + k * p == now + (k + 1) * p) by (nonlinear_arith);
    } else {
        lemma_none_stays_none(s0, k);
        assert(now + (k + 1) * p >= now + p) by (nonlinear_arith)
            requires
                p > 0,
        ;
    }
}

/// `k` steps of a state take `k` values from its progression, and count `k`
/// firings off a countdown that has them.
proof fn lemma_state_after(state: FrequencyState, k: nat)
    ensures
        state.after(k).seconds() == (match state {
            FrequencyState::SecondsRepeated(s) => s.after(k),
            FrequencyState::SecondsCountDown(n, s) => s.after(
                if k <= n {
                    k
                } else {
                    n as nat
                },
            ),
        }),
        match state {
            FrequencyState::SecondsRepeated(_) => state.after(k) is SecondsRepeated,
            FrequencyState::SecondsCountDown(n, _) => state.after(k) is SecondsCountDown
                && state.after(k)->SecondsCountDown_0 == (if k <= n {
                n - k
            } else {
                0
            }),
        },
    decreases k,
{
    if k > 0 {
        lemma_state_after(state, (k - 1) as nat);
    }
}

proof fn lemma_none_stays_none(s: SecondsState, k: nat)
    requires
        s.head is None,
    ensures
        s.after(k).head is None,
    decreases k,
{
    if k > 0 {
        lemma_none_stays_none(s, (k - 1) as nat);
    }
}

} // verus!
