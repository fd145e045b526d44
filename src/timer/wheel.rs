use dashmap::DashMap;
use vstd::prelude::*;

use crate::error::TaskError;
use crate::task::task::Task;
use crate::task::TaskId;
use crate::timer::slot::Slot;

verus! {

/// Slots of the seconds wheel.
pub const SECONDS_PER_MINUTE: u64 = 60;

/// Slots of the minutes wheel.
pub const MINUTES_PER_HOUR: u64 = 60;

/// Slots of the hours wheel.
pub const HOURS_PER_DAY: u64 = 24;

/// The address of a task in the wheels: the second it fires at, the minute
/// and hour slots it still has to pass through, and how many whole days it
/// waits in the hours wheel before it descends.
#[derive(Clone, Copy, Debug, PartialEq, Eq)]
pub struct WheelCascadeGuide {
    pub sec: u64,
    pub min: Option<u64>,
    pub hour: Option<u64>,
    pub round: u64,
}

/// The three wheels.
#[derive(Clone, Copy, Debug, PartialEq, Eq, Structural)]
pub enum WheelType {
    Second,
    Minute,
    Hour,
}

/// Where a task sits: its wheel, its slot there, and its guide.
#[derive(Clone, Copy, Debug, PartialEq, Eq)]
pub struct TaskTrackingInfo {
    pub task_id: u64,
    pub cascade_guide: WheelCascadeGuide,
    pub wheel_type: WheelType,
    pub slot_num: u64,
}

/// The number of slots of a wheel.
pub open spec fn wheel_size(w: WheelType) -> int {
    match w {
        WheelType::Second => SECONDS_PER_MINUTE as int,
        WheelType::Minute => MINUTES_PER_HOUR as int,
        WheelType::Hour => HOURS_PER_DAY as int,
    }
}

impl WheelCascadeGuide {
    /// The guide of a task that has not been placed yet.
    pub open spec fn initial() -> WheelCascadeGuide {
        WheelCascadeGuide { sec: 0, min: None, hour: None, round: 0 }
    }

    /// Each component lies within its wheel, an hour stage comes with a
    /// minute stage, and only an hour stage waits for days.
    pub open spec fn valid(self) -> bool {
        &&& self.sec < SECONDS_PER_MINUTE
        &&& self.min matches Some(m) ==> m < MINUTES_PER_HOUR
        &&& self.hour matches Some(h) ==> h < HOURS_PER_DAY
        &&& self.hour is Some ==> self.min is Some
        &&& self.round > 0 ==> self.hour is Some
    }

    /// No minute or hour stage is pending.
    pub open spec fn arrived(self) -> bool {
        &&& self.min is None
        &&& self.hour is None
        &&& self.round == 0
    }

    /// The wheel in which a task with this guide resides: the coarsest one
    /// with a pending stage.
    pub open spec fn home_wheel(self) -> WheelType {
        if self.hour is Some {
            WheelType::Hour
        } else if self.min is Some {
            WheelType::Minute
        } else {
            WheelType::Second
        }
    }

    /// The slot of the home wheel in which a task with this guide resides.
    pub open spec fn home_slot(self) -> u64 {
        match self.hour {
            Some(h) => h,
            None => match self.min {
                Some(m) => m,
                None => self.sec,
            },
        }
    }

    /// The guide once the task has passed the slot it resides in: an hour
    /// stage that still waits for days loses one round; otherwise the coarsest
    /// pending stage is done.
    pub open spec fn descended(self) -> WheelCascadeGuide {
        if self.hour is Some {
            if self.round > 0 {
                WheelCascadeGuide { round: (self.round - 1) as u64, ..self }
            } else {
                WheelCascadeGuide { hour: None, ..self }
            }
        } else if self.min is Some {
            WheelCascadeGuide { min: None, ..self }
        } else {
            self
        }
    }

    /// The guide, and the home, of a task due `delta` seconds from now when
    /// the hands stand at second `cs`, minute `cm` and hour `ch`.
    pub open spec fn placement(cs: int, cm: int, ch: int, delta: int) -> WheelCascadeGuide {
        let total_sec = cs + delta;
        let min_carry = total_sec / 60;
        let total_min = cm + min_carry;
        let hour_carry = total_min / 60;
        let total_hour = ch + hour_carry;
        let round = total_hour / 24;
        if round > 0 || hour_carry > 0 {
            WheelCascadeGuide {
                sec: (total_sec % 60) as u64,
                min: Some((total_min % 60) as u64),
                hour: Some((total_hour % 24) as u64),
                round: round as u64,
            }
        } else if min_carry > 0 {
            WheelCascadeGuide {
                sec: (total_sec % 60) as u64,
                min: Some((total_min % 60) as u64),
                hour: None,
                round: 0,
            }
        } else {
            WheelCascadeGuide { sec: (total_sec % 60) as u64, min: None, hour: None, round: 0 }
        }
    }

    /// The number of seconds from the start of the day at which the hands
    /// (`cs`, `cm`, `ch`) stand.
    pub open spec fn clock_seconds(cs: int, cm: int, ch: int) -> int {
        3600 * ch + 60 * cm + cs
    }

    /// The moment this guide designates, in seconds from the start of the
    /// day of hands standing at minute `cm` and hour `ch`: a missing minute
    /// or hour stage means that the hand keeps its place.
    pub open spec fn target_seconds(self, cm: int, ch: int) -> int {
        let h = match self.hour {
            Some(h) => h as int,
            None => ch,
        };
        let m = match self.min {
            Some(m) => m as int,
            None => cm,
        };
        86400 * self.round + 3600 * h + 60 * m + self.sec
    }

    pub fn is_arrived(&self) -> (r: bool)
        ensures
            r == self.arrived(),
    {
        self.min.is_none() && self.hour.is_none() && self.round == 0
    }

    pub fn descend(&self) -> (r: WheelCascadeGuide)
        ensures
            r == self.descended(),
    {
        if self.hour.is_some() {
            if self.round > 0 {
                WheelCascadeGuide { round: self.round - 1, ..*self }
            } else {
                WheelCascadeGuide { hour: None, ..*self }
            }
        } else if self.min.is_some() {
            WheelCascadeGuide { min: None, ..*self }
        } else {
            *self
        }
    }

    pub fn home_wheel_type(&self) -> (r: WheelType)
        ensures
            r == self.home_wheel(),
    {
        if self.hour.is_some() {
            WheelType::Hour
        } else if self.min.is_some() {
            WheelType::Minute
        } else {
            WheelType::Second
        }
    }

    pub fn home_slot_num(&self) -> (r: u64)
        ensures
            r == self.home_slot(),
    {
        match self.hour {
            Some(h) => h,
            None => match self.min {
                Some(m) => m,
                None => self.sec,
            },
        }
    }

    /// The guide of a task due `delta` seconds from now when the hands stand
    /// at (`cs`, `cm`, `ch`).
    pub fn for_delay(cs: u64, cm: u64, ch: u64, delta: u64) -> (r: WheelCascadeGuide)
        requires
            cs < SECONDS_PER_MINUTE,
            cm < MINUTES_PER_HOUR,
            ch < HOURS_PER_DAY,
        ensures
            r == WheelCascadeGuide::placement(cs as int, cm as int, ch as int, delta as int),
            r.valid(),
    {
        let total_sec: u128 = cs as u128 + delta as u128;
        let min_carry: u128 = total_sec / 60;
        let total_min: u128 = cm as u128 + min_carry;
        let hour_carry: u128 = total_min / 60;
        let total_hour: u128 = ch as u128 + hour_carry;
        let round: u128 = total_hour / 24;
        let sec = (total_sec % 60) as u64;
        if round > 0 || hour_carry > 0 {
            assert(round <= u64::MAX);
            WheelCascadeGuide {
                sec,
                min: Some((total_min % 60) as u64),
                hour: Some((total_hour % 24) as u64),
                round: round as u64,
            }
        } else if min_carry > 0 {
            WheelCascadeGuide { sec, min: Some((total_min % 60) as u64), hour: None, round: 0 }
        } else {
            WheelCascadeGuide { sec, min: None, hour: None, round: 0 }
        }
    }
}

impl Default for WheelCascadeGuide {
    fn default() -> (r: WheelCascadeGuide)
        ensures
            r == WheelCascadeGuide::initial(),
    {
        WheelCascadeGuide { sec: 0, min: None, hour: None, round: 0 }
    }
}

/// A ring of slots with a hand that advances by steps.
pub struct Wheel<R> {
    slots: Vec<Slot<R>>,
    hand: u64,
    num_slots: u64,
}

impl<R> Wheel<R> {
    /// The tasks of slot `i`, by id.
    pub closed spec fn slot(&self, i: int) -> Map<TaskId, Task<R>> {
        self.slots@[i]@
    }

    pub closed spec fn hand_spec(&self) -> u64 {
        self.hand
    }

    pub closed spec fn size(&self) -> u64 {
        self.num_slots
    }

    /// The hand points at one of the slots, and each slot stores its tasks
    /// under their own ids.
    pub closed spec fn wf(&self) -> bool {
        &&& self.num_slots > 0
        &&& self.num_slots <= usize::MAX
        &&& self.slots@.len() == self.num_slots
        &&& self.hand < self.num_slots
        &&& forall|i: int| 0 <= i < self.num_slots ==> (#[trigger] self.slots@[i]).wf()
    }

    /// A wheel of `num_slots` empty slots with its hand at zero.
    pub fn new(num_slots: u64) -> (r: Wheel<R>)
        requires
            0 < num_slots <= usize::MAX,
        ensures
            r.wf(),
            r.size() == num_slots,
            r.hand_spec() == 0,
            forall|i: int| 0 <= i < num_slots ==> #[trigger] r.slot(i) == Map::<TaskId, Task<R>>::empty(),
    {
        let mut slots: Vec<Slot<R>> = Vec::new();
        let mut i: u64 = 0;
        while i < num_slots
            invariant
                i <= num_slots,
                slots@.len() == i,
                forall|j: int| 0 <= j < i ==> (#[trigger] slots@[j])@ == Map::<TaskId, Task<R>>::empty(),
                forall|j: int| 0 <= j < i ==> (#[trigger] slots@[j]).wf(),
            decreases num_slots - i,
        {
            slots.push(Slot::new());
            i = i + 1;
        }
        Wheel { slots, hand: 0, num_slots }
    }

    /// Advances the hand by `step` slots. The hand lands on
    /// `(hand + step) % num_slots`; the number of full turns
    /// `(hand + step) / num_slots` is returned when it is positive.
    pub fn hand_move(&mut self, step: u64) -> (r: Option<u64>)
        requires
            old(self).wf(),
        ensures
            final(self).wf(),
            final(self).size() == old(self).size(),
            final(self).hand_spec() == (old(self).hand_spec() + step) % (old(self).size() as int),
            r == (if (old(self).hand_spec() + step) / (old(self).size() as int) > 0 {
                Some(((old(self).hand_spec() + step) / (old(self).size() as int)) as u64)
            } else {
                None::<u64>
            }),
            forall|i: int| 0 <= i < old(self).size() ==> #[trigger] final(self).slot(i) == old(self).slot(i),
    {
        if step == 0 {
            proof {
                vstd::arithmetic::div_mod::lemma_small_mod(self.hand as nat, self.num_slots as nat);
                vstd::arithmetic::div_mod::lemma_basic_div(self.hand as int, self.num_slots as int);
            }
            return None;
        }
        let new_hand: u128 = self.hand as u128 + step as u128;
        let carry: u128 = new_hand / (self.num_slots as u128);
        proof {
            let n = self.num_slots as int;
            let x = new_hand as int;
            if n == 1 {
                assert(x / 1 == x);
            } else {
                vstd::arithmetic::div_mod::lemma_div_is_ordered_by_denominator(x, 2, n);
            }
        }
        self.hand = (new_hand % (self.num_slots as u128)) as u64;
        if carry > 0 {
            Some(carry as u64)
        } else {
            None
        }
    }

    pub fn hand_position(&self) -> (r: u64)
        ensures
            r == self.hand_spec(),
    {
        self.hand
    }

    /// Puts the hand at `position`, taken modulo the number of slots.
    pub fn set_hand_position(&mut self, position: u64)
        requires
            old(self).wf(),
        ensures
            final(self).wf(),
            final(self).size() == old(self).size(),
            final(self).hand_spec() == position % old(self).size(),
            forall|i: int| 0 <= i < old(self).size() ==> #[trigger] final(self).slot(i) == old(self).slot(i),
    {
        self.hand = position % self.num_slots;
    }

    /// Places `task` in slot `slot_num`, replacing a task of the same id there.
    pub fn add_task(&mut self, task: Task<R>, slot_num: u64)
        requires
            old(self).wf(),
            slot_num < old(self).size(),
        ensures
            final(self).wf(),
            final(self).size() == old(self).size(),
            final(self).hand_spec() == old(self).hand_spec(),
            final(self).slot(slot_num as int) == old(self).slot(slot_num as int).insert(task.task_id, task),
            forall|i: int|
                0 <= i < old(self).size() && i != slot_num ==> #[trigger] final(self).slot(i) == old(self).slot(i),
    {
        let i = slot_num as usize;
        let mut slot: Slot<R> = Slot::new();
        self.slots.set_and_swap(i, &mut slot);
        slot.add_task(task);
        self.slots.set_and_swap(i, &mut slot);
        proof {
            assert forall|j: int| 0 <= j < self.num_slots implies (#[trigger] self.slots@[j]).wf() by {
                if j != i {
                    assert(self.slots@[j] == old(self).slots@[j]);
                }
            }
        }
    }

    /// Removes task `task_id` from slot `slot_num` and returns it.
    pub fn remove_task(&mut self, task_id: TaskId, slot_num: u64) -> (r: Option<Task<R>>)
        requires
            old(self).wf(),
        ensures
            final(self).wf(),
            final(self).size() == old(self).size(),
            final(self).hand_spec() == old(self).hand_spec(),
            slot_num < old(self).size() ==> final(self).slot(slot_num as int) == old(self).slot(
                slot_num as int,
            ).remove(task_id),
            r == (if slot_num < old(self).size() && old(self).slot(slot_num as int).contains_key(
                task_id,
            ) {
                Some(old(self).slot(slot_num as int)[task_id])
            } else {
                None
            }),
            forall|i: int|
                0 <= i < old(self).size() && i != slot_num ==> #[trigger] final(self).slot(i) == old(self).slot(i),
    {
        if slot_num < self.num_slots {
            let i = slot_num as usize;
            let mut slot: Slot<R> = Slot::new();
            self.slots.set_and_swap(i, &mut slot);
            let r = slot.remove_task(task_id);
            self.slots.set_and_swap(i, &mut slot);
            proof {
                assert forall|j: int| 0 <= j < self.num_slots implies (#[trigger] self.slots@[j]).wf() by {
                    if j != i {
                        assert(self.slots@[j] == old(self).slots@[j]);
                    }
                }
            }
            r
        } else {
            None
        }
    }

    /// Empties slot `slot_num` and returns what it held.
    pub fn take_slot(&mut self, slot_num: u64) -> (r: Slot<R>)
        requires
            old(self).wf(),
            slot_num < old(self).size(),
        ensures
            final(self).wf(),
            r.wf(),
            r@ == old(self).slot(slot_num as int),
            final(self).size() == old(self).size(),
            final(self).hand_spec() == old(self).hand_spec(),
            final(self).slot(slot_num as int) == Map::<TaskId, Task<R>>::empty(),
            forall|i: int|
                0 <= i < old(self).size() && i != slot_num ==> #[trigger] final(self).slot(i) == old(self).slot(i),
    {
        let i = slot_num as usize;
        let mut taken: Slot<R> = Slot::new();
        self.slots.set_and_swap(i, &mut taken);
        proof {
            assert forall|j: int| 0 <= j < self.num_slots implies (#[trigger] self.slots@[j]).wf() by {
                if j != i {
                    assert(self.slots@[j] == old(self).slots@[j]);
                }
            }
        }
        taken
    }
}

/// The guide computed for a delay lies within the wheels and designates
/// exactly the moment `delta` seconds after the hands: the day rounds, hour,
/// minute and second of the guide, less the hands' own position, add up to
/// `delta`.
pub proof fn lemma_placement_round_trip(cs: int, cm: int, ch: int, delta: int)
    requires
        0 <= cs < 60,
        0 <= cm < 60,
        0 <= ch < 24,
        0 <= delta <= u64::MAX,
    ensures
        WheelCascadeGuide::placement(cs, cm, ch, delta).valid(),
        WheelCascadeGuide::placement(cs, cm, ch, delta).target_seconds(cm, ch)
            == WheelCascadeGuide::clock_seconds(cs, cm, ch) + delta,
{
    let total_sec = cs + delta;
    let min_carry = total_sec / 60;
    let total_min = cm + min_carry;
    let hour_carry = total_min / 60;
    let total_hour = ch + hour_carry;
    assert(total_sec == 60 * min_carry + total_sec % 60);
    assert(total_min == 60 * hour_carry + total_min % 60);
    assert(total_hour == 24 * (total_hour / 24) + total_hour % 24);
    assert(min_carry <= total_sec);
    assert(hour_carry <= total_min);
    assert(total_hour / 24 <= total_hour);
}


/// `dashmap::DashMap`, held as an opaque value: what a tracking index holds
/// is read through `tracked_entries`.
#[verifier::external_type_specification]
#[verifier::external_body]
#[verifier::reject_recursive_types(K)]
#[verifier::reject_recursive_types(V)]
#[verifier::reject_recursive_types(S)]
pub struct ExDashMap<K, V, S>(DashMap<K, V, S>);

/// The tracking index: a concurrent map from task id to tracking record.
pub type TrackingIndex = DashMap<TaskId, TaskTrackingInfo>;

/// The entries of a tracking index: task id to tracking record.
pub uninterp spec fn tracked_entries(m: TrackingIndex) -> Map<
    TaskId,
    TaskTrackingInfo,
>;

/// Relies on `DashMap::new`: a map without entries.
#[verifier::external_body]
fn index_new() -> (r: TrackingIndex)
    ensures
        tracked_entries(r).dom().is_empty(),
{
    DashMap::new()
}

/// Relies on `DashMap::insert`: the key maps to the value afterwards, and the
/// value it mapped to before is returned.
#[verifier::external_body]
fn index_insert(m: &mut TrackingIndex, k: TaskId, v: TaskTrackingInfo) -> (r:
    Option<TaskTrackingInfo>)
    ensures
        tracked_entries(*final(m)) == tracked_entries(*old(m)).insert(k, v),
        r == (if tracked_entries(*old(m)).contains_key(k) {
            Some(tracked_entries(*old(m))[k])
        } else {
            None
        }),
{
    m.insert(k, v)
}

/// Relies on `DashMap::remove`: the key is gone afterwards, and the entry it
/// had is returned.
#[verifier::external_body]
fn index_remove(m: &mut TrackingIndex, k: TaskId) -> (r: Option<
    (TaskId, TaskTrackingInfo),
>)
    ensures
        tracked_entries(*final(m)) == tracked_entries(*old(m)).remove(k),
        r == (if tracked_entries(*old(m)).contains_key(k) {
            Some((k, tracked_entries(*old(m))[k]))
        } else {
            None
        }),
{
    m.remove(&k)
}

/// Relies on `DashMap::get`: the value under the key, copied out of the
/// read guard.
#[verifier::external_body]
fn index_get(m: &TrackingIndex, k: TaskId) -> (r: Option<TaskTrackingInfo>)
    ensures
        r == (if tracked_entries(*m).contains_key(k) {
            Some(tracked_entries(*m)[k])
        } else {
            None
        }),
{
    m.get(&k).map(|e| *e)
}

/// The tracking record of a task `task_id` whose guide is `guide`: it sits in
/// the guide's home wheel and slot.
pub open spec fn tracking_for(task_id: TaskId, guide: WheelCascadeGuide) -> TaskTrackingInfo {
    TaskTrackingInfo {
        task_id,
        cascade_guide: guide,
        wheel_type: guide.home_wheel(),
        slot_num: guide.home_slot(),
    }
}

/// Whether a record places its task in slot `s` of wheel `w`.
pub open spec fn sits_at(info: TaskTrackingInfo, w: WheelType, s: int) -> bool {
    info.wheel_type == w && info.slot_num == s
}

/// The tracking index after the slot `s` of wheel `w` has been cascaded:
/// every task there moves on to the home of its descended guide.
pub open spec fn cascaded(index: Map<TaskId, TaskTrackingInfo>, w: WheelType, s: int) -> Map<
    TaskId,
    TaskTrackingInfo,
> {
    Map::new(
        |id: TaskId| index.contains_key(id),
        |id: TaskId|
            if sits_at(index[id], w, s) {
                tracking_for(id, index[id].cascade_guide.descended())
            } else {
                index[id]
            },
    )
}

/// The hands (second, minute, hour) one tick later.
pub open spec fn tick_hands(hands: (u64, u64, u64)) -> (u64, u64, u64) {
    let (s, m, h) = hands;
    if s + 1 < 60 {
        ((s + 1) as u64, m, h)
    } else if m + 1 < 60 {
        (0, (m + 1) as u64, h)
    } else {
        (0, 0, ((h + 1) % 24) as u64)
    }
}

/// The tracking index one tick later: a turn of the second hand cascades
/// the minute slot the minute hand reaches, and a turn of the minute hand
/// then cascades the hour slot the hour hand reaches.
pub open spec fn ticked_index(index: Map<TaskId, TaskTrackingInfo>, hands: (u64, u64, u64)) -> Map<
    TaskId,
    TaskTrackingInfo,
> {
    let (s, m, h) = hands;
    if s + 1 < 60 {
        index
    } else if m + 1 < 60 {
        cascaded(index, WheelType::Minute, m + 1)
    } else {
        cascaded(cascaded(index, WheelType::Minute, 0), WheelType::Hour, (h + 1) % 24)
    }
}

/// The delay until `fire`, seen at `now`; a time already past is due at once.
pub open spec fn delay_until(fire: u64, now: u64) -> int {
    if fire > now {
        fire - now
    } else {
        0
    }
}

/// The scheduler's wheels (seconds, minutes, hours) and the index that tells
/// in which wheel and slot each task sits.
pub struct MulitWheel<R> {
    sec_wheel: Wheel<R>,
    min_wheel: Wheel<R>,
    hour_wheel: Wheel<R>,
    task_tracker_map: TrackingIndex,
}

impl<R> MulitWheel<R> {
    /// The tracking index: where each task sits.
    pub closed spec fn index(&self) -> Map<TaskId, TaskTrackingInfo> {
        tracked_entries(self.task_tracker_map)
    }

    pub closed spec fn wheel(&self, w: WheelType) -> Wheel<R> {
        match w {
            WheelType::Second => self.sec_wheel,
            WheelType::Minute => self.min_wheel,
            WheelType::Hour => self.hour_wheel,
        }
    }

    /// The tasks in slot `s` of wheel `w`.
    pub closed spec fn slot_of(&self, w: WheelType, s: int) -> Map<TaskId, Task<R>> {
        self.wheel(w).slot(s)
    }

    /// The hands: (second, minute, hour).
    pub closed spec fn hands(&self) -> (u64, u64, u64) {
        (self.sec_wheel.hand_spec(), self.min_wheel.hand_spec(), self.hour_wheel.hand_spec())
    }

    /// The ids of the tasks due now: those the index places in the seconds
    /// slot under the second hand.
    pub closed spec fn due_ids(&self) -> Set<TaskId> {
        Set::new(
            |id: TaskId|
                self.index().contains_key(id) && sits_at(
                    self.index()[id],
                    WheelType::Second,
                    self.hands().0 as int,
                ),
        )
    }

    /// The task `id`, read where the index places it.
    pub closed spec fn task(&self, id: TaskId) -> Task<R> {
        self.slot_of(self.index()[id].wheel_type, self.index()[id].slot_num as int)[id]
    }

    closed spec fn wheels_wf(&self) -> bool {
        &&& self.sec_wheel.wf()
        &&& self.sec_wheel.size() == SECONDS_PER_MINUTE
        &&& self.min_wheel.wf()
        &&& self.min_wheel.size() == MINUTES_PER_HOUR
        &&& self.hour_wheel.wf()
        &&& self.hour_wheel.size() == HOURS_PER_DAY
    }

    /// The index entry of `id` names a slot that holds the task, with the same
    /// guide, and that slot is the guide's home.
    closed spec fn placed(&self, id: TaskId) -> bool {
        let info = self.index()[id];
        &&& info.task_id == id
        &&& info.cascade_guide.valid()
        &&& info == tracking_for(id, info.cascade_guide)
        &&& self.slot_of(info.wheel_type, info.slot_num as int).contains_key(id)
        &&& self.slot_of(info.wheel_type, info.slot_num as int)[id].cascade_guide
            == info.cascade_guide
    }

    /// The invariant, but for the tasks in `pending`, which are in the index
    /// and in no slot while they move between wheels.
    closed spec fn wf_except(&self, pending: Set<TaskId>) -> bool {
        &&& self.wheels_wf()
        &&& forall|w: WheelType, s: int, id: TaskId|
            0 <= s < wheel_size(w) && #[trigger] self.slot_of(w, s).contains_key(id) ==> {
                &&& self.index().contains_key(id)
                &&& sits_at(self.index()[id], w, s)
                &&& !pending.contains(id)
            }
        &&& forall|id: TaskId|
            #[trigger] self.index().contains_key(id) && !pending.contains(id) ==> self.placed(id)
        &&& forall|id: TaskId| #[trigger] pending.contains(id) ==> self.index().contains_key(id)
    }

    /// The tracking index reflects exactly where the tasks are: each task in
    /// a slot has an entry that names that slot (so it sits in no other), and
    /// each entry names a slot that holds the task, under the same guide,
    /// which is the guide's home.
    pub closed spec fn wf(&self) -> bool {
        self.wf_except(Set::empty())
    }

    /// An empty scheduler with all hands at zero.
    pub fn new() -> (r: MulitWheel<R>)
        ensures
            r.wf(),
            r.hands() == (0u64, 0u64, 0u64),
            r.index().dom().is_empty(),
    {
        MulitWheel {
            sec_wheel: Wheel::new(SECONDS_PER_MINUTE),
            min_wheel: Wheel::new(MINUTES_PER_HOUR),
            hour_wheel: Wheel::new(HOURS_PER_DAY),
            task_tracker_map: index_new(),
        }
    }

    /// The hands: (second, minute, hour).
    pub fn get_wheel_positions(&self) -> (r: (u64, u64, u64))
        requires
            self.wf(),
        ensures
            r == self.hands(),
            r.0 < SECONDS_PER_MINUTE,
            r.1 < MINUTES_PER_HOUR,
            r.2 < HOURS_PER_DAY,
    {
        (self.sec_wheel.hand_position(), self.min_wheel.hand_position(), self.hour_wheel.hand_position())
    }

    /// Puts the hands at the given positions, each taken modulo its wheel's
    /// size; no task moves.
    pub fn set_wheel_positions(&mut self, sec: u64, min: u64, hour: u64)
        requires
            old(self).wf(),
        ensures
            final(self).wf(),
            final(self).hands() == (sec % SECONDS_PER_MINUTE, min % MINUTES_PER_HOUR, hour
                % HOURS_PER_DAY),
            final(self).index() == old(self).index(),
            forall|id: TaskId| #[trigger]
                old(self).index().contains_key(id) ==> final(self).task(id) == old(self).task(id),
    {
        self.sec_wheel.set_hand_position(sec);
        self.min_wheel.set_hand_position(min);
        self.hour_wheel.set_hand_position(hour);
        proof {
            self.lemma_same_slots(*old(self));
        }
    }

    /// Two schedulers with the same wheels' slots and index agree on every
    /// slot and task.
    proof fn lemma_same_slots(&self, other: MulitWheel<R>)
        requires
            forall|i: int|
                0 <= i < SECONDS_PER_MINUTE ==> #[trigger] self.sec_wheel.slot(i)
                    == other.sec_wheel.slot(i),
            forall|i: int|
                0 <= i < MINUTES_PER_HOUR ==> #[trigger] self.min_wheel.slot(i)
                    == other.min_wheel.slot(i),
            forall|i: int|
                0 <= i < HOURS_PER_DAY ==> #[trigger] self.hour_wheel.slot(i)
                    == other.hour_wheel.slot(i),
            self.index() == other.index(),
            other.wf(),
            self.wheels_wf(),
        ensures
            forall|w: WheelType, s: int|
                0 <= s < wheel_size(w) ==> #[trigger] self.slot_of(w, s) == other.slot_of(w, s),
            forall|id: TaskId| #[trigger]
                self.index().contains_key(id) ==> self.task(id) == other.task(id),
            self.wf(),
    {
        assert forall|w: WheelType, s: int| 0 <= s < wheel_size(w) implies #[trigger] self.slot_of(
            w,
            s,
        ) == other.slot_of(w, s) by {
            match w {
                WheelType::Second => {},
                WheelType::Minute => {},
                WheelType::Hour => {},
            }
        }
        assert forall|id: TaskId| #[trigger]
            self.index().contains_key(id) implies self.task(id) == other.task(id) by {
            assert(other.placed(id));
            let info = self.index()[id];
            assert(self.slot_of(info.wheel_type, info.slot_num as int) == other.slot_of(
                info.wheel_type,
                info.slot_num as int,
            ));
        }
        assert forall|id: TaskId| #[trigger] self.index().contains_key(id) implies self.placed(
            id,
        ) by {
            assert(other.placed(id));
            let info = self.index()[id];
            assert(self.slot_of(info.wheel_type, info.slot_num as int) == other.slot_of(
                info.wheel_type,
                info.slot_num as int,
            ));
        }
    }

    fn wheel_add(&mut self, w: WheelType, task: Task<R>, s: u64)
        requires
            old(self).wheels_wf(),
            s < wheel_size(w),
        ensures
            final(self).wheels_wf(),
            final(self).index() == old(self).index(),
            final(self).hands() == old(self).hands(),
            final(self).slot_of(w, s as int) == old(self).slot_of(w, s as int).insert(
                task.task_id,
                task,
            ),
            forall|w2: WheelType, s2: int|
                0 <= s2 < wheel_size(w2) && !(w2 == w && s2 == s) ==> #[trigger] final(self).slot_of(w2, s2) == old(self).slot_of(w2, s2),
    {
        match w {
            WheelType::Second => self.sec_wheel.add_task(task, s),
            WheelType::Minute => self.min_wheel.add_task(task, s),
            WheelType::Hour => self.hour_wheel.add_task(task, s),
        }
    }

    fn wheel_remove(&mut self, w: WheelType, task_id: TaskId, s: u64) -> (r: Option<Task<R>>)
        requires
            old(self).wheels_wf(),
            s < wheel_size(w),
        ensures
            final(self).wheels_wf(),
            final(self).index() == old(self).index(),
            final(self).hands() == old(self).hands(),
            final(self).slot_of(w, s as int) == old(self).slot_of(w, s as int).remove(task_id),
            r == (if old(self).slot_of(w, s as int).contains_key(task_id) {
                Some(old(self).slot_of(w, s as int)[task_id])
            } else {
                None
            }),
            forall|w2: WheelType, s2: int|
                0 <= s2 < wheel_size(w2) && !(w2 == w && s2 == s) ==> #[trigger] final(self).slot_of(w2, s2) == old(self).slot_of(w2, s2),
    {
        match w {
            WheelType::Second => self.sec_wheel.remove_task(task_id, s),
            WheelType::Minute => self.min_wheel.remove_task(task_id, s),
            WheelType::Hour => self.hour_wheel.remove_task(task_id, s),
        }
    }

    fn wheel_take(&mut self, w: WheelType, s: u64) -> (r: Slot<R>)
        requires
            old(self).wheels_wf(),
            s < wheel_size(w),
        ensures
            final(self).wheels_wf(),
            r.wf(),
            r@ == old(self).slot_of(w, s as int),
            final(self).index() == old(self).index(),
            final(self).hands() == old(self).hands(),
            final(self).slot_of(w, s as int) == Map::<TaskId, Task<R>>::empty(),
            forall|w2: WheelType, s2: int|
                0 <= s2 < wheel_size(w2) && !(w2 == w && s2 == s) ==> #[trigger] final(self).slot_of(w2, s2) == old(self).slot_of(w2, s2),
    {
        match w {
            WheelType::Second => self.sec_wheel.take_slot(s),
            WheelType::Minute => self.min_wheel.take_slot(s),
            WheelType::Hour => self.hour_wheel.take_slot(s),
        }
    }

    /// Puts `task` in the home of its guide and records it there in the index.
    fn place(&mut self, task: Task<R>, Ghost(pending): Ghost<Set<TaskId>>)
        requires
            old(self).wf_except(pending),
            task.cascade_guide.valid(),
            old(self).index().contains_key(task.task_id) ==> pending.contains(task.task_id),
        ensures
            final(self).wf_except(pending.remove(task.task_id)),
            final(self).index() == old(self).index().insert(
                task.task_id,
                tracking_for(task.task_id, task.cascade_guide),
            ),
            final(self).hands() == old(self).hands(),
            final(self).task(task.task_id) == task,
            forall|id: TaskId|
                id != task.task_id && old(self).index().contains_key(id) && !pending.contains(id)
                    ==> #[trigger] final(self).task(id) == old(self).task(id),
    {
        let id = task.task_id;
        let guide = task.cascade_guide;
        let w = guide.home_wheel_type();
        let s = guide.home_slot_num();
        let ghost t = task;
        let ghost pre = *self;
        let info = TaskTrackingInfo { task_id: id, cascade_guide: guide, wheel_type: w, slot_num: s };
        index_insert(&mut self.task_tracker_map, id, info);
        self.wheel_add(w, task, s);
        proof {
            let post_pending = pending.remove(id);
            assert forall|w2: WheelType, s2: int, id2: TaskId|
                0 <= s2 < wheel_size(w2) && #[trigger] self.slot_of(w2, s2).contains_key(
                    id2,
                ) implies {
                &&& self.index().contains_key(id2)
                &&& sits_at(self.index()[id2], w2, s2)
                &&& !post_pending.contains(id2)
            } by {
                if !(w2 == w && s2 == s && id2 == id) {
                    assert(pre.slot_of(w2, s2).contains_key(id2));
                }
            }
            assert forall|id2: TaskId|
                #[trigger] self.index().contains_key(id2) && !post_pending.contains(
                    id2,
                ) implies self.placed(id2) by {
                if id2 != id {
                    assert(pre.placed(id2));
                    let info2 = pre.index()[id2];
                    if info2.wheel_type == w && info2.slot_num == s {
                        assert(self.slot_of(w, s as int) == pre.slot_of(w, s as int).insert(id, t));
                    } else {
                        assert(self.slot_of(info2.wheel_type, info2.slot_num as int) == pre.slot_of(
                            info2.wheel_type,
                            info2.slot_num as int,
                        ));
                    }
                }
            }
            assert forall|id2: TaskId|
                id2 != id && pre.index().contains_key(id2) && !pending.contains(
                    id2,
                ) implies #[trigger] self.task(id2) == pre.task(id2) by {
                assert(pre.placed(id2));
                let info2 = pre.index()[id2];
                if info2.wheel_type == w && info2.slot_num == s {
                    assert(self.slot_of(w, s as int) == pre.slot_of(w, s as int).insert(id, t));
                } else {
                    assert(self.slot_of(info2.wheel_type, info2.slot_num as int) == pre.slot_of(
                        info2.wheel_type,
                        info2.slot_num as int,
                    ));
                }
            }
        }
    }

    /// Removes task `task_id` from its slot and from the index, and returns
    /// it; an unknown id changes nothing.
    pub fn remove_task(&mut self, task_id: TaskId) -> (r: Option<Task<R>>)
        requires
            old(self).wf(),
        ensures
            final(self).wf(),
            final(self).index() == old(self).index().remove(task_id),
            final(self).hands() == old(self).hands(),
            r == (if old(self).index().contains_key(task_id) {
                Some(old(self).task(task_id))
            } else {
                None
            }),
            forall|id: TaskId|
                id != task_id && old(self).index().contains_key(id) ==> #[trigger] final(self).task(id) == old(self).task(id),
    {
        let ghost pre = *self;
        match index_remove(&mut self.task_tracker_map, task_id) {
            None => {
                proof {
                    assert(pre.index().remove(task_id) =~= pre.index());
                    self.lemma_same_slots(pre);
                }
                None
            },
            Some((_, info)) => {
                proof {
                    assert(pre.placed(task_id));
                }
                let r = self.wheel_remove(info.wheel_type, task_id, info.slot_num);
                proof {
                    let w = info.wheel_type;
                    let s = info.slot_num as int;
                    assert forall|w2: WheelType, s2: int, id2: TaskId|
                        0 <= s2 < wheel_size(w2) && #[trigger] self.slot_of(w2, s2).contains_key(
                            id2,
                        ) implies {
                        &&& self.index().contains_key(id2)
                        &&& sits_at(self.index()[id2], w2, s2)
                        &&& !Set::<TaskId>::empty().contains(id2)
                    } by {
                        assert(pre.slot_of(w2, s2).contains_key(id2));
                    }
                    assert forall|id2: TaskId|
                        #[trigger] self.index().contains_key(id2) && !Set::<TaskId>::empty().contains(
                            id2,
                        ) implies self.placed(id2) by {
                        assert(pre.placed(id2));
                        let info2 = pre.index()[id2];
                        if info2.wheel_type == w && info2.slot_num == s {
                            assert(self.slot_of(w, s) == pre.slot_of(w, s).remove(task_id));
                        } else {
                            assert(self.slot_of(info2.wheel_type, info2.slot_num as int)
                                == pre.slot_of(info2.wheel_type, info2.slot_num as int));
                        }
                    }
                    assert forall|id2: TaskId|
                        id2 != task_id && pre.index().contains_key(
                            id2,
                        ) implies #[trigger] self.task(id2) == pre.task(id2) by {
                        assert(pre.placed(id2));
                        let info2 = pre.index()[id2];
                        if info2.wheel_type == w && info2.slot_num == s {
                            assert(self.slot_of(w, s) == pre.slot_of(w, s).remove(task_id));
                        } else {
                            assert(self.slot_of(info2.wheel_type, info2.slot_num as int)
                                == pre.slot_of(info2.wheel_type, info2.slot_num as int));
                        }
                    }
                }
                r
            },
        }
    }

    /// The tracking record of task `task_id`, if it is scheduled.
    pub fn get_task_tracking_info(&self, task_id: TaskId) -> (r: Option<TaskTrackingInfo>)
        ensures
            r == (if self.index().contains_key(task_id) {
                Some(self.index()[task_id])
            } else {
                None
            }),
    {
        index_get(&self.task_tracker_map, task_id)
    }

    /// Moves every task of slot `s` of wheel `w` on to the home of its
    /// descended guide, and records each move in the index.
    fn cascade_slot(&mut self, w: WheelType, s: u64)
        requires
            old(self).wf(),
            s < wheel_size(w),
        ensures
            final(self).wf(),
            final(self).hands() == old(self).hands(),
            final(self).index() == cascaded(old(self).index(), w, s as int),
            forall|id: TaskId|
                old(self).index().contains_key(id) ==> #[trigger] final(self).task(id) == (if sits_at(
                    old(self).index()[id],
                    w,
                    s as int,
                ) {
                    Task {
                        cascade_guide: old(self).index()[id].cascade_guide.descended(),
                        ..old(self).task(id)
                    }
                } else {
                    old(self).task(id)
                }),
    {
        let ghost pre = *self;
        let slot = self.wheel_take(w, s);
        let mut tasks = slot.take_tasks();
        proof {
            let pending = ids_of(tasks@).to_set();
            assert(pending == pre.slot_of(w, s as int).dom());
            assert forall|w2: WheelType, s2: int, id2: TaskId|
                0 <= s2 < wheel_size(w2) && #[trigger] self.slot_of(w2, s2).contains_key(
                    id2,
                ) implies {
                &&& self.index().contains_key(id2)
                &&& sits_at(self.index()[id2], w2, s2)
                &&& !pending.contains(id2)
            } by {
                assert(pre.slot_of(w2, s2).contains_key(id2));
                if pending.contains(id2) {
                    assert(pre.slot_of(w, s as int).contains_key(id2));
                }
            }
            assert forall|id2: TaskId|
                #[trigger] self.index().contains_key(id2) && !pending.contains(id2) implies self.placed(
                id2,
            ) by {
                assert(pre.placed(id2));
                let info2 = pre.index()[id2];
                if info2.wheel_type == w && info2.slot_num == s {
                    assert(pre.slot_of(w, s as int).contains_key(id2));
                }
                assert(self.slot_of(info2.wheel_type, info2.slot_num as int) == pre.slot_of(
                    info2.wheel_type,
                    info2.slot_num as int,
                ));
            }
            assert forall|id2: TaskId| #[trigger] pending.contains(id2) implies self.index().contains_key(
                id2,
            ) by {
                assert(pre.slot_of(w, s as int).contains_key(id2));
            }
            assert forall|j: int| 0 <= j < tasks@.len() implies {
                &&& pre.index().contains_key(#[trigger] tasks@[j].task_id)
                &&& sits_at(pre.index()[tasks@[j].task_id], w, s as int)
                &&& tasks@[j] == pre.task(tasks@[j].task_id)
            } by {
                let id = tasks@[j].task_id;
                assert(ids_of(tasks@)[j] == id);
                assert(pre.slot_of(w, s as int).contains_key(id));
            }
        }
        while tasks.len() > 0
            invariant
                self.wf_except(ids_of(tasks@).to_set()),
                ids_of(tasks@).no_duplicates(),
                s < wheel_size(w),
                pre.wf(),
                forall|j: int|
                    0 <= j < tasks@.len() ==> {
                        &&& pre.index().contains_key(#[trigger] tasks@[j].task_id)
                        &&& sits_at(pre.index()[tasks@[j].task_id], w, s as int)
                        &&& tasks@[j] == pre.task(tasks@[j].task_id)
                    },
                self.hands() == pre.hands(),
                self.index().dom() == pre.index().dom(),
                forall|id: TaskId|
                    #[trigger] pre.index().contains_key(id) ==> self.index()[id] == (if sits_at(
                        pre.index()[id],
                        w,
                        s as int,
                    ) && !ids_of(tasks@).to_set().contains(id) {
                        tracking_for(id, pre.index()[id].cascade_guide.descended())
                    } else {
                        pre.index()[id]
                    }),
                forall|id: TaskId|
                    pre.index().contains_key(id) && !ids_of(tasks@).to_set().contains(id)
                        ==> #[trigger] self.task(id) == (if sits_at(pre.index()[id], w, s as int) {
                        Task {
                            cascade_guide: pre.index()[id].cascade_guide.descended(),
                            ..pre.task(id)
                        }
                    } else {
                        pre.task(id)
                    }),
            decreases tasks.len(),
        {
            let ghost before = tasks@;
            let ghost pending = ids_of(tasks@).to_set();
            let mut task = tasks.pop().unwrap();
            let ghost id = task.task_id;
            proof {
                assert(before[before.len() - 1] == task);
                assert(tasks@ == before.drop_last());
                assert(ids_of(tasks@) == ids_of(before).drop_last());
                assert(ids_of(before)[before.len() - 1] == id);
                assert(ids_of(tasks@).to_set() =~= pending.remove(id)) by {
                    assert forall|x: TaskId| ids_of(tasks@).to_set().contains(x) <==> pending.remove(
                        x,
                    ).contains(x) || (pending.contains(x) && x != id) by {
                        if ids_of(tasks@).contains(x) {
                            let j = choose|j: int|
                                0 <= j < ids_of(tasks@).len() && ids_of(tasks@)[j] == x;
                            assert(ids_of(before)[j] == x);
                            assert(x != id);
                        }
                        if pending.contains(x) && x != id {
                            let j = choose|j: int|
                                0 <= j < ids_of(before).len() && ids_of(before)[j] == x;
                            assert(j != before.len() - 1);
                            assert(ids_of(tasks@)[j] == x);
                        }
                    }
                }
                assert(pre.placed(id));
            }
            let g = task.cascade_guide.descend();
            task.set_wheel_position(g);
            self.place(task, Ghost(pending));
            proof {
                assert forall|j: int| 0 <= j < tasks@.len() implies {
                    &&& pre.index().contains_key(#[trigger] tasks@[j].task_id)
                    &&& sits_at(pre.index()[tasks@[j].task_id], w, s as int)
                    &&& tasks@[j] == pre.task(tasks@[j].task_id)
                } by {
                    assert(tasks@[j] == before[j]);
                }
            }
        }
        proof {
            assert(ids_of(tasks@).to_set() =~= Set::<TaskId>::empty());
            assert(self.index() =~= cascaded(pre.index(), w, s as int));
        }
    }

    /// Cascades the minute slot under the minute hand: each task there
    /// descends to the seconds wheel, at its guide's second.
    pub fn cascade_minute_tasks(&mut self)
        requires
            old(self).wf(),
        ensures
            final(self).wf(),
            final(self).hands() == old(self).hands(),
            final(self).index() == cascaded(
                old(self).index(),
                WheelType::Minute,
                old(self).hands().1 as int,
            ),
            forall|id: TaskId|
                old(self).index().contains_key(id) ==> #[trigger] final(self).task(id) == (if sits_at(
                    old(self).index()[id],
                    WheelType::Minute,
                    old(self).hands().1 as int,
                ) {
                    Task {
                        cascade_guide: old(self).index()[id].cascade_guide.descended(),
                        ..old(self).task(id)
                    }
                } else {
                    old(self).task(id)
                }),
    {
        let hand = self.min_wheel.hand_position();
        self.cascade_slot(WheelType::Minute, hand);
    }

    /// Cascades the hour slot under the hour hand: each task there that
    /// still waits for days loses a round and stays, and each other task
    /// descends to the minutes wheel, at its guide's minute.
    pub fn cascade_hour_tasks(&mut self)
        requires
            old(self).wf(),
        ensures
            final(self).wf(),
            final(self).hands() == old(self).hands(),
            final(self).index() == cascaded(
                old(self).index(),
                WheelType::Hour,
                old(self).hands().2 as int,
            ),
            forall|id: TaskId|
                old(self).index().contains_key(id) ==> #[trigger] final(self).task(id) == (if sits_at(
                    old(self).index()[id],
                    WheelType::Hour,
                    old(self).hands().2 as int,
                ) {
                    Task {
                        cascade_guide: old(self).index()[id].cascade_guide.descended(),
                        ..old(self).task(id)
                    }
                } else {
                    old(self).task(id)
                }),
    {
        let hand = self.hour_wheel.hand_position();
        self.cascade_slot(WheelType::Hour, hand);
    }

    /// The guide of a task due `next_alarm_sec` seconds from now, for the
    /// current hands.
    pub fn cal_next_hand_position(&self, next_alarm_sec: u64) -> (r: WheelCascadeGuide)
        requires
            self.wf(),
        ensures
            r == WheelCascadeGuide::placement(
                self.hands().0 as int,
                self.hands().1 as int,
                self.hands().2 as int,
                next_alarm_sec as int,
            ),
            r.valid(),
    {
        let (cs, cm, ch) = self.get_wheel_positions();
        WheelCascadeGuide::for_delay(cs, cm, ch, next_alarm_sec)
    }

    /// Schedules `task` as of time `now`: takes its next firing time, and
    /// places it, under any earlier entry of its id, where the guide for the
    /// delay until that time points. A task without a next firing time is
    /// left out and nothing changes.
    pub fn add_task_at(&mut self, task: Task<R>, now: u64) -> (r: Result<(), TaskError>)
        requires
            old(self).wf(),
        ensures
            final(self).wf(),
            final(self).hands() == old(self).hands(),
            r is Ok,
            task.frequency.peek_spec() is None ==> final(self).index() == old(self).index(),
            task.frequency.peek_spec() is None ==> forall|id: TaskId|
                old(self).index().contains_key(id) ==> #[trigger] final(self).task(id) == old(self).task(id),
            task.frequency.peek_spec() matches Some(fire) ==> ({
                let g = WheelCascadeGuide::placement(
                    old(self).hands().0 as int,
                    old(self).hands().1 as int,
                    old(self).hands().2 as int,
                    delay_until(fire, now),
                );
                &&& final(self).index() == old(self).index().insert(
                    task.task_id,
                    tracking_for(task.task_id, g),
                )
                &&& final(self).task(task.task_id) == (Task {
                    cascade_guide: g,
                    frequency: task.frequency.advanced(),
                    ..task
                })
                &&& forall|id: TaskId|
                    id != task.task_id && old(self).index().contains_key(id) ==> #[trigger] final(self).task(id) == old(self).task(id)
            }),
    {
        let mut task = task;
        match task.next_alarm_timestamp() {
            None => Ok(()),
            Some(fire) => {
                let id = task.task_id;
                let ghost pre = *self;
                let _ = self.remove_task(id);
                let delta = if fire > now {
                    fire - now
                } else {
                    0
                };
                let guide = self.cal_next_hand_position(delta);
                task.set_wheel_position(guide);
                self.place(task, Ghost(Set::empty()));
                proof {
                    assert(Set::<TaskId>::empty().remove(id) =~= Set::<TaskId>::empty());
                    assert(self.index() =~= pre.index().insert(id, tracking_for(id, guide)));
                }
                Ok(())
            },
        }
    }

    /// Schedules `task` as of now, by the wall clock; see `add_task_at`.
    pub fn add_task(&mut self, task: Task<R>) -> (r: Result<(), TaskError>)
        requires
            old(self).wf(),
        ensures
            final(self).wf(),
            final(self).hands() == old(self).hands(),
            r is Ok,
            task.frequency.peek_spec() is None ==> final(self).index() == old(self).index(),
            task.frequency.peek_spec() matches Some(fire) ==> exists|now: u64|
                final(self).index() == old(self).index().insert(
                    task.task_id,
                    tracking_for(
                        task.task_id,
                        WheelCascadeGuide::placement(
                            old(self).hands().0 as int,
                            old(self).hands().1 as int,
                            old(self).hands().2 as int,
                            #[trigger] delay_until(fire, now),
                        ),
                    ),
                ),
    {
        let now = crate::utils::timestamp();
        self.add_task_at(task, now)
    }

    /// Advances the clock by one second: the second hand moves; when it
    /// completes a turn the minute hand moves and the minute slot it reaches
    /// is cascaded; when that completes a turn the hour hand moves and the
    /// hour slot it reaches is cascaded. Returns the hour hand's turn, when
    /// a day completes.
    pub fn tick(&mut self) -> (r: Option<u64>)
        requires
            old(self).wf(),
        ensures
            final(self).wf(),
            final(self).hands() == tick_hands(old(self).hands()),
            final(self).index() == ticked_index(old(self).index(), old(self).hands()),
            r == (if old(self).hands() == (59u64, 59u64, 23u64) {
                Some(1u64)
            } else {
                None::<u64>
            }),
            forall|id: TaskId| #[trigger]
                old(self).index().contains_key(id) ==> same_work(final(self).task(id), old(self).task(id))
                    && final(self).task(id).cascade_guide == final(self).index()[id].cascade_guide,
    {
        let ghost pre = *self;
        let sec_carry = self.sec_wheel.hand_move(1);
        proof {
            self.lemma_same_slots(pre);
        }
        match sec_carry {
            None => {
                proof {
                    self.lemma_index_reflects_residency();
                }
                None
            },
            Some(carry) => {
                let ghost mid = *self;
                let min_carry = self.min_wheel.hand_move(carry);
                proof {
                    self.lemma_same_slots(mid);
                }
                self.cascade_minute_tasks();
                match min_carry {
                    None => {
                        proof {
                            self.lemma_index_reflects_residency();
                        }
                        None
                    },
                    Some(carry) => {
                        let ghost mid2 = *self;
                        let r = self.hour_wheel.hand_move(carry);
                        proof {
                            self.lemma_same_slots(mid2);
                        }
                        self.cascade_hour_tasks();
                        proof {
                            self.lemma_index_reflects_residency();
                        }
                        r
                    },
                }
            },
        }
    }

    /// The ids of the tasks due now: those in the seconds slot under the
    /// second hand, each once, in no particular order.
    pub fn arrival_time_tasks(&self) -> (r: Vec<TaskId>)
        requires
            self.wf(),
        ensures
            r@.no_duplicates(),
            forall|id: TaskId|
                r@.contains(id) <==> (#[trigger] self.index().contains_key(id) && sits_at(
                    self.index()[id],
                    WheelType::Second,
                    self.hands().0 as int,
                )),
    {
        let hand = self.sec_wheel.hand_position();
        let r = self.sec_wheel.slots[hand as usize].arrival_time_tasks();
        proof {
            let slot = self.slot_of(WheelType::Second, hand as int);
            assert(self.sec_wheel.slots@[hand as int]@ == slot);
            assert forall|id: TaskId|
                r@.contains(id) <==> (#[trigger] self.index().contains_key(id) && sits_at(
                    self.index()[id],
                    WheelType::Second,
                    hand as int,
                )) by {
                if r@.contains(id) {
                    assert(r@.to_set().contains(id));
                    assert(slot.contains_key(id));
                }
                if self.index().contains_key(id) && sits_at(
                    self.index()[id],
                    WheelType::Second,
                    hand as int,
                ) {
                    assert(self.placed(id));
                    assert(slot.contains_key(id));
                    assert(slot[id].cascade_guide.arrived());
                    assert(r@.to_set().contains(id));
                }
            }
        }
        r
    }

    /// Takes out the tasks due now, those in the seconds slot under the
    /// second hand, from the wheels and the index, and returns them, each
    /// once, in no particular order. A task that should fire again is added
    /// back once it has run.
    pub fn take_arrived_tasks(&mut self) -> (r: Vec<Task<R>>)
        requires
            old(self).wf(),
        ensures
            final(self).wf(),
            final(self).hands() == old(self).hands(),
            final(self).index() == old(self).index().remove_keys(
                old(self).due_ids(),
            ),
            ids_of(r@).no_duplicates(),
            ids_of(r@).to_set() == old(self).due_ids(),
            forall|j: int| 0 <= j < r@.len() ==> #[trigger] r@[j] == old(self).task(r@[j].task_id),
            forall|id: TaskId| #[trigger]
                final(self).index().contains_key(id) ==> final(self).task(id) == old(self).task(id),
    {
        let ghost pre = *self;
        let ids = self.arrival_time_tasks();
        proof {
            pre.lemma_index_reflects_residency();
            assert(ids@.to_set() =~= pre.due_ids());
        }
        let mut tasks: Vec<Task<R>> = Vec::new();
        let mut i: usize = 0;
        while i < ids.len()
            invariant
                i <= ids.len(),
                pre.wf(),
                self.wf(),
                self.hands() == pre.hands(),
                ids@.no_duplicates(),
                ids@.to_set() == pre.due_ids(),
                self.index() == pre.index().remove_keys(ids@.take(i as int).to_set()),
                tasks@.len() == i,
                forall|j: int| 0 <= j < i ==> #[trigger] tasks@[j] == pre.task(ids@[j]),
                forall|j: int| 0 <= j < i ==> (#[trigger] tasks@[j]).task_id == ids@[j],
                forall|id: TaskId| #[trigger]
                    self.index().contains_key(id) ==> self.task(id) == pre.task(id),
            decreases ids.len() - i,
        {
            let id = ids[i];
            proof {
                assert(ids@.to_set().contains(id));
                assert(!ids@.take(i as int).contains(id)) by {
                    if ids@.take(i as int).contains(id) {
                        let j = choose|j: int| 0 <= j < i && ids@.take(i as int)[j] == id;
                        assert(ids@[j] == ids@[i as int]);
                    }
                }
                assert forall|x: TaskId|
                    ids@.take(i + 1).contains(x) <==> (ids@.take(i as int).contains(x) || x == id) by {
                    let before = ids@.take(i as int);
                    let after = ids@.take(i + 1);
                    if after.contains(x) && x != id {
                        let j = choose|j: int| 0 <= j < after.len() && after[j] == x;
                        assert(before[j] == x);
                    }
                    if before.contains(x) {
                        let j = choose|j: int| 0 <= j < before.len() && before[j] == x;
                        assert(after[j] == x);
                    }
                    if x == id {
                        assert(after[i as int] == x);
                    }
                }
                assert(ids@.take(i + 1).to_set() =~= ids@.take(i as int).to_set().insert(id));
                pre.lemma_index_reflects_residency();
            }
            let removed = self.remove_task(id);
            proof {
                assert(self.index() =~= pre.index().remove_keys(ids@.take(i + 1).to_set()));
                assert(removed == Some(pre.task(id)));
            }
            match removed {
                Some(t) => {
                    tasks.push(t);
                },
                None => {},
            }
            i = i + 1;
        }
        proof {
            assert(ids@.take(ids.len() as int) == ids@);
            assert(ids_of(tasks@) =~= ids@);
        }
        tasks
    }
}

/// Two tasks that do the same work: the same id, runner and firing times,
/// wherever their guides place them.
pub open spec fn same_work<R>(a: Task<R>, b: Task<R>) -> bool {
    &&& a.task_id == b.task_id
    &&& a.runner == b.runner
    &&& a.frequency == b.frequency
}

/// The ids of a sequence of tasks.
pub open spec fn ids_of<R>(tasks: Seq<Task<R>>) -> Seq<TaskId> {
    tasks.map_values(|t: Task<R>| t.task_id)
}


/// The hands after `n` ticks of a new scheduler.
pub open spec fn hands_after_ticks(n: nat) -> (u64, u64, u64)
    decreases n,
{
    if n == 0 {
        (0u64, 0u64, 0u64)
    } else {
        tick_hands(hands_after_ticks((n - 1) as nat))
    }
}

proof fn lemma_succ_div_mod(x: int, d: int)
    requires
        x >= 0,
        d > 0,
    ensures
        x % d + 1 < d ==> (x + 1) % d == x % d + 1 && (x + 1) / d == x / d,
        x % d + 1 >= d ==> (x + 1) % d == 0 && (x + 1) / d == x / d + 1,
        0 <= x % d < d,
{
    vstd::arithmetic::div_mod::lemma_fundamental_div_mod(x, d);
    vstd::arithmetic::div_mod::lemma_mod_pos_bound(x, d);
    let q = x / d;
    let r = x % d;
    assert(d * q == q * d) by (nonlinear_arith);
    assert((q + 1) * d == q * d + d) by (nonlinear_arith);
    if r + 1 < d {
        vstd::arithmetic::div_mod::lemma_fundamental_div_mod_converse(x + 1, d, q, r + 1);
    } else {
        vstd::arithmetic::div_mod::lemma_fundamental_div_mod_converse(x + 1, d, q + 1, 0);
    }
}

/// After `n` ticks of a new scheduler, the second hand stands at `n % 60`,
/// the minute hand at `(n / 60) % 60` and the hour hand at `(n / 3600) % 24`.
pub proof fn lemma_hands_after_ticks(n: nat)
    ensures
        hands_after_ticks(n) == ((n % 60) as u64, ((n / 60) % 60) as u64, ((n / 3600) % 24) as u64),
    decreases n,
{
    if n > 0 {
        let x = (n - 1) as int;
        lemma_hands_after_ticks(x as nat);
        let y = x / 60;
        let z = x / 3600;
        vstd::arithmetic::div_mod::lemma_div_denominator(x, 60, 60);
        vstd::arithmetic::div_mod::lemma_div_denominator(n as int, 60, 60);
        assert(y / 60 == z);
        lemma_succ_div_mod(x, 60);
        lemma_succ_div_mod(y, 60);
        lemma_succ_div_mod(z, 24);
        vstd::arithmetic::div_mod::lemma_div_pos_is_pos(x, 60);
        vstd::arithmetic::div_mod::lemma_div_pos_is_pos(y, 60);
    }
}

impl<R> MulitWheel<R> {
    /// The tracking index reflects exactly where the tasks are: a task is in
    /// slot `s` of wheel `w` if and only if its entry names that slot, so it
    /// sits in exactly one slot, under the guide its entry records.
    pub proof fn lemma_index_reflects_residency(&self)
        requires
            self.wf(),
        ensures
            forall|w: WheelType, s: int, id: TaskId|
                0 <= s < wheel_size(w) ==> (#[trigger] self.slot_of(w, s).contains_key(id) <==> (
                self.index().contains_key(id) && sits_at(self.index()[id], w, s))),
            forall|id: TaskId| #[trigger]
                self.index().contains_key(id) ==> {
                    &&& self.index()[id].task_id == id
                    &&& self.task(id).task_id == id
                    &&& self.task(id).cascade_guide == self.index()[id].cascade_guide
                    &&& self.index()[id] == tracking_for(id, self.index()[id].cascade_guide)
                    &&& self.index()[id].cascade_guide.valid()
                },
    {
        assert forall|w: WheelType, s: int, id: TaskId|
            0 <= s < wheel_size(w) implies (#[trigger] self.slot_of(w, s).contains_key(id) <==> (
            self.index().contains_key(id) && sits_at(self.index()[id], w, s))) by {
            if self.index().contains_key(id) {
                assert(self.placed(id));
            }
        }
        assert forall|id: TaskId| #[trigger] self.index().contains_key(id) implies {
            &&& self.index()[id].task_id == id
            &&& self.task(id).task_id == id
            &&& self.task(id).cascade_guide == self.index()[id].cascade_guide
            &&& self.index()[id] == tracking_for(id, self.index()[id].cascade_guide)
            &&& self.index()[id].cascade_guide.valid()
        } by {
            assert(self.placed(id));
            let info = self.index()[id];
            match info.wheel_type {
                WheelType::Second => assert(self.sec_wheel.slots@[info.slot_num as int].wf()),
                WheelType::Minute => assert(self.min_wheel.slots@[info.slot_num as int].wf()),
                WheelType::Hour => assert(self.hour_wheel.slots@[info.slot_num as int].wf()),
            }
        }
    }

    /// Removing is idempotent: once `remove_task(id)` has left the index
    /// without `id`, no slot holds the task either, so a second call finds
    /// nothing, returns `None` and leaves the index as it is.
    pub proof fn lemma_remove_idempotent(&self, after: MulitWheel<R>, id: TaskId)
        requires
            self.wf(),
            after.wf(),
            after.index() == self.index().remove(id),
        ensures
            !after.index().contains_key(id),
            after.index().remove(id) == after.index(),
            forall|w: WheelType, s: int|
                0 <= s < wheel_size(w) ==> !(#[trigger] after.slot_of(w, s)).contains_key(id),
    {
        after.lemma_index_reflects_residency();
        assert(after.index().remove(id) =~= after.index());
    }
}

} // verus!
