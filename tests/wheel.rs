use timing_wheel::task::{Task, TaskBuilder};
use timing_wheel::timer::slot::Slot;
use timing_wheel::timer::wheel::{MulitWheel, TaskTrackingInfo, WheelCascadeGuide, WheelType};

fn task(id: u64, seconds: u64) -> Task<()> {
    TaskBuilder::new(id).with_frequency_once_by_seconds(seconds).spwan_async(()).unwrap()
}

/// Adds `task` so that it falls due `delta` seconds after the current hands.
fn add_in(wheel: &mut MulitWheel<()>, task: Task<()>, delta: u64) {
    let fire = task.frequency.peek_alarm_timestamp().unwrap();
    wheel.add_task_at(task, fire - delta).unwrap();
}

fn guide(sec: u64, min: Option<u64>, hour: Option<u64>, round: u64) -> WheelCascadeGuide {
    WheelCascadeGuide { sec, min, hour, round }
}

#[test]
fn test_cal_next_hand_position_no_carry() {
    let mut wheel = MulitWheel::<()>::new();
    wheel.set_wheel_positions(30, 20, 10);

    let pos = wheel.cal_next_hand_position(5);
    assert_eq!(pos.sec, 35);
    assert_eq!(pos.min, None);
    assert_eq!(pos.hour, None);
    assert_eq!(pos.round, 0);
}

#[test]
fn test_cal_next_hand_position_second_carry() {
    let mut wheel = MulitWheel::<()>::new();
    wheel.set_wheel_positions(58, 20, 10);

    let pos = wheel.cal_next_hand_position(5);
    assert_eq!(pos.sec, 3);
    assert_eq!(pos.min, Some(21));
    assert_eq!(pos.hour, None);
    assert_eq!(pos.round, 0);
}

#[test]
fn test_cal_next_hand_position_minute_carry() {
    let mut wheel = MulitWheel::<()>::new();
    wheel.set_wheel_positions(50, 59, 10);

    let pos = wheel.cal_next_hand_position(20);
    assert_eq!(pos.sec, 10);
    assert_eq!(pos.min, Some(0));
    assert_eq!(pos.hour, Some(11));
    assert_eq!(pos.round, 0);
}

#[test]
fn test_cal_next_hand_position_hour_carry() {
    let mut wheel = MulitWheel::<()>::new();
    wheel.set_wheel_positions(55, 59, 23);

    let pos = wheel.cal_next_hand_position(10);
    assert_eq!(pos.sec, 5);
    assert_eq!(pos.min, Some(0));
    assert_eq!(pos.hour, Some(0));
    assert_eq!(pos.round, 1);
}

#[test]
fn test_cal_next_hand_position_large_interval() {
    let mut wheel = MulitWheel::<()>::new();
    wheel.set_wheel_positions(40, 30, 10);

    let pos = wheel.cal_next_hand_position(7200);
    assert_eq!(pos.sec, 40);
    assert_eq!(pos.min, Some(30));
    assert_eq!(pos.hour, Some(12));
    assert_eq!(pos.round, 0);
}

#[test]
fn test_cal_next_hand_position_exceed_one_day() {
    let mut wheel = MulitWheel::<()>::new();
    wheel.set_wheel_positions(40, 30, 20);

    let pos = wheel.cal_next_hand_position(100000);
    assert_eq!(pos.sec, 20);
    assert_eq!(pos.min, Some(17));
    assert_eq!(pos.hour, Some(0));
    assert_eq!(pos.round, 2);
}

#[test]
fn test_tick_without_cascade() {
    let mut multi_wheel = MulitWheel::<()>::new();

    let result = multi_wheel.tick();
    assert_eq!(result, None);
    assert_eq!(multi_wheel.get_wheel_positions().0, 1);

    let result = multi_wheel.tick();
    assert_eq!(result, None);
    assert_eq!(multi_wheel.get_wheel_positions().0, 2);
}

#[test]
fn test_tick_with_minute_cascade() {
    let mut multi_wheel = MulitWheel::<()>::new();

    // Bring task 1 into minute wheel slot 0 with guide.sec = 0: it comes down
    // from the hour wheel when the hour hand moves on.
    multi_wheel.set_wheel_positions(59, 59, 10);
    add_in(&mut multi_wheel, task(1, 60), 1);
    multi_wheel.tick();
    let info = multi_wheel.get_task_tracking_info(1).unwrap();
    assert_eq!(info.wheel_type, WheelType::Minute);
    assert_eq!(info.slot_num, 0);

    // The second hand turns over while the minute hand stands at 0: the
    // minute hand moves to 1 and slot 1 is cascaded, so task 1 stays.
    multi_wheel.set_wheel_positions(59, 0, 11);
    multi_wheel.tick();

    let info = multi_wheel.get_task_tracking_info(1).unwrap();
    assert!(!(info.wheel_type == WheelType::Second && info.slot_num == 0));
}

#[test]
fn test_tick_with_hour_cascade() {
    let mut multi_wheel = MulitWheel::<()>::new();

    multi_wheel.set_wheel_positions(59, 59, 0);
    // Due at 23:59:59 of the same day: guide (59, 59, 23, round 0).
    add_in(&mut multi_wheel, task(2, 3600), 23 * 3600);
    let info = multi_wheel.get_task_tracking_info(2).unwrap();
    assert_eq!(info.cascade_guide, guide(59, Some(59), Some(23), 0));

    multi_wheel.tick();

    let info = multi_wheel.get_task_tracking_info(2).unwrap();
    assert!(!(info.wheel_type == WheelType::Minute && info.slot_num == 0));
}

#[test]
fn test_task_tracking_add_and_query() {
    let mut wheel = MulitWheel::<()>::new();
    let task = task(100, 10);

    wheel.add_task(task).unwrap();

    let tracking_info = wheel.get_task_tracking_info(100).unwrap();
    assert_eq!(tracking_info.task_id, 100);
    assert_eq!(tracking_info.wheel_type, WheelType::Second);
}

#[test]
fn test_task_tracking_cascade_minute_to_second() {
    let mut wheel = MulitWheel::<()>::new();
    let task = task(101, 65);

    wheel.add_task(task).unwrap();

    let initial_info = wheel.get_task_tracking_info(101).unwrap();
    assert_eq!(initial_info.task_id, 101);
    assert_eq!(initial_info.wheel_type, WheelType::Minute);

    // The task waits in the minute slot that the minute hand reaches next.
    wheel.set_wheel_positions(0, initial_info.slot_num, 0);
    wheel.cascade_minute_tasks();

    let updated_info = wheel.get_task_tracking_info(101).unwrap();
    assert_eq!(updated_info.wheel_type, WheelType::Second);
}

#[test]
fn test_task_tracking_cascade_hour_to_minute() {
    let mut wheel = MulitWheel::<()>::new();
    let task = task(102, 3665);

    wheel.add_task(task).unwrap();
    let info = wheel.get_task_tracking_info(102).unwrap();
    assert_eq!(info.wheel_type, WheelType::Hour);
    assert_eq!(info.slot_num, 1);

    // The hour hand stands at 0: slot 1 is not cascaded.
    wheel.cascade_hour_tasks();

    if let Some(updated_info) = wheel.get_task_tracking_info(102) {
        assert_eq!(updated_info.wheel_type, WheelType::Hour);
    }
}

#[test]
fn test_task_tracking_remove() {
    let mut wheel = MulitWheel::<()>::new();
    let task = task(103, 5);

    wheel.add_task(task).unwrap();

    assert!(wheel.get_task_tracking_info(103).is_some());

    let removed_task = wheel.remove_task(103);
    assert!(removed_task.is_some());

    assert!(wheel.get_task_tracking_info(103).is_none());
}

#[test]
fn test_task_tracking_info_structure() {
    let cascade_guide = WheelCascadeGuide { sec: 10, min: Some(20), hour: Some(3), round: 1 };

    let tracking_info = TaskTrackingInfo {
        task_id: 999,
        cascade_guide,
        wheel_type: WheelType::Minute,
        slot_num: 20,
    };

    assert_eq!(tracking_info.task_id, 999);
    assert_eq!(tracking_info.cascade_guide.sec, 10);
    assert_eq!(tracking_info.cascade_guide.min, Some(20));
    assert_eq!(tracking_info.cascade_guide.hour, Some(3));
    assert_eq!(tracking_info.cascade_guide.round, 1);
    assert_eq!(tracking_info.wheel_type, WheelType::Minute);
    assert_eq!(tracking_info.slot_num, 20);
}

#[test]
fn no_carry_placement_lands_in_second_wheel() {
    let mut wheel = MulitWheel::<()>::new();
    wheel.set_wheel_positions(30, 20, 10);
    add_in(&mut wheel, task(1, 100), 5);
    let info = wheel.get_task_tracking_info(1).unwrap();
    assert_eq!(info.cascade_guide, guide(35, None, None, 0));
    assert_eq!(info.wheel_type, WheelType::Second);
    assert_eq!(info.slot_num, 35);
}

#[test]
fn second_carry_placement_lands_in_minute_wheel() {
    let mut wheel = MulitWheel::<()>::new();
    wheel.set_wheel_positions(58, 20, 10);
    add_in(&mut wheel, task(1, 100), 5);
    let info = wheel.get_task_tracking_info(1).unwrap();
    assert_eq!(info.cascade_guide, guide(3, Some(21), None, 0));
    assert_eq!(info.wheel_type, WheelType::Minute);
    assert_eq!(info.slot_num, 21);
}

#[test]
fn minute_carry_placement_lands_in_hour_wheel() {
    let mut wheel = MulitWheel::<()>::new();
    wheel.set_wheel_positions(50, 59, 10);
    add_in(&mut wheel, task(1, 100), 20);
    let info = wheel.get_task_tracking_info(1).unwrap();
    assert_eq!(info.cascade_guide, guide(10, Some(0), Some(11), 0));
    assert_eq!(info.wheel_type, WheelType::Hour);
    assert_eq!(info.slot_num, 11);
}

#[test]
fn day_round_waits_one_more_day() {
    let mut wheel = MulitWheel::<()>::new();
    wheel.set_wheel_positions(55, 59, 23);
    add_in(&mut wheel, task(1, 100), 10);
    let info = wheel.get_task_tracking_info(1).unwrap();
    assert_eq!(info.cascade_guide, guide(5, Some(0), Some(0), 1));
    assert_eq!(info.wheel_type, WheelType::Hour);
    assert_eq!(info.slot_num, 0);

    // First encounter: the round drops to 0 and the task stays.
    for _ in 0..5 {
        wheel.tick();
    }
    assert_eq!(wheel.get_wheel_positions(), (0, 0, 0));
    let info = wheel.get_task_tracking_info(1).unwrap();
    assert_eq!(info.cascade_guide, guide(5, Some(0), Some(0), 0));
    assert_eq!(info.wheel_type, WheelType::Hour);
    assert_eq!(info.slot_num, 0);

    // Second encounter, a day later: down to the minute wheel.
    wheel.set_wheel_positions(59, 59, 23);
    assert_eq!(wheel.tick(), Some(1));
    let info = wheel.get_task_tracking_info(1).unwrap();
    assert_eq!(info.cascade_guide, guide(5, Some(0), None, 0));
    assert_eq!(info.wheel_type, WheelType::Minute);
    assert_eq!(info.slot_num, 0);
}

#[test]
fn extended_range_placement() {
    let mut wheel = MulitWheel::<()>::new();
    wheel.set_wheel_positions(40, 30, 20);
    add_in(&mut wheel, task(1, 200000), 100000);
    let info = wheel.get_task_tracking_info(1).unwrap();
    assert_eq!(info.cascade_guide, guide(20, Some(17), Some(0), 2));
    assert_eq!(info.wheel_type, WheelType::Hour);
    assert_eq!(info.slot_num, 0);
    // The guide designates the moment exactly delta seconds after the hands.
    let target = 86400 * 2 + 3600 * 0 + 60 * 17 + 20;
    let now = 3600 * 20 + 60 * 30 + 40;
    assert_eq!(target - now, 100000);
}

#[test]
fn minute_cascade_brings_task_to_second_slot_zero_and_it_arrives() {
    let mut wheel = MulitWheel::<()>::new();
    // Pre-place task 1 in minute slot 0 with guide.sec = 0.
    wheel.set_wheel_positions(59, 59, 10);
    add_in(&mut wheel, task(1, 60), 1);
    wheel.tick();
    let info = wheel.get_task_tracking_info(1).unwrap();
    assert_eq!(info.cascade_guide, guide(0, Some(0), None, 0));
    assert_eq!((info.wheel_type, info.slot_num), (WheelType::Minute, 0));

    // The minute hand reaches 0 on the next turn of the second hand.
    wheel.set_wheel_positions(59, 59, 11);
    wheel.tick();
    let info = wheel.get_task_tracking_info(1).unwrap();
    assert_eq!((info.wheel_type, info.slot_num), (WheelType::Second, 0));
    assert_eq!(wheel.get_wheel_positions().0, 0);
    assert_eq!(wheel.arrival_time_tasks(), vec![1]);
}

#[test]
fn minute_cascade_moves_task_on_the_carry_tick() {
    let mut wheel = MulitWheel::<()>::new();
    wheel.set_wheel_positions(58, 20, 10);
    add_in(&mut wheel, task(7, 100), 2);
    let info = wheel.get_task_tracking_info(7).unwrap();
    assert_eq!((info.wheel_type, info.slot_num), (WheelType::Minute, 21));
    wheel.tick();
    assert!(wheel.arrival_time_tasks().is_empty());
    wheel.tick();
    assert_eq!(wheel.get_wheel_positions(), (0, 21, 10));
    let info = wheel.get_task_tracking_info(7).unwrap();
    assert_eq!(info.cascade_guide, guide(0, None, None, 0));
    assert_eq!(wheel.arrival_time_tasks(), vec![7]);
}

#[test]
fn remove_is_idempotent() {
    let mut wheel = MulitWheel::<()>::new();
    add_in(&mut wheel, task(42, 100), 65);
    assert_eq!(wheel.get_task_tracking_info(42).unwrap().wheel_type, WheelType::Minute);
    let removed = wheel.remove_task(42);
    assert_eq!(removed.map(|t| t.task_id), Some(42));
    assert!(wheel.remove_task(42).is_none());
    assert!(wheel.get_task_tracking_info(42).is_none());
}

#[test]
fn adding_an_id_again_replaces_the_earlier_placement() {
    let mut wheel = MulitWheel::<()>::new();
    add_in(&mut wheel, task(9, 100), 65);
    add_in(&mut wheel, task(9, 100), 5);
    let info = wheel.get_task_tracking_info(9).unwrap();
    assert_eq!((info.wheel_type, info.slot_num), (WheelType::Second, 5));
    let removed = wheel.remove_task(9).unwrap();
    assert_eq!(removed.cascade_guide, guide(5, None, None, 0));
    assert!(wheel.remove_task(9).is_none());
}

#[test]
fn past_due_task_lands_under_the_second_hand() {
    let mut wheel = MulitWheel::<()>::new();
    wheel.set_wheel_positions(17, 3, 4);
    let t = task(11, 10);
    let fire = t.frequency.peek_alarm_timestamp().unwrap();
    wheel.add_task_at(t, fire + 100).unwrap();
    let info = wheel.get_task_tracking_info(11).unwrap();
    assert_eq!((info.wheel_type, info.slot_num), (WheelType::Second, 17));
}

#[test]
fn drained_task_is_not_added() {
    let mut wheel = MulitWheel::<()>::new();
    let mut t = task(12, 10);
    assert!(t.next_alarm_timestamp().is_some());
    assert!(t.next_alarm_timestamp().is_none());
    wheel.add_task(t).unwrap();
    assert!(wheel.get_task_tracking_info(12).is_none());
}

#[test]
fn added_task_keeps_its_advanced_frequency() {
    let mut wheel = MulitWheel::<()>::new();
    let t = TaskBuilder::new(13).with_frequency_repeated_by_seconds(30).spwan_async(()).unwrap();
    let first = t.frequency.peek_alarm_timestamp().unwrap();
    wheel.add_task_at(t, first - 30).unwrap();
    let mut removed = wheel.remove_task(13).unwrap();
    assert_eq!(removed.next_alarm_timestamp(), Some(first + 30));
}

#[test]
fn hands_after_many_ticks() {
    let mut wheel = MulitWheel::<()>::new();
    let n: u64 = 90061;
    let mut day_turns = 0;
    for _ in 0..n {
        if wheel.tick().is_some() {
            day_turns += 1;
        }
    }
    assert_eq!(wheel.get_wheel_positions(), (n % 60, (n / 60) % 60, (n / 3600) % 24));
    assert_eq!(wheel.get_wheel_positions(), (1, 1, 1));
    assert_eq!(day_turns, 1);
}

#[test]
fn index_follows_tasks_through_ticks() {
    let mut wheel = MulitWheel::<()>::new();
    for (id, delta) in [(1u64, 3u64), (2, 61), (3, 3661), (4, 90061)] {
        add_in(&mut wheel, task(id, 200000), delta);
    }
    let mut fired: Vec<(u64, u64)> = Vec::new();
    for second in 1..=90061u64 {
        wheel.tick();
        for id in wheel.arrival_time_tasks() {
            fired.push((id, second));
            assert!(wheel.remove_task(id).is_some());
        }
    }
    assert_eq!(fired, vec![(1, 3), (2, 61), (3, 3661), (4, 90061)]);
}

#[test]
fn slot_insert_update_remove_and_shrink() {
    let mut slot: Slot<()> = Slot::new();
    assert!(slot.add_task(task(1, 10)).is_none());
    assert!(slot.add_task(task(1, 20)).is_some());
    assert!(slot.update_task(task(2, 10)).is_none());
    assert!(slot.update_task(task(2, 30)).is_some());
    slot.shrink();
    assert!(slot.contains_task(1) && slot.contains_task(2));
    let mut ids = slot.task_ids();
    ids.sort();
    assert_eq!(ids, vec![1, 2]);
    let mut arrived = slot.arrival_time_tasks();
    arrived.sort();
    assert_eq!(arrived, vec![1, 2]);
    assert_eq!(slot.remove_task(1).map(|t| t.task_id), Some(1));
    assert!(slot.remove_task(1).is_none());
    let rest = slot.take_tasks();
    assert_eq!(rest.len(), 1);
    assert_eq!(rest[0].task_id, 2);
}

#[test]
fn take_arrived_tasks_drains_only_the_due_slot() {
    let mut wheel = MulitWheel::<()>::new();
    add_in(&mut wheel, task(1, 100), 2);
    add_in(&mut wheel, task(2, 100), 2);
    add_in(&mut wheel, task(3, 100), 3);
    wheel.tick();
    assert!(wheel.take_arrived_tasks().is_empty());
    wheel.tick();
    let mut due: Vec<u64> = wheel.take_arrived_tasks().iter().map(|t| t.task_id).collect();
    due.sort();
    assert_eq!(due, vec![1, 2]);
    assert!(wheel.get_task_tracking_info(1).is_none());
    assert!(wheel.get_task_tracking_info(2).is_none());
    assert!(wheel.get_task_tracking_info(3).is_some());
    assert!(wheel.take_arrived_tasks().is_empty());
    wheel.tick();
    let due: Vec<u64> = wheel.take_arrived_tasks().iter().map(|t| t.task_id).collect();
    assert_eq!(due, vec![3]);
}

#[test]
fn recurring_task_fires_every_period() {
    let mut wheel = MulitWheel::<()>::new();
    let t = TaskBuilder::new(5).with_frequency_repeated_by_seconds(90).spwan_async(()).unwrap();
    let start = t.frequency.peek_alarm_timestamp().unwrap() - 90;
    wheel.add_task_at(t, start).unwrap();
    let mut fired: Vec<u64> = Vec::new();
    for second in 1..=300u64 {
        wheel.tick();
        for t in wheel.take_arrived_tasks() {
            fired.push(second);
            wheel.add_task_at(t, start + second).unwrap();
        }
    }
    assert_eq!(fired, vec![90, 180, 270]);
}
