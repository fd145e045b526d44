use timing_wheel::error::TaskError;
use timing_wheel::task::{FrequencySeconds, FrequencyState, TaskBuilder};
use timing_wheel::utils::timestamp;

#[test]
fn test_frequency_state_from_once() {
    let freq = FrequencySeconds::Once(10);
    let mut state = FrequencyState::from(freq);

    // For Once, we should get a timestamp in the future
    let now = timestamp();
    let alarm = state.peek_alarm_timestamp().unwrap();
    assert!(alarm >= now + 10);

    // Next call should give the same timestamp (peek doesn't advance)
    let alarm2 = state.peek_alarm_timestamp().unwrap();
    assert_eq!(alarm, alarm2);

    // next_alarm_timestamp should advance the state
    let alarm3 = state.next_alarm_timestamp().unwrap();
    assert_eq!(alarm, alarm3);
}

#[test]
fn test_frequency_state_from_repeated() {
    let freq = FrequencySeconds::Repeated(5);
    let mut state = FrequencyState::from(freq);

    let now = timestamp();
    let alarm1 = state.next_alarm_timestamp().unwrap();
    assert_eq!(alarm1, now + 5);

    let alarm2 = state.next_alarm_timestamp().unwrap();
    assert_eq!(alarm2, now + 10);

    let alarm3 = state.next_alarm_timestamp().unwrap();
    assert_eq!(alarm3, now + 15);
}

#[test]
fn test_frequency_state_from_countdown() {
    let freq = FrequencySeconds::CountDown(2, 5); // count_down=2, seconds=5
    let state = FrequencyState::from(freq);

    match state {
        FrequencyState::SecondsCountDown(count, _) => assert_eq!(count, 2),
        _ => panic!("Expected SecondsCountDown variant"),
    }
}

#[test]
fn test_peek_alarm_timestamp() {
    let freq = FrequencySeconds::Repeated(10);
    let mut state = FrequencyState::from(freq);

    let peek1 = state.peek_alarm_timestamp().unwrap();
    let peek2 = state.peek_alarm_timestamp().unwrap();
    assert_eq!(peek1, peek2);

    let next1 = state.next_alarm_timestamp().unwrap();
    assert_eq!(peek1, next1);

    let peek3 = state.peek_alarm_timestamp().unwrap();
    assert_ne!(peek1, peek3);
}

#[test]
fn repeated_times_are_one_period_apart() {
    let mut state = FrequencyState::from_timestamp(FrequencySeconds::Repeated(7), 1000);
    let mut previous = state.next_alarm_timestamp().unwrap();
    assert_eq!(previous, 1007);
    for _ in 0..100 {
        let next = state.next_alarm_timestamp().unwrap();
        assert_eq!(next, previous + 7);
        previous = next;
    }
}

#[test]
fn countdown_yields_exactly_count_times() {
    let mut state = FrequencyState::from_timestamp(FrequencySeconds::CountDown(3, 7), 1000);
    assert_eq!(state.next_alarm_timestamp(), Some(1007));
    assert_eq!(state.next_alarm_timestamp(), Some(1014));
    assert_eq!(state.next_alarm_timestamp(), Some(1021));
    assert_eq!(state.peek_alarm_timestamp(), None);
    assert_eq!(state.next_alarm_timestamp(), None);
    assert_eq!(state.next_alarm_timestamp(), None);
}

#[test]
fn countdown_of_zero_yields_nothing() {
    let mut state = FrequencyState::from_timestamp(FrequencySeconds::CountDown(0, 7), 1000);
    assert_eq!(state.next_alarm_timestamp(), None);
}

#[test]
fn once_fires_a_single_time() {
    let mut state = FrequencyState::from_timestamp(FrequencySeconds::Once(60), 500);
    assert_eq!(state.peek_alarm_timestamp(), Some(560));
    assert_eq!(state.next_alarm_timestamp(), Some(560));
    assert_eq!(state.next_alarm_timestamp(), None);
}

#[test]
fn sequence_stops_at_the_end_of_u64() {
    let mut state = FrequencyState::from_timestamp(FrequencySeconds::Repeated(10), u64::MAX - 15);
    assert_eq!(state.next_alarm_timestamp(), Some(u64::MAX - 5));
    assert_eq!(state.next_alarm_timestamp(), None);
    let mut late = FrequencyState::from_timestamp(FrequencySeconds::Repeated(10), u64::MAX - 5);
    assert_eq!(late.next_alarm_timestamp(), None);
}

#[test]
fn down_count_saturates_at_zero() {
    let mut state = FrequencyState::from_timestamp(FrequencySeconds::CountDown(1, 5), 0);
    state.down_count();
    assert_eq!(state.peek_alarm_timestamp(), None);
    state.down_count();
    match state {
        FrequencyState::SecondsCountDown(count, _) => assert_eq!(count, 0),
        _ => panic!("expected a countdown"),
    }
    let mut repeated = FrequencyState::from_timestamp(FrequencySeconds::Repeated(5), 0);
    repeated.down_count();
    assert_eq!(repeated.peek_alarm_timestamp(), Some(5));
}

#[test]
fn default_frequency_is_once_a_minute() {
    assert_eq!(FrequencySeconds::default(), FrequencySeconds::Once(60));
    let builder = TaskBuilder::new(7);
    assert_eq!(builder.task_id, 7);
    assert_eq!(builder.frequency, FrequencySeconds::Once(60));
}

#[test]
fn builder_sets_each_frequency() {
    let mut builder = TaskBuilder::new(1);
    builder.with_frequency_repeated_by_seconds(9);
    assert_eq!(builder.frequency, FrequencySeconds::Repeated(9));
    builder.with_frequency_count_down_by_seconds(4, 3);
    assert_eq!(builder.frequency, FrequencySeconds::CountDown(4, 3));
    builder.with_frequency_once_by_seconds(2);
    assert_eq!(builder.frequency, FrequencySeconds::Once(2));
}

#[test]
fn spawn_refuses_a_zero_period() {
    let result = TaskBuilder::new(3).with_frequency_repeated_by_seconds(0).spwan_async(());
    assert!(matches!(result, Err(TaskError::InvalidFrequency(_))));
}

#[test]
fn spawn_carries_id_and_runner() {
    let task = TaskBuilder::new(5)
        .with_frequency_count_down_by_seconds(2, 30)
        .spwan_async("runner")
        .unwrap();
    assert_eq!(task.task_id, 5);
    assert_eq!(task.runner, "runner");
    assert!(task.is_arrived());
    match task.frequency {
        FrequencyState::SecondsCountDown(count, _) => assert_eq!(count, 2),
        _ => panic!("expected a countdown"),
    }
}

#[test]
fn once_by_timestamp_in_the_past_is_refused() {
    let mut builder = TaskBuilder::new(1);
    let result = builder.with_frequency_once_by_timestamp_seconds_at(100, 100);
    assert!(matches!(result, Err(TaskError::InvalidFrequency(_))));
    let result = builder.with_frequency_once_by_timestamp_seconds(1);
    assert!(matches!(result, Err(TaskError::InvalidFrequency(_))));
    assert_eq!(builder.frequency, FrequencySeconds::Once(60));
}

#[test]
fn once_by_timestamp_in_the_future_sets_the_gap() {
    let mut builder = TaskBuilder::new(1);
    builder.with_frequency_once_by_timestamp_seconds_at(130, 100).unwrap();
    assert_eq!(builder.frequency, FrequencySeconds::Once(30));
    let future = timestamp() + 1000;
    builder.with_frequency_once_by_timestamp_seconds(future).unwrap();
    match builder.frequency {
        FrequencySeconds::Once(gap) => assert!(gap > 0 && gap <= 1000),
        _ => panic!("expected a one-shot frequency"),
    }
}

#[test]
fn wall_clock_is_after_the_epoch() {
    assert!(timestamp() > 1_600_000_000);
}
