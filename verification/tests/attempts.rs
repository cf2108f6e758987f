use std::collections::HashSet;
use tsid::sequence::TickState;
use tsid::GenerateError;
use tsid::TsidConfig;
use tsid::TsidGenerator;

fn fields_at(generator: &TsidGenerator, timestamp: u64) -> Option<(u64, u32, u32)> {
    generator.generate_at(timestamp).map(|id| generator.extract_from_tsid(id))
}

#[test]
fn new_tick_starts_at_sequence_zero() {
    let generator = TsidGenerator::new(7);
    assert_eq!(fields_at(&generator, 100), Some((100, 7, 0)));
    assert_eq!(fields_at(&generator, 101), Some((101, 7, 0)));
    assert_eq!(fields_at(&generator, 5_000), Some((5_000, 7, 0)));
}

#[test]
fn same_tick_counts_up_by_one() {
    let generator = TsidGenerator::new(7);
    assert_eq!(fields_at(&generator, 100), Some((100, 7, 0)));
    assert_eq!(fields_at(&generator, 100), Some((100, 7, 1)));
    assert_eq!(fields_at(&generator, 100), Some((100, 7, 2)));
    assert_eq!(fields_at(&generator, 101), Some((101, 7, 0)));
    assert_eq!(fields_at(&generator, 101), Some((101, 7, 1)));
}

#[test]
fn exact_identifiers_of_three_attempts() {
    let generator = TsidGenerator::new(42);
    // 1 * 2^22 + 42 * 2^12 + sequence
    assert_eq!(generator.generate_at(1), Some(4366336));
    assert_eq!(generator.generate_at(1), Some(4366337));
    // 2 * 2^22 + 42 * 2^12
    assert_eq!(generator.generate_at(2), Some(8560640));
}

#[test]
fn clock_moving_backward_stays_in_the_last_tick() {
    let generator = TsidGenerator::new(3);
    assert_eq!(fields_at(&generator, 500), Some((500, 3, 0)));
    assert_eq!(fields_at(&generator, 499), Some((500, 3, 1)));
    assert_eq!(fields_at(&generator, 0), Some((500, 3, 2)));
    assert_eq!(fields_at(&generator, 500), Some((500, 3, 3)));
    assert_eq!(fields_at(&generator, 501), Some((501, 3, 0)));
}

#[test]
fn exhausted_tick_issues_nothing_until_the_clock_moves() {
    let config = TsidConfig::builder().node_bits(20).build();
    let generator = TsidGenerator::with_config(99, config);
    assert_eq!(generator.max_sequence(), 3);
    assert_eq!(fields_at(&generator, 10), Some((10, 99, 0)));
    assert_eq!(fields_at(&generator, 10), Some((10, 99, 1)));
    assert_eq!(fields_at(&generator, 10), Some((10, 99, 2)));
    assert_eq!(fields_at(&generator, 10), Some((10, 99, 3)));
    assert_eq!(fields_at(&generator, 10), None);
    assert_eq!(fields_at(&generator, 9), None);
    assert_eq!(fields_at(&generator, 10), None);
    assert_eq!(fields_at(&generator, 11), Some((11, 99, 0)));
    assert_eq!(fields_at(&generator, 11), Some((11, 99, 1)));
}

#[test]
fn clock_at_the_epoch_starts_at_sequence_zero() {
    // The first identifier has sequence 0 also where the clock reads the epoch itself.
    let generator = TsidGenerator::new(1023);
    assert_eq!(generator.generate_at(0), Some(4190208));
    assert_eq!(fields_at(&generator, 0), Some((0, 1023, 1)));
    assert_eq!(fields_at(&generator, 0), Some((0, 1023, 2)));
    assert_eq!(fields_at(&generator, 1), Some((1, 1023, 0)));
}

#[test]
fn first_identifier_one_millisecond_after_the_epoch() {
    let generator = TsidGenerator::new(1023);
    assert_eq!(generator.generate_at(1), Some(8384512));
}

#[test]
fn two_calls_in_one_millisecond() {
    let generator = TsidGenerator::new(1);
    assert_eq!(generator.generate_at(5), Some(20975616));
    assert_eq!(generator.generate_at(5), Some(20975617));
}

#[test]
fn clock_two_milliseconds_back_builds_on_the_last_tick() {
    let generator = TsidGenerator::new(1);
    assert_eq!(generator.generate_at(5), Some(20975616));
    assert_eq!(generator.generate_at(3), Some(20975617));
}

#[test]
fn stalled_clock_never_reissues() {
    let generator = TsidGenerator::new(1);
    for sequence in 0..=4095u32 {
        assert_eq!(fields_at(&generator, 7), Some((7, 1, sequence)));
    }
    for _ in 0..70_000 {
        assert_eq!(generator.generate_at(7), None);
        assert_eq!(generator.generate_at(6), None);
    }
    // 9 * 2^22 + 1 * 2^12
    assert_eq!(generator.generate_at(9), Some(37752832));
}

#[test]
fn reading_beyond_the_timestamp_field_issues_nothing() {
    let generator = TsidGenerator::new(1);
    assert_eq!(generator.generate_at(1u64 << 42), None);
    assert_eq!(generator.generate_at(u64::MAX), None);
    assert_eq!(fields_at(&generator, (1u64 << 42) - 1), Some(((1u64 << 42) - 1, 1, 0)));
    assert_eq!(generator.generate_at(1u64 << 42), None);
    assert_eq!(fields_at(&generator, 3), Some(((1u64 << 42) - 1, 1, 1)));
}

#[test]
fn step_from_a_fresh_state() {
    let generator = TsidGenerator::new(1023);
    assert_eq!(
        generator.step(TickState::Fresh, 0),
        (TickState::Issued { tick: 0, sequence: 0 }, Some(4190208))
    );
    assert_eq!(
        generator.step(TickState::Fresh, 1),
        (TickState::Issued { tick: 1, sequence: 0 }, Some(8384512))
    );
    assert_eq!(generator.step(TickState::Fresh, 1u64 << 42), (TickState::Fresh, None));
}

#[test]
fn step_within_past_and_before_the_last_tick() {
    let generator = TsidGenerator::new(1);
    let last = TickState::Issued { tick: 5, sequence: 0 };
    assert_eq!(generator.step(last, 5), (TickState::Issued { tick: 5, sequence: 1 }, Some(20975617)));
    assert_eq!(generator.step(last, 3), (TickState::Issued { tick: 5, sequence: 1 }, Some(20975617)));
    assert_eq!(generator.step(last, 6), (TickState::Issued { tick: 6, sequence: 0 }, Some(25169920)));
}

#[test]
fn step_on_an_exhausted_tick() {
    let generator = TsidGenerator::new(1);
    let full = TickState::Issued { tick: 5, sequence: 4095 };
    assert_eq!(generator.step(full, 5), (full, None));
    assert_eq!(generator.step(full, 0), (full, None));
    assert_eq!(generator.step(full, 9), (TickState::Issued { tick: 9, sequence: 0 }, Some(37752832)));
    let nearly = TickState::Issued { tick: 5, sequence: 4094 };
    assert_eq!(generator.step(nearly, 5), (full, Some(20979711)));
}

#[test]
fn state_words_round_trip() {
    assert_eq!(TickState::Fresh.to_word(), 0);
    assert_eq!(TickState::from_word(0), TickState::Fresh);
    // 1 + 5 * 2^21 + 7
    let state = TickState::Issued { tick: 5, sequence: 7 };
    assert_eq!(state.to_word(), 10485768);
    assert_eq!(TickState::from_word(10485768), state);
    assert_eq!(TickState::from_word(1), TickState::Issued { tick: 0, sequence: 0 });
    let largest = TickState::Issued { tick: (1u64 << 42) - 1, sequence: (1u32 << 21) - 1 };
    assert_eq!(largest.to_word(), 1u64 << 63);
    assert_eq!(TickState::from_word(1u64 << 63), largest);
    assert_eq!(TickState::from_word(u64::MAX).to_word(), u64::MAX - (1u64 << 63));
}

#[test]
fn attempts_give_distinct_increasing_identifiers() {
    let config = TsidConfig::builder().node_bits(18).build();
    let generator = TsidGenerator::with_config(200_000, config);
    let clock: [u64; 12] = [4, 4, 4, 2, 9, 9, 8, 8, 8, 8, 8, 10];
    let mut seen = HashSet::new();
    let mut last = 0u64;
    let mut issued = 0;
    for _ in 0..3 {
        for now in clock {
            if let Some(id) = generator.generate_at(now) {
                assert!(id > last);
                assert!(seen.insert(id));
                assert_eq!(generator.extract_node(id), 200_000);
                assert!(generator.extract_sequence(id) <= generator.max_sequence());
                last = id;
                issued += 1;
            }
        }
    }
    assert_eq!(seen.len(), issued);
    // Tick 4 gets 4 identifiers, tick 9 gets 7, and tick 10 fills up to sequence 15.
    assert_eq!(issued, 4 + 7 + 16);
}

#[test]
fn clone_counts_on_its_own() {
    let generator = TsidGenerator::new(5);
    assert_eq!(fields_at(&generator, 100), Some((100, 5, 0)));
    assert_eq!(fields_at(&generator, 100), Some((100, 5, 1)));
    let copy = generator.clone();
    assert_eq!(fields_at(&copy, 100), Some((100, 5, 2)));
    assert_eq!(fields_at(&generator, 100), Some((100, 5, 2)));
    assert_eq!(fields_at(&copy, 101), Some((101, 5, 0)));
    assert_eq!(fields_at(&generator, 100), Some((100, 5, 3)));
}

#[test]
fn generate_does_not_report_a_stalled_clock_while_it_runs() {
    let generator = TsidGenerator::new(5);
    for _ in 0..100 {
        assert_ne!(generator.generate(), Err(GenerateError::ClockStalled));
    }
}
