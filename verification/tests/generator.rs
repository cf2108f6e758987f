use std::collections::HashSet;
use std::time::Duration;
use std::time::Instant;
use std::time::SystemTime;
use std::time::UNIX_EPOCH;
use tsid::TsidConfig;
use tsid::TsidGenerator;
use tsid::DEFAULT_CUSTOM_EPOCH;
use tsid::TIMESTAMP_BITS;

fn wait_for(pause: Duration) {
    let start = Instant::now();
    while start.elapsed() < pause {
        std::hint::spin_loop();
    }
}

#[test]
fn test_custom_config() {
    let config = TsidConfig::builder()
        .node_bits(12) // 4096 nodes
        .custom_epoch(DEFAULT_CUSTOM_EPOCH)
        .build();

    let generator = TsidGenerator::with_config(1023, config);
    assert_eq!(generator.max_node_id(), 4095);
    assert_eq!(generator.max_sequence(), 1023);

    let tsid = generator.generate().unwrap();
    let (_, node, sequence) = generator.extract_from_tsid(tsid);

    assert!(node <= 4095, "Node ID exceeds maximum");
    assert!(sequence <= 1023, "Sequence exceeds maximum");
}

#[test]
fn test_tsid_generation() {
    let generator = TsidGenerator::new(1);
    let tsid = generator.generate().unwrap();
    assert!(tsid > 0);
}

#[test]
fn test_tsid_components() {
    let generator = TsidGenerator::new(42);
    let tsid = generator.generate().unwrap();
    let (timestamp, node, sequence) = generator.extract_from_tsid(tsid);

    assert_eq!(node, 42);
    assert_eq!(sequence, 0);
    assert!(timestamp > 0);
}

#[test]
fn test_sequential_generation() {
    let generator = TsidGenerator::new(1);
    let tsid1 = generator.generate().unwrap();
    let tsid2 = generator.generate().unwrap();
    assert!(tsid2 > tsid1);
}

#[test]
fn test_node_id_boundaries() {
    // Test minimum node ID
    let gen0 = TsidGenerator::new(0);
    let tsid0 = gen0.generate().unwrap();
    let (_, node0, _) = gen0.extract_from_tsid(tsid0);
    assert_eq!(node0, 0);

    // Test maximum node ID
    let gen1023 = TsidGenerator::new(1023);
    let tsid1023 = gen1023.generate().unwrap();
    let (_, node1023, _) = gen1023.extract_from_tsid(tsid1023);
    assert_eq!(node1023, 1023);
}

#[test]
fn test_sequence_rollover() {
    let generator = TsidGenerator::new(1);

    // Generate IDs until sequence rolls over
    for _ in 0..1025 {
        let tsid = generator.generate().unwrap();
        let (_, _, sequence) = generator.extract_from_tsid(tsid);

        // Sequence should never exceed max
        assert!(
            sequence <= generator.max_sequence(),
            "Sequence {} exceeded maximum {}",
            sequence,
            generator.max_sequence()
        );

        // If sequence is less than last, we've rolled over
        if sequence < 1024 {
            return; // Test passed
        }
    }

    panic!("Sequence did not roll over as expected");
}

#[test]
fn test_timestamp_monotonicity() {
    let generator = TsidGenerator::new(1);
    let mut last_timestamp = 0;

    for _ in 0..100 {
        let tsid = generator.generate().unwrap();
        let (timestamp, _, _) = generator.extract_from_tsid(tsid);
        assert!(timestamp >= last_timestamp);
        last_timestamp = timestamp;

        // Add small delay to ensure timestamp changes
        wait_for(Duration::from_millis(1));
    }
}

#[test]
fn test_component_max_values() {
    let generator = TsidGenerator::new(1023);
    let tsid = generator.generate().unwrap();
    let (timestamp, node, sequence) = generator.extract_from_tsid(tsid);

    assert!(timestamp <= generator.bit_config().timestamp_mask);
    assert!(node <= generator.bit_config().max_node);
    assert!(sequence <= generator.bit_config().max_sequence);
}

#[test]
fn test_unique_ids_across_nodes() {
    let gen1 = TsidGenerator::new(1);
    let gen2 = TsidGenerator::new(2);

    let mut ids = HashSet::new();

    // Generate IDs from both generators
    for _ in 0..1000 {
        ids.insert(gen1.generate().unwrap());
        ids.insert(gen2.generate().unwrap());
    }

    // Verify all IDs are unique
    assert_eq!(ids.len(), 2000);
}

#[test]
fn test_bit_layout() {
    let node_id = 42;
    let generator = TsidGenerator::new(node_id);
    let tsid = generator.generate().unwrap();

    // Extract components using bit masks directly
    let timestamp =
        (tsid >> generator.bit_config().timestamp_shift) & generator.bit_config().timestamp_mask;
    let node =
        ((tsid >> generator.bit_config().node_shift) & generator.bit_config().node_mask as u64) as u32;
    let sequence = (tsid & generator.bit_config().sequence_mask as u64) as u32;

    // Verify using the public extract function
    let (ext_timestamp, ext_node, ext_sequence) = generator.extract_from_tsid(tsid);

    // Compare both extraction methods
    assert_eq!(timestamp, ext_timestamp);
    assert_eq!(node, ext_node);
    assert_eq!(sequence, ext_sequence);
    assert_eq!(node, node_id);
}

#[test]
fn test_epoch_handling() {
    let generator = TsidGenerator::new(1);
    let tsid = generator.generate().unwrap();
    let (timestamp, _, _) = generator.extract_from_tsid(tsid);

    // Get current time relative to Unix epoch
    let now = SystemTime::now().duration_since(UNIX_EPOCH).unwrap().as_millis() as u64;

    // Calculate expected timestamp relative to custom epoch
    let expected_timestamp = now.saturating_sub(generator.config().custom_epoch());

    // Allow small difference due to test execution time
    let diff = if expected_timestamp > timestamp {
        expected_timestamp - timestamp
    } else {
        timestamp - expected_timestamp
    };

    assert!(diff < 1000, "Timestamp difference should be less than 1 second");
}

#[test]
fn test_rapid_generation() {
    let generator = TsidGenerator::new(1);
    let mut last_id = 0;

    // Generate IDs as fast as possible
    for _ in 0..10_000 {
        let id = generator.generate().unwrap();
        assert!(id > last_id, "ID not monotonically increasing");
        last_id = id;
    }
}

#[test]
fn test_component_boundaries() {
    let generator = TsidGenerator::new(1023);
    let _tsid = generator.generate().unwrap();

    // Test maximum values for each component
    let max_timestamp = (1u64 << TIMESTAMP_BITS) - 1;
    let max_node = (1u32 << generator.config().node_bits()) - 1;
    let max_sequence = (1u32 << generator.config().sequence_bits()) - 1;

    // Create a TSID with maximum values
    let max_tsid = ((max_timestamp & generator.bit_config().timestamp_mask)
        << generator.bit_config().timestamp_shift)
        | ((max_node as u64 & generator.bit_config().node_mask as u64)
            << generator.bit_config().node_shift)
        | (max_sequence as u64 & generator.bit_config().sequence_mask as u64);

    // Extract and verify components
    let (ts, node, seq) = generator.extract_from_tsid(max_tsid);
    assert_eq!(ts, max_timestamp);
    assert_eq!(node, max_node);
    assert_eq!(seq, max_sequence);

    // Verify no bits are set outside their designated positions
    let total_bits = TIMESTAMP_BITS as u32
        + generator.config().node_bits() as u32
        + generator.config().sequence_bits() as u32;

    // Create a mask for all valid bits
    let valid_bits_mask = ((1u64 << generator.config().sequence_bits()) - 1)
        | (((1u64 << generator.config().node_bits()) - 1) << generator.bit_config().node_shift)
        | (((1u64 << TIMESTAMP_BITS) - 1) << generator.bit_config().timestamp_shift);

    // Check that there are no bits set outside our valid bits
    assert_eq!(max_tsid & !valid_bits_mask, 0, "Found set bits outside of designated positions");

    // Verify total bits used is correct
    assert_eq!(total_bits, 64, "Total bits {} should equal 64", total_bits);
}

#[test]
fn test_zero_node_id() {
    let generator = TsidGenerator::new(0);
    let tsid = generator.generate().unwrap();
    let (_, node, _) = generator.extract_from_tsid(tsid);
    assert_eq!(node, 0, "Node ID should be preserved as 0");
}

#[test]
fn test_sequence_restart_on_overflow() {
    let generator = TsidGenerator::new(1);

    // Generate multiple IDs in the same millisecond
    let first_id = generator.generate().unwrap();
    let mut last_id = first_id;

    for _ in 0..100 {
        let current_id = generator.generate().unwrap();
        assert!(current_id > last_id, "Generated ID should be greater than previous");
        last_id = current_id;
    }

    // Extract components
    let (first_ts, _, first_seq) = generator.extract_from_tsid(first_id);
    let (last_ts, _, last_seq) = generator.extract_from_tsid(last_id);

    // If timestamps are the same, sequence should have increased
    if first_ts == last_ts {
        assert!(last_seq > first_seq, "Sequence should increase within same millisecond");
    } else {
        // If timestamps are different, we can't make assumptions about sequence
        assert!(last_ts > first_ts, "Timestamp should increase");
    }
}
