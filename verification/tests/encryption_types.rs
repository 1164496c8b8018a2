//! Key types and the filter for keys that arrive out of order.

use matrix_rtc::encryption::types::{EncryptionConfig, OutdatedKeyFilter, ParticipantDeviceInfo};

#[test]
fn test_participant_device_info_map_key() {
    let info = ParticipantDeviceInfo {
        user_id: "@alice:example.org".to_string(),
        device_id: "device123".to_string(),
        member_id: "xyzABCDEF0123".to_string(),
        membership_ts: None,
    };

    assert_eq!(info.map_key(), "xyzABCDEF0123");
}

#[test]
fn test_encryption_config_default() {
    let config = EncryptionConfig::default();

    assert_eq!(config.delay_before_use_ms, 5000);
    assert_eq!(config.key_rotation_grace_period_ms, 10_000);
    assert!(config.manage_media_keys);
}

#[test]
fn test_outdated_key_filter_not_outdated() {
    let filter = OutdatedKeyFilter::default();

    let member_id = "@alice:example.org:device123".to_string();

    // First key at index 0 with timestamp 1000 - should not be outdated
    assert!(!filter.is_outdated(&member_id, 0, 1000));
}

#[test]
fn test_outdated_key_filter_same_index_newer_timestamp() {
    let mut filter = OutdatedKeyFilter::default();

    let member_id = "@alice:example.org:device123".to_string();

    // Add key at index 0 with timestamp 1000
    filter
        .buffer
        .insert("@alice:example.org:device123:0".to_string(), 1000);

    // New key at same index with newer timestamp 2000 - should not be outdated
    assert!(!filter.is_outdated(&member_id, 0, 2000));

    // New key at same index with older timestamp 500 - should be outdated
    assert!(filter.is_outdated(&member_id, 0, 500));
}

#[test]
fn test_outdated_key_filter_different_index() {
    let mut filter = OutdatedKeyFilter::default();

    let member_id = "@alice:example.org:device123".to_string();

    // Add key at index 0 with timestamp 1000
    filter
        .buffer
        .insert("@alice:example.org:device123:0".to_string(), 1000);

    // Key at index 1 should not be outdated regardless of timestamp
    assert!(!filter.is_outdated(&member_id, 1, 500));
    assert!(!filter.is_outdated(&member_id, 1, 2000));
}

#[test]
fn test_outdated_key_filter_check_and_add() {
    let mut filter = OutdatedKeyFilter::default();

    let member_id = "@alice:example.org:device123".to_string();

    // First key at index 0 with ts=1000 - not outdated, should be added
    assert!(!filter.check_and_add(member_id.clone(), 0, 1000));
    assert!(filter.buffer.contains_key("@alice:example.org:device123:0"));

    // Second key at index 0 with ts=500 - outdated, should NOT be added
    assert!(filter.check_and_add(member_id.clone(), 0, 500));
    // Buffer should still have the first key
    assert_eq!(
        filter.buffer.get("@alice:example.org:device123:0"),
        Some(&1000)
    );

    // Third key at index 0 with ts=2000 - not outdated, should replace
    assert!(!filter.check_and_add(member_id.clone(), 0, 2000));
    assert_eq!(
        filter.buffer.get("@alice:example.org:device123:0"),
        Some(&2000)
    );
}

#[test]
fn test_outdated_key_filter_cleanup() {
    let mut filter = OutdatedKeyFilter::with_ttl(1000); // 1 second TTL

    // Add old key
    filter
        .buffer
        .insert("@alice:example.org:device123:0".to_string(), 1000);

    // Cleanup at ts=3000 - should remove key older than 1000ms
    filter.cleanup(3000);
    assert!(filter.buffer.is_empty());

    // Add recent key
    filter
        .buffer
        .insert("@alice:example.org:device123:0".to_string(), 2500);

    // Cleanup at ts=3000 - should keep key (only 500ms old)
    filter.cleanup(3000);
    assert!(!filter.buffer.is_empty());
}
