use fcross::chain::{key_less, packet_timeout, time_is_ok, NANOS_PER_SECOND, PACKET_LIFETIME_SECONDS};
use fcross::fc_stor::state::TimeInfo;
use fcross::fc_stor::utils::{future_index_to_string, get_timeout, keys_format, time_log_line};
use fcross::render::{bin_rev_u64, bool_string, dec_i64, dec_u64, join_strings};

#[test]
fn decimal_texts() {
    assert_eq!(dec_u64(0), "0");
    assert_eq!(dec_u64(7), "7");
    assert_eq!(dec_u64(1234567890), "1234567890");
    assert_eq!(dec_u64(u64::MAX), u64::MAX.to_string());
    assert_eq!(dec_i64(-42), "-42");
    assert_eq!(dec_i64(0), "0");
    assert_eq!(dec_i64(i64::MIN), i64::MIN.to_string());
    assert_eq!(dec_i64(i64::MAX), i64::MAX.to_string());
}

#[test]
fn boolean_texts() {
    assert_eq!(bool_string(true), "true");
    assert_eq!(bool_string(false), "false");
}

#[test]
fn branch_index_texts() {
    // least significant bit first
    assert_eq!(bin_rev_u64(6), "011");
    assert_eq!(bin_rev_u64(1), "1");
    assert_eq!(future_index_to_string(0), "0");
    assert_eq!(future_index_to_string(5), "101");
    assert_eq!(future_index_to_string(4), "001");
}

#[test]
fn keys_are_joined_with_commas() {
    assert_eq!(keys_format(&vec![1, 2, 3]), "1,01,11");
    assert_eq!(keys_format(&vec![]), "");
    let parts = vec!["a".to_string(), "bc".to_string()];
    assert_eq!(join_strings(&parts, "-"), "a-bc");
}

#[test]
fn time_log_lines_name_the_transaction_and_its_times() {
    let open = TimeInfo { start_time: 10, end_time: None };
    let closed = TimeInfo { start_time: 10, end_time: Some(25) };
    assert_eq!(time_log_line(3, open), "3,10,None");
    assert_eq!(time_log_line(3, closed), "3,10,25");
}

#[test]
fn packets_time_out_after_their_lifetime() {
    let now: u64 = 1_000;
    let expected = now + PACKET_LIFETIME_SECONDS * NANOS_PER_SECOND;
    assert_eq!(packet_timeout(now), expected);
    assert_eq!(packet_timeout(now), 3_600_000_000_001_000);
    assert_eq!(get_timeout(0), 3_600_000_000_000_000);
    assert!(time_is_ok(now));
    assert!(!time_is_ok(u64::MAX));
}

#[test]
fn keys_are_ordered_by_characters() {
    assert!(key_less(&"connection-0".to_string(), &"connection-1".to_string()));
    assert!(!key_less(&"connection-1".to_string(), &"connection-0".to_string()));
    assert!(key_less(&"a".to_string(), &"ab".to_string()));
    assert!(!key_less(&"ab".to_string(), &"ab".to_string()));
    assert!(key_less(&"B".to_string(), &"a".to_string()));
}

#[test]
fn future_indexes_read_back_as_binary() {
    for index in [0u16, 1, 2, 5, 12, 1023, u16::MAX] {
        let s = future_index_to_string(index);
        let reversed: String = s.chars().rev().collect();
        assert_eq!(u16::from_str_radix(&reversed, 2), Ok(index));
        assert!(s.chars().all(|c| c == '0' || c == '1'));
        assert_eq!(index == 0, s == "0");
        if index > 0 {
            assert!(s.ends_with('1'));
        }
    }
}
