use oze_canopen_viewer::bus_stats::{bus_load, BusStats};

#[test]
fn gap_of_two_messages() {
    let mut s = BusStats::new(0);
    s.on_message(0x181, 1_000_000);
    assert_eq!(s.min_gap(), None);
    assert_eq!(s.jitter(), None);
    s.on_message(0x182, 1_012_345);
    assert_eq!(s.min_gap(), Some(12_345));
    assert_eq!(s.max_gap(), Some(12_345));
    assert_eq!(s.avg_gap(), Some(12_345));
    assert_eq!(s.jitter(), None);
    assert_eq!(s.total_messages(), 2);
}

#[test]
fn gap_average_and_jitter_of_three_gaps() {
    let mut s = BusStats::new(0);
    for t in [0u64, 10_000, 30_000, 60_000] {
        s.on_message(0x100, t);
    }
    assert_eq!(s.min_gap(), Some(10_000));
    assert_eq!(s.max_gap(), Some(30_000));
    assert_eq!(s.avg_gap(), Some(20_000));
    assert_eq!(s.avg_gap().map(|g| g as f64 / 1000.0), Some(20.0));
    let j = s.jitter().unwrap();
    assert_eq!(j, 8164);
    assert!((j as f64 / 1000.0 - 8.165).abs() < 0.001);
}

#[test]
fn equal_gaps_have_zero_jitter() {
    let mut s = BusStats::new(0);
    for t in [0u64, 500, 1000, 1500] {
        s.on_message(1, t);
    }
    assert_eq!(s.jitter(), Some(0));
}

#[test]
fn earlier_timestamp_gives_zero_gap() {
    let mut s = BusStats::new(0);
    s.on_message(1, 5_000);
    s.on_message(1, 4_000);
    assert_eq!(s.min_gap(), Some(0));
    assert_eq!(s.max_gap(), Some(0));
}

#[test]
fn message_rate_over_five_second_window() {
    let mut s = BusStats::new(0);
    for k in 0..6u64 {
        s.on_message(0x181, k * 1_000_000);
    }
    s.calculate_msg_rate(5_000_000);
    assert_eq!(s.current_msg_rate(), 1000);
    assert_eq!(s.current_msg_rate() as f64 / 1000.0, 1.0);
    assert_eq!(s.peak_msg_rate(), 1000);
    assert_eq!(s.avg_msg_rate(), 1200);
}

#[test]
fn message_rate_window_drops_old_entries() {
    let mut s = BusStats::new(0);
    for k in 0..7u64 {
        s.on_message(0x181, k * 1_000_000);
    }
    s.on_message(0x181, 6_000_000);
    s.calculate_msg_rate(6_000_000);
    // Window from 1 s (count 2) to 6 s (count 8).
    assert_eq!(s.current_msg_rate(), 1200);
}

#[test]
fn message_rate_needs_two_entries() {
    let mut s = BusStats::new(0);
    s.calculate_msg_rate(1_000_000);
    assert_eq!(s.current_msg_rate(), 0);
    s.on_message(1, 10);
    s.calculate_msg_rate(1_000_000);
    assert_eq!(s.current_msg_rate(), 0);
    assert_eq!(s.avg_msg_rate(), 0);
}

#[test]
fn load_current_peak_and_average() {
    let mut s = BusStats::new(0);
    s.update_load(1000);
    s.update_load(3000);
    s.update_load(2000);
    assert_eq!(s.current_load(), 2000);
    assert_eq!(s.peak_load(), 3000);
    assert_eq!(s.avg_load(), 2000);
}

#[test]
fn load_average_uses_last_hundred_samples() {
    let mut s = BusStats::new(0);
    for i in 0..150u64 {
        s.update_load(i);
    }
    // Mean of 50..=149 is 99.5, rounded down.
    assert_eq!(s.avg_load(), 99);
    assert_eq!(s.peak_load(), 149);
}

#[test]
fn cob_id_rates_wait_for_one_second() {
    let mut s = BusStats::new(0);
    s.on_message(0x181, 100);
    s.calculate_cob_id_rates(1_000_000);
    assert!(s.get_top_cob_ids(10).is_empty());
    s.calculate_cob_id_rates(1_000_001);
    assert_eq!(s.get_top_cob_ids(10), vec![(0x181, 999)]);
}

#[test]
fn top_cob_ids_ranked_by_rate_then_identifier() {
    let mut s = BusStats::new(0);
    let mut t = 0u64;
    for id in [0x183u16, 0x181, 0x182, 0x183, 0x181, 0x183, 0x181] {
        t += 1000;
        s.on_message(id, t);
    }
    s.calculate_cob_id_rates(2_000_000);
    assert_eq!(
        s.get_top_cob_ids(10),
        vec![(0x181, 1500), (0x183, 1500), (0x182, 500)]
    );
    assert_eq!(s.get_top_cob_ids(2), vec![(0x181, 1500), (0x183, 1500)]);
    assert_eq!(s.get_top_cob_ids(0), vec![]);
    // An identifier first seen after the last computation has no rate yet.
    s.on_message(0x700, 2_000_000);
    assert_eq!(s.get_top_cob_ids(10).len(), 3);
}

#[test]
fn bus_load_share_of_bandwidth() {
    assert_eq!(bus_load(125_000, 1_000_000, 250_000), Some(5000));
    assert_eq!(bus_load(1, 3_000_000, 1), Some(3333));
    assert_eq!(bus_load(2_000_000, 1_000_000, 1_000_000), Some(10_000));
    assert_eq!(bus_load(0, 1_000_000, 500_000), Some(0));
    assert_eq!(bus_load(10, 0, 500_000), None);
    assert_eq!(bus_load(10, 1_000, 0), None);
}
