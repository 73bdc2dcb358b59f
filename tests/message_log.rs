use oze_canopen_viewer::message_log::{
    BoundedMessageLog, CachedMessage, RawFrame, MESSAGE_LOG_CAPACITY,
};

fn message(index: u64) -> CachedMessage {
    CachedMessage {
        index,
        frame: RawFrame { cob_id: (index % 0x800) as u16, data: vec![index as u8], timestamp_us: index },
    }
}

#[test]
fn log_keeps_the_most_recent_512() {
    let mut log = BoundedMessageLog::new();
    let n: u64 = 1300;
    for i in 0..n {
        log.push(message(i));
        assert!(log.len() <= MESSAGE_LOG_CAPACITY);
    }
    assert_eq!(log.len(), 512);
    for k in 0..log.len() {
        assert_eq!(log.get(k).index, n - 512 + k as u64);
    }
    let indices: Vec<u64> = log.entries().iter().map(|m| m.index).collect();
    assert!(indices.windows(2).all(|w| w[0] < w[1]));
}

#[test]
fn log_below_capacity_keeps_everything() {
    let mut log = BoundedMessageLog::new();
    assert_eq!(log.len(), 0);
    for i in 0..3 {
        log.push(message(i));
    }
    assert_eq!(log.len(), 3);
    assert_eq!(log.get(0).index, 0);
    assert_eq!(log.get(2).frame.data, vec![2]);
}

#[test]
fn log_at_exact_capacity_then_one_more() {
    let mut log = BoundedMessageLog::new();
    for i in 0..512 {
        log.push(message(i));
    }
    assert_eq!(log.len(), 512);
    assert_eq!(log.get(0).index, 0);
    log.push(message(512));
    assert_eq!(log.len(), 512);
    assert_eq!(log.get(0).index, 1);
    assert_eq!(log.get(511).index, 512);
}
