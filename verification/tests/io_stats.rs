use lancedb::io_stats::{total_length, IoStats, IoStatsHolder};

#[test]
fn test_record_read_recovers_from_poisoned_lock() {
    let holder = IoStatsHolder::new();
    let store_side = holder.clone();
    store_side.record_read(1024);
    let s = holder.incremental_stats();
    assert_eq!(s.read_iops, 1);
    assert_eq!(s.read_bytes, 1024);
}

#[test]
fn test_record_write_recovers_from_poisoned_lock() {
    let holder = IoStatsHolder::new();
    let store_side = holder.clone();
    store_side.record_write(2048);
    let s = holder.incremental_stats();
    assert_eq!(s.write_iops, 1);
    assert_eq!(s.write_bytes, 2048);
}

#[test]
fn incremental_stats_resets_the_counters() {
    let holder = IoStatsHolder::default();
    holder.record_read(10);
    holder.record_read(5);
    holder.record_write(7);
    let first = holder.incremental_stats();
    assert_eq!((first.read_iops, first.read_bytes), (2, 15));
    assert_eq!((first.write_iops, first.write_bytes), (1, 7));
    let second = holder.incremental_stats();
    assert_eq!(
        (second.read_iops, second.read_bytes, second.write_iops, second.write_bytes),
        (0, 0, 0, 0)
    );
    holder.record_write(3);
    let third = holder.incremental_stats();
    assert_eq!((third.write_iops, third.write_bytes), (1, 3));
}

#[test]
fn listing_counts_an_operation_of_zero_bytes() {
    let mut s = IoStats::default();
    s.record_read(0);
    assert_eq!((s.read_iops, s.read_bytes), (1, 0));
}

#[test]
fn counters_wrap_at_the_top() {
    let mut s = IoStats { read_iops: u64::MAX, read_bytes: u64::MAX - 1, write_iops: 0, write_bytes: 0 };
    s.record_read(3);
    assert_eq!((s.read_iops, s.read_bytes), (0, 1));
}

#[test]
fn take_hands_out_and_resets() {
    let mut s = IoStats { read_iops: 4, read_bytes: 40, write_iops: 2, write_bytes: 20 };
    let t = s.take();
    assert_eq!((t.read_iops, t.read_bytes, t.write_iops, t.write_bytes), (4, 40, 2, 20));
    assert_eq!((s.read_iops, s.read_bytes, s.write_iops, s.write_bytes), (0, 0, 0, 0));
}

#[test]
fn total_length_of_ranges() {
    assert_eq!(total_length(&vec![]), 0);
    assert_eq!(total_length(&vec![5, 10, 1]), 16);
    assert_eq!(total_length(&vec![u64::MAX, 2]), 1);
}

#[test]
fn stats_display_as_pretty_printed_struct() {
    let s = IoStats { read_iops: 3, read_bytes: 4096, write_iops: 0, write_bytes: 18446744073709551615 };
    assert_eq!(s.to_string(), format!("{:#?}", s));
    assert_eq!(IoStats::default().to_string(), "IoStats {\n    read_iops: 0,\n    read_bytes: 0,\n    write_iops: 0,\n    write_bytes: 0,\n}");
}
