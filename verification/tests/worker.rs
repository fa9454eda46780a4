use four_corners::metrics::Metrics;
use four_corners::offsets::{offset_from_draw, OffsetTable, OFFSET_TABLE_LEN};
use four_corners::run::run_worker;
use four_corners::worker::{Batch, Completion, Reaped, Submission, Worker, FLUSH_BATCH};

fn table(draws: &[u64], io_size: u64, range: u64) -> OffsetTable {
    OffsetTable::from_draws(&draws.to_vec(), io_size, range)
}

#[test]
fn offset_of_a_draw_is_its_block_times_the_block_size() {
    // 16384 / 4096 = 4 blocks; draw 6 selects block 2
    assert_eq!(offset_from_draw(6, 4096, 16384), 8192);
    assert_eq!(offset_from_draw(3, 4096, 16384), 12288);
    assert_eq!(offset_from_draw(u64::MAX, 4096, 4096), 0);
    // a range that is no whole number of blocks loses its tail
    assert_eq!(offset_from_draw(1, 4096, 8191), 0);
}

#[test]
fn table_wraps_around() {
    let mut t = table(&[0, 1, 2], 512, 2048);
    assert_eq!(t.next(), 0);
    assert_eq!(t.next(), 512);
    assert_eq!(t.next(), 1024);
    assert_eq!(t.next(), 0);
    assert_eq!(t.next(), 512);
}

#[test]
fn generated_table_stays_in_range() {
    let io_size = 128 * 1024;
    let range = 1u64 << 30;
    let mut t = OffsetTable::generate(io_size, range);
    let mut distinct = std::collections::HashSet::new();
    for _ in 0..OFFSET_TABLE_LEN {
        let o = t.next();
        assert_eq!(o % io_size, 0);
        assert!(o + io_size <= range);
        distinct.insert(o);
    }
    // 16384 draws over 8192 blocks do not all land on one block
    assert!(distinct.len() > 1);
}

#[test]
fn priming_issues_one_io_per_slot() {
    let mut w = Worker::with_table(4096, 3, true, 1 << 20, table(&[5, 9, 1, 7], 4096, 1 << 20));
    let subs = w.prime(1_000);
    assert_eq!(
        subs,
        vec![
            Submission { slot: 0, offset: 5 * 4096, len: 4096, is_write: true },
            Submission { slot: 1, offset: 9 * 4096, len: 4096, is_write: true },
            Submission { slot: 2, offset: 4096, len: 4096, is_write: true },
        ]
    );
}

#[test]
fn completion_is_answered_on_the_same_slot() {
    let mut w = Worker::with_table(4096, 2, false, 1 << 20, table(&[1, 2, 3], 4096, 1 << 20));
    w.prime(0);
    let r = w.reap(Completion { slot: 1, result: 4096, now_ns: 10 });
    assert_eq!(
        r,
        Some(Reaped {
            reissue: Submission { slot: 1, offset: 3 * 4096, len: 4096, is_write: false },
            latency_ns: None,
        })
    );
    // the ring starts over
    let r = w.reap(Completion { slot: 0, result: 4096, now_ns: 20 });
    assert_eq!(r.unwrap().reissue.offset, 4096);
}

#[test]
fn failed_completion_counts_for_nothing_but_is_reissued() {
    let mut w = Worker::with_table(4096, 1, false, 1 << 20, table(&[1, 2], 4096, 1 << 20));
    w.prime(0);
    assert!(w.reap(Completion { slot: 0, result: 0, now_ns: 1 }).is_some());
    assert!(w.reap(Completion { slot: 0, result: -5, now_ns: 2 }).is_some());
    assert_eq!(w.stop(), Batch { ops: 0, bytes: 0 });
}

#[test]
fn foreign_tag_is_dropped() {
    let mut w = Worker::with_table(4096, 2, false, 1 << 20, table(&[1, 2], 4096, 1 << 20));
    w.prime(0);
    assert_eq!(w.reap(Completion { slot: 2, result: 4096, now_ns: 1 }), None);
    assert_eq!(w.reap(Completion { slot: u64::MAX, result: 4096, now_ns: 1 }), None);
    assert_eq!(w.stop(), Batch { ops: 0, bytes: 0 });
}

#[test]
fn nothing_is_taken_before_priming_or_after_stopping() {
    let mut w = Worker::with_table(4096, 1, false, 1 << 20, table(&[1], 4096, 1 << 20));
    assert_eq!(w.reap(Completion { slot: 0, result: 4096, now_ns: 1 }), None);
    w.prime(0);
    assert!(w.reap(Completion { slot: 0, result: 4096, now_ns: 1 }).is_some());
    assert_eq!(w.stop(), Batch { ops: 1, bytes: 4096 });
    assert_eq!(w.reap(Completion { slot: 0, result: 4096, now_ns: 2 }), None);
    assert_eq!(w.stop(), Batch { ops: 0, bytes: 0 });
}

#[test]
fn every_64th_counted_completion_is_timed() {
    let mut w = Worker::with_table(4096, 1, false, 1 << 20, table(&[1], 4096, 1 << 20));
    w.prime(1_000);
    let mut now = 1_000;
    for k in 1..=200u64 {
        let issued = now;
        now += 10 + k;
        let r = w.reap(Completion { slot: 0, result: 4096, now_ns: now }).unwrap();
        if k % 64 == 0 {
            assert_eq!(r.latency_ns, Some(now - issued));
        } else {
            assert_eq!(r.latency_ns, None);
        }
    }
}

#[test]
fn failed_completions_do_not_advance_the_sampling() {
    let mut w = Worker::with_table(4096, 1, false, 1 << 20, table(&[1], 4096, 1 << 20));
    w.prime(0);
    for _ in 0..63 {
        assert_eq!(w.reap(Completion { slot: 0, result: 1, now_ns: 5 }).unwrap().latency_ns, None);
    }
    for _ in 0..10 {
        assert_eq!(w.reap(Completion { slot: 0, result: 0, now_ns: 6 }).unwrap().latency_ns, None);
    }
    let r = w.reap(Completion { slot: 0, result: 1, now_ns: 9 }).unwrap();
    assert_eq!(r.latency_ns, Some(3));
}

#[test]
fn clock_stepping_back_gives_zero_latency() {
    let mut w = Worker::with_table(4096, 1, false, 1 << 20, table(&[1], 4096, 1 << 20));
    w.prime(0);
    for _ in 0..63 {
        w.reap(Completion { slot: 0, result: 1, now_ns: 100 });
    }
    let r = w.reap(Completion { slot: 0, result: 1, now_ns: 40 }).unwrap();
    assert_eq!(r.latency_ns, Some(0));
}

#[test]
fn batch_is_due_at_256_operations() {
    let mut w = Worker::with_table(512, 1, false, 1 << 20, table(&[1], 512, 1 << 20));
    w.prime(0);
    for _ in 0..FLUSH_BATCH - 1 {
        w.reap(Completion { slot: 0, result: 512, now_ns: 1 });
    }
    assert_eq!(w.take_batch(), None);
    w.reap(Completion { slot: 0, result: 512, now_ns: 1 });
    assert_eq!(w.take_batch(), Some(Batch { ops: 256, bytes: 256 * 512 }));
    assert_eq!(w.take_batch(), None);
    assert_eq!(w.stop(), Batch { ops: 0, bytes: 0 });
}

#[test]
fn new_worker_draws_a_full_ring() {
    let mut w = Worker::new(4096, 4, false, 1 << 30);
    let subs = w.prime(0);
    assert_eq!(subs.len(), 4);
    for (i, s) in subs.iter().enumerate() {
        assert_eq!(s.slot as usize, i);
        assert_eq!(s.len, 4096);
        assert_eq!(s.offset % 4096, 0);
        assert!(s.offset + 4096 <= 1 << 30);
        assert!(!s.is_write);
    }
}

#[test]
fn run_counts_what_the_device_completed() {
    let mut m = Metrics::new();
    let mut cs = Vec::new();
    for k in 0..1000u64 {
        let result = if k % 10 == 0 { -1 } else { 4096 };
        cs.push(Completion { slot: k % 4, result, now_ns: 1_000 + k * 50 });
    }
    // a tag that names no slot
    cs.push(Completion { slot: 9, result: 4096, now_ns: 99_000 });
    let issued = run_worker(0, 4096, 4, false, 1 << 30, 1_000, &cs, &mut m);
    assert_eq!(issued.len(), 4 + 1000);
    let t = m.snapshot();
    assert_eq!(t.total_ops, 900);
    assert_eq!(t.total_bytes, 900 * 4096);
    assert_eq!(t.latency_samples, 900 / 64);
    assert_eq!(m.reservoir_len(), 900 / 64);
    for (i, s) in issued.iter().enumerate() {
        if i < 4 {
            assert_eq!(s.slot as usize, i);
        } else {
            assert_eq!(s.slot as u64, cs[i - 4].slot);
        }
        assert_eq!(s.offset % 4096, 0);
        assert!(s.offset + 4096 <= 1 << 30);
        assert_eq!(s.len, 4096);
        assert!(!s.is_write);
    }
}

#[test]
fn run_without_completions_records_nothing() {
    let mut m = Metrics::new();
    let issued = run_worker(3, 65536, 2, true, 1 << 29, 0, &Vec::new(), &mut m);
    assert_eq!(issued.len(), 2);
    assert!(issued.iter().all(|s| s.is_write));
    let t = m.snapshot();
    assert_eq!((t.total_ops, t.total_bytes, t.latency_samples, t.latency_sum_ns), (0, 0, 0, 0));
    assert_eq!(m.percentile(50), 0);
    assert_eq!(m.percentile(99), 0);
    assert_eq!(m.mean_latency_ns(), 0);
}

#[test]
fn run_adds_to_what_other_workers_counted() {
    let mut m = Metrics::new();
    m.add_ops(10);
    m.add_bytes(100);
    let cs: Vec<Completion> =
        (0..300u64).map(|k| Completion { slot: 0, result: 512, now_ns: 7 * (k + 1) }).collect();
    run_worker(0, 512, 1, false, 4096, 0, &cs, &mut m);
    run_worker(1, 512, 1, false, 4096, 0, &cs, &mut m);
    let t = m.snapshot();
    assert_eq!(t.total_ops, 610);
    assert_eq!(t.total_bytes, 100 + 600 * 512);
    // completion 64, 128, 192, 256 of each worker, each 7 ns after its issue
    assert_eq!(t.latency_samples, 8);
    assert_eq!(t.latency_sum_ns, 56);
}

#[test]
fn whole_sector_blocks_give_sector_aligned_io() {
    for io_size in [4096u64, 8192, 65536, 128 * 1024] {
        let mut w = Worker::new(io_size, 8, true, (1 << 30) + 12345);
        let mut subs = w.prime(0);
        for k in 0..100u64 {
            let r = w.reap(Completion { slot: k % 8, result: io_size as i64, now_ns: k });
            subs.push(r.unwrap().reissue);
        }
        for s in subs {
            assert_eq!(s.len % 4096, 0);
            assert_eq!(s.offset % 4096, 0);
        }
    }
}
