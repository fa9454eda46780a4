use four_corners::buffer::{BufferLayout, SECTOR_SIZE};
use four_corners::cli::{Args, Workload};
use four_corners::prep::{
    bytes_of_words, gib_to_bytes, progress_due, random_bytes, ChunkPlan, FILE_CHUNK, PREP_CHUNK,
};

#[test]
fn default_options() {
    let a = Args::default();
    assert!(a.device.is_empty());
    assert_eq!(a.duration, 30);
    assert_eq!((a.read_tp_threads, a.write_tp_threads), (30, 16));
    assert_eq!((a.read_iops_threads, a.write_iops_threads), (120, 120));
    assert_eq!((a.read_tp_qd, a.write_tp_qd, a.read_iops_qd, a.write_iops_qd), (1, 1, 1, 1));
    assert_eq!((a.read_tp_bs, a.write_tp_bs, a.read_iops_bs, a.write_iops_bs), (128, 64, 4, 4));
    assert!(!a.prep && !a.create_file);
    assert_eq!(a.file_size, 10);
    assert_eq!(a.tests, "all");
}

#[test]
fn workload_names() {
    assert_eq!(Workload::ReadThroughput.name(), "read-tp");
    assert_eq!(Workload::WriteThroughput.name(), "write-tp");
    assert_eq!(Workload::ReadIops.name(), "read-iops");
    assert_eq!(Workload::WriteIops.name(), "write-iops");
    assert!(!Workload::ReadThroughput.is_write());
    assert!(Workload::WriteThroughput.is_write());
    assert!(!Workload::ReadIops.is_write());
    assert!(Workload::WriteIops.is_write());
}

const ALL: [Workload; 4] =
    [Workload::ReadThroughput, Workload::WriteThroughput, Workload::ReadIops, Workload::WriteIops];

#[test]
fn all_selects_every_workload() {
    let a = Args::default();
    assert!(ALL.iter().all(|w| a.runs(*w)));
}

#[test]
fn list_selects_by_name() {
    let mut a = Args::default();
    a.tests = "read-tp,write-iops".to_string();
    assert_eq!(ALL.map(|w| a.runs(w)), [true, false, false, true]);
    a.tests = "read-iops".to_string();
    assert_eq!(ALL.map(|w| a.runs(w)), [false, false, true, false]);
    a.tests = "none".to_string();
    assert_eq!(ALL.map(|w| a.runs(w)), [false, false, false, false]);
    a.tests = "all,read-tp".to_string();
    assert_eq!(ALL.map(|w| a.runs(w)), [true, false, false, false]);
    a.tests = String::new();
    assert_eq!(ALL.map(|w| a.runs(w)), [false, false, false, false]);
}

#[test]
fn workload_configuration() {
    let mut a = Args::default();
    a.duration = 7;
    a.write_iops_qd = 32;
    let devices = vec!["/dev/sdb".to_string()];
    let c = a.config_for(Workload::ReadThroughput, devices.clone());
    assert_eq!(c.device_paths, devices);
    assert_eq!((c.io_size, c.threads, c.queue_depth, c.duration_secs, c.is_write), (131072, 30, 1, 7, false));
    let c = a.config_for(Workload::WriteThroughput, devices.clone());
    assert_eq!((c.io_size, c.threads, c.queue_depth, c.duration_secs, c.is_write), (65536, 16, 1, 7, true));
    let c = a.config_for(Workload::ReadIops, devices.clone());
    assert_eq!((c.io_size, c.threads, c.queue_depth, c.duration_secs, c.is_write), (4096, 120, 1, 7, false));
    let c = a.config_for(Workload::WriteIops, devices);
    assert_eq!((c.io_size, c.threads, c.queue_depth, c.duration_secs, c.is_write), (4096, 120, 32, 7, true));
    a.read_tp_bs = u32::MAX;
    assert_eq!(a.config_for(Workload::ReadThroughput, Vec::new()).io_size, 4_398_046_510_080);
}

#[test]
fn words_are_laid_out_least_significant_byte_first() {
    let words = vec![0x0807_0605_0403_0201u64, 0xffee_ddcc_bbaa_9988];
    assert_eq!(
        bytes_of_words(&words, 16),
        vec![1, 2, 3, 4, 5, 6, 7, 8, 0x88, 0x99, 0xaa, 0xbb, 0xcc, 0xdd, 0xee, 0xff]
    );
    assert_eq!(bytes_of_words(&words, 11), vec![1, 2, 3, 4, 5, 6, 7, 8, 0x88, 0x99, 0xaa]);
    assert_eq!(bytes_of_words(&words, 0), Vec::<u8>::new());
    assert_eq!(bytes_of_words(&words, 8), words[0].to_le_bytes().to_vec());
}

#[test]
fn random_bytes_have_the_length_asked_for() {
    for len in [0usize, 1, 7, 8, 9, 4096, 4099] {
        assert_eq!(random_bytes(len).len(), len);
    }
    let a = random_bytes(4096);
    let b = random_bytes(4096);
    assert_ne!(a, b);
    assert!(a.iter().any(|x| *x != a[0]));
}

#[test]
fn fill_is_cut_into_chunks() {
    let p = ChunkPlan::new(10 * FILE_CHUNK + 5, FILE_CHUNK);
    assert_eq!(p, ChunkPlan { chunk_size: FILE_CHUNK, full_chunks: 10, remainder: 5 });
    assert_eq!(p.offset_of(0, 10 * FILE_CHUNK + 5), 0);
    assert_eq!(p.offset_of(9, 10 * FILE_CHUNK + 5), 9 * FILE_CHUNK);
    let p = ChunkPlan::new(PREP_CHUNK - 1, PREP_CHUNK);
    assert_eq!((p.full_chunks, p.remainder), (0, PREP_CHUNK - 1));
    let p = ChunkPlan::new(0, PREP_CHUNK);
    assert_eq!((p.full_chunks, p.remainder), (0, 0));
    let p = ChunkPlan::new(u64::MAX, 1);
    assert_eq!((p.full_chunks, p.remainder), (u64::MAX, 0));
    assert_eq!(p.offset_of(u64::MAX - 1, u64::MAX), u64::MAX - 1);
}

#[test]
fn progress_is_shown_once_per_stride() {
    assert!(progress_due(0, 64));
    assert!(!progress_due(1, 64));
    assert!(!progress_due(63, 64));
    assert!(progress_due(64, 64));
    assert!(progress_due(2048, 1024));
    assert!(progress_due(5, 1));
}

#[test]
fn gib_in_bytes() {
    assert_eq!(gib_to_bytes(0), Some(0));
    assert_eq!(gib_to_bytes(10), Some(10_737_418_240));
    assert_eq!(gib_to_bytes((1 << 34) - 1), Some(u64::MAX - (1 << 30) + 1));
    assert_eq!(gib_to_bytes(1 << 34), None);
    assert_eq!(gib_to_bytes(u64::MAX), None);
}

#[test]
fn buffer_layout_wants_a_power_of_two() {
    assert_eq!(BufferLayout::new(4096, 4096), Some(BufferLayout { size: 4096, align: 4096 }));
    assert_eq!(BufferLayout::new(100, 1), Some(BufferLayout { size: 100, align: 1 }));
    assert_eq!(BufferLayout::new(4096, 0), None);
    assert_eq!(BufferLayout::new(4096, 3), None);
    assert_eq!(BufferLayout::new(4096, 4097), None);
    assert_eq!(BufferLayout::new(4096, 12288), None);
    assert_eq!(BufferLayout::new(isize::MAX as usize, 4096), None);
    assert_eq!(BufferLayout::new(usize::MAX, 1), None);
    assert!(BufferLayout::new(isize::MAX as usize - 4095, 4096).is_some());
    assert!(BufferLayout::new(0, (isize::MAX as usize) + 1).is_some());
    assert_eq!(BufferLayout::new(1, (isize::MAX as usize) + 1), None);
}

#[test]
fn buffer_layout_matches_std() {
    for size in [0usize, 1, 4095, 4096, 1 << 20, isize::MAX as usize - 4095, isize::MAX as usize] {
        for align in [0usize, 1, 2, 3, 512, 4096, 4097, 8192, 1 << 30] {
            assert_eq!(
                BufferLayout::new(size, align).is_some(),
                std::alloc::Layout::from_size_align(size, align).is_ok(),
                "{size} {align}"
            );
        }
    }
}

#[test]
fn buffer_alignment() {
    let l = BufferLayout::new(128 * 1024, SECTOR_SIZE).unwrap();
    assert!(l.holds(0));
    assert!(l.holds(0x7f00_0000_1000));
    assert!(!l.holds(0x7f00_0000_1200));
    let l = BufferLayout::new(4096, 512).unwrap();
    assert!(l.holds(0x200));
    assert!(!l.holds(0x201));
}
