use ats_task::echo::{frame_sqrt_sum, frame_step, frame_sum_fits, reverse, FrameAction, FrameState, FRAME_SIZE};
use ats_task::parallel::{partition, random_data, sqrt, sum_sqrt};

#[test]
fn sqrt_small_values() {
    assert_eq!(sqrt(&0), 0);
    assert_eq!(sqrt(&1), 1);
    assert_eq!(sqrt(&2), 1);
    assert_eq!(sqrt(&3), 1);
    assert_eq!(sqrt(&4), 2);
    assert_eq!(sqrt(&15), 3);
    assert_eq!(sqrt(&16), 4);
    assert_eq!(sqrt(&17), 4);
    assert_eq!(sqrt(&99), 9);
    assert_eq!(sqrt(&100), 10);
}

#[test]
fn sqrt_largest_input() {
    assert_eq!(sqrt(&(u32::MAX as u64)), 65535);
    assert_eq!(sqrt(&(65536u64 * 65536 - 1)), 65535);
    assert_eq!(sqrt(&(65535u64 * 65535)), 65535);
    assert_eq!(sqrt(&(65535u64 * 65535 - 1)), 65534);
}

#[test]
fn sqrt_matches_float_floor() {
    let mut n: u64 = 0;
    while n < 100_000 {
        let r = sqrt(&n);
        assert!(r * r <= n && (r + 1) * (r + 1) > n, "n = {}", n);
        n += 7;
    }
}

#[test]
fn sum_sqrt_values() {
    assert_eq!(sum_sqrt(&[]), 0);
    assert_eq!(sum_sqrt(&[1, 4, 9, 10]), 1 + 2 + 3 + 3);
    assert_eq!(sum_sqrt(&[u32::MAX as u64, 0]), 65535);
}

#[test]
fn partition_bounds() {
    assert_eq!(partition(0, 10, 3), (0, 3));
    assert_eq!(partition(2, 10, 3), (6, 9));
    assert_eq!(partition(3, 10, 3), (9, 10));
    assert_eq!(partition(0, 840000, 240), (0, 3500));
    assert_eq!(partition(239, 840000, 240), (836500, 840000));
    assert_eq!(partition(5, 4, 8), (0, 0));
}

#[test]
fn partial_sums_cover_evenly_split_data() {
    let data: Vec<u64> = (0..960u64).map(|i| (i * 7919) % 100_000).collect();
    let expect = sum_sqrt(&data);
    let num_tasks = 24;
    let mut actual = 0u64;
    for i in 0..num_tasks {
        let (l, r) = partition(i, data.len(), num_tasks);
        actual += sum_sqrt(&data[l..r]);
    }
    assert_eq!(expect, actual);
}

#[test]
fn partial_sums_miss_the_tail_when_uneven() {
    let data: Vec<u64> = vec![100, 100, 100, 100, 100, 100, 100];
    let mut actual = 0u64;
    for i in 0..3 {
        let (l, r) = partition(i, data.len(), 3);
        actual += sum_sqrt(&data[l..r]);
    }
    assert_eq!(actual, 60);
    assert_eq!(sum_sqrt(&data), 70);
}

#[test]
fn frame_sum_uses_whole_numbers_only() {
    let mut buf = Vec::new();
    buf.extend_from_slice(&16u64.to_le_bytes());
    buf.extend_from_slice(&81u64.to_le_bytes());
    buf.extend_from_slice(&[1, 2, 3]);
    let (sum, pos) = frame_sqrt_sum(&buf, 0, buf.len(), 5);
    assert_eq!(sum, 5 + 4 + 9);
    assert_eq!(pos, 16);
    let (sum, pos) = frame_sqrt_sum(&buf, 8, 15, 0);
    assert_eq!((sum, pos), (0, 8));
    let (sum, pos) = frame_sqrt_sum(&buf, 8, 16, 1);
    assert_eq!((sum, pos), (10, 16));
}

#[test]
fn reverse_each_line() {
    assert_eq!(reverse(b"abc\ndef"), b"cba\nfed".to_vec());
    assert_eq!(reverse(b"abc\n"), b"cba\n".to_vec());
    assert_eq!(reverse(b"\n\nxy"), b"\n\nyx".to_vec());
    assert_eq!(reverse(b""), Vec::<u8>::new());
    assert_eq!(reverse(b"hello"), b"olleh".to_vec());
}

#[test]
fn reverse_twice_is_identity() {
    let samples: [&[u8]; 4] = [b"ab\ncd\n\nefg", b"", b"\n", b"one line"];
    for s in samples {
        assert_eq!(reverse(&reverse(s)), s.to_vec());
    }
}

#[test]
fn random_data_is_32_bit() {
    let v = random_data(0xdead_beef, 1000);
    assert_eq!(v.len(), 1000);
    assert!(v.iter().all(|&x| x <= u32::MAX as u64));
    assert!(random_data(1, 0).is_empty());
    let total = sum_sqrt(&v);
    let (l, r) = partition(0, 1000, 4);
    let mut parts = 0;
    for i in 0..4 {
        let (l, r) = partition(i, 1000, 4);
        parts += sum_sqrt(&v[l..r]);
    }
    assert_eq!((l, r), (0, 250));
    assert_eq!(parts, total);
}

fn put(buf: &mut [u8], pos: usize, x: u64) {
    buf[pos..pos + 8].copy_from_slice(&x.to_le_bytes());
}

#[test]
fn frame_sum_checks() {
    let mut buf = [0u8; FRAME_SIZE];
    put(&mut buf, 0, 16);
    put(&mut buf, 8, 1u64 << 32);
    assert!(frame_sum_fits(&buf, 0, 8, 0));
    assert!(frame_sum_fits(&buf, 0, 15, 0));
    assert!(!frame_sum_fits(&buf, 0, 16, 0));
    assert!(!frame_sum_fits(&buf, 0, 8, u64::MAX));
    assert!(frame_sum_fits(&buf, 0, 8, u64::MAX - 4));
}

#[test]
fn frame_steps() {
    let mut buf = [0u8; FRAME_SIZE];
    for k in 0..FRAME_SIZE / 8 {
        put(&mut buf, 8 * k, 9);
    }
    let mut st = FrameState::new();
    assert_eq!(frame_step(&buf, &mut st, 0), FrameAction::Yield);
    assert_eq!(st, FrameState::new());
    assert_eq!(frame_step(&buf, &mut st, 12), FrameAction::Read);
    assert_eq!(st, FrameState { result: 3, read_pos: 12, compute_pos: 8 });
    assert_eq!(frame_step(&buf, &mut st, 100), FrameAction::Read);
    assert_eq!(st, FrameState { result: 3 * 14, read_pos: 112, compute_pos: 112 });
    assert_eq!(frame_step(&buf, &mut st, FRAME_SIZE - 112), FrameAction::Reply(3 * 256));
    assert_eq!(st, FrameState::new());
}
