use soundtouch::overlap_seek::{full_seek_offset, QuickSeek, SCAN_STEP, SCAN_WINDOW};

#[test]
fn test_full_seek_takes_first_highest() {
    assert_eq!(full_seek_offset(&[1, 5, 3, 5]), 1);
    assert_eq!(full_seek_offset(&[7]), 0);
    assert_eq!(full_seek_offset(&[-3, -5, -4]), 0);
    assert_eq!(full_seek_offset(&[0, 0, 0, 1]), 3);
}

/// The quick search written as three plain passes over a score table,
/// returning the winner and the offsets scored in order.
fn quick_seek_by_passes(scores: &[i64], seek_length: usize, floor: i64) -> (usize, Vec<usize>) {
    let mut visited = Vec::new();
    let mut best = floor;
    let mut best2 = floor;
    let mut best_offs = SCAN_WINDOW;
    let mut best_offs2 = SCAN_WINDOW;

    let mut i = SCAN_STEP;
    let end = seek_length.saturating_sub(SCAN_WINDOW + 1);
    while i < end {
        visited.push(i);
        let corr = scores[i];
        if corr > best {
            best2 = best;
            best_offs2 = best_offs;
            best = corr;
            best_offs = i;
        } else if corr > best2 {
            best2 = corr;
            best_offs2 = i;
        }
        i += SCAN_STEP;
    }

    let start = best_offs.saturating_sub(SCAN_WINDOW);
    let end = (best_offs + SCAN_WINDOW + 1).min(seek_length);
    for i in start..end {
        if i == best_offs {
            continue;
        }
        visited.push(i);
        if scores[i] > best {
            best = scores[i];
            best_offs = i;
        }
    }

    let start = best_offs2.saturating_sub(SCAN_WINDOW);
    let end = (best_offs2 + SCAN_WINDOW + 1).min(seek_length);
    for i in start..end {
        if i == best_offs2 {
            continue;
        }
        visited.push(i);
        if scores[i] > best {
            best = scores[i];
            best_offs = i;
        }
    }
    (best_offs, visited)
}

fn run_quick_seek(scores: &[i64], seek_length: usize, floor: i64) -> (usize, Vec<usize>) {
    let mut search = QuickSeek::new(seek_length, floor);
    let mut visited = Vec::new();
    while let Some(i) = search.next_offset() {
        visited.push(i);
        search.record(scores[i]);
    }
    (search.best_offset(), visited)
}

#[test]
fn test_quick_seek_single_peak() {
    let seek_length = 100;
    let scores: Vec<i64> = (0..seek_length as i64).map(|i| -(i - 37) * (i - 37)).collect();
    let (best, visited) = run_quick_seek(&scores, seek_length, i64::MIN);
    assert_eq!(best, 37);
    // the coarse grid: 16, 32, 48, 64, 80 (below 100 - 9)
    assert_eq!(&visited[..5], &[16, 32, 48, 64, 80]);
    assert!(visited.contains(&37));
    assert_eq!(run_quick_seek(&scores, seek_length, i64::MIN), quick_seek_by_passes(&scores, seek_length, i64::MIN));
}

#[test]
fn test_quick_seek_short_range_keeps_default() {
    // no grid offset below 10 - 9 = 1: the windows are around the default offset
    let scores = vec![0i64; 10];
    let (best, visited) = run_quick_seek(&scores, 10, 0);
    assert_eq!(best, SCAN_WINDOW);
    assert_eq!(visited, quick_seek_by_passes(&scores, 10, 0).1);
    assert!(!visited.contains(&SCAN_WINDOW));
    let (best, visited) = run_quick_seek(&[], 0, 0);
    assert_eq!(best, SCAN_WINDOW);
    assert!(visited.is_empty());
}

#[test]
fn test_quick_seek_matches_plain_passes() {
    let mut state: u64 = 0x1234_5678;
    for round in 0..300 {
        let seek_length = 1 + (round * 7) % 400;
        let scores: Vec<i64> = (0..seek_length)
            .map(|_| {
                state = state.wrapping_mul(6364136223846793005).wrapping_add(1442695040888963407);
                ((state >> 33) % 50) as i64 - 25
            })
            .collect();
        let floor = if round % 2 == 0 { i64::MIN } else { 10 };
        assert_eq!(
            run_quick_seek(&scores, seek_length, floor),
            quick_seek_by_passes(&scores, seek_length, floor)
        );
    }
}
