use neural_net::xorshift;
use neural_net::batch_indices;
use neural_net::chunk_bounds;
use neural_net::progress_window;
use neural_net::random_batch_begin;

#[test]
fn xorshift_scrambles_exactly() {
    assert_eq!(xorshift(1), 270369);
    assert_eq!(xorshift(0), 0);
    assert_eq!(xorshift(0xDEADBEEF), 1199382711);
}

#[test]
fn chunks_split_a_batch_evenly() {
    assert_eq!(chunk_bounds(10, 3), vec![(0, 3), (3, 6), (6, 10)]);
    assert_eq!(chunk_bounds(12, 4), vec![(0, 3), (3, 6), (6, 9), (9, 12)]);
    assert_eq!(chunk_bounds(8, 1), vec![(0, 8)]);
}

#[test]
fn chunks_degrade_to_one_worker_on_a_small_batch() {
    assert_eq!(chunk_bounds(2, 4), vec![(0, 2)]);
    assert_eq!(chunk_bounds(0, 2), vec![(0, 0)]);
    assert_eq!(chunk_bounds(3, 3), vec![(0, 1), (1, 2), (2, 3)]);
}

#[test]
fn chunks_cover_every_sample_once() {
    for len in 0..40usize {
        for threads in 1..8usize {
            let bounds = chunk_bounds(len, threads);
            let mut covered = vec![0usize; len];
            assert_eq!(bounds[0].0, 0);
            assert_eq!(bounds[bounds.len() - 1].1, len);
            for (begin, end) in bounds {
                for sample in begin..end {
                    covered[sample] += 1;
                }
            }
            assert!(covered.iter().all(|c| *c == 1));
        }
    }
}

#[test]
fn batch_indices_walk_the_dataset_cyclically() {
    assert_eq!(batch_indices(0, 5, 7, 10), vec![7, 8, 9, 0, 1]);
    assert_eq!(batch_indices(3, 4, 0, 4), vec![3, 0, 1, 2]);
    assert_eq!(batch_indices(0, 0, 0, 1), Vec::<usize>::new());
}

#[test]
fn progress_window_is_the_least_fitting_power_of_two() {
    assert_eq!(progress_window(0), 1);
    assert_eq!(progress_window(100), 1);
    assert_eq!(progress_window(1000), 16);
    assert_eq!(progress_window(6400), 64);
    assert_eq!(progress_window(6500), 128);
}

#[test]
fn random_batch_begin_indexes_the_dataset() {
    assert_eq!(random_batch_begin(1), 0);
    for _ in 0..32 {
        assert!(random_batch_begin(7) < 7);
    }
}
