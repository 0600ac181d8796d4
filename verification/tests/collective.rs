use graph_bench::collective::{
    gather_all, have_same_lengths, local_compute, pad_results, receive_buffer, reduce_all,
    CollectiveError, EDGE_RESULT,
};

#[test]
fn every_edge_counts_once() {
    assert_eq!(EDGE_RESULT, 1);
    assert_eq!(local_compute(&vec![(1, 2), (3, 4), (5, 6)]), vec![1, 1, 1]);
    assert_eq!(local_compute(&vec![(0, 0)]), vec![1]);
    assert_eq!(local_compute(&Vec::new()), Vec::<u64>::new());
}

#[test]
fn the_receive_buffer_has_one_share_per_rank() {
    assert_eq!(receive_buffer(5, 2), vec![0; 10]);
    assert_eq!(receive_buffer(3, 3), vec![0; 9]);
    assert_eq!(receive_buffer(1, 5), vec![0; 5]);
    assert_eq!(receive_buffer(0, 5), Vec::<u64>::new());
    assert_eq!(receive_buffer(4, 1), vec![0; 4]);
}

#[test]
fn gather_concatenates_in_rank_order() {
    let locals = vec![vec![1, 2], vec![3, 4], vec![5, 6]];
    assert_eq!(gather_all(&locals), Ok(vec![1, 2, 3, 4, 5, 6]));
    assert_eq!(gather_all(&vec![vec![9, 8, 7]]), Ok(vec![9, 8, 7]));
}

#[test]
fn gathered_entries_sit_at_rank_times_length_plus_index() {
    let locals: Vec<Vec<u64>> =
        (0..4u64).map(|rank| (0..3u64).map(|i| 10 * rank + i).collect()).collect();
    let gathered = gather_all(&locals).unwrap();
    assert_eq!(gathered.len(), receive_buffer(3, 4).len());
    for rank in 0..4usize {
        for index in 0..3usize {
            assert_eq!(gathered[rank * 3 + index], locals[rank][index]);
        }
    }
}

#[test]
fn gather_of_unequal_lengths_fails() {
    assert_eq!(gather_all(&vec![vec![1, 2], vec![3]]), Err(CollectiveError::LengthMismatch));
    assert_eq!(gather_all(&vec![vec![], vec![3]]), Err(CollectiveError::LengthMismatch));
    assert_eq!(
        gather_all(&vec![vec![1, 1, 1], vec![1, 1, 1], vec![1]]),
        Err(CollectiveError::LengthMismatch)
    );
}

#[test]
fn gather_of_empty_contributions_is_empty() {
    assert_eq!(gather_all(&vec![vec![], vec![], vec![]]), Ok(vec![]));
    assert_eq!(gather_all(&Vec::new()), Ok(vec![]));
}

#[test]
fn reduce_sums_across_ranks() {
    let locals = vec![vec![1, 2, 3], vec![10, 20, 30], vec![100, 200, 300]];
    assert_eq!(reduce_all(&locals), Ok(vec![111, 222, 333]));
    assert_eq!(reduce_all(&vec![vec![4, 5]]), Ok(vec![4, 5]));
}

#[test]
fn reduce_of_unit_results_counts_the_ranks() {
    for ranks in 1..6usize {
        let locals: Vec<Vec<u64>> = (0..ranks).map(|_| vec![EDGE_RESULT; 4]).collect();
        assert_eq!(reduce_all(&locals), Ok(vec![ranks as u64; 4]));
    }
}

#[test]
fn reduce_of_unequal_lengths_fails() {
    assert_eq!(reduce_all(&vec![vec![1, 2], vec![3]]), Err(CollectiveError::LengthMismatch));
    assert_eq!(reduce_all(&vec![vec![1], vec![3, 4]]), Err(CollectiveError::LengthMismatch));
    assert_eq!(
        reduce_all(&vec![vec![u64::MAX], vec![1], vec![]]),
        Err(CollectiveError::LengthMismatch)
    );
}

#[test]
fn reduce_reports_a_sum_that_does_not_fit() {
    assert_eq!(reduce_all(&vec![vec![u64::MAX], vec![1]]), Err(CollectiveError::SumOverflow));
    assert_eq!(
        reduce_all(&vec![vec![0, u64::MAX - 1], vec![0, 1], vec![0, 1]]),
        Err(CollectiveError::SumOverflow)
    );
    assert_eq!(
        reduce_all(&vec![vec![0, u64::MAX - 1], vec![0, 1]]),
        Ok(vec![0, u64::MAX])
    );
}

#[test]
fn reduce_of_empty_contributions_is_empty() {
    assert_eq!(reduce_all(&vec![vec![], vec![]]), Ok(vec![]));
    assert_eq!(reduce_all(&Vec::new()), Ok(vec![]));
}

#[test]
fn same_lengths_are_recognised() {
    assert!(have_same_lengths(&Vec::new()));
    assert!(have_same_lengths(&vec![vec![1, 2]]));
    assert!(have_same_lengths(&vec![vec![1, 2], vec![3, 4]]));
    assert!(!have_same_lengths(&vec![vec![1, 2], vec![3, 4], vec![5]]));
    assert!(!have_same_lengths(&vec![vec![], vec![3]]));
}

#[test]
fn padding_fills_up_with_zeros() {
    assert_eq!(pad_results(vec![1], 3), vec![1, 0, 0]);
    assert_eq!(pad_results(vec![1, 1], 3), vec![1, 1, 0]);
    assert_eq!(pad_results(Vec::new(), 2), vec![0, 0]);
}

#[test]
fn padding_leaves_long_enough_results_alone() {
    assert_eq!(pad_results(vec![1, 1, 1], 3), vec![1, 1, 1]);
    assert_eq!(pad_results(vec![1, 1, 1, 1], 3), vec![1, 1, 1, 1]);
    assert_eq!(pad_results(vec![7], 0), vec![7]);
    assert_eq!(pad_results(Vec::new(), 0), Vec::<u64>::new());
}
