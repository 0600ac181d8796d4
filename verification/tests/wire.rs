use graph_bench::wire::{flatten_edges, resize_edges, restore_edges};

#[test]
fn flatten_puts_each_first_endpoint_before_its_second() {
    assert_eq!(flatten_edges(&vec![(1, 2), (3, 4)]), vec![1, 2, 3, 4]);
    assert_eq!(flatten_edges(&vec![(9, 9)]), vec![9, 9]);
    assert_eq!(flatten_edges(&vec![(5, 0), (0, 5), (7, 7)]), vec![5, 0, 0, 5, 7, 7]);
}

#[test]
fn flatten_of_no_edges_is_empty() {
    assert_eq!(flatten_edges(&Vec::new()), Vec::<usize>::new());
}

#[test]
fn restore_groups_consecutive_elements() {
    assert_eq!(restore_edges(&vec![1, 2, 3, 4], 2), vec![(1, 2), (3, 4)]);
    assert_eq!(restore_edges(&vec![8, 6], 1), vec![(8, 6)]);
}

#[test]
fn restore_undoes_flatten() {
    let edges: Vec<(usize, usize)> = vec![(3, 1), (4, 1), (5, 9), (2, 6), (0, 0), (usize::MAX, 7)];
    assert_eq!(restore_edges(&flatten_edges(&edges), edges.len()), edges);
    let none: Vec<(usize, usize)> = Vec::new();
    assert_eq!(restore_edges(&flatten_edges(&none), 0), none);
}

#[test]
fn restore_pads_a_short_buffer_with_zeros() {
    assert_eq!(restore_edges(&vec![1, 2], 3), vec![(1, 2), (0, 0), (0, 0)]);
    assert_eq!(restore_edges(&vec![1, 2, 3], 2), vec![(1, 2), (3, 0)]);
    assert_eq!(restore_edges(&Vec::new(), 2), vec![(0, 0), (0, 0)]);
}

#[test]
fn restore_ignores_what_lies_beyond_the_edge_count() {
    assert_eq!(restore_edges(&vec![1, 2, 3, 4, 5, 6], 2), vec![(1, 2), (3, 4)]);
    assert_eq!(restore_edges(&vec![1, 2, 3, 4, 5], 1), vec![(1, 2)]);
    assert_eq!(restore_edges(&vec![1, 2, 3, 4], 0), vec![]);
}

#[test]
fn resize_pads_with_placeholder_edges() {
    let mut edges: Vec<(usize, usize)> = vec![(4, 5)];
    resize_edges(&mut edges, 3);
    assert_eq!(edges, vec![(4, 5), (0, 0), (0, 0)]);
    let mut none: Vec<(usize, usize)> = Vec::new();
    resize_edges(&mut none, 2);
    assert_eq!(none, vec![(0, 0), (0, 0)]);
}

#[test]
fn resize_cuts_a_long_list() {
    let mut edges: Vec<(usize, usize)> = vec![(1, 2), (3, 4), (5, 6)];
    resize_edges(&mut edges, 2);
    assert_eq!(edges, vec![(1, 2), (3, 4)]);
    resize_edges(&mut edges, 2);
    assert_eq!(edges, vec![(1, 2), (3, 4)]);
    resize_edges(&mut edges, 0);
    assert_eq!(edges, vec![]);
}
