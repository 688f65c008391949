use excel_cli::seqs::{check_indices, check_insert_points, insert_indices, remove_indices};

#[test]
fn check_indices_accepts_increasing_sets_in_range() {
    assert!(check_indices(&vec![1, 3, 4], 1, 5));
    assert!(check_indices(&vec![2], 1, 3));
    assert!(!check_indices(&vec![], 1, 5));
    assert!(!check_indices(&vec![0, 1], 1, 5));
    assert!(!check_indices(&vec![1, 5], 1, 5));
    assert!(!check_indices(&vec![3, 1], 1, 5));
    assert!(!check_indices(&vec![1, 1], 1, 5));
}

#[test]
fn check_insert_points_allows_growth() {
    assert!(check_insert_points(&vec![1, 2, 3], 1, 1));
    assert!(check_insert_points(&vec![], 1, 0));
    assert!(!check_insert_points(&vec![2, 4], 1, 2));
    assert!(!check_insert_points(&vec![0], 1, 5));
    assert!(check_insert_points(&vec![3, 1], 1, 3));
}

#[test]
fn remove_indices_takes_items_in_order() {
    let mut v = vec!['a', 'b', 'c', 'd', 'e'];
    let removed = remove_indices(&mut v, &vec![1, 3, 4]);
    assert_eq!(removed, vec!['b', 'd', 'e']);
    assert_eq!(v, vec!['a', 'c']);
}

#[test]
fn insert_indices_puts_items_back() {
    let original = vec!['a', 'b', 'c', 'd', 'e'];
    let mut v = original.clone();
    let idxs = vec![0, 2, 3];
    let removed = remove_indices(&mut v, &idxs);
    assert_eq!(v, vec!['b', 'e']);
    insert_indices(&mut v, &idxs, removed);
    assert_eq!(v, original);
}

#[test]
fn insert_indices_inserts_from_first_to_last() {
    let mut v = vec![10, 20];
    insert_indices(&mut v, &vec![0, 0, 4], vec![1, 2, 3]);
    assert_eq!(v, vec![2, 1, 10, 20, 3]);
}
