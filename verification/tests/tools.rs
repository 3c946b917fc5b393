use general::tools::VecTail;

#[test]
fn length() {
    let v = VecTail::from(vec![1, 2, 3, 4, 0, 0, 0], 0);
    assert_eq!(v.len(), 4);
}

#[test]
fn eq() {
    let inf_1 = VecTail::from(vec![1, 2, 3, 4], 0);
    let inf_2 = VecTail::from(vec![1, 2, 3, 4, 0], 0);
    assert_eq!(inf_1, inf_2);

    let inf_1 = VecTail::from(vec![2, 2, 3, 4], 0);
    let inf_2 = VecTail::from(vec![1, 2, 3, 4], 0);
    assert_ne!(inf_1, inf_2);

    let inf_1 = VecTail::from(
        vec![vec![None, Some(1), Some(2)], vec![None], vec![Some(5)]],
        vec![],
    );
    let inf_2 = VecTail::from(
        vec![vec![None, Some(1), None], vec![None], vec![Some(5)]],
        vec![],
    );
    assert_ne!(inf_1, inf_2);
}

#[test]
fn ord() {
    let inf_1 = VecTail::from(vec![1, 2, 3, 4], 0);
    let inf_2 = VecTail::from(vec![1, 2, 3, 4], 0);
    let inf_3 = VecTail::from(vec![1, 2, 2, 4], 0);
    assert!(inf_1 <= inf_2);
    assert!(inf_3 < inf_2);
}

#[test]
fn display_vec() {
    let list = VecTail::from(vec![1, 2, 3], 0);
    assert_eq!(String::from("(1, 2, 3, 0...)"), list.debug_string());
}

#[test]
fn index() {
    let list = VecTail::from(vec![1, 2, 3], 0);
    assert_eq!(*list.get(3), 0);
    assert_eq!(*list.get(2), 3);
}

#[test]
fn new_default_tail() {
    let v: VecTail<i32> = VecTail::new();
    assert!(v.is_empty());
    assert_eq!(v.len(), 0);
    assert_eq!(*v.get(0), 0);
    assert_eq!(*v.get(100), 0);
}

#[test]
fn get_within_and_beyond() {
    let v = VecTail::from(vec![5, 0, 7, 0, 0], 0);
    assert_eq!(v.len(), 3);
    assert_eq!(*v.get(0), 5);
    assert_eq!(*v.get(1), 0);
    assert_eq!(*v.get(2), 7);
    assert_eq!(*v.get(3), 0);
    assert_eq!(*v.get(50), 0);
}

#[test]
fn appending_tail_entries_keeps_equality() {
    let short = VecTail::from(vec![1, 2], 9);
    let long = VecTail::from(vec![1, 2, 9, 9, 9], 9);
    assert_eq!(short, long);
    assert_eq!(long.len(), 2);
}

#[test]
fn nonzero_tail_strip() {
    let v = VecTail::from(vec![7, 7, 7], 7);
    assert!(v.is_empty());
    assert_eq!(*v.get(0), 7);
}

#[test]
fn different_tails_not_equal() {
    let zeros: VecTail<i32> = VecTail::from(vec![], 0);
    let ones: VecTail<i32> = VecTail::from(vec![], 1);
    assert_ne!(zeros, ones);
    assert!(zeros < ones);
}

#[test]
fn incomparable_sequences() {
    let a = VecTail::from(vec![1, 0], 0);
    let b = VecTail::from(vec![0, 1], 0);
    assert_eq!(a.partial_cmp(&b), None);
    assert!(!(a < b));
    assert!(!(a > b));
    assert!(a != b);
}

#[test]
fn iterate_finite_and_infinite() {
    let v = VecTail::from(vec![1, 2, 0], 0);
    assert_eq!(v.iter_finite(), vec![1, 2]);
    assert_eq!(v.iter(5), vec![1, 2, 0, 0, 0]);
    assert_eq!(v.iter(0), Vec::<i32>::new());
    assert_eq!(v.into_iter_finite(), vec![1, 2]);
}
