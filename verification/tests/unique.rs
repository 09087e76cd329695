use juniper_eager_loading::unique;

#[test]
fn unique_removes_duplicates() {
    assert_eq!(unique(vec![1, 2, 1, 3, 2, 1]), vec![1, 2, 3]);
}

#[test]
fn unique_keeps_each_value_where_it_first_occurs() {
    assert_eq!(unique(vec![5, 4, 5, 3, 4]), vec![5, 4, 3]);
}

#[test]
fn unique_of_empty_is_empty() {
    let empty: Vec<i32> = Vec::new();
    assert_eq!(unique(empty), Vec::<i32>::new());
}

#[test]
fn unique_of_distinct_values_changes_nothing() {
    assert_eq!(unique(vec![3, 1, 2]), vec![3, 1, 2]);
}

#[test]
fn unique_is_idempotent() {
    let once = unique(vec![2, 2, 7, 2, 9, 7]);
    let twice = unique(once.clone());
    assert_eq!(once, twice);
}

#[test]
fn unique_works_on_strings() {
    let ids = vec!["a".to_string(), "b".to_string(), "a".to_string()];
    assert_eq!(unique(ids), vec!["a".to_string(), "b".to_string()]);
}

#[test]
fn unique_keeps_every_value() {
    let items = vec![4, 1, 4, 4, 8, 1];
    let kept = unique(items.clone());
    for item in &items {
        assert!(kept.contains(item));
    }
    assert_eq!(kept.len(), 3);
}
