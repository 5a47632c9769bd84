use aetherless::storage::Storage;

#[test]
fn read_after_write_and_delete() {
    let mut s = Storage::new();
    assert_eq!(s.get("a"), None);
    s.put("a".to_string(), vec![1]);
    s.put("b".to_string(), vec![2, 3]);
    assert_eq!(s.get("a"), Some(vec![1]));
    s.put("a".to_string(), vec![9]);
    assert_eq!(s.get("a"), Some(vec![9]));
    assert_eq!(s.get("b"), Some(vec![2, 3]));
    s.delete("a");
    assert_eq!(s.get("a"), None);
    assert_eq!(s.get("b"), Some(vec![2, 3]));
    s.delete("missing");
    let d = Storage::default();
    assert_eq!(d.get("b"), None);
}

#[test]
fn read_after_a_run_of_writes_and_deletes() {
    let mut s = Storage::new();
    assert_eq!(s.get("k"), None);
    s.put("k".to_string(), vec![1]);
    s.put("j".to_string(), vec![2]);
    s.put("k".to_string(), vec![3]);
    s.delete("j");
    s.delete("absent");
    assert_eq!(s.get("k"), Some(vec![3]));
    assert_eq!(s.get("j"), None);
    s.delete("k");
    s.put("j".to_string(), vec![4]);
    assert_eq!(s.get("k"), None);
    assert_eq!(s.get("j"), Some(vec![4]));
}
