use sp_op_viewer::path::SPPath;
use sp_op_viewer::store::StateStore;
use sp_op_viewer::value::SPValue;

fn p(s: &str) -> SPPath {
    SPPath::from_string(s)
}

fn upd(items: &[(&str, i32)]) -> Vec<(SPPath, SPValue)> {
    items.iter().map(|(k, v)| (p(k), SPValue::Int32(*v))).collect()
}

fn dump(s: &StateStore) -> Vec<(String, String, String)> {
    s.sorted_entries()
        .iter()
        .map(|e| (e.path.to_string(), e.value.to_string(), e.new_value.clone()))
        .collect()
}

#[test]
fn merge_inserts_and_overwrites() {
    let mut s = StateStore::new();
    s.merge(upd(&[("a/x", 1), ("b", 2)]));
    assert_eq!(s.len(), 2);
    s.merge(upd(&[("a/x", 5)]));
    assert_eq!(s.len(), 2);
    assert!(s.get(&p("a/x")).unwrap() == &SPValue::Int32(5));
    assert!(s.get(&p("b")).unwrap() == &SPValue::Int32(2));
}

#[test]
fn merge_last_update_of_a_path_wins() {
    let mut s = StateStore::new();
    s.merge(upd(&[("a", 1), ("a", 3)]));
    assert_eq!(s.len(), 1);
    assert!(s.get(&p("a")).unwrap() == &SPValue::Int32(3));
}

#[test]
fn merge_keeps_pending_edit() {
    let mut s = StateStore::new();
    s.merge(upd(&[("a", 1)]));
    s.set_pending_edit(&p("a"), "7".to_string());
    s.merge(upd(&[("a", 2)]));
    assert_eq!(s.pending_edit(&p("a")).unwrap(), "7");
    assert!(s.get(&p("a")).unwrap() == &SPValue::Int32(2));
    s.clear_pending_edit(&p("a"));
    assert_eq!(s.pending_edit(&p("a")).unwrap(), "");
}

#[test]
fn pending_edit_of_unknown_path_is_ignored() {
    let mut s = StateStore::new();
    s.merge(upd(&[("a", 1)]));
    s.set_pending_edit(&p("zzz"), "x".to_string());
    assert_eq!(s.len(), 1);
    assert!(s.pending_edit(&p("zzz")).is_none());
}

#[test]
fn merge_twice_is_merge_once() {
    let mut once = StateStore::new();
    once.merge(upd(&[("a", 1), ("b", 2)]));
    once.set_pending_edit(&p("a"), "9".to_string());
    let mut twice = StateStore::new();
    twice.merge(upd(&[("a", 1), ("b", 2)]));
    twice.set_pending_edit(&p("a"), "9".to_string());
    let u = upd(&[("a", 4), ("c", 3), ("a", 6)]);
    once.merge(u.clone());
    twice.merge(u.clone());
    twice.merge(u);
    assert_eq!(dump(&once), dump(&twice));
}

#[test]
fn disjoint_batches_merge_in_either_order() {
    let u1 = upd(&[("a", 1), ("b", 2)]);
    let u2 = upd(&[("c", 3), ("d/e", 4)]);
    let mut base = StateStore::new();
    base.merge(upd(&[("a", 0), ("c", 0), ("z", 9)]));
    let mut s12 = StateStore::new();
    s12.merge(upd(&[("a", 0), ("c", 0), ("z", 9)]));
    s12.merge(u1.clone());
    s12.merge(u2.clone());
    base.merge(u2);
    base.merge(u1);
    assert_eq!(dump(&s12), dump(&base));
}

#[test]
fn unknown_path_lookup_is_absent() {
    let mut s = StateStore::new();
    assert!(s.get(&p("nowhere")).is_none());
    s.merge(upd(&[("a", 1)]));
    assert!(s.get(&p("nowhere")).is_none());
    assert!(s.get(&p("a")).is_some());
}

#[test]
fn snapshot_is_in_path_order() {
    let mut s = StateStore::new();
    s.merge(upd(&[("b/a", 1), ("a/z", 2), ("a", 3), ("c", 4), ("a/b", 5)]));
    let order: Vec<String> = s.sorted_entries().iter().map(|e| e.path.to_string()).collect();
    assert_eq!(order, vec!["a", "a/b", "a/z", "b/a", "c"]);
    assert_eq!(s.len(), 5);
    let values = s.values_list();
    assert_eq!(values.len(), 5);
}
