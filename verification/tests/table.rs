use lunatic_runtime::table::HashMapId;

#[test]
fn ids_count_up_from_zero() {
    let mut table: HashMapId<&'static str> = HashMapId::new();
    assert_eq!(table.add("a"), 0);
    assert_eq!(table.add("b"), 1);
    assert_eq!(table.add("c"), 2);
}

#[test]
fn new_table_holds_nothing() {
    let mut table: HashMapId<u32> = HashMapId::new();
    assert_eq!(table.get(0), None);
    assert_eq!(table.get_mut(0), None);
    assert_eq!(table.remove(0), None);
    assert!(!table.is_full());
}

#[test]
fn default_table_is_a_new_table() {
    let mut table: HashMapId<u32> = HashMapId::default();
    assert_eq!(table.get(0), None);
    assert_eq!(table.add(5), 0);
    assert_eq!(table.get(0), Some(&5));
}

#[test]
fn added_item_is_found_under_its_id() {
    let mut table: HashMapId<String> = HashMapId::new();
    let first = table.add(String::from("first"));
    let second = table.add(String::from("second"));
    assert_eq!(table.get(first), Some(&String::from("first")));
    assert_eq!(table.get(second), Some(&String::from("second")));
    assert_eq!(table.get(2), None);
    assert_eq!(table.get(u64::MAX), None);
}

#[test]
fn remove_hands_the_item_back_once() {
    let mut table: HashMapId<String> = HashMapId::new();
    let id = table.add(String::from("gone"));
    assert_eq!(table.remove(id), Some(String::from("gone")));
    assert_eq!(table.remove(id), None);
    assert_eq!(table.get(id), None);
    assert_eq!(table.get_mut(id), None);
}

#[test]
fn removed_ids_are_not_issued_again() {
    let mut table: HashMapId<u8> = HashMapId::new();
    assert_eq!(table.add(10), 0);
    assert_eq!(table.add(11), 1);
    assert_eq!(table.remove(1), Some(11));
    assert_eq!(table.remove(0), Some(10));
    assert_eq!(table.add(12), 2);
    assert_eq!(table.get(0), None);
    assert_eq!(table.get(1), None);
    assert_eq!(table.get(2), Some(&12));
    assert_eq!(table.remove(2), Some(12));
    assert_eq!(table.add(13), 3);
}

#[test]
fn an_id_is_live_from_its_addition_to_its_removal() {
    let mut table: HashMapId<u64> = HashMapId::new();
    let mut live: Vec<u64> = Vec::new();
    for round in 0..20u64 {
        let id = table.add(round * 100);
        assert_eq!(id, round);
        live.push(id);
        if round % 3 == 2 {
            let victim = live.remove(0);
            assert_eq!(table.remove(victim), Some(victim * 100));
        }
        for id in 0..=round {
            if live.contains(&id) {
                assert_eq!(table.get(id), Some(&(id * 100)));
            } else {
                assert_eq!(table.get(id), None);
            }
        }
    }
}

#[test]
fn get_mut_changes_the_item_in_place() {
    let mut table: HashMapId<Vec<u8>> = HashMapId::new();
    let keep = table.add(vec![1]);
    let change = table.add(vec![2]);
    table.get_mut(change).unwrap().push(3);
    assert_eq!(table.get(change), Some(&vec![2, 3]));
    assert_eq!(table.get(keep), Some(&vec![1]));
    assert_eq!(table.add(vec![]), 2);
}

#[test]
fn removing_an_unknown_id_changes_nothing() {
    let mut table: HashMapId<u8> = HashMapId::new();
    let id = table.add(1);
    assert_eq!(table.remove(7), None);
    assert_eq!(table.get(id), Some(&1));
    assert_eq!(table.add(2), 1);
}
