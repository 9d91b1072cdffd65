use storm::storage::{DenseEntry, Entry, SparseMap, SparseSet};
use storm::Id;

#[derive(Debug)]
struct TestData(Id<TestData>, String);

impl DenseEntry for TestData {
    type Key = Self;

    fn spec_id(&self) -> Id<Self::Key> {
        self.0
    }

    fn id(&self) -> Id<Self::Key> {
        self.0
    }
}

#[derive(Debug)]
struct TestData2(Id<TestData>, String);

impl DenseEntry for TestData2 {
    type Key = TestData;

    fn spec_id(&self) -> Id<Self::Key> {
        self.0
    }

    fn id(&self) -> Id<Self::Key> {
        self.0
    }
}

#[derive(Debug)]
struct Counter(Id<Counter>, u32);

impl Default for Counter {
    fn default() -> Self {
        Counter(Id::new(0, 0), 0)
    }
}

impl DenseEntry for Counter {
    type Key = Counter;

    fn spec_id(&self) -> Id<Self::Key> {
        self.0
    }

    fn id(&self) -> Id<Self::Key> {
        self.0
    }
}

#[test]
fn test_next_id() {
    let mut set: SparseSet<TestData> = SparseSet::new();

    let id_1 = set.next_id();
    set.insert(TestData(id_1, "data 1".to_string()));

    let id_2 = set.next_id();
    set.insert(TestData(id_2, "data 2".to_string()));

    assert_ne!(id_1, id_2);
    assert_eq!("data 1", set[id_1].1);
    assert_eq!("data 2", set[id_2].1);
}

#[test]
fn test_contains() {
    let mut set: SparseSet<TestData> = SparseSet::new();

    let mut id_1 = set.next_id();
    set.insert(TestData(id_1, "data 1".to_string()));

    let mut id_2 = set.next_id();
    set.insert(TestData(id_2, "data 2".to_string()));

    assert!(set.contains(id_1));
    assert!(set.contains(id_2));

    id_1.version += 1;
    assert!(!set.contains(id_1));

    id_2.sparse += 1;
    assert!(!set.contains(id_2));
}

#[test]
fn test_remove() {
    let mut set: SparseSet<TestData> = SparseSet::new();

    let id_1 = set.next_id();
    set.insert(TestData(id_1, "data 1".to_string()));

    let id_2 = set.next_id();
    set.insert(TestData(id_2, "data 2".to_string()));

    set.delete(id_1);
    assert!(set.get(id_1).is_none());
    assert_eq!("data 2", set[id_2].1);

    assert!(set.deleted().contains(&id_1));

    set.delete(id_2);
    assert!(set.get(id_2).is_none());

    assert!(set.deleted().contains(&id_2));
}

#[test]
fn test_recycling() {
    let mut set: SparseSet<TestData> = SparseSet::new();

    let id_1_v1 = set.next_id();
    set.insert(TestData(id_1_v1, "data 1".to_string()));

    let id_2_v1 = set.next_id();
    set.insert(TestData(id_2_v1, "data 2".to_string()));

    set.delete(id_2_v1);
    set.delete(id_1_v1);
    assert!(set.deleted().contains(&id_1_v1));
    assert!(set.deleted().contains(&id_2_v1));

    let id_1_v2 = set.next_id();
    set.insert(TestData(id_1_v2, "data 1 v2".to_string()));
    assert_ne!(id_1_v1, id_1_v2);

    assert!(!set.deleted().contains(&id_1_v1));
    assert!(!set.deleted().contains(&id_1_v2));
    assert!(set.deleted().contains(&id_2_v1));

    let id_2_v2 = set.next_id();
    set.insert(TestData(id_2_v2, "data 2 v2".to_string()));
    assert_ne!(id_2_v1, id_2_v2);

    let id_3_v1 = set.next_id();
    set.insert(TestData(id_3_v1, "data 3 v1".to_string()));
    assert!(set[id_3_v1].1 == "data 3 v1");

    set.delete(id_2_v2);
    let id_2_v3 = set.next_id();
    set.insert(TestData(id_2_v3, "data 2 v3".to_string()));
    assert!(set[id_2_v3].1 == "data 2 v3");
    assert!(set[id_3_v1].1 == "data 3 v1");
    assert!(set.get(id_2_v2).is_none());
    assert_ne!(id_2_v1, id_2_v3);
    assert_ne!(id_2_v2, id_2_v3);
}

#[test]
fn test_map() {
    let mut set: SparseSet<TestData> = SparseSet::new();
    let mut map: SparseMap<TestData2> = SparseMap::new();

    let id_1_v1 = set.next_id();
    set.insert(TestData(id_1_v1, String::from("data 1 v1")));
    let id_2_v1 = set.next_id();
    set.insert(TestData(id_2_v1, String::from("data 2 v1")));
    let id_3_v1 = set.next_id();
    set.insert(TestData(id_3_v1, String::from("data 3 v1")));

    map.insert(TestData2(id_2_v1, String::from("data2 2 v1")));
    assert!(map.get(id_1_v1).is_none());
    assert_eq!(map[id_2_v1].1, "data2 2 v1");
    assert!(map.get(id_3_v1).is_none());

    map.insert(TestData2(id_1_v1, String::from("data2 1 v1")));
    assert_eq!(map[id_1_v1].1, "data2 1 v1");
    assert_eq!(map[id_2_v1].1, "data2 2 v1");
    assert!(map.get(id_3_v1).is_none());

    map.remove(id_2_v1);
    assert_eq!(map[id_1_v1].1, "data2 1 v1");
    assert!(map.get(id_2_v1).is_none());
    assert!(map.get(id_3_v1).is_none());

    set.delete(id_2_v1);
    set.delete(id_3_v1);

    let id_2_v2 = set.next_id();
    set.insert(TestData(id_2_v2, String::from("data 2 v2")));
    let id_3_v2 = set.next_id();
    set.insert(TestData(id_3_v2, String::from("data 3 v2")));

    assert!(map.get(id_2_v2).is_none());
    assert!(map.get(id_3_v2).is_none());

    map.insert(TestData2(id_3_v2, String::from("data2 3 v2")));
    assert_eq!(map[id_1_v1].1, "data2 1 v1");
    assert!(map.get(id_2_v2).is_none());
    assert_eq!(map[id_3_v2].1, "data2 3 v2");

    set.delete(id_1_v1);
    let id_1_v2 = set.next_id();
    set.insert(TestData(id_1_v2, String::from("data 1 v2")));
    assert!(map.get(id_1_v2).is_none());

    map.insert(TestData2(id_1_v2, String::from("data2 1 v2")));
    assert!(map.get(id_1_v1).is_none());
    assert_eq!(map[id_1_v2].1, "data2 1 v2");
    assert!(map.get(id_2_v2).is_none());
    assert_eq!(map[id_3_v2].1, "data2 3 v2");

    map.insert(TestData2(id_2_v2, String::from("data2 2 v2")));
    assert_eq!(map[id_1_v2].1, "data2 1 v2");
    assert_eq!(map[id_2_v2].1, "data2 2 v2");
    assert_eq!(map[id_3_v2].1, "data2 3 v2");
}

#[test]
fn insert_then_get_finds_entry() {
    let mut map: SparseMap<TestData> = SparseMap::new();
    let id = Id::new(5, 2);
    let stored = map.insert(TestData(id, "five".to_string()));
    assert_eq!(stored.1, "five");
    assert_eq!(map.len(), 1);
    assert_eq!(map.get(id).unwrap().1, "five");
    assert_eq!(map.dense_index(id), Some(0));
    assert!(map.get(Id::new(4, 0)).is_none());
    assert!(map.get(Id::new(6, 0)).is_none());
}

#[test]
fn insert_into_occupied_slot_replaces_entry() {
    let mut map: SparseMap<TestData> = SparseMap::new();
    map.insert(TestData(Id::new(1, 0), "old".to_string()));
    map.insert(TestData(Id::new(1, 3), "new".to_string()));
    assert_eq!(map.len(), 1);
    assert!(map.get(Id::new(1, 0)).is_none());
    assert_eq!(map[Id::new(1, 3)].1, "new");
}

#[test]
fn remove_moves_last_entry_into_hole() {
    let mut map: SparseMap<TestData> = SparseMap::new();
    map.insert(TestData(Id::new(0, 0), "a".to_string()));
    map.insert(TestData(Id::new(1, 0), "b".to_string()));
    map.insert(TestData(Id::new(2, 0), "c".to_string()));
    let removed = map.remove(Id::new(0, 0)).unwrap();
    assert_eq!(removed.1, "a");
    assert_eq!(map.len(), 2);
    assert_eq!(map.dense_index(Id::new(2, 0)), Some(0));
    assert_eq!(map.dense_index(Id::new(1, 0)), Some(1));
    let names: Vec<&str> = map.iter().map(|t| t.1.as_str()).collect();
    assert_eq!(names, vec!["c", "b"]);
    assert!(map.remove(Id::new(0, 0)).is_none());
    assert!(map.remove(Id::new(1, 7)).is_none());
    assert_eq!(map.len(), 2);
}

#[test]
fn entry_api_inserts_or_returns_existing() {
    let mut map: SparseMap<Counter> = SparseMap::new();
    let id = Id::new(3, 1);
    map.entry(id).or_insert_with(|| Counter(id, 10)).1 += 1;
    assert_eq!(map[id].1, 11);
    map.entry(id).or_insert_with(|| Counter(id, 100)).1 += 1;
    assert_eq!(map[id].1, 12);
    match map.entry(Id::new(9, 0)) {
        Entry::Vacant(v) => {
            v.insert(Counter(Id::new(9, 0), 1));
        }
        Entry::Occupied(_) => panic!("slot 9 is vacant"),
    }
    assert_eq!(map[Id::new(9, 0)].1, 1);
    match map.entry(Id::new(9, 0)) {
        Entry::Occupied(o) => *&mut o.into_mut().1 = 5,
        Entry::Vacant(_) => panic!("slot 9 is occupied"),
    }
    assert_eq!(map[Id::new(9, 0)].1, 5);
    assert_eq!(map.len(), 2);
}

#[test]
fn or_default_stores_default_entry() {
    let mut map: SparseMap<Counter> = SparseMap::new();
    let stored = map.entry(Id::new(0, 0)).or_default();
    assert_eq!(stored.1, 0);
    assert_eq!(map.len(), 1);
}

#[test]
fn get_mut_changes_stored_entry() {
    let mut set: SparseSet<Counter> = SparseSet::with_capacity(4);
    let id = set.next_id();
    set.insert(Counter(id, 1));
    set.get_mut(id).unwrap().1 = 7;
    assert_eq!(set[id].1, 7);
    for c in set.iter_mut() {
        c.1 += 1;
    }
    assert_eq!(set.get(id).unwrap().1, 8);
    assert_eq!(set.dense_index(id), Some(0));
    assert!(set.get_mut(Id::new(0, 1)).is_none());
}

#[test]
fn next_id_recycles_last_deleted_slot_with_next_version() {
    let mut set: SparseSet<TestData> = SparseSet::new();
    let a = set.next_id();
    assert_eq!((a.sparse, a.version), (0, 0));
    set.insert(TestData(a, "a".to_string()));
    let b = set.next_id();
    assert_eq!((b.sparse, b.version), (1, 0));
    set.insert(TestData(b, "b".to_string()));
    assert!(set.delete(a).is_some());
    assert!(set.delete(a).is_none());
    assert_eq!(set.deleted().len(), 1);
    let c = set.next_id();
    assert_eq!((c.sparse, c.version), (0, 1));
    assert!(!set.contains(c));
    set.insert(TestData(c, "c".to_string()));
    assert!(set.deleted().is_empty());
    assert!(!set.contains(a));
    assert_eq!(set.len(), 2);
}

#[test]
fn into_iter_yields_entries_in_storage_order() {
    let mut map: SparseMap<TestData> = SparseMap::new();
    map.insert(TestData(Id::new(4, 0), "x".to_string()));
    map.insert(TestData(Id::new(2, 0), "y".to_string()));
    let by_ref: Vec<&str> = (&map).into_iter().map(|t| t.1.as_str()).collect();
    assert_eq!(by_ref, vec!["x", "y"]);
    let owned: Vec<String> = map.into_iter().map(|t| t.1).collect();
    assert_eq!(owned, vec!["x".to_string(), "y".to_string()]);
}

#[test]
fn ids_compare_by_slot_and_version() {
    let a: Id<TestData> = Id::new(1, 2);
    let b: Id<TestData> = Id::new(1, 2);
    let c: Id<TestData> = Id::new(1, 3);
    assert_eq!(a, b);
    assert_ne!(a, c);
    let d = a.clone();
    assert_eq!(d, a);
}

#[test]
fn insert_then_remove_restores_storage() {
    let mut map: SparseMap<TestData> = SparseMap::new();
    map.insert(TestData(Id::new(0, 0), "a".to_string()));
    map.insert(TestData(Id::new(3, 1), "b".to_string()));
    let before: Vec<(u16, u16, String)> =
        map.iter().map(|d| (d.0.sparse, d.0.version, d.1.clone())).collect();
    map.insert(TestData(Id::new(5, 2), "c".to_string()));
    assert_eq!(map.len(), 3);
    assert_eq!(map.remove(Id::new(5, 2)).map(|d| d.1), Some("c".to_string()));
    let after: Vec<(u16, u16, String)> =
        map.iter().map(|d| (d.0.sparse, d.0.version, d.1.clone())).collect();
    assert_eq!(before, after);
}

#[test]
fn map_holds_up_to_the_vacancy_marker() {
    let mut map: SparseMap<TestData> = SparseMap::new();
    for k in 0..65534u16 {
        map.insert(TestData(Id::new(k, 0), String::new()));
    }
    assert_eq!(map.len(), 65534);
    map.insert(TestData(Id::new(65534, 0), "last".to_string()));
    assert_eq!(map.len(), 65535);
    assert_eq!(map.get(Id::new(65534, 0)).map(|d| d.1.as_str()), Some("last"));
    assert!(map.contains(Id::new(0, 0)));
}

#[test]
fn lookup_finds_latest_insert_of_its_generation() {
    let mut map: SparseMap<TestData> = SparseMap::new();
    map.insert(TestData(Id::new(1, 0), "first".to_string()));
    map.insert(TestData(Id::new(2, 0), "other".to_string()));
    map.insert(TestData(Id::new(1, 3), "second".to_string()));
    assert!(map.get(Id::new(1, 0)).is_none());
    assert_eq!(map.get(Id::new(1, 3)).unwrap().1, "second");
    assert!(map.remove(Id::new(1, 0)).is_none());
    assert_eq!(map.get(Id::new(1, 3)).unwrap().1, "second");
    assert!(map.remove(Id::new(1, 3)).is_some());
    assert!(map.get(Id::new(1, 3)).is_none());
    assert!(!map.contains(Id::new(1, 3)));
    assert_eq!(map.get(Id::new(2, 0)).unwrap().1, "other");
    assert!(map.get(Id::new(7, 0)).is_none());
}

#[test]
fn next_id_is_never_handed_out_twice() {
    let mut set: SparseSet<TestData> = SparseSet::new();
    let mut seen: Vec<(u16, u16)> = Vec::new();
    for round in 0..6u16 {
        let id = set.next_id();
        assert!(!set.contains(id));
        assert!(!seen.contains(&(id.sparse, id.version)));
        seen.push((id.sparse, id.version));
        set.insert(TestData(id, format!("entry {}", round)));
        if round % 2 == 1 {
            assert!(set.delete(id).is_some());
        }
    }
    let id = set.next_id();
    assert!(!seen.contains(&(id.sparse, id.version)));
}

#[test]
fn next_id_after_inserts_only_is_the_length() {
    let mut set: SparseSet<TestData> = SparseSet::new();
    for round in 0..4u16 {
        let id = set.next_id();
        assert_eq!((id.sparse, id.version), (set.len() as u16, 0));
        set.insert(TestData(id, format!("entry {}", round)));
    }
    assert_eq!(set.next_id(), Id::new(4, 0));
}
