use stacked_map::{InsertedMap, MapTypeIdIterator, Removed, StackedMap, TypeId, TypeMap};

fn tags<M: TypeMap>(map: &M) -> Vec<TypeId> {
    let mut iter: MapTypeIdIterator<'_, M> = map.type_id_iter();
    let mut out = Vec::new();
    while let Some(id) = iter.next() {
        out.push(id);
    }
    out
}

#[test]
fn map() {
    let map = StackedMap;
    assert_eq!(map.len(), 0);
    let map = map.insert(1).insert(2).insert(3);
    assert_eq!(map.get::<String>(), None);
    assert_eq!(map.get::<i32>(), Some(&3));
    assert_eq!(map.len(), 1);
    let map2 = map.clone();
    let map3 = map.clone();
    assert!(matches!(map.remove::<String>(), Removed::NotFound(_)));
    assert!(matches!(
        map2.remove::<i32>(),
        Removed::Removed { map: _, value: 3 }
    ));
    let map = map3.insert(());
    let map = map.insert("hi");
    assert_eq!(
        tags(&map),
        vec![TypeId::of::<&'static str>(), TypeId::of::<()>()]
    );
}

#[test]
fn get_after_insert_into_empty() {
    let map = StackedMap.insert(String::from("abc"));
    assert_eq!(map.get::<String>(), Some(&String::from("abc")));
    assert_eq!(map.get::<i32>(), None);
    assert_eq!(map.len(), 1);
    assert!(matches!(StackedMap.insert(7u8), InsertedMap::Inserted(StackedMap, 7)));
}

#[test]
fn second_insert_overwrites() {
    let map = StackedMap.insert(10u64).insert('x');
    assert_eq!(map.len(), 2);
    let map = map.insert(20u64);
    assert!(matches!(map, InsertedMap::Existed { old: 10, .. }));
    assert_eq!(map.len(), 2);
    assert_eq!(map.get::<u64>(), Some(&20));
    assert_eq!(map.get::<char>(), Some(&'x'));
}

#[test]
fn fresh_insert_grows_by_one() {
    let map = StackedMap.insert(1i32);
    let before = map.len();
    let map = map.insert(true);
    assert!(matches!(map, InsertedMap::Inserted(_, true)));
    assert_eq!(map.len(), before + 1);
}

#[test]
fn remove_after_insert() {
    let map = StackedMap.insert(5i32).insert(String::from("s"));
    let before = map.len();
    match map.remove::<String>() {
        Removed::Removed { map, value } => {
            assert_eq!(value, "s");
            assert_eq!(map.len(), before - 1);
            assert_eq!(map.get::<String>(), None);
            assert_eq!(map.get::<i32>(), Some(&5));
        }
        Removed::NotFound(_) => panic!("value not removed"),
    }
}

#[test]
fn remove_missing_leaves_container() {
    let map = StackedMap.insert(5i32).insert('c');
    match map.remove::<u16>() {
        Removed::NotFound(map) => {
            assert_eq!(map.len(), 2);
            assert_eq!(map.get::<i32>(), Some(&5));
            assert_eq!(map.get::<char>(), Some(&'c'));
        }
        Removed::Removed { .. } => panic!("nothing to remove"),
    }
    assert!(matches!(StackedMap.remove::<i32>(), Removed::NotFound(StackedMap)));
}

#[test]
fn insert_then_remove_round_trip() {
    let base = StackedMap.insert(1u8).insert(2u16);
    let map = base.clone().insert(3u32);
    match map.remove::<u32>() {
        Removed::Removed { map, value } => {
            assert_eq!(value, 3);
            assert_eq!(map.len(), base.len());
            assert_eq!(map.get::<u8>(), base.get::<u8>());
            assert_eq!(map.get::<u16>(), base.get::<u16>());
            assert_eq!(map.get::<u32>(), None);
        }
        Removed::NotFound(_) => panic!("value not removed"),
    }
}

#[test]
fn repeated_overwrites_keep_one_value() {
    let map = StackedMap.insert(1i32);
    let map = map.insert(2i32);
    assert!(matches!(map, InsertedMap::Existed { old: 1, .. }));
    let map = map.insert(3i32);
    assert!(matches!(map, InsertedMap::Existed { old: 2, .. }));
    assert_eq!(map.get::<i32>(), Some(&3));
    assert_eq!(map.len(), 1);
}

#[test]
fn copies_are_independent() {
    let map = StackedMap.insert(3i32);
    let copy = map.clone();
    match copy.remove::<i32>() {
        Removed::Removed { map: rest, value } => {
            assert_eq!(value, 3);
            assert_eq!(rest.len(), 0);
            assert!(rest.is_empty());
        }
        Removed::NotFound(_) => panic!("value not removed"),
    }
    assert_eq!(map.get::<i32>(), Some(&3));
}

#[test]
fn tags_stop_at_first_overwrite() {
    let map = StackedMap.insert(1u8).insert(2i32).insert(3i32);
    let map = map.insert(()).insert("hi");
    assert_eq!(
        tags(&map),
        vec![TypeId::of::<&'static str>(), TypeId::of::<()>()]
    );
    assert_eq!(map.type_id(0), Some(TypeId::of::<&'static str>()));
    assert_eq!(map.type_id(2), None);
    assert_eq!(map.type_id(4), Some(TypeId::of::<u8>()));
    assert_eq!(map.type_id(5), None);
    assert_eq!(map.type_id(100), None);
}

#[test]
fn removal_frames_take_a_depth_without_tag() {
    let base = StackedMap.insert(1u8).insert('a');
    assert_eq!(tags(&base), vec![TypeId::of::<char>(), TypeId::of::<u8>()]);
    let failed = base.remove::<u64>();
    assert!(matches!(failed, Removed::NotFound(_)));
    assert_eq!(failed.type_id(0), None);
    assert_eq!(failed.type_id(1), Some(TypeId::of::<char>()));
    assert_eq!(failed.type_id(2), Some(TypeId::of::<u8>()));
    assert!(tags(&failed).is_empty());
    let removed = failed.remove::<char>();
    assert!(matches!(removed, Removed::Removed { value: 'a', .. }));
    assert_eq!(removed.type_id(0), None);
    assert_eq!(removed.type_id(1), None);
    assert_eq!(removed.type_id(2), None);
    assert_eq!(removed.type_id(3), Some(TypeId::of::<u8>()));
    assert!(tags(&removed).is_empty());
    let rest = match removed {
        Removed::Removed { map, .. } => map,
        Removed::NotFound(_) => panic!("value not removed"),
    };
    assert_eq!(rest.type_id(0), None);
    assert_eq!(rest.type_id(1), None);
    assert_eq!(rest.type_id(2), Some(TypeId::of::<u8>()));
    assert_eq!(rest.len(), 1);
    assert_eq!(rest.get::<u8>(), Some(&1));
}

#[test]
fn removal_beneath_a_fresh_frame() {
    let map = StackedMap.insert(1u8).insert('a');
    let outcome = map.remove::<u8>();
    assert_eq!(outcome.type_id(0), None);
    assert!(tags(&outcome).is_empty());
    let rest = match outcome {
        Removed::Removed { map, value } => {
            assert_eq!(value, 1);
            map
        }
        Removed::NotFound(_) => panic!("value not removed"),
    };
    assert_eq!(rest.type_id(0), Some(TypeId::of::<char>()));
    assert_eq!(rest.type_id(1), None);
    assert_eq!(rest.get::<char>(), Some(&'a'));
    assert_eq!(rest.get::<u8>(), None);
    assert_eq!(rest.len(), 1);
}

#[test]
fn insert_after_removal() {
    let map = StackedMap.insert(1u8).insert(2u16);
    let map = match map.remove::<u8>() {
        Removed::Removed { map, .. } => map,
        Removed::NotFound(_) => panic!("value not removed"),
    };
    let map = map.insert(9u8);
    assert!(matches!(map, InsertedMap::Inserted(_, 9)));
    assert_eq!(map.len(), 2);
    let map = map.insert(4u16);
    assert!(matches!(map, InsertedMap::Existed { old: 2, .. }));
    assert_eq!(map.get::<u16>(), Some(&4));
    assert_eq!(map.get::<u8>(), Some(&9));
}

#[test]
fn get_mut_changes_value_in_place() {
    let mut map = StackedMap.insert(1i32).insert(String::from("a"));
    if let Some(s) = map.get_mut::<String>() {
        s.push('b');
    }
    if let Some(n) = map.get_mut::<i32>() {
        *n += 10;
    }
    assert!(map.get_mut::<u8>().is_none());
    assert_eq!(map.get::<String>(), Some(&String::from("ab")));
    assert_eq!(map.get::<i32>(), Some(&11));
    assert_eq!(map.len(), 2);
}

#[test]
fn contains_and_is_empty() {
    assert!(StackedMap.is_empty());
    assert!(!StackedMap.contains::<i32>());
    let map = StackedMap.insert(0i64);
    assert!(map.contains::<i64>());
    assert!(!map.contains::<i32>());
    assert!(!map.is_empty());
}

#[test]
fn into_inner_and_clear() {
    let map = StackedMap.insert(1u8).insert(2u16);
    let inner = map.clone().into_inner();
    assert_eq!(inner.len(), 1);
    assert_eq!(inner.get::<u8>(), Some(&1));
    assert_eq!(inner.get::<u16>(), None);
    let empty = map.clear();
    assert_eq!(empty.len(), 0);
    assert_eq!(StackedMap.into_inner().len(), 0);
}
