use raytracer::cache::{Cache, CacheError};

#[test]
fn adding_an_item_one_time_is_allowed() {
    let mut cache = Cache::new();
    cache.add("unique", 1);
}

#[test]
#[should_panic]
fn adding_an_item_multiple_times_isnt_allowed() {
    let mut cache = Cache::new();
    cache.add("same", 1);
    cache.add("same", 2);
}

#[test]
fn added_item_can_be_retrieved_using_idx() {
    let mut cache = Cache::new();
    let idx = cache.add("name", 1822);
    assert_eq!(1822, cache[idx]);
}

#[test]
fn added_items_idx_can_be_retrieved_using_name() {
    let mut cache = Cache::new();
    let idx = cache.add("name", 1822);
    assert_eq!(Some(idx), cache.idx_for("name"));
}

#[test]
fn indices_count_up_from_zero_in_insertion_order() {
    let mut cache = Cache::new();
    assert_eq!(0, cache.add("first", 'a'));
    assert_eq!(1, cache.add("second", 'b'));
    assert_eq!(2, cache.add("third", 'c'));
    assert_eq!(3, cache.len());
    assert_eq!(Some(0), cache.idx_for("first"));
    assert_eq!(Some(1), cache.idx_for("second"));
    assert_eq!(Some(2), cache.idx_for("third"));
    assert_eq!('b', cache[1]);
    assert_eq!("third", cache.name_of(2));
}

#[test]
fn an_index_stays_the_same_after_later_insertions() {
    let mut cache = Cache::new();
    let idx = cache.add("early", 10);
    for k in 0..50 {
        cache.add(&format!("later_{}", k), k);
    }
    assert_eq!(Some(idx), cache.idx_for("early"));
    assert_eq!(10, *cache.get(idx));
    assert_eq!(Some(50), cache.idx_for("later_49"));
}

#[test]
fn unknown_name_has_no_index() {
    let mut cache = Cache::new();
    assert_eq!(None, cache.idx_for("missing"));
    cache.add("present", 0);
    assert_eq!(None, cache.idx_for("missing"));
    assert_eq!(None, cache.idx_for(""));
    assert_eq!(None, cache.idx_for("Present"));
}

#[test]
fn try_add_rejects_a_duplicate_name_and_changes_nothing() {
    let mut cache = Cache::new();
    assert_eq!(Ok(0), cache.try_add("a", 1));
    assert_eq!(Ok(1), cache.try_add("b", 2));
    assert_eq!(Err(CacheError::DuplicateName { idx: 0 }), cache.try_add("a", 3));
    assert_eq!(Err(CacheError::DuplicateName { idx: 1 }), cache.try_add("b", 4));
    assert_eq!(2, cache.len());
    assert_eq!(1, cache[0]);
    assert_eq!(2, cache[1]);
    assert_eq!(Ok(2), cache.try_add("c", 5));
}

#[test]
fn default_cache_is_empty() {
    let cache: Cache<u8> = Cache::default();
    assert_eq!(0, cache.len());
    assert_eq!(None, cache.idx_for("anything"));
}

fn bindings(pairs: &[(&str, usize)]) -> Vec<(String, usize)> {
    pairs.iter().map(|(name, idx)| (name.to_string(), *idx)).collect()
}

#[test]
fn from_parts_binds_each_name_to_its_index() {
    let cache = Cache::from_parts(bindings(&[("c", 2), ("a", 0), ("b", 1)]), vec![10, 20, 30]).unwrap();
    assert_eq!(3, cache.len());
    assert_eq!(Some(0), cache.idx_for("a"));
    assert_eq!(Some(1), cache.idx_for("b"));
    assert_eq!(Some(2), cache.idx_for("c"));
    assert_eq!("a", cache.name_of(0));
    assert_eq!("b", cache.name_of(1));
    assert_eq!("c", cache.name_of(2));
    assert_eq!(10, cache[0]);
    assert_eq!(20, cache[1]);
    assert_eq!(30, cache[2]);
}

#[test]
fn from_parts_of_nothing_is_an_empty_cache() {
    let mut cache: Cache<u8> = Cache::from_parts(Vec::new(), Vec::new()).unwrap();
    assert_eq!(0, cache.len());
    assert_eq!(0, cache.add("first", 1));
}

#[test]
fn from_parts_rejects_an_index_without_an_entry() {
    let r = Cache::from_parts(bindings(&[("a", 0), ("b", 2)]), vec![1, 2]);
    assert_eq!(Some(CacheError::IndexOutOfRange { idx: 2 }), r.err());
    let r = Cache::from_parts(bindings(&[("a", 0)]), Vec::<u8>::new());
    assert_eq!(Some(CacheError::IndexOutOfRange { idx: 0 }), r.err());
}

#[test]
fn from_parts_rejects_two_names_for_one_index() {
    let r = Cache::from_parts(bindings(&[("a", 1), ("b", 0), ("c", 1)]), vec![1, 2, 3]);
    assert_eq!(Some(CacheError::IndexTaken { idx: 1 }), r.err());
}

#[test]
fn from_parts_rejects_an_entry_without_a_name() {
    let r = Cache::from_parts(bindings(&[("a", 0), ("b", 2)]), vec![1, 2, 3]);
    assert_eq!(Some(CacheError::Unnamed { idx: 1 }), r.err());
    let r = Cache::from_parts(Vec::new(), vec![1]);
    assert_eq!(Some(CacheError::Unnamed { idx: 0 }), r.err());
}

#[test]
fn from_parts_rejects_a_name_with_two_indices() {
    let r = Cache::from_parts(bindings(&[("a", 2), ("b", 1), ("a", 0)]), vec![1, 2, 3]);
    assert_eq!(Some(CacheError::DuplicateName { idx: 0 }), r.err());
}

#[test]
fn from_parts_reads_the_bindings_before_the_entries() {
    let r = Cache::from_parts(bindings(&[("a", 1), ("a", 2), ("b", 7)]), vec![1, 2, 3]);
    assert_eq!(Some(CacheError::IndexOutOfRange { idx: 7 }), r.err());
    let r = Cache::from_parts(bindings(&[("a", 1), ("a", 2)]), vec![1, 2, 3]);
    assert_eq!(Some(CacheError::Unnamed { idx: 0 }), r.err());
    let r = Cache::from_parts(bindings(&[("a", 0), ("a", 1)]), vec![1, 2, 3]);
    assert_eq!(Some(CacheError::DuplicateName { idx: 0 }), r.err());
}
