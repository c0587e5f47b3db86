use live_data::cache::{Cache, CacheLookupError};
use live_data::data::DataPoint;

fn names(list: &[&str]) -> Vec<String> {
    list.iter().map(|s| s.to_string()).collect()
}

fn point_at(timestamp: i64) -> DataPoint {
    let mut point = DataPoint::default();
    point.timestamp = Some(timestamp);
    point.data = vec![1.5f64.to_bits(), 2.5f64.to_bits()];
    point
}

#[test]
fn initialized_cache_has_every_node_without_value() {
    let cache = Cache::initialize(&names(&["ET02", "ET01", "ET03"]));
    assert_eq!(cache.len(), 3);
    for id in ["ET01", "ET02", "ET03"] {
        let entry = cache.get(id).unwrap();
        assert_eq!(entry.node_id, id);
        assert!(entry.value.is_none());
    }
}

#[test]
fn initialized_cache_knows_no_other_node() {
    let cache = Cache::initialize(&names(&["ET01", "ET02"]));
    assert_eq!(cache.get("ET03").unwrap_err(), CacheLookupError::NotFound);
    assert_eq!(cache.get("et01").unwrap_err(), CacheLookupError::NotFound);
    assert_eq!(cache.get("").unwrap_err(), CacheLookupError::NotFound);
}

#[test]
fn cache_of_no_nodes_is_empty() {
    let cache = Cache::initialize(&Vec::new());
    assert_eq!(cache.len(), 0);
    assert!(cache.get_all().is_empty());
    assert_eq!(cache.get("ET01").unwrap_err(), CacheLookupError::NotFound);
}

#[test]
fn repeated_ids_give_one_entry() {
    let cache = Cache::initialize(&names(&["B", "A", "B"]));
    assert_eq!(cache.len(), 2);
}

#[test]
fn set_replaces_the_value() {
    let mut cache = Cache::initialize(&names(&["ET01", "ET02"]));
    assert_eq!(cache.set("ET01", Some(point_at(1000))), Ok(()));
    let entry = cache.get("ET01").unwrap();
    let point = entry.value.unwrap();
    assert_eq!(point.timestamp, Some(1000));
    assert_eq!(point.data, vec![1.5f64.to_bits(), 2.5f64.to_bits()]);
}

#[test]
fn last_write_wins() {
    let mut cache = Cache::initialize(&names(&["ET01"]));
    cache.set("ET01", Some(point_at(1))).unwrap();
    cache.set("ET01", Some(point_at(2))).unwrap();
    assert_eq!(cache.get("ET01").unwrap().value.unwrap().timestamp, Some(2));
    cache.set("ET01", None).unwrap();
    assert!(cache.get("ET01").unwrap().value.is_none());
}

#[test]
fn absent_differs_from_timestamp_zero() {
    let mut cache = Cache::initialize(&names(&["ET01", "ET02"]));
    cache.set("ET01", Some(point_at(0))).unwrap();
    assert_eq!(cache.get("ET01").unwrap().value.unwrap().timestamp, Some(0));
    assert!(cache.get("ET02").unwrap().value.is_none());
}

#[test]
fn set_refuses_an_unknown_node() {
    let mut cache = Cache::initialize(&names(&["ET01"]));
    assert_eq!(cache.set("ET09", Some(point_at(5))), Err(CacheLookupError::NotFound));
    assert_eq!(cache.len(), 1);
    assert_eq!(cache.get("ET09").unwrap_err(), CacheLookupError::NotFound);
    assert!(cache.get("ET01").unwrap().value.is_none());
}

#[test]
fn writes_to_different_nodes_do_not_interfere() {
    let ids = names(&["A", "B", "C"]);
    let mut first = Cache::initialize(&ids);
    first.set("A", Some(point_at(10))).unwrap();
    first.set("B", Some(point_at(20))).unwrap();
    let mut second = Cache::initialize(&ids);
    second.set("B", Some(point_at(20))).unwrap();
    second.set("A", Some(point_at(10))).unwrap();
    for cache in [&first, &second] {
        assert_eq!(cache.get("A").unwrap().value.unwrap().timestamp, Some(10));
        assert_eq!(cache.get("B").unwrap().value.unwrap().timestamp, Some(20));
        assert!(cache.get("C").unwrap().value.is_none());
    }
}

#[test]
fn get_all_is_sorted_by_id() {
    let mut cache = Cache::initialize(&names(&["ET10", "ET02", "ET01"]));
    cache.set("ET02", Some(point_at(42))).unwrap();
    let all = cache.get_all();
    let ids: Vec<&str> = all.iter().map(|e| e.node_id.as_str()).collect();
    assert_eq!(ids, vec!["ET01", "ET02", "ET10"]);
    assert!(all[0].value.is_none());
    assert_eq!(all[1].value.as_ref().unwrap().timestamp, Some(42));
    assert!(all[2].value.is_none());
}

#[test]
fn positions_follow_the_sorted_order() {
    let mut cache = Cache::initialize(&names(&["B", "A"]));
    cache.set("B", Some(point_at(3))).unwrap();
    assert_eq!(cache.id_at(0), "A");
    assert_eq!(cache.id_at(1), "B");
    assert!(cache.value_at(0).is_none());
    assert_eq!(cache.value_at(1).as_ref().unwrap().timestamp, Some(3));
}
