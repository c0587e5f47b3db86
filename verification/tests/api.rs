use live_data::api::{consistent, entry_for, get_all, get_one, ApiError, NodeStatus, NO_DATA_STATUS};
use live_data::cache::Cache;
use live_data::config::{ConfigFile, NodeConfigEntry};
use live_data::data::DataPoint;
use live_data::poll::{conclude, SendOutcome};
use live_data::registry::NodeRegistry;
use live_data::scheduler::{Scheduler, Settings, TickAction};

fn registry_of(ids: &[&str]) -> NodeRegistry {
    let nodes = ids
        .iter()
        .map(|id| NodeConfigEntry {
            node_id: id.to_string(),
            data_endpoint: format!("http://{}/last", id),
            location: format!("Site {}", id),
        })
        .collect();
    NodeRegistry::build(&ConfigFile { nodes }).unwrap()
}

fn point_at(timestamp: Option<i64>) -> DataPoint {
    let mut point = DataPoint::default();
    point.timestamp = timestamp;
    point.fix = 2;
    point
}

fn launched_ids(action: TickAction) -> Vec<String> {
    match action {
        TickAction::Launch(requests) => requests.into_iter().map(|r| r.node_id).collect(),
        TickAction::Stop => panic!("collection was not cancelled"),
    }
}

#[test]
fn status_names() {
    assert_eq!(NodeStatus::Online.as_str(), "online");
    assert_eq!(NodeStatus::Timeout.as_str(), "timeout");
    assert_eq!(NodeStatus::NoGpsFix.as_str(), "nogpsfix");
    assert_eq!(NodeStatus::Offline.as_str(), "offline");
}

#[test]
fn no_data_status_is_418() {
    assert_eq!(NO_DATA_STATUS, 418);
    assert_eq!(ApiError::NoData.status_code(), 418);
}

#[test]
fn entry_with_measurement_is_online() {
    let entry = entry_for("ET01".to_string(), "Shaft".to_string(), Some(point_at(Some(1000))));
    assert_eq!(entry.node_id, "ET01");
    assert_eq!(entry.location, "Shaft");
    assert_eq!(entry.status, NodeStatus::Online);
    assert_eq!(entry.last_update, 1000);
    assert_eq!(entry.data.unwrap().fix, 2);
}

#[test]
fn entry_without_timestamp_shows_zero() {
    let entry = entry_for("ET01".to_string(), "Shaft".to_string(), Some(point_at(None)));
    assert_eq!(entry.status, NodeStatus::Online);
    assert_eq!(entry.last_update, 0);
    assert!(entry.data.is_some());
}

#[test]
fn entry_without_measurement_is_offline() {
    let entry = entry_for("ET01".to_string(), "Shaft".to_string(), None);
    assert_eq!(entry.status, NodeStatus::Offline);
    assert_eq!(entry.last_update, 0);
    assert!(entry.data.is_none());
}

#[test]
fn get_all_shows_every_node_sorted() {
    let registry = registry_of(&["b", "a"]);
    let mut cache = Cache::initialize(&registry.node_ids());
    cache.set("B", Some(point_at(Some(55)))).unwrap();
    assert!(consistent(&cache, &registry));
    let entries = get_all(&cache, &registry).unwrap();
    assert_eq!(entries.len(), 2);
    assert_eq!(entries[0].node_id, "A");
    assert_eq!(entries[0].status, NodeStatus::Offline);
    assert_eq!(entries[0].location, "Site a");
    assert_eq!(entries[0].last_update, 0);
    assert!(entries[0].data.is_none());
    assert_eq!(entries[1].node_id, "B");
    assert_eq!(entries[1].status, NodeStatus::Online);
    assert_eq!(entries[1].location, "Site b");
    assert_eq!(entries[1].last_update, 55);
    assert_eq!(entries[1].data.as_ref().unwrap().timestamp, Some(55));
}

#[test]
fn get_all_of_an_empty_cache_has_no_data() {
    let registry = registry_of(&["A"]);
    let cache = Cache::initialize(&Vec::new());
    assert!(consistent(&cache, &registry));
    assert_eq!(get_all(&cache, &registry).unwrap_err(), ApiError::NoData);
}

#[test]
fn get_one_normalizes_the_id() {
    let registry = registry_of(&["et01"]);
    let mut cache = Cache::initialize(&registry.node_ids());
    cache.set("ET01", Some(point_at(Some(9)))).unwrap();
    for query in ["et01", "ET01", "Et01"] {
        let entry = get_one(&cache, &registry, query).unwrap();
        assert_eq!(entry.node_id, "ET01");
        assert_eq!(entry.status, NodeStatus::Online);
        assert_eq!(entry.location, "Site et01");
        assert_eq!(entry.last_update, 9);
    }
}

#[test]
fn get_one_without_value_has_no_data() {
    let registry = registry_of(&["ET01"]);
    let cache = Cache::initialize(&registry.node_ids());
    assert_eq!(get_one(&cache, &registry, "ET01").unwrap_err(), ApiError::NoData);
}

#[test]
fn get_one_of_an_unknown_node_has_no_data() {
    let registry = registry_of(&["ET01"]);
    let mut cache = Cache::initialize(&registry.node_ids());
    cache.set("ET01", Some(point_at(Some(9)))).unwrap();
    assert_eq!(get_one(&cache, &registry, "ET02").unwrap_err(), ApiError::NoData);
}

#[test]
fn cache_with_a_stray_node_is_not_consistent() {
    let registry = registry_of(&["A"]);
    let cache = Cache::initialize(&vec!["A".to_string(), "B".to_string()]);
    assert!(!consistent(&cache, &registry));
    let lower = Cache::initialize(&vec!["a".to_string()]);
    assert!(!consistent(&lower, &registry));
}

#[test]
fn two_nodes_one_failing_then_recovering() {
    let registry = registry_of(&["a", "b"]);
    let mut cache = Cache::initialize(&registry.node_ids());
    let mut scheduler = Scheduler::new(&registry.node_ids(), &Settings::default());
    assert!(consistent(&cache, &registry));

    assert_eq!(launched_ids(scheduler.tick(&registry)), vec!["A", "B"]);
    let from_a = conclude(SendOutcome::Answered(200), Some(point_at(Some(1000))));
    let from_b = conclude(SendOutcome::Answered(500), None);
    scheduler.finish(&mut cache, "A", from_a).unwrap();
    scheduler.finish(&mut cache, "B", from_b).unwrap();

    let entries = get_all(&cache, &registry).unwrap();
    assert_eq!(entries.len(), 2);
    assert_eq!(entries[0].node_id, "A");
    assert_eq!(entries[0].status, NodeStatus::Online);
    assert_eq!(entries[0].last_update, 1000);
    assert_eq!(entries[1].node_id, "B");
    assert_eq!(entries[1].status, NodeStatus::Offline);
    assert_eq!(get_one(&cache, &registry, "b").unwrap_err(), ApiError::NoData);

    assert_eq!(launched_ids(scheduler.tick(&registry)), vec!["A", "B"]);
    let from_b = conclude(SendOutcome::Answered(200), Some(point_at(Some(2000))));
    scheduler.finish(&mut cache, "B", from_b).unwrap();

    let entry = get_one(&cache, &registry, "b").unwrap();
    assert_eq!(entry.node_id, "B");
    assert_eq!(entry.status, NodeStatus::Online);
    assert_eq!(entry.last_update, 2000);
}
