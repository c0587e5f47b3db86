use live_data::config::{ConfigFile, NodeConfigEntry};
use live_data::data::{copy_value, DataPoint, DataPointFlags};
use live_data::scheduler::Settings;

#[test]
fn flags_default_to_false() {
    let flags = DataPointFlags::default();
    assert!(!flags.has_gps_fix);
    assert!(!flags.is_clipping);
}

#[test]
fn data_point_defaults_to_blank() {
    let point = DataPoint::default();
    assert_eq!(point.timestamp, None);
    assert_eq!(f32::from_bits(point.sample_rate), 0.0);
    assert_eq!(point.flags, DataPointFlags::default());
    assert_eq!(point.latitude, 0);
    assert_eq!(point.longitude, 0);
    assert_eq!(point.elevation, 0);
    assert_eq!(point.speed, 0);
    assert_eq!(point.angle, 0);
    assert_eq!(point.fix, 0);
    assert!(point.data.is_empty());
}

#[test]
fn data_point_clone_keeps_every_field() {
    let point = DataPoint {
        timestamp: Some(1700000000),
        sample_rate: 250.0f32.to_bits(),
        flags: DataPointFlags { has_gps_fix: true, is_clipping: false },
        latitude: 50.75f32.to_bits(),
        longitude: 5.9f32.to_bits(),
        elevation: (-12.5f32).to_bits(),
        speed: 0.25f32.to_bits(),
        angle: 359.0f32.to_bits(),
        fix: 3,
        data: vec![1.0f64.to_bits(), (-2.5f64).to_bits(), f64::NAN.to_bits()],
    };
    let copy = point.clone();
    assert_eq!(copy.timestamp, Some(1700000000));
    assert_eq!(f32::from_bits(copy.sample_rate), 250.0);
    assert_eq!(copy.flags, point.flags);
    assert_eq!(f32::from_bits(copy.latitude), 50.75);
    assert_eq!(f32::from_bits(copy.longitude), 5.9);
    assert_eq!(f32::from_bits(copy.elevation), -12.5);
    assert_eq!(f32::from_bits(copy.speed), 0.25);
    assert_eq!(f32::from_bits(copy.angle), 359.0);
    assert_eq!(copy.fix, 3);
    assert_eq!(copy.data, point.data);
}

#[test]
fn copy_value_copies_both_cases() {
    assert!(copy_value(&None).is_none());
    let mut point = DataPoint::default();
    point.timestamp = Some(7);
    let copy = copy_value(&Some(point));
    assert_eq!(copy.unwrap().timestamp, Some(7));
}

#[test]
fn config_clone_keeps_the_nodes() {
    let config = ConfigFile {
        nodes: vec![
            NodeConfigEntry {
                node_id: "ET01".to_string(),
                data_endpoint: "http://10.0.0.1/last".to_string(),
                location: "Shaft 1".to_string(),
            },
            NodeConfigEntry {
                node_id: "ET02".to_string(),
                data_endpoint: "http://10.0.0.2/last".to_string(),
                location: "Shaft 2".to_string(),
            },
        ],
    };
    let copy = config.clone();
    assert_eq!(copy.nodes.len(), 2);
    assert_eq!(copy.nodes[0].node_id, "ET01");
    assert_eq!(copy.nodes[1].data_endpoint, "http://10.0.0.2/last");
    assert_eq!(copy.nodes[1].location, "Shaft 2");
}

#[test]
fn settings_default_values() {
    let settings = Settings::default();
    assert_eq!(settings.tick_interval_ms, 1000);
    assert_eq!(settings.poll_timeout_ms, 10000);
    assert_eq!(settings.shutdown_deadline_ms, 5000);
}
