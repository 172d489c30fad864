use gnome_randr::load::LoadError;
use gnome_randr::model::DisplayConfig;
use gnome_randr::raw::RawValue;

fn s(x: &str) -> RawValue {
    RawValue::Str(x.to_string())
}

fn mode(id: &str, w: i32, h: i32, refresh_millihz: i64, current: bool, preferred: bool) -> RawValue {
    RawValue::Record(vec![
        s(id),
        RawValue::I32(w),
        RawValue::I32(h),
        RawValue::Fixed(refresh_millihz),
        RawValue::Bool(current),
        RawValue::Bool(preferred),
    ])
}

fn monitor(connector: &str, modes: Vec<RawValue>) -> RawValue {
    RawValue::Record(vec![s(connector), s("ACME"), s("Panel"), s("0x01"), RawValue::List(modes)])
}

fn logical(x: i32, y: i32, scale_milli: i64, transform: u32, primary: bool, names: &[&str]) -> RawValue {
    RawValue::Record(vec![
        RawValue::I32(x),
        RawValue::I32(y),
        RawValue::Fixed(scale_milli),
        RawValue::U32(transform),
        RawValue::Bool(primary),
        RawValue::List(names.iter().map(|n| s(n)).collect()),
    ])
}

fn reply(monitors: Vec<RawValue>, logicals: Vec<RawValue>) -> RawValue {
    RawValue::Record(vec![RawValue::U32(7), RawValue::List(monitors), RawValue::List(logicals)])
}

fn two_monitor_reply() -> RawValue {
    reply(
        vec![
            monitor(
                "DP-1",
                vec![
                    mode("1920x1080@60", 1920, 1080, 60000, true, true),
                    mode("1280x720@59.94", 1280, 720, 59940, false, false),
                ],
            ),
            monitor("HDMI-1", vec![mode("3840x2160@30", 3840, 2160, 30000, true, false)]),
        ],
        vec![logical(0, 0, 1000, 0, true, &["DP-1"]), logical(1920, 0, 1500, 1, false, &["HDMI-1"])],
    )
}

fn malformed_path(r: Result<DisplayConfig, LoadError>) -> String {
    match r {
        Err(LoadError::MalformedReply(p)) => p,
        other => panic!("expected a malformed reply, got {:?}", other),
    }
}

#[test]
fn loads_well_formed_reply() {
    let c = DisplayConfig::from_reply(&two_monitor_reply()).unwrap();
    assert_eq!(c.serial, 7);
    assert_eq!(c.monitors.len(), 2);
    assert_eq!(c.monitors[0].connector, "DP-1");
    assert_eq!(c.monitors[0].vendor, "ACME");
    assert_eq!(c.monitors[0].modes.len(), 2);
    assert_eq!(c.monitors[0].modes[1].refresh_millihz, 59940);
    assert!(c.monitors[0].modes[0].is_current);
    assert!(!c.monitors[0].modes[1].is_preferred);
    assert_eq!(c.monitors[1].connector, "HDMI-1");
    assert_eq!(c.logical_monitors.len(), 2);
    assert_eq!(c.logical_monitors[1].x, 1920);
    assert_eq!(c.logical_monitors[1].scale_milli, 1500);
    assert_eq!(c.logical_monitors[1].transform, 1);
    assert_eq!(c.logical_monitors[0].connectors, vec!["DP-1".to_string()]);
}

#[test]
fn load_then_write_back_keeps_structure() {
    let raw = two_monitor_reply();
    let c = DisplayConfig::from_reply(&raw).unwrap();
    let back = c.to_reply();
    let again = DisplayConfig::from_reply(&back).unwrap();
    assert_eq!(format!("{:?}", back), format!("{:?}", raw));
    assert_eq!(format!("{:?}", again), format!("{:?}", c));
}

#[test]
fn empty_state_loads() {
    let c = DisplayConfig::from_reply(&reply(vec![], vec![])).unwrap();
    assert!(c.monitors.is_empty());
    assert!(c.logical_monitors.is_empty());
}

#[test]
fn dangling_reference_is_refused() {
    let raw = reply(
        vec![monitor("DP-1", vec![mode("m", 800, 600, 60000, true, true)])],
        vec![logical(0, 0, 1000, 0, true, &["DP-1", "DP-9"])],
    );
    match DisplayConfig::from_reply(&raw) {
        Err(LoadError::DanglingReference(c)) => assert_eq!(c, "DP-9"),
        other => panic!("expected a dangling reference, got {:?}", other),
    }
}

#[test]
fn reply_not_a_record_is_malformed() {
    assert_eq!(malformed_path(DisplayConfig::from_reply(&RawValue::U32(1))), "reply");
}

#[test]
fn wrong_arity_is_malformed() {
    let raw = RawValue::Record(vec![RawValue::U32(1), RawValue::List(vec![])]);
    assert_eq!(malformed_path(DisplayConfig::from_reply(&raw)), "reply");
}

#[test]
fn wrong_serial_type_is_malformed() {
    let raw = RawValue::Record(vec![s("x"), RawValue::List(vec![]), RawValue::List(vec![])]);
    assert_eq!(malformed_path(DisplayConfig::from_reply(&raw)), "reply.serial");
}

#[test]
fn wrong_mode_field_names_its_path() {
    let bad = RawValue::Record(vec![
        s("m"),
        RawValue::I32(800),
        s("600"),
        RawValue::Fixed(60000),
        RawValue::Bool(true),
        RawValue::Bool(true),
    ]);
    let raw = reply(
        vec![monitor("DP-1", vec![]), monitor("DP-2", vec![mode("ok", 1, 1, 1000, false, false), bad])],
        vec![],
    );
    assert_eq!(malformed_path(DisplayConfig::from_reply(&raw)), "reply.monitors[1].modes[1].height");
}

#[test]
fn negative_refresh_is_malformed() {
    let raw = reply(vec![monitor("DP-1", vec![mode("m", 1, 1, -1, false, false)])], vec![]);
    assert_eq!(malformed_path(DisplayConfig::from_reply(&raw)), "reply.monitors[0].modes[0].refresh_rate");
}

#[test]
fn logical_connector_not_a_string_is_malformed() {
    let bad = RawValue::Record(vec![
        RawValue::I32(0),
        RawValue::I32(0),
        RawValue::Fixed(1000),
        RawValue::U32(0),
        RawValue::Bool(false),
        RawValue::List(vec![s("DP-1"), RawValue::U32(3)]),
    ]);
    let raw = reply(vec![monitor("DP-1", vec![])], vec![bad]);
    assert_eq!(malformed_path(DisplayConfig::from_reply(&raw)), "reply.logical_monitors[0].monitors[1]");
}

#[test]
fn duplicate_connector_is_malformed() {
    let raw = reply(vec![monitor("DP-1", vec![]), monitor("DP-1", vec![])], vec![]);
    assert_eq!(malformed_path(DisplayConfig::from_reply(&raw)), "reply.monitors[1].connector");
}

#[test]
fn two_current_modes_are_malformed() {
    let raw = reply(
        vec![monitor("DP-1", vec![mode("a", 1, 1, 1000, true, false), mode("b", 2, 2, 1000, true, false)])],
        vec![],
    );
    assert_eq!(malformed_path(DisplayConfig::from_reply(&raw)), "reply.monitors[0].modes");
}

#[test]
fn two_primaries_are_malformed() {
    let raw = reply(
        vec![monitor("DP-1", vec![]), monitor("DP-2", vec![])],
        vec![logical(0, 0, 1000, 0, true, &["DP-1"]), logical(10, 0, 1000, 0, true, &["DP-2"])],
    );
    assert_eq!(malformed_path(DisplayConfig::from_reply(&raw)), "reply.logical_monitors[1].primary");
}

#[test]
fn no_primary_is_tolerated() {
    let raw = reply(vec![monitor("DP-1", vec![])], vec![logical(0, 0, 1000, 0, false, &["DP-1"])]);
    assert!(DisplayConfig::from_reply(&raw).is_ok());
}

#[test]
fn load_error_messages() {
    assert_eq!(
        LoadError::MalformedReply("reply.serial".to_string()).message(),
        "malformed reply at reply.serial"
    );
    assert_eq!(
        LoadError::DanglingReference("DP-9".to_string()).message(),
        "logical monitor refers to unknown connector DP-9"
    );
}

#[test]
fn monitor_index_finds_connector() {
    let c = DisplayConfig::from_reply(&two_monitor_reply()).unwrap();
    assert_eq!(c.monitor_index(&"HDMI-1".to_string()), Some(1));
    assert_eq!(c.monitor_index(&"hdmi-1".to_string()), None);
}

#[test]
fn current_mode_of_monitors() {
    let c = DisplayConfig::from_reply(&two_monitor_reply()).unwrap();
    assert_eq!(c.monitors[0].current_mode(), Some(0));
    let raw = reply(vec![monitor("DP-3", vec![mode("a", 1, 1, 1000, false, true), mode("b", 2, 2, 1000, true, false)])], vec![]);
    let c = DisplayConfig::from_reply(&raw).unwrap();
    assert_eq!(c.monitors[0].current_mode(), Some(1));
    let off = DisplayConfig::from_reply(&reply(vec![monitor("DP-4", vec![mode("a", 1, 1, 1000, false, true)])], vec![])).unwrap();
    assert_eq!(off.monitors[0].current_mode(), None);
}

#[test]
fn schema_fault_reported_before_logical_monitors() {
    let bad_logical = RawValue::Record(vec![RawValue::I32(0)]);
    let raw = reply(vec![monitor("DP-1", vec![RawValue::Bool(true)])], vec![bad_logical]);
    assert_eq!(malformed_path(DisplayConfig::from_reply(&raw)), "reply.monitors[0].modes[0]");
}

#[test]
fn logical_record_fault_path() {
    let bad_logical = RawValue::Record(vec![RawValue::I32(0)]);
    let raw = reply(vec![monitor("DP-1", vec![])], vec![logical(0, 0, 1000, 0, true, &["DP-1"]), bad_logical]);
    assert_eq!(malformed_path(DisplayConfig::from_reply(&raw)), "reply.logical_monitors[1]");
}

#[test]
fn dangling_reference_wins_over_inconsistency() {
    let raw = reply(
        vec![
            monitor("DP-1", vec![mode("a", 1, 1, 1000, true, false), mode("b", 2, 2, 1000, true, false)]),
            monitor("DP-1", vec![]),
        ],
        vec![logical(0, 0, 1000, 0, true, &["DP-1"]), logical(5, 0, 1000, 0, true, &["DP-7"])],
    );
    match DisplayConfig::from_reply(&raw) {
        Err(LoadError::DanglingReference(c)) => assert_eq!(c, "DP-7"),
        other => panic!("expected a dangling reference, got {:?}", other),
    }
}
