use gnome_randr::model::{DisplayConfig, LogicalMonitor, Mode, Monitor};
use gnome_randr::query::{render_report, resolve_command, run_query, Command, CommandOptions, QueryError};

fn mode(w: i32, h: i32, refresh_millihz: u32, current: bool, preferred: bool) -> Mode {
    Mode {
        id: format!("{}x{}", w, h),
        width: w,
        height: h,
        refresh_millihz,
        is_current: current,
        is_preferred: preferred,
    }
}

fn monitor(connector: &str, modes: Vec<Mode>) -> Monitor {
    Monitor {
        connector: connector.to_string(),
        vendor: "ACME".to_string(),
        product: "Panel".to_string(),
        serial: "0x01".to_string(),
        modes,
    }
}

fn logical(x: i32, y: i32, scale_milli: u32, transform: u32, primary: bool, names: &[&str]) -> LogicalMonitor {
    LogicalMonitor {
        x,
        y,
        scale_milli,
        transform,
        primary,
        connectors: names.iter().map(|n| n.to_string()).collect(),
    }
}

fn single_monitor_state() -> DisplayConfig {
    DisplayConfig {
        serial: 1,
        monitors: vec![monitor("DP-1", vec![mode(1920, 1080, 60000, true, true)])],
        logical_monitors: vec![logical(0, 0, 1000, 0, true, &["DP-1"])],
    }
}

fn three_monitor_state() -> DisplayConfig {
    DisplayConfig {
        serial: 2,
        monitors: vec![
            monitor("eDP-1", vec![mode(2560, 1600, 165000, true, true), mode(1280, 800, 59940, false, false)]),
            monitor("DP-1", vec![mode(1920, 1080, 60000, true, true)]),
            monitor("DP-2", vec![mode(1024, 768, 75000, false, true)]),
        ],
        logical_monitors: vec![
            logical(-1920, 0, 1500, 1, false, &["eDP-1"]),
            logical(0, 0, 1000, 0, true, &["DP-1"]),
        ],
    }
}

fn query(c: &DisplayConfig, connector: Option<&str>) -> Result<String, QueryError> {
    run_query(&CommandOptions { connector: connector.map(|s| s.to_string()) }, c)
}

fn connector_lines(report: &str, c: &DisplayConfig) -> Vec<String> {
    report
        .lines()
        .filter(|l| c.monitors.iter().any(|m| l.starts_with(&format!("{}: ", m.connector))))
        .map(|l| l.split(": ").next().unwrap().to_string())
        .collect()
}

#[test]
fn unfiltered_single_monitor_report() {
    let out = query(&single_monitor_state(), None).unwrap();
    assert_eq!(
        out,
        "DP-1: ACME Panel 0x01\n  1920x1080@60 current preferred\n  logical monitor: position (0,0) scale 1 transform normal primary\n"
    );
}

#[test]
fn unknown_connector_is_refused() {
    match query(&single_monitor_state(), Some("DP-2")) {
        Err(QueryError::UnknownConnector { requested, known }) => {
            assert_eq!(requested, "DP-2");
            assert_eq!(known, vec!["DP-1".to_string()]);
        }
        Ok(r) => panic!("expected an error, got a report: {}", r),
    }
}

#[test]
fn unknown_connector_message() {
    let e = query(&three_monitor_state(), Some("HDMI-1")).unwrap_err();
    assert_eq!(e.message(), "unknown connector HDMI-1; known connectors: eDP-1, DP-1, DP-2");
    let e = query(&DisplayConfig { serial: 0, monitors: vec![], logical_monitors: vec![] }, Some("X")).unwrap_err();
    assert_eq!(e.message(), "unknown connector X; known connectors: ");
}

#[test]
fn unfiltered_names_every_connector_once() {
    let c = three_monitor_state();
    let out = query(&c, None).unwrap();
    assert_eq!(connector_lines(&out, &c), vec!["eDP-1", "DP-1", "DP-2"]);
}

#[test]
fn unfiltered_full_report() {
    let out = query(&three_monitor_state(), None).unwrap();
    let expected = "eDP-1: ACME Panel 0x01\n\
                    \x20 2560x1600@165 current preferred\n\
                    \x20 1280x800@59.94\n\
                    \x20 logical monitor: position (-1920,0) scale 1.5 transform 90\n\
                    DP-1: ACME Panel 0x01\n\
                    \x20 1920x1080@60 current preferred\n\
                    \x20 logical monitor: position (0,0) scale 1 transform normal primary\n\
                    DP-2: ACME Panel 0x01\n\
                    \x20 1024x768@75 preferred\n\
                    \x20 logical monitor: none\n";
    assert_eq!(out, expected);
}

#[test]
fn filter_selects_exactly_one_monitor() {
    let c = three_monitor_state();
    for name in ["eDP-1", "DP-1", "DP-2"] {
        let out = query(&c, Some(name)).unwrap();
        assert_eq!(connector_lines(&out, &c), vec![name.to_string()]);
    }
    assert_eq!(
        query(&c, Some("DP-2")).unwrap(),
        "DP-2: ACME Panel 0x01\n  1024x768@75 preferred\n  logical monitor: none\n"
    );
}

#[test]
fn filter_is_case_sensitive() {
    assert!(query(&three_monitor_state(), Some("edp-1")).is_err());
    assert!(query(&three_monitor_state(), Some("DP")).is_err());
}

#[test]
fn empty_state_reports_nothing() {
    let c = DisplayConfig { serial: 0, monitors: vec![], logical_monitors: vec![] };
    assert_eq!(query(&c, None).unwrap(), "");
}

#[test]
fn fractional_and_unusual_values() {
    let c = DisplayConfig {
        serial: 3,
        monitors: vec![monitor("X", vec![mode(-5, 10, 59951, false, false), mode(7, 8, 120500, false, false)])],
        logical_monitors: vec![logical(3, -4, 1250, 9, false, &["X"])],
    };
    assert_eq!(
        render_report(&c, &None),
        "X: ACME Panel 0x01\n  -5x10@59.951\n  7x8@120.5\n  logical monitor: position (3,-4) scale 1.25 transform 9\n"
    );
}

#[test]
fn transform_names() {
    let names = ["normal", "90", "180", "270", "flipped", "flipped-90", "flipped-180", "flipped-270"];
    for (t, name) in names.iter().enumerate() {
        let c = DisplayConfig {
            serial: 0,
            monitors: vec![monitor("A", vec![])],
            logical_monitors: vec![logical(0, 0, 2000, t as u32, false, &["A"])],
        };
        let out = render_report(&c, &None);
        assert_eq!(out, format!("A: ACME Panel 0x01\n  logical monitor: position (0,0) scale 2 transform {}\n", name));
    }
}

#[test]
fn first_logical_monitor_wins() {
    let c = DisplayConfig {
        serial: 0,
        monitors: vec![monitor("A", vec![])],
        logical_monitors: vec![logical(1, 2, 1000, 0, false, &["B", "A"]), logical(5, 6, 1000, 0, true, &["A"])],
    };
    assert_eq!(
        render_report(&c, &None),
        "A: ACME Panel 0x01\n  logical monitor: position (1,2) scale 1 transform normal\n"
    );
}

#[test]
fn missing_command_means_unfiltered_query() {
    match resolve_command(None) {
        Command::Query(o) => assert!(o.connector.is_none()),
    }
    match resolve_command(Some(Command::Query(CommandOptions { connector: Some("DP-1".to_string()) }))) {
        Command::Query(o) => assert_eq!(o.connector.as_deref(), Some("DP-1")),
    }
}

#[test]
fn same_state_queried_many_times() {
    let c = three_monitor_state();
    let a = query(&c, None).unwrap();
    let _ = query(&c, Some("DP-1")).unwrap();
    let _ = query(&c, Some("nope"));
    assert_eq!(query(&c, None).unwrap(), a);
}
