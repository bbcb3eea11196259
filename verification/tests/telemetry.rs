use idasen_cli::telemetry::{consume_events, render_line, TelemetryEvent};

#[test]
fn telemetry_line_format() {
    let line = render_line(&TelemetryEvent { position: 10000, speed: -5 });
    assert_eq!(line, b"pos: 10000 speed:    -5".to_vec());
    let line = render_line(&TelemetryEvent { position: 950, speed: 0 });
    assert_eq!(line, b"pos:   950 speed:     0".to_vec());
    let line = render_line(&TelemetryEvent { position: 7, speed: 42 });
    assert_eq!(line, b"pos:     7 speed:    42".to_vec());
}

#[test]
fn telemetry_wide_values_are_not_truncated() {
    let line = render_line(&TelemetryEvent { position: 65535, speed: -32768 });
    assert_eq!(line, b"pos: 65535 speed: -32768".to_vec());
}

#[test]
fn telemetry_order_preserved_no_skip_no_duplicate() {
    let events = vec![
        TelemetryEvent { position: 6200, speed: 1 },
        TelemetryEvent { position: 6210, speed: 2 },
        TelemetryEvent { position: 6220, speed: -3 },
    ];
    let lines = consume_events(&events);
    assert_eq!(lines.len(), 3);
    assert_eq!(lines[0], b"pos:  6200 speed:     1".to_vec());
    assert_eq!(lines[1], b"pos:  6210 speed:     2".to_vec());
    assert_eq!(lines[2], b"pos:  6220 speed:    -3".to_vec());
}

#[test]
fn telemetry_empty_run_yields_no_lines() {
    let events: Vec<TelemetryEvent> = Vec::new();
    let lines = consume_events(&events);
    assert!(lines.is_empty());
}
