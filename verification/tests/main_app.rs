use red_tui::app::{App, WorkerMessage};
use red_tui::models::{Device, Latency, NetworkScan, PingTarget, Screen, TraceHop, MAX_HISTORY};

fn lat(value: f64) -> Latency {
    Latency::parse(&value.to_string()).unwrap()
}

fn value(latency: Option<&Latency>) -> Option<f64> {
    latency.map(|l| l.text().parse::<f64>().unwrap())
}

fn test_app() -> App {
    App {
        screen: Screen::Welcome,
        welcome_index: 0,
        selected_target: 0,
        selected_device: 0,
        trace_scroll: 0,
        targets: vec![PingTarget::new("192.168.1.1"), PingTarget::new("1.1.1.1")],
        devices: Vec::new(),
        trace_hops: Vec::new(),
        gateway: "192.168.1.1".into(),
        interface: "test0".into(),
        input: String::new(),
        input_mode: false,
        scanning: false,
        scan_message: "Sin escaneo. Abre Topologia o pulsa s.".into(),
        last_ping_cycle: Some(0),
        should_quit: false,
    }
}

#[test]
fn main_processes_successful_and_failed_ping_results() {
    let mut app = test_app();
    app.process_worker_messages(
        vec![WorkerMessage::PingResult {
            host: "1.1.1.1".into(),
            latency: Some(lat(10.0)),
        }],
        100,
    );

    let target = &app.targets[1];
    assert!(target.online);
    assert_eq!(target.sent, 1);
    assert_eq!(target.received, 1);
    assert_eq!(value(target.latency_ms.as_ref()), Some(10.0));
    assert_eq!(value(target.history.back()), Some(10.0));
    assert!(target.last_checked.is_some());

    app.process_worker_messages(
        vec![WorkerMessage::PingResult {
            host: "1.1.1.1".into(),
            latency: None,
        }],
        200,
    );

    let target = &app.targets[1];
    assert!(!target.online);
    assert_eq!(target.sent, 2);
    assert_eq!(target.received, 1);
    assert_eq!(value(target.latency_ms.as_ref()), None);
    assert_eq!(target.history.len(), 1);
}

#[test]
fn main_limits_ping_history() {
    let mut app = test_app();
    let mut messages = Vec::new();
    for latency in 0..=MAX_HISTORY {
        messages.push(WorkerMessage::PingResult {
            host: "1.1.1.1".into(),
            latency: Some(lat(latency as f64)),
        });
    }
    app.process_worker_messages(messages, 0);

    let history = &app.targets[1].history;
    assert_eq!(history.len(), MAX_HISTORY);
    assert_eq!(value(history.front()), Some(1.0));
    assert_eq!(value(history.back()), Some(MAX_HISTORY as f64));
}

#[test]
fn main_processes_scan_results_and_clears_scanning_state() {
    let mut app = test_app();
    app.scanning = true;
    app.process_worker_messages(
        vec![WorkerMessage::ScanResult(NetworkScan {
            devices: vec![Device::arp("192.168.1.50", "aa:bb:cc:dd:ee:ff")],
            trace_hops: vec![TraceHop::new(1, "192.168.1.1", Some(lat(1.4)))],
            message: "1 dispositivos, 0 con ping, 1 saltos a 1.1.1.1".into(),
        })],
        0,
    );

    assert!(!app.scanning);
    assert_eq!(app.devices.len(), 1);
    assert_eq!(app.devices[0].ip, "192.168.1.50");
    assert_eq!(app.trace_hops.len(), 1);
    assert_eq!(app.trace_hops[0].address, "192.168.1.1");
    assert_eq!(
        app.scan_message,
        "1 dispositivos, 0 con ping, 1 saltos a 1.1.1.1"
    );
}

#[test]
fn main_clears_existing_devices_when_scan_result_is_empty() {
    let mut app = test_app();
    app.devices = vec![
        Device::arp("192.168.1.254", "aa:bb:cc:dd:ee:ff"),
        Device::arp("192.168.1.20", "11:22:33:44:55:66"),
    ];
    app.scanning = true;
    app.process_worker_messages(
        vec![WorkerMessage::ScanResult(NetworkScan {
            devices: Vec::new(),
            trace_hops: vec![TraceHop::new(1, "*", None)],
            message: "0 dispositivos, 0 con ping, 1 saltos a 1.1.1.1".into(),
        })],
        0,
    );

    assert!(!app.scanning);
    assert!(app.devices.is_empty());
    assert_eq!(app.trace_hops.len(), 1);
}

#[test]
fn main_topology_needs_initial_scan_only_before_results_exist() {
    let mut app = test_app();

    assert!(app.needs_initial_scan());

    app.scanning = true;
    assert!(!app.needs_initial_scan());
    app.scanning = false;
    app.devices
        .push(Device::arp("192.168.1.50", "aa:bb:cc:dd:ee:ff"));
    assert!(!app.needs_initial_scan());
    app.devices.clear();
    app.trace_hops
        .push(TraceHop::new(1, "192.168.1.1", Some(lat(1.0))));
    assert!(!app.needs_initial_scan());
}

#[test]
fn main_scan_sets_visible_running_message() {
    let mut app = test_app();

    assert!(app.start_scan_state());

    assert!(app.scanning);
    assert_eq!(
        app.scan_message,
        "Escaneando LAN /24 y traceando 1.1.1.1..."
    );
    assert!(!app.start_scan_state());
}
