use red_tui::app::{App, Effect, WorkerMessage};
use red_tui::models::{Device, Latency, NetworkScan, PingTarget, Screen, TraceHop, MAX_HISTORY};

fn lat(value: f64) -> Latency {
    Latency::parse(&value.to_string()).unwrap()
}

fn value(latency: Option<&Latency>) -> Option<f64> {
    latency.map(|l| l.text().parse::<f64>().unwrap())
}

fn test_app() -> App {
    App {
        screen: Screen::Welcome,
        welcome_index: 0,
        selected_target: 0,
        selected_device: 0,
        trace_scroll: 0,
        targets: vec![PingTarget::new("192.168.1.1"), PingTarget::new("1.1.1.1")],
        devices: Vec::new(),
        trace_hops: Vec::new(),
        gateway: "192.168.1.1".into(),
        interface: "test0".into(),
        input: String::new(),
        input_mode: false,
        scanning: false,
        scan_message: "Sin escaneo. Abre Topologia o pulsa s.".into(),
        last_ping_cycle: Some(0),
        should_quit: false,
    }
}

#[test]
fn app_processes_successful_and_failed_ping_results() {
    let mut app = test_app();
    app.process_worker_messages(
        vec![WorkerMessage::PingResult {
            host: "1.1.1.1".into(),
            latency: Some(lat(10.0)),
        }],
        100,
    );

    let target = &app.targets[1];
    assert!(target.online);
    assert_eq!(target.sent, 1);
    assert_eq!(target.received, 1);
    assert_eq!(value(target.latency_ms.as_ref()), Some(10.0));
    assert_eq!(value(target.history.back()), Some(10.0));
    assert!(target.last_checked.is_some());

    app.process_worker_messages(
        vec![WorkerMessage::PingResult {
            host: "1.1.1.1".into(),
            latency: None,
        }],
        200,
    );

    let target = &app.targets[1];
    assert!(!target.online);
    assert_eq!(target.sent, 2);
    assert_eq!(target.received, 1);
    assert_eq!(value(target.latency_ms.as_ref()), None);
    assert_eq!(target.history.len(), 1);
}

#[test]
fn app_limits_ping_history() {
    let mut app = test_app();
    let mut messages = Vec::new();
    for latency in 0..=MAX_HISTORY {
        messages.push(WorkerMessage::PingResult {
            host: "1.1.1.1".into(),
            latency: Some(lat(latency as f64)),
        });
    }
    app.process_worker_messages(messages, 0);

    let history = &app.targets[1].history;
    assert_eq!(history.len(), MAX_HISTORY);
    assert_eq!(value(history.front()), Some(1.0));
    assert_eq!(value(history.back()), Some(MAX_HISTORY as f64));
}

#[test]
fn app_processes_scan_results_and_clears_scanning_state() {
    let mut app = test_app();
    app.scanning = true;
    app.process_worker_messages(
        vec![WorkerMessage::ScanResult(NetworkScan {
            devices: vec![Device::arp("192.168.1.50", "aa:bb:cc:dd:ee:ff")],
            trace_hops: vec![TraceHop::new(1, "192.168.1.1", Some(lat(1.4)))],
            message: "1 dispositivos, 0 con ping, 1 saltos a 1.1.1.1".into(),
        })],
        0,
    );

    assert!(!app.scanning);
    assert_eq!(app.devices.len(), 1);
    assert_eq!(app.devices[0].ip, "192.168.1.50");
    assert_eq!(app.trace_hops.len(), 1);
    assert_eq!(app.trace_hops[0].address, "192.168.1.1");
    assert_eq!(
        app.scan_message,
        "1 dispositivos, 0 con ping, 1 saltos a 1.1.1.1"
    );
}

#[test]
fn app_clears_existing_devices_when_scan_result_is_empty() {
    let mut app = test_app();
    app.devices = vec![
        Device::arp("192.168.1.254", "aa:bb:cc:dd:ee:ff"),
        Device::arp("192.168.1.20", "11:22:33:44:55:66"),
    ];
    app.scanning = true;
    app.process_worker_messages(
        vec![WorkerMessage::ScanResult(NetworkScan {
            devices: Vec::new(),
            trace_hops: vec![TraceHop::new(1, "*", None)],
            message: "0 dispositivos, 0 con ping, 1 saltos a 1.1.1.1".into(),
        })],
        0,
    );

    assert!(!app.scanning);
    assert!(app.devices.is_empty());
    assert_eq!(app.trace_hops.len(), 1);
}

#[test]
fn app_topology_needs_initial_scan_only_before_results_exist() {
    let mut app = test_app();

    assert!(app.needs_initial_scan());

    app.scanning = true;
    assert!(!app.needs_initial_scan());
    app.scanning = false;
    app.devices
        .push(Device::arp("192.168.1.50", "aa:bb:cc:dd:ee:ff"));
    assert!(!app.needs_initial_scan());
    app.devices.clear();
    app.trace_hops
        .push(TraceHop::new(1, "192.168.1.1", Some(lat(1.0))));
    assert!(!app.needs_initial_scan());
}

#[test]
fn app_scan_sets_visible_running_message() {
    let mut app = test_app();

    assert!(app.start_scan_state());

    assert!(app.scanning);
    assert_eq!(
        app.scan_message,
        "Escaneando LAN /24 y traceando 1.1.1.1..."
    );
    assert!(!app.start_scan_state());
}

#[test]
fn new_app_watches_gateway_and_public_resolvers() {
    let app = App::new("10.0.0.1".into(), "eth0".into());
    let hosts: Vec<&str> = app.targets.iter().map(|t| t.host.as_str()).collect();
    assert_eq!(hosts, vec!["10.0.0.1", "1.1.1.1", "8.8.8.8"]);
    assert_eq!(app.screen, Screen::Welcome);
    assert_eq!(app.scan_message, "Sin escaneo. Abre Topologia o pulsa s.");
    assert!(app.last_ping_cycle.is_none());
}

#[test]
fn tick_starts_pings_every_two_seconds() {
    let mut app = App::new("10.0.0.1".into(), "eth0".into());
    let hosts = app.tick(Vec::new(), 0).unwrap();
    assert_eq!(hosts, vec!["10.0.0.1", "1.1.1.1", "8.8.8.8"]);
    assert!(app.tick(Vec::new(), 1999).is_none());
    assert!(app.tick(Vec::new(), 2000).is_some());
    assert_eq!(app.last_ping_cycle, Some(2000));
}

#[test]
fn unknown_host_result_is_ignored() {
    let mut app = test_app();
    app.process_worker_messages(
        vec![WorkerMessage::PingResult { host: "9.9.9.9".into(), latency: Some(lat(1.0)) }],
        5,
    );
    assert!(app.targets.iter().all(|t| t.sent == 0));
}

#[test]
fn scan_result_keeps_selection_within_lists() {
    let mut app = test_app();
    app.selected_device = 5;
    app.trace_scroll = 9;
    app.process_worker_messages(
        vec![WorkerMessage::ScanResult(NetworkScan {
            devices: vec![
                Device::arp("192.168.1.2", "aa:bb:cc:dd:ee:ff"),
                Device::arp("192.168.1.3", "aa:bb:cc:dd:ee:fe"),
            ],
            trace_hops: Vec::new(),
            message: "x".into(),
        })],
        0,
    );
    assert_eq!(app.selected_device, 1);
    assert_eq!(app.trace_scroll, 0);
}

#[test]
fn open_topology_scans_only_when_empty() {
    let mut app = test_app();
    assert_eq!(app.open_topology(), Effect::StartScan);
    assert_eq!(app.screen, Screen::Topology);
    assert_eq!(app.open_topology(), Effect::Nothing);
    let mut app = test_app();
    app.devices.push(Device::arp("192.168.1.2", "aa:bb:cc:dd:ee:ff"));
    assert_eq!(app.open_topology(), Effect::Nothing);
    assert!(!app.scanning);
}

#[test]
fn ping_result_updates_only_the_first_target_with_its_host() {
    let mut app = test_app();
    app.targets.push(PingTarget::new("1.1.1.1"));
    app.process_worker_messages(
        vec![WorkerMessage::PingResult { host: "1.1.1.1".into(), latency: Some(lat(3.0)) }],
        42,
    );
    assert_eq!(app.targets[1].sent, 1);
    assert_eq!(app.targets[1].last_checked, Some(42));
    assert_eq!(app.targets[2].sent, 0);
    assert_eq!(app.targets[0].sent, 0);
}

#[test]
fn a_batch_adds_pings_replies_and_newest_samples_per_target() {
    let mut app = test_app();
    let mut messages = Vec::new();
    for latency in 0..60 {
        messages.push(WorkerMessage::PingResult {
            host: "1.1.1.1".into(),
            latency: if latency % 3 == 0 { None } else { Some(lat(latency as f64)) },
        });
        if latency % 10 == 0 {
            messages.push(WorkerMessage::PingResult { host: "192.168.1.1".into(), latency: None });
        }
    }
    app.process_worker_messages(messages, 7);
    assert_eq!(app.targets[0].sent, 6);
    assert_eq!(app.targets[0].received, 0);
    assert!(app.targets[0].history.is_empty());
    assert_eq!(app.targets[1].sent, 60);
    assert_eq!(app.targets[1].received, 40);
    assert_eq!(app.targets[1].history.len(), 40);
    assert_eq!(value(app.targets[1].history.front()), Some(1.0));
    assert_eq!(value(app.targets[1].history.back()), Some(59.0));
}
