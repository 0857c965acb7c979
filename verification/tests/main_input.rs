use red_tui::app::App;
use red_tui::input::Key;
use red_tui::models::{Device, Latency, PingTarget, Screen, TraceHop};

fn lat(value: f64) -> Latency {
    Latency::parse(&value.to_string()).unwrap()
}

fn test_app() -> App {
    App {
        screen: Screen::Welcome,
        welcome_index: 0,
        selected_target: 0,
        selected_device: 0,
        trace_scroll: 0,
        targets: vec![PingTarget::new("192.168.1.1"), PingTarget::new("1.1.1.1")],
        devices: Vec::new(),
        trace_hops: Vec::new(),
        gateway: "192.168.1.1".into(),
        interface: "test0".into(),
        input: String::new(),
        input_mode: false,
        scanning: false,
        scan_message: "Sin escaneo. Abre Topologia o pulsa s.".into(),
        last_ping_cycle: Some(0),
        should_quit: false,
    }
}

#[test]
fn main_keeps_welcome_and_target_navigation_in_bounds() {
    let mut app = test_app();

    app.handle_key(Key::Up);
    assert_eq!(app.welcome_index, 0);
    for _ in 0..5 {
        app.handle_key(Key::Down);
    }
    assert_eq!(app.welcome_index, 2);

    app.screen = Screen::MultiPing;
    app.handle_key(Key::Up);
    assert_eq!(app.selected_target, 0);
    for _ in 0..5 {
        app.handle_key(Key::Down);
    }
    assert_eq!(app.selected_target, 1);
}

#[test]
fn main_opens_selected_screen_and_quits() {
    let mut app = test_app();
    app.welcome_index = 2;

    app.handle_key(Key::Enter);
    assert!(app.screen == Screen::Topology);
    app.handle_key(Key::Char('1'));
    assert!(app.screen == Screen::Monitor);
    app.handle_key(Key::Char('q'));
    assert!(app.should_quit);
}

#[test]
fn main_adds_trimmed_unique_target() {
    let mut app = test_app();
    app.screen = Screen::MultiPing;
    app.handle_key(Key::Char('a'));
    for character in "  example.com  ".chars() {
        app.handle_key(Key::Char(character));
    }
    app.handle_key(Key::Enter);

    assert_eq!(app.targets.len(), 3);
    assert_eq!(app.targets[2].host, "example.com");
    assert_eq!(app.selected_target, 2);
    assert!(!app.input_mode);
    assert!(app.input.is_empty());

    app.handle_key(Key::Char('a'));
    for character in "example.com".chars() {
        app.handle_key(Key::Char(character));
    }
    app.handle_key(Key::Enter);
    assert_eq!(app.targets.len(), 3);
}

#[test]
fn main_cancels_target_input() {
    let mut app = test_app();
    app.screen = Screen::MultiPing;
    app.handle_key(Key::Char('a'));
    app.handle_key(Key::Char('x'));
    app.handle_key(Key::Esc);

    assert!(!app.input_mode);
    assert!(app.input.is_empty());
    assert_eq!(app.targets.len(), 2);
}

#[test]
fn main_deletes_selected_target_but_keeps_last_target() {
    let mut app = test_app();
    app.screen = Screen::MultiPing;
    app.selected_target = 1;

    app.handle_key(Key::Char('d'));
    assert_eq!(app.targets.len(), 1);
    assert_eq!(app.selected_target, 0);
    app.handle_key(Key::Char('d'));
    assert_eq!(app.targets.len(), 1);
}

#[test]
fn main_topology_navigation_selects_devices_and_scrolls_trace() {
    let mut app = test_app();
    app.screen = Screen::Topology;
    app.devices = vec![
        Device::arp("192.168.1.10", "aa:bb:cc:dd:ee:ff"),
        Device::arp("192.168.1.20", "11:22:33:44:55:66"),
        Device::arp("192.168.1.30", "22:33:44:55:66:77"),
    ];
    app.trace_hops = (1..=8)
        .map(|hop| TraceHop::new(hop, &format!("192.0.2.{hop}"), Some(lat(f64::from(hop)))))
        .collect();

    app.handle_key(Key::Down);
    assert_eq!(app.selected_device, 1);
    app.handle_key(Key::Down);
    app.handle_key(Key::Down);
    assert_eq!(app.selected_device, 2);
    app.handle_key(Key::Up);
    assert_eq!(app.selected_device, 1);

    app.handle_key(Key::PageDown);
    assert_eq!(app.trace_scroll, 5);
    app.handle_key(Key::PageUp);
    assert_eq!(app.trace_scroll, 0);
    app.handle_key(Key::End);
    assert_eq!(app.selected_device, 2);
    assert_eq!(app.trace_scroll, 7);
    app.handle_key(Key::Home);
    assert_eq!(app.selected_device, 0);
    assert_eq!(app.trace_scroll, 0);
}
