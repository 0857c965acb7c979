use red_tui::models::{Device, Latency, PingTarget, TraceHop};

fn lat(value: f64) -> Latency {
    Latency::parse(&value.to_string()).unwrap()
}

fn loss_percent(target: &PingTarget) -> f64 {
    let loss = target.loss();
    if loss.sent == 0 {
        0.0
    } else {
        100.0 * loss.lost as f64 / loss.sent as f64
    }
}

fn latency_label(latency: &Option<Latency>) -> String {
    latency
        .as_ref()
        .map(|value| format!("{:.1}", value.text().parse::<f64>().unwrap()))
        .unwrap_or_else(|| "-".into())
}

#[test]
fn main_computes_zero_packet_loss_before_first_ping() {
    assert_eq!(loss_percent(&PingTarget::new("1.1.1.1")), 0.0);
}

#[test]
fn main_computes_partial_packet_loss() {
    let mut target = PingTarget::new("1.1.1.1");
    target.sent = 4;
    target.received = 3;
    assert_eq!(loss_percent(&target), 25.0);
}

#[test]
fn main_computes_total_packet_loss() {
    let mut target = PingTarget::new("1.1.1.1");
    target.sent = 4;
    assert_eq!(loss_percent(&target), 100.0);
}

#[test]
fn main_device_labels_explain_reachability_and_source() {
    let arp = Device::arp("192.168.1.10", "aa:bb:cc:dd:ee:ff");
    let ping = Device::ping("192.168.1.20", lat(7.25));

    assert_eq!(arp.status_label(), "ARP");
    assert_eq!(latency_label(&arp.latency_ms), "-");
    assert_eq!(arp.source_label(), "arp");
    assert_eq!(ping.status_label(), "PING");
    assert_eq!(latency_label(&ping.latency_ms), "7.2");
    assert_eq!(ping.source_label(), "ping");
}

#[test]
fn main_trace_hop_labels_explain_status() {
    let ok = TraceHop::new(1, "192.168.1.1", Some(lat(2.25)));
    let timeout = TraceHop::new(2, "*", None);

    assert_eq!(ok.status_label(), "OK");
    assert_eq!(latency_label(&ok.latency_ms), "2.2");
    assert_eq!(timeout.status_label(), "SIN RESP.");
    assert_eq!(latency_label(&timeout.latency_ms), "-");
}
