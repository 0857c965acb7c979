use red_tui::models::{Device, Latency, PingTarget, TraceHop};

fn lat(value: f64) -> Latency {
    Latency::parse(&value.to_string()).unwrap()
}

fn loss_percent(target: &PingTarget) -> f64 {
    let loss = target.loss();
    if loss.sent == 0 {
        0.0
    } else {
        100.0 * loss.lost as f64 / loss.sent as f64
    }
}

fn latency_label(latency: &Option<Latency>) -> String {
    latency
        .as_ref()
        .map(|value| format!("{:.1}", value.text().parse::<f64>().unwrap()))
        .unwrap_or_else(|| "-".into())
}

#[test]
fn models_computes_zero_packet_loss_before_first_ping() {
    assert_eq!(loss_percent(&PingTarget::new("1.1.1.1")), 0.0);
}

#[test]
fn models_computes_partial_packet_loss() {
    let mut target = PingTarget::new("1.1.1.1");
    target.sent = 4;
    target.received = 3;
    assert_eq!(loss_percent(&target), 25.0);
}

#[test]
fn models_computes_total_packet_loss() {
    let mut target = PingTarget::new("1.1.1.1");
    target.sent = 4;
    assert_eq!(loss_percent(&target), 100.0);
}

#[test]
fn models_device_labels_explain_reachability_and_source() {
    let arp = Device::arp("192.168.1.10", "aa:bb:cc:dd:ee:ff");
    let ping = Device::ping("192.168.1.20", lat(7.25));

    assert_eq!(arp.status_label(), "ARP");
    assert_eq!(latency_label(&arp.latency_ms), "-");
    assert_eq!(arp.source_label(), "arp");
    assert_eq!(ping.status_label(), "PING");
    assert_eq!(latency_label(&ping.latency_ms), "7.2");
    assert_eq!(ping.source_label(), "ping");
}

#[test]
fn models_trace_hop_labels_explain_status() {
    let ok = TraceHop::new(1, "192.168.1.1", Some(lat(2.25)));
    let timeout = TraceHop::new(2, "*", None);

    assert_eq!(ok.status_label(), "OK");
    assert_eq!(latency_label(&ok.latency_ms), "2.2");
    assert_eq!(timeout.status_label(), "SIN RESP.");
    assert_eq!(latency_label(&timeout.latency_ms), "-");
}

#[test]
fn loss_counts_lost_packets_out_of_sent() {
    let mut target = PingTarget::new("8.8.8.8");
    target.sent = 3;
    target.received = 1;
    let loss = target.loss();
    assert_eq!(loss.lost, 2);
    assert_eq!(loss.sent, 3);
}

#[test]
fn latency_keeps_the_printed_text() {
    assert_eq!(Latency::parse("12.340").unwrap().text(), "12.340");
    assert_eq!(Latency::sub_millisecond().text(), "0.5");
    assert!(Latency::parse("1.2.3").is_none());
    assert!(Latency::parse("").is_none());
    assert!(Latency::parse(" 1").is_none());
    assert!(Latency::parse("ms").is_none());
}

#[test]
fn latency_accepts_every_float_notation() {
    for text in ["1", "+1", "-1", "1.", ".5", "1e3", "1E-3", "2.5e+2", "inf", "-Infinity", "NaN"] {
        assert!(Latency::parse(text).is_some(), "{text}");
        assert!(text.parse::<f64>().is_ok(), "{text}");
    }
    for text in [".", "e3", "1e", "1e+", "+", "--1", "1..2", "in", "infinit", "0x10", "1_0"] {
        assert!(Latency::parse(text).is_none(), "{text}");
        assert!(text.parse::<f64>().is_err(), "{text}");
    }
}

#[test]
fn mark_reachable_adds_ping_to_arp_source() {
    let mut device = Device::arp("192.168.1.10", "aa:bb:cc:dd:ee:ff");
    device.mark_reachable(lat(3.0));
    assert!(device.reachable);
    assert_eq!(device.source_label(), "ping+arp");
    assert_eq!(device.status_label(), "PING");
    let mut ping = Device::ping("192.168.1.11", lat(1.0));
    ping.mark_reachable(lat(2.0));
    assert_eq!(ping.source_label(), "ping");
    assert_eq!(ping.mac, "desconocida");
}
