use red_tui::models::{Device, DiscoverySource, Latency, PingScanResult, TraceHop};
use red_tui::network::{
    arp_devices_from_output, assemble_scan, local_network_from_gateway, merge_scan_results,
    parse_arp_line, parse_ping_latency, parse_traceroute_line, parse_traceroute_output,
    ping_result, scan_message, sweep_batches, trace_hops_from_output, value_after_label,
    word_after,
};

fn lat(value: f64) -> Latency {
    Latency::parse(&value.to_string()).unwrap()
}

fn value(latency: &Option<Latency>) -> Option<f64> {
    latency.as_ref().map(|l| l.text().parse::<f64>().unwrap())
}

fn hop_values(hops: &[TraceHop]) -> Vec<(u8, String, Option<f64>)> {
    hops.iter().map(|h| (h.hop, h.address.clone(), value(&h.latency_ms))).collect()
}

#[test]
fn network_parses_normal_ping_latency() {
    let output = "64 bytes from 1.1.1.1: icmp_seq=0 ttl=57 time=12.34 ms";
    assert_eq!(value(&parse_ping_latency(output)), Some(12.34));
}

#[test]
fn network_parses_submillisecond_ping_latency() {
    assert_eq!(value(&parse_ping_latency("64 bytes from localhost: time<1 ms")), Some(0.5));
    assert_eq!(value(&parse_ping_latency("64 bytes from localhost: time<1ms")), Some(0.5));
}

#[test]
fn network_returns_none_when_ping_output_has_no_latency() {
    assert_eq!(value(&parse_ping_latency("PING host: no timing token")), None);
}

#[test]
fn network_parses_macos_arp_line() {
    let device = parse_arp_line("? (192.168.1.10) at aa:bb:cc:dd:ee:ff on en0").unwrap();
    assert_eq!(device.ip, "192.168.1.10");
    assert_eq!(device.mac, "aa:bb:cc:dd:ee:ff");
}

#[test]
fn network_parses_linux_arp_line() {
    let device = parse_arp_line("192.168.1.20 ether aa:bb:cc:dd:ee:ff C eth0").unwrap();
    assert_eq!(device.ip, "192.168.1.20");
    assert_eq!(device.mac, "aa:bb:cc:dd:ee:ff");
}

#[test]
fn network_rejects_incomplete_arp_entries() {
    assert!(parse_arp_line("? (192.168.1.30) at (incomplete) on en0").is_none());
    assert!(parse_arp_line("192.168.1.30 (incomplete) eth0").is_none());
}

#[test]
fn network_rejects_invalid_arp_entries() {
    assert!(parse_arp_line("not-an-ip ether aa:bb:cc:dd:ee:ff C eth0").is_none());
    assert!(parse_arp_line("").is_none());
}

#[test]
fn network_extracts_macos_route_labels() {
    let route = "   route to: default\n gateway: 192.168.1.1\ninterface: en0\n";
    assert_eq!(value_after_label(route, "gateway:"), Some("192.168.1.1"));
    assert_eq!(value_after_label(route, "interface:"), Some("en0"));
    assert_eq!(value_after_label(route, "missing:"), None);
}

#[test]
fn network_extracts_linux_route_words() {
    let words: Vec<&str> = "default via 192.168.1.1 dev eth0 proto dhcp"
        .split_whitespace()
        .collect();
    assert_eq!(word_after(&words, "via"), Some("192.168.1.1"));
    assert_eq!(word_after(&words, "dev"), Some("eth0"));
    assert_eq!(word_after(&words, "missing"), None);
}

#[test]
fn network_derives_local_24_network_from_gateway() {
    let network = local_network_from_gateway("10.20.30.1").unwrap();
    assert_eq!(network.prefix, "10.20.30.");
    assert_eq!(network.broadcast, "10.20.30.255");
}

#[test]
fn network_rejects_invalid_gateway_for_local_network() {
    assert!(local_network_from_gateway("not-an-ip").is_none());
    assert!(local_network_from_gateway("example.com").is_none());
}

#[test]
fn network_merges_ping_and_arp_scan_results() {
    let devices = merge_scan_results(
        vec![
            PingScanResult {
                ip: "192.168.1.20".into(),
                latency_ms: lat(3.5),
            },
            PingScanResult {
                ip: "192.168.1.10".into(),
                latency_ms: lat(1.2),
            },
        ],
        vec![
            Device::arp("192.168.1.20", "aa:bb:cc:dd:ee:ff"),
            Device::arp("192.168.1.30", "11:22:33:44:55:66"),
        ],
    );

    assert_eq!(
        devices
            .iter()
            .map(|device| device.ip.as_str())
            .collect::<Vec<_>>(),
        vec!["192.168.1.10", "192.168.1.20", "192.168.1.30"]
    );
    assert_eq!(devices[0].source, DiscoverySource::Ping);
    assert!(devices[0].reachable);
    assert_eq!(devices[1].source, DiscoverySource::PingAndArp);
    assert_eq!(devices[1].mac, "aa:bb:cc:dd:ee:ff");
    assert_eq!(value(&devices[1].latency_ms), Some(3.5));
    assert_eq!(devices[2].source, DiscoverySource::Arp);
    assert!(!devices[2].reachable);
}

#[test]
fn network_parses_traceroute_hops_with_latency_and_timeouts() {
    let output = "\
traceroute to 1.1.1.1 (1.1.1.1), 12 hops max
 1  192.168.1.1  1.234 ms  1.100 ms  1.090 ms
 2  * * *
 3  203.0.113.1  8.750 ms * 9.000 ms
";

    let hops = parse_traceroute_output(output);

    assert_eq!(
        hop_values(&hops),
        hop_values(&[
            TraceHop::new(1, "192.168.1.1", Some(lat(1.234))),
            TraceHop::new(2, "*", None),
            TraceHop::new(3, "203.0.113.1", Some(lat(8.75))),
        ])
    );
}

#[test]
fn network_scan_message_reports_empty_and_successful_results() {
    assert_eq!(
        scan_message(0, 0, 0),
        "Sin resultados. Revisa permisos de red o comandos ping/arp/traceroute."
    );
    assert_eq!(
        scan_message(12, 4, 3),
        "12 dispositivos, 4 con ping, 3 saltos a 1.1.1.1"
    );
}

#[test]
fn merge_orders_by_numeric_address_and_keeps_one_device_per_address() {
    let devices = merge_scan_results(
        vec![
            PingScanResult { ip: "10.0.0.9".into(), latency_ms: lat(1.0) },
            PingScanResult { ip: "10.0.0.10".into(), latency_ms: lat(2.0) },
            PingScanResult { ip: "10.0.0.9".into(), latency_ms: lat(4.0) },
            PingScanResult { ip: "bad".into(), latency_ms: lat(4.0) },
        ],
        vec![
            Device::arp("10.0.0.100", "aa:aa:aa:aa:aa:aa"),
            Device::arp("10.0.0.100", "bb:bb:bb:bb:bb:bb"),
            Device::arp("010.0.0.1", "cc:cc:cc:cc:cc:cc"),
        ],
    );
    let ips: Vec<&str> = devices.iter().map(|d| d.ip.as_str()).collect();
    assert_eq!(ips, vec!["10.0.0.9", "10.0.0.10", "10.0.0.100"]);
    assert_eq!(value(&devices[0].latency_ms), Some(4.0));
    assert_eq!(devices[2].mac, "bb:bb:bb:bb:bb:bb");
    assert_eq!(devices[0].mac, "desconocida");
}

#[test]
fn traceroute_line_reads_latency_split_from_unit() {
    let hop = parse_traceroute_line(" 4  10.1.1.1  5ms 6 ms").unwrap();
    assert_eq!(hop.hop, 4);
    assert_eq!(hop.address, "10.1.1.1");
    assert_eq!(value(&hop.latency_ms), Some(5.0));
    let hop = parse_traceroute_line(" 5  10.1.1.2  7 ms").unwrap();
    assert_eq!(value(&hop.latency_ms), Some(7.0));
    assert!(parse_traceroute_line("traceroute to x").is_none());
    assert!(parse_traceroute_line("256 1.1.1.1 1 ms").is_none());
    assert_eq!(parse_traceroute_line("+7 * *").unwrap().hop, 7);
}

#[test]
fn failed_tools_yield_nothing() {
    assert!(trace_hops_from_output(false, " 1  192.168.1.1  1.0 ms").is_empty());
    assert_eq!(trace_hops_from_output(true, " 1  192.168.1.1  1.0 ms").len(), 1);
    assert!(ping_result(false, "time=1.0 ms").is_none());
    assert_eq!(value(&ping_result(true, "time=3.25 ms")), Some(3.25));
    assert_eq!(value(&ping_result(true, "no timing")), Some(0.5));
    assert_eq!(value(&parse_ping_latency("time=abc ms time=2 ms")), None);
}

#[test]
fn arp_output_skips_lines_without_devices() {
    let output = "? (192.168.1.1) at 11:22:33:44:55:66 on en0\r\n? (192.168.1.9) at (incomplete) on en0\nbroken line\n";
    let devices = arp_devices_from_output(output);
    assert_eq!(devices.len(), 1);
    assert_eq!(devices[0].ip, "192.168.1.1");
    assert_eq!(devices[0].mac, "11:22:33:44:55:66");
    let windows = parse_arp_line("  192.168.1.2   11-22-33-44-55-66   dynamic").unwrap();
    assert_eq!(windows.mac, "11-22-33-44-55-66");
    let no_mac = parse_arp_line("192.168.1.3 ether").unwrap();
    assert_eq!(no_mac.mac, "desconocida");
}

#[test]
fn sweep_covers_the_network_once() {
    let network = local_network_from_gateway("192.168.7.1").unwrap();
    let batches = sweep_batches(&network);
    assert_eq!(batches.len(), 32);
    assert_eq!(batches[0][0], "192.168.7.1");
    assert_eq!(batches[0][1], "192.168.7.33");
    assert_eq!(batches[31][0], "192.168.7.32");
    let mut all: Vec<String> = batches.concat();
    assert_eq!(all.len(), 254);
    all.sort();
    all.dedup();
    assert_eq!(all.len(), 254);
}

#[test]
fn assembled_scan_counts_reachable_devices() {
    let scan = assemble_scan(
        Some(vec![PingScanResult { ip: "192.168.1.5".into(), latency_ms: lat(1.0) }]),
        vec![Device::arp("192.168.1.6", "aa:bb:cc:dd:ee:ff")],
        vec![TraceHop::new(1, "*", None)],
    );
    assert_eq!(scan.devices.len(), 2);
    assert_eq!(scan.message, "2 dispositivos, 1 con ping, 1 saltos a 1.1.1.1");
    let arp_only = assemble_scan(None, Vec::new(), Vec::new());
    assert_eq!(
        arp_only.message,
        "Sin resultados. Revisa permisos de red o comandos ping/arp/traceroute."
    );
}
