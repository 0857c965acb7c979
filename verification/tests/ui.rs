use red_tui::app::App;
use red_tui::layout::{
    centered_rect, columns, input_cursor, rows, screen_areas, scrollbar_area, welcome_areas, Area,
};
use red_tui::models::{Device, Latency, PingTarget, Screen, TraceHop};
use red_tui::ui::{
    footer_help, hop_number_text, internet_status, needs_scrollbar, scroll_offset, target_line,
    trace_offset, trace_title, visible_table_rows, welcome_menu, Tone,
};

fn lat(value: f64) -> Latency {
    Latency::parse(&value.to_string()).unwrap()
}

fn test_app() -> App {
    App {
        screen: Screen::Welcome,
        welcome_index: 0,
        selected_target: 0,
        selected_device: 0,
        trace_scroll: 0,
        targets: vec![PingTarget::new("192.168.1.1"), PingTarget::new("1.1.1.1")],
        devices: Vec::new(),
        trace_hops: Vec::new(),
        gateway: "192.168.1.1".into(),
        interface: "test0".into(),
        input: String::new(),
        input_mode: false,
        scanning: false,
        scan_message: "Sin escaneo. Abre Topologia o pulsa s.".into(),
        last_ping_cycle: Some(0),
        should_quit: false,
    }
}

fn area(width: u16, height: u16) -> Area {
    Area { x: 0, y: 0, width, height }
}

#[test]
fn ui_scroll_offset_keeps_selection_visible() {
    assert_eq!(scroll_offset(3, 0, 10), 0);
    assert_eq!(scroll_offset(20, 0, 5), 0);
    assert_eq!(scroll_offset(20, 10, 5), 8);
    assert_eq!(scroll_offset(20, 19, 5), 15);
}

#[test]
fn tables_show_all_but_border_and_header_rows() {
    assert_eq!(visible_table_rows(area(40, 10)), 7);
    assert_eq!(visible_table_rows(area(40, 3)), 1);
    assert_eq!(visible_table_rows(area(40, 0)), 1);
    assert!(needs_scrollbar(8, area(40, 10)));
    assert!(!needs_scrollbar(7, area(40, 10)));
}

#[test]
fn trace_window_stays_full() {
    assert_eq!(trace_offset(7, 8, 5), 3);
    assert_eq!(trace_offset(2, 8, 5), 2);
    assert_eq!(trace_offset(4, 3, 5), 0);
}

#[test]
fn header_and_summary_texts() {
    let mut app = test_app();
    app.devices = vec![
        Device::arp("192.168.1.10", "aa:bb:cc:dd:ee:ff"),
        Device::ping("192.168.1.11", lat(2.0)),
    ];
    assert_eq!(
        app.header_text(),
        "  interfaz: test0  gateway: 192.168.1.1  red: 1/2  internet: "
    );
    assert!(!app.internet_online());
    app.targets[0].online = true;
    assert!(!app.internet_online());
    app.targets[1].online = true;
    assert!(app.internet_online());
    let (targets, found, answering) = app.monitor_summary();
    assert_eq!(targets, "2 activos de 2");
    assert_eq!(found, "2 detectados");
    assert_eq!(answering, "1 alcanzables");
    assert_eq!(internet_status(false), ("COMPROBANDO", Tone::Warning));
}

#[test]
fn labels_and_titles() {
    assert_eq!(target_line("1.1.1.1", "12.3 ms"), "1.1.1.1              12.3 ms");
    assert_eq!(hop_number_text(12), "12");
    assert_eq!(trace_title(true, true), " Trace hacia 1.1.1.1: ejecutando... ");
    assert_eq!(trace_title(false, true), " Trace hacia 1.1.1.1: pulsa s ");
    assert_eq!(trace_title(false, false), " Trace hacia 1.1.1.1 ");
    assert_eq!(
        footer_help(Screen::Monitor),
        "1 monitor  2 multiping  3 topologia  s LAN+trace  Esc inicio  q salir"
    );
    let menu = welcome_menu(1);
    assert_eq!(menu.len(), 3);
    assert_eq!(menu[0].label, "  [1] Monitor de red     ");
    assert_eq!(menu[1].label, "> [2] Pings multiples    ");
    assert!(menu[1].highlighted);
    assert_eq!(menu[2].description, "Topologia LAN y trace WAN");
}

#[test]
fn table_rows_carry_cells_and_tones() {
    let mut app = test_app();
    app.selected_target = 1;
    app.targets[1].online = true;
    let rows = app.ping_rows(
        &vec!["-".to_string(), "9.0".to_string()],
        &vec!["0%".to_string(), "50%".to_string()],
    );
    assert_eq!(rows[1].cells, vec![">", "1.1.1.1", "ONLINE", "9.0", "50%"]);
    assert_eq!(rows[1].tone, Tone::Shaded);
    assert_eq!(rows[0].cells[2], "SIN RESP.");

    app.devices = vec![
        Device::arp("192.168.1.10", "aa:bb:cc:dd:ee:ff"),
        Device::ping("192.168.1.11", lat(2.0)),
        Device::arp("192.168.1.12", "aa:bb:cc:dd:ee:00"),
    ];
    app.selected_device = 2;
    let latencies = vec!["-".to_string(), "2.0".to_string(), "-".to_string()];
    let rows = app.device_rows(&latencies, 1, 5);
    assert_eq!(rows.len(), 2);
    assert_eq!(
        rows[0].cells,
        vec![" ", "PING", "192.168.1.11", "desconocida", "2.0", "ping"]
    );
    assert_eq!(rows[0].tone, Tone::Good);
    assert_eq!(rows[1].tone, Tone::Highlight);

    app.trace_hops = vec![TraceHop::new(1, "192.168.1.1", Some(lat(1.5))), TraceHop::new(2, "*", None)];
    let rows = app.hop_rows(&vec!["1.5".to_string(), "-".to_string()], 0, 1);
    assert_eq!(rows.len(), 1);
    assert_eq!(rows[0].cells, vec!["1", "OK", "192.168.1.1", "1.5"]);
    assert_eq!(rows[0].tone, Tone::Good);
}

#[test]
fn topology_scene_draws_router_and_branches() {
    let mut app = test_app();
    let lines = app.topology_scene_lines(&Vec::new(), 20);
    let bodies: Vec<&str> = lines.iter().map(|l| l.body.as_str()).collect();
    assert_eq!(bodies.len(), 12);
    assert_eq!(bodies[1], "                  │ 1.1.1.1                     │");
    assert_eq!(bodies[2], "                  ╰───────────┬───────── trace pendiente");
    assert_eq!(
        bodies[5],
        "               ║ gateway 192.168.1.1      LAN   0/0   ping ║"
    );
    assert_eq!(bodies[7], "               foco: sin dispositivos detectados");
    assert_eq!(bodies[9], "                    ╰── sin dispositivos detectados");
    assert_eq!(lines[11].lead, "Estado: ");
    assert_eq!(lines[11].body, "Sin escaneo. Abre Topologia o pulsa s.");

    app.devices = vec![
        Device::arp("192.168.1.10", "aa:bb:cc:dd:ee:ff"),
        Device::ping("192.168.1.11", lat(2.0)),
    ];
    app.selected_device = 1;
    let lines = app.topology_scene_lines(&vec!["-".to_string(), "2.0".to_string()], 13);
    assert_eq!(lines[7].lead, "               foco: ");
    assert_eq!(lines[7].body, "● 192.168.1.11  ping  2.0 ms");
    assert_eq!(lines[7].tone, Tone::Focus);
    assert_eq!(
        lines[9].body,
        "                    ╰─▶ ● 192.168.1.11    ping         2.0 ms"
    );
    assert_eq!(lines.len(), 12);
}

#[test]
fn layout_splits_the_terminal() {
    let (header, body, footer) = screen_areas(area(80, 24));
    assert_eq!(header, Area { x: 0, y: 0, width: 80, height: 3 });
    assert_eq!(body, Area { x: 0, y: 3, width: 80, height: 18 });
    assert_eq!(footer, Area { x: 0, y: 21, width: 80, height: 3 });
    let (left, right) = columns(55, area(100, 10));
    assert_eq!(left.width + right.width, 100);
    assert_eq!(right.x, left.width);
    let popup = centered_rect(60, 20, area(100, 50));
    assert_eq!(popup.width, 60);
    assert_eq!(popup.height, 10);
    assert_eq!(scrollbar_area(Area { x: 3, y: 4, width: 10, height: 6 }), Area { x: 3, y: 5, width: 10, height: 4 });
    assert_eq!(input_cursor(Area { x: 3, y: 4, width: 10, height: 6 }, 5), (9, 5));
}

#[test]
fn layout_parts_stay_inside_a_small_terminal() {
    let whole = Area { x: 2, y: 1, width: 60, height: 12 };
    let (header, body, footer) = screen_areas(whole);
    for part in [header, body, footer] {
        assert_eq!(part.x, 2);
        assert_eq!(part.width, 60);
        assert!(part.y >= 1 && part.y + part.height <= 13);
    }
    assert!(header.y + header.height <= body.y);
    assert!(body.y + body.height <= footer.y);
    let edge = Area { x: 65530, y: 0, width: 20, height: 4 };
    let (left, right) = columns(50, edge);
    for part in [left, right] {
        assert_eq!(part.height, 4);
        assert!(part.x >= 65530 && part.x as u32 + part.width as u32 <= 65535);
    }
    assert!(left.x + left.width <= right.x);
    let (top, bottom) = rows(62, whole);
    assert_eq!(top.y, 1);
    assert!(top.y + top.height <= bottom.y);
    let popup = centered_rect(60, 20, whole);
    assert!(popup.x >= 2 && popup.x + popup.width <= 62);
    assert!(popup.y >= 1 && popup.y + popup.height <= 13);
}

#[test]
fn layout_parts_have_the_sizes_their_extents_ask_for() {
    let (header, body, footer) = screen_areas(area(80, 30));
    assert_eq!((header.height, body.height, footer.height), (3, 24, 3));
    let (greeting, menu, rest) = welcome_areas(area(80, 40));
    assert_eq!(greeting.height, 10);
    assert_eq!(menu.height, 11);
    assert_eq!(rest.height, 19);
    let popup = centered_rect(60, 20, area(100, 50));
    assert_eq!((popup.x, popup.y, popup.width, popup.height), (20, 20, 60, 10));
}
