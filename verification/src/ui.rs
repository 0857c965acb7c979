//! What the screens show: the texts, the windows of long lists that fit the
//! terminal, and the tone of each line. Drawing them is left to the caller,
//! together with the texts of measured values (latencies and losses), which
//! are floating-point numbers.

use vstd::prelude::*;
use crate::app::{last_index, min_nat, App, AppView};
use crate::models::{
    device_status_label, source_label_of, DeviceView, Screen, TargetView, TRACE_TARGET,
};
use crate::network::{device_views, reachable_count, string_views};
use crate::text::{
    decimal, pad_left, pad_right, push_chars, push_decimal, push_padded_left, push_padded_right,
    push_str, spaces,
};

verus! {

broadcast use vstd::string::group_string_axioms;

// ---------------------------------------------------------------------------
// Windows of long lists
// ---------------------------------------------------------------------------

/// `a - b`, or 0 when `b` is larger (`saturating_sub`).
pub open spec fn sat_sub(a: nat, b: nat) -> nat {
    if a >= b {
        (a - b) as nat
    } else {
        0
    }
}

/// The first item shown when `visible_count` of `item_count` items fit and
/// `selected` is selected: the selection is kept near the middle, the window
/// never runs past the end, and everything shows from the top when it fits.
pub open spec fn window_start(item_count: nat, selected: nat, visible_count: nat) -> nat {
    if item_count <= visible_count {
        0
    } else {
        min_nat(sat_sub(selected, visible_count / 2), sat_sub(item_count, visible_count))
    }
}

/// The first item shown of a list that does not fit.
pub fn scroll_offset(item_count: usize, selected: usize, visible_count: usize) -> (offset: usize)
    ensures
        offset == window_start(item_count as nat, selected as nat, visible_count as nat),
{
    if item_count <= visible_count {
        return 0;
    }
    let half = visible_count / 2;
    let from_selection = if selected >= half {
        selected - half
    } else {
        0
    };
    let last_start = item_count - visible_count;
    if from_selection <= last_start {
        from_selection
    } else {
        last_start
    }
}

/// The rows of a bordered table with a header in an area `height` rows high:
/// all but three, and at least one.
pub open spec fn table_rows(height: u16) -> nat {
    if height >= 4 {
        (height - 3) as nat
    } else {
        1
    }
}

/// The rows that a bordered table with a header shows in `area`.
pub fn visible_table_rows(area: crate::layout::Area) -> (rows: usize)
    ensures
        rows == table_rows(area.height),
{
    if area.height >= 4 {
        (area.height - 3) as usize
    } else {
        1
    }
}

/// Whether a list of `item_count` items in `area` needs a scrollbar.
pub fn needs_scrollbar(item_count: usize, area: crate::layout::Area) -> (b: bool)
    ensures
        b == (item_count > table_rows(area.height)),
{
    item_count > visible_table_rows(area)
}

/// The first hop shown of the trace: the scroll position, kept so that the
/// window stays full.
pub fn trace_offset(trace_scroll: usize, hop_count: usize, visible_count: usize) -> (offset: usize)
    ensures
        offset == min_nat(trace_scroll as nat, sat_sub(hop_count as nat, visible_count as nat)),
{
    let last_start = if hop_count >= visible_count {
        hop_count - visible_count
    } else {
        0
    };
    if trace_scroll <= last_start {
        trace_scroll
    } else {
        last_start
    }
}

// ---------------------------------------------------------------------------
// Labels and titles
// ---------------------------------------------------------------------------

/// How a line or a row is shown.
#[derive(Clone, Copy, Debug, PartialEq, Eq, Structural)]
pub enum Tone {
    /// The default colours.
    Plain,
    /// A heading of the topology (blue, bold).
    Title,
    /// The item in focus (cyan, bold).
    Focus,
    /// The selected row of a table (black on cyan, bold).
    Highlight,
    /// Something that answers (green).
    Good,
    /// Something that does not, or a secondary text (dark grey).
    Muted,
    /// A hop that did not answer (yellow).
    Warning,
    /// A target that did not answer (red).
    Bad,
    /// The selected row of the ping table (dark grey background).
    Shaded,
}

/// `>` for the selected row, a space otherwise.
pub open spec fn marker_of(selected: bool) -> Seq<char> {
    if selected {
        ">"@
    } else {
        " "@
    }
}

/// The marker of a row.
pub fn selection_marker(selected: bool) -> (s: &'static str)
    ensures
        s@ == marker_of(selected),
{
    if selected {
        ">"
    } else {
        " "
    }
}

/// `ONLINE` for a target that answered its last ping, `SIN RESP.` otherwise.
pub fn target_status_label(online: bool) -> (s: &'static str)
    ensures
        s@ == (if online {
            "ONLINE"@
        } else {
            "SIN RESP."@
        }),
{
    if online {
        "ONLINE"
    } else {
        "SIN RESP."
    }
}

/// The icon and tone of a watched target: a full dot in green when it
/// answered, an empty one in red otherwise.
pub fn target_icon(online: bool) -> (r: (&'static str, Tone))
    ensures
        r.0@ == (if online {
            "●"@
        } else {
            "○"@
        }),
        r.1 == (if online {
            Tone::Good
        } else {
            Tone::Bad
        }),
{
    if online {
        ("●", Tone::Good)
    } else {
        ("○", Tone::Bad)
    }
}

/// A watched target as the monitor lists it: its host padded to 18
/// characters, a space, and its latency text right-aligned in 9.
pub fn target_line(host: &str, latency: &str) -> (s: String)
    ensures
        s@ == pad_right(host@, 18) + " "@ + pad_left(latency@, 9),
{
    let mut s = String::new();
    push_padded_right(&mut s, host, 18);
    push_str(&mut s, " ");
    push_padded_left(&mut s, latency, 9);
    s
}

/// The tone of a device row: highlighted when selected, green when it
/// answered a ping, grey otherwise.
pub open spec fn device_row_tone_of(selected: bool, reachable: bool) -> Tone {
    if selected {
        Tone::Highlight
    } else if reachable {
        Tone::Good
    } else {
        Tone::Muted
    }
}

/// The tone of a device row.
pub fn device_row_tone(selected: bool, reachable: bool) -> (t: Tone)
    ensures
        t == device_row_tone_of(selected, reachable),
{
    if selected {
        Tone::Highlight
    } else if reachable {
        Tone::Good
    } else {
        Tone::Muted
    }
}

/// The tone of a hop row: green when it answered, yellow otherwise.
pub fn hop_row_tone(answered: bool) -> (t: Tone)
    ensures
        t == (if answered {
            Tone::Good
        } else {
            Tone::Warning
        }),
{
    if answered {
        Tone::Good
    } else {
        Tone::Warning
    }
}

/// The number of a hop as text.
pub fn hop_number_text(hop: u8) -> (s: String)
    ensures
        s@ == decimal(hop as nat),
{
    let mut s = String::new();
    push_decimal(&mut s, hop as u64);
    assert(s@ =~= decimal(hop as nat));
    s
}

/// The title of the device table.
pub fn scan_title(scanning: bool) -> (s: &'static str)
    ensures
        s@ == (if scanning {
            " Escaneando... "@
        } else {
            " Dispositivos LAN alcanzados "@
        }),
{
    if scanning {
        " Escaneando... "
    } else {
        " Dispositivos LAN alcanzados "
    }
}

/// The title of the trace table: running, waiting for a first scan, or
/// done.
pub open spec fn trace_title_of(scanning: bool, no_hops: bool) -> Seq<char> {
    if scanning {
        " Trace hacia "@ + TRACE_TARGET@ + ": ejecutando... "@
    } else if no_hops {
        " Trace hacia "@ + TRACE_TARGET@ + ": pulsa s "@
    } else {
        " Trace hacia "@ + TRACE_TARGET@ + " "@
    }
}

/// The title of the trace table.
pub fn trace_title(scanning: bool, no_hops: bool) -> (s: String)
    ensures
        s@ == trace_title_of(scanning, no_hops),
{
    let mut s = String::new();
    push_str(&mut s, " Trace hacia ");
    push_str(&mut s, TRACE_TARGET);
    if scanning {
        push_str(&mut s, ": ejecutando... ");
    } else if no_hops {
        push_str(&mut s, ": pulsa s ");
    } else {
        push_str(&mut s, " ");
    }
    s
}

/// The key help of a screen.
pub open spec fn footer_help_of(screen: Screen) -> Seq<char> {
    match screen {
        Screen::Welcome => "↑↓ seleccionar  Enter abrir  1/2/3 acceso rapido  q salir"@,
        Screen::Monitor => "1 monitor  2 multiping  3 topologia  s LAN+trace  Esc inicio  q salir"@,
        Screen::MultiPing =>
            "↑↓ seleccionar  a agregar  d eliminar  1/2/3 modulos  Esc inicio  q salir"@,
        Screen::Topology =>
            "↑↓ dispositivo  PgUp/PgDn trace  Home/End extremos  s escanear  Esc inicio  q salir"@,
    }
}

/// The key help shown at the bottom of a screen.
pub fn footer_help(screen: Screen) -> (s: &'static str)
    ensures
        s@ == footer_help_of(screen),
{
    match screen {
        Screen::Welcome => "↑↓ seleccionar  Enter abrir  1/2/3 acceso rapido  q salir",
        Screen::Monitor => "1 monitor  2 multiping  3 topologia  s LAN+trace  Esc inicio  q salir",
        Screen::MultiPing =>
            "↑↓ seleccionar  a agregar  d eliminar  1/2/3 modulos  Esc inicio  q salir",
        Screen::Topology =>
            "↑↓ dispositivo  PgUp/PgDn trace  Home/End extremos  s escanear  Esc inicio  q salir",
    }
}

// ---------------------------------------------------------------------------
// Header and monitor summary
// ---------------------------------------------------------------------------

/// Whether Internet answers: a target other than the first (the gateway) is
/// online.
pub open spec fn internet_online_of(v: AppView) -> bool {
    exists|i: int| 1 <= i < v.targets.len() && v.targets[i].online
}

/// How many targets are online.
pub open spec fn online_count(ts: Seq<TargetView>) -> nat
    decreases ts.len(),
{
    if ts.len() == 0 {
        0
    } else {
        online_count(ts.drop_last()) + if ts.last().online {
            1nat
        } else {
            0nat
        }
    }
}

/// The line of the header before the Internet status.
pub open spec fn header_text_of(v: AppView) -> Seq<char> {
    "  interfaz: "@ + v.interface + "  gateway: "@ + v.gateway + "  red: "@ + decimal(
        reachable_count(v.devices),
    ) + "/"@ + decimal(v.devices.len()) + "  internet: "@
}

impl App {
    /// Whether Internet answers.
    pub fn internet_online(&self) -> (b: bool)
        ensures
            b == internet_online_of(self@),
    {
        let mut i: usize = 1;
        while i < self.targets.len()
            invariant
                1 <= i,
                i <= self.targets@.len() || self.targets@.len() == 0,
                forall|j: int| 1 <= j < i && j < self@.targets.len() ==> !self@.targets[j].online,
            decreases self.targets@.len() - i,
        {
            if self.targets[i].online {
                assert(self@.targets[i as int].online);
                return true;
            }
            i = i + 1;
        }
        false
    }

    /// How many targets are online.
    pub fn online_targets(&self) -> (n: usize)
        ensures
            n == online_count(self@.targets),
    {
        let ghost ts = self@.targets;
        let mut n: usize = 0;
        let mut i: usize = 0;
        while i < self.targets.len()
            invariant
                0 <= i <= self.targets@.len(),
                ts == self@.targets,
                n == online_count(ts.take(i as int)),
                n <= i,
            decreases self.targets@.len() - i,
        {
            assert(ts.take(i + 1).drop_last() =~= ts.take(i as int));
            if self.targets[i].online {
                n = n + 1;
            }
            i = i + 1;
        }
        assert(ts.take(self.targets@.len() as int) =~= ts);
        n
    }

    /// The line of the header before the Internet status: interface,
    /// gateway, and devices that answered out of those found.
    pub fn header_text(&self) -> (s: String)
        ensures
            s@ == header_text_of(self@),
    {
        let reachable = crate::network::count_reachable(&self.devices);
        let mut s = String::new();
        push_str(&mut s, "  interfaz: ");
        push_str(&mut s, self.interface.as_str());
        push_str(&mut s, "  gateway: ");
        push_str(&mut s, self.gateway.as_str());
        push_str(&mut s, "  red: ");
        push_decimal(&mut s, reachable as u64);
        push_str(&mut s, "/");
        push_decimal(&mut s, self.devices.len() as u64);
        push_str(&mut s, "  internet: ");
        assert(s@ =~= header_text_of(self@));
        s
    }

    /// The summary of the monitor screen: targets online out of all, devices
    /// found, and devices that answered a ping.
    pub fn monitor_summary(&self) -> (r: (String, String, String))
        ensures
            r.0@ == decimal(online_count(self@.targets)) + " activos de "@ + decimal(
                self@.targets.len(),
            ),
            r.1@ == decimal(self@.devices.len()) + " detectados"@,
            r.2@ == decimal(reachable_count(self@.devices)) + " alcanzables"@,
    {
        let online = self.online_targets();
        let reachable = crate::network::count_reachable(&self.devices);
        let mut targets = String::new();
        push_decimal(&mut targets, online as u64);
        push_str(&mut targets, " activos de ");
        push_decimal(&mut targets, self.targets.len() as u64);
        let mut found = String::new();
        push_decimal(&mut found, self.devices.len() as u64);
        push_str(&mut found, " detectados");
        let mut answering = String::new();
        push_decimal(&mut answering, reachable as u64);
        push_str(&mut answering, " alcanzables");
        (targets, found, answering)
    }
}

/// The Internet status of the header.
pub fn internet_status(online: bool) -> (r: (&'static str, Tone))
    ensures
        r.0@ == (if online {
            "ONLINE"@
        } else {
            "COMPROBANDO"@
        }),
        r.1 == (if online {
            Tone::Good
        } else {
            Tone::Warning
        }),
{
    if online {
        ("ONLINE", Tone::Good)
    } else {
        ("COMPROBANDO", Tone::Warning)
    }
}

// ---------------------------------------------------------------------------
// Welcome menu
// ---------------------------------------------------------------------------

/// One entry of the welcome menu.
pub struct MenuLine {
    pub label: String,
    pub description: String,
    pub highlighted: bool,
}

/// The key, title and description of a welcome option.
pub open spec fn welcome_option(i: int) -> (Seq<char>, Seq<char>, Seq<char>) {
    if i == 0 {
        ("1"@, "Monitor de red"@, "Estado general, gateway y destinos"@)
    } else if i == 1 {
        ("2"@, "Pings multiples"@, "Latencia y perdida por destino"@)
    } else {
        ("3"@, "Grafico de red"@, "Topologia LAN y trace WAN"@)
    }
}

/// The label of welcome option `i`: the selection marker, the key in
/// brackets and the title padded to 18 characters.
pub open spec fn menu_label(i: int, selected: bool) -> Seq<char> {
    marker_of(selected) + " ["@ + welcome_option(i).0 + "] "@ + pad_right(welcome_option(i).1, 18)
        + " "@
}

fn menu_line(i: usize, key: &str, title: &str, description: &str, welcome_index: usize) -> (m:
    MenuLine)
    requires
        i < 3,
        key@ == welcome_option(i as int).0,
        title@ == welcome_option(i as int).1,
        description@ == welcome_option(i as int).2,
    ensures
        m.label@ == menu_label(i as int, i == welcome_index),
        m.description@ == welcome_option(i as int).2,
        m.highlighted == (i == welcome_index),
{
    let mut label = String::new();
    push_str(&mut label, selection_marker(i == welcome_index));
    push_str(&mut label, " [");
    push_str(&mut label, key);
    push_str(&mut label, "] ");
    push_padded_right(&mut label, title, 18);
    push_str(&mut label, " ");
    assert(label@ =~= menu_label(i as int, i == welcome_index));
    MenuLine { label, description: description.to_owned(), highlighted: i == welcome_index }
}

/// The three entries of the welcome menu, the selected one highlighted.
pub fn welcome_menu(welcome_index: usize) -> (ms: Vec<MenuLine>)
    ensures
        ms@.len() == 3,
        forall|i: int|
            0 <= i < 3 ==> {
                &&& (#[trigger] ms@[i]).label@ == menu_label(i, i == welcome_index)
                &&& ms@[i].description@ == welcome_option(i).2
                &&& ms@[i].highlighted == (i == welcome_index)
            },
{
    let mut ms: Vec<MenuLine> = Vec::new();
    ms.push(
        menu_line(0, "1", "Monitor de red", "Estado general, gateway y destinos", welcome_index),
    );
    ms.push(
        menu_line(1, "2", "Pings multiples", "Latencia y perdida por destino", welcome_index),
    );
    ms.push(menu_line(2, "3", "Grafico de red", "Topologia LAN y trace WAN", welcome_index));
    ms
}

// ---------------------------------------------------------------------------
// Tables
// ---------------------------------------------------------------------------

/// A row of a table: its cells and its tone.
pub struct TableRow {
    pub cells: Vec<String>,
    pub tone: Tone,
}

/// The texts of the cells of a row.
pub open spec fn row_cells(r: TableRow) -> Seq<Seq<char>> {
    string_views(r.cells@)
}

/// The row of watched target `i` on the ping screen: marker, host, status,
/// and the latency and loss texts given for it; highlighted when selected.
pub open spec fn ping_row_cells(
    v: AppView,
    i: int,
    latency: Seq<char>,
    loss: Seq<char>,
) -> Seq<Seq<char>> {
    seq![
        marker_of(i == v.selected_target),
        v.targets[i].host,
        if v.targets[i].online {
            "ONLINE"@
        } else {
            "SIN RESP."@
        },
        latency,
        loss,
    ]
}

/// The row of device `i` of the device table: marker, status, address,
/// hardware address, the latency text given for it, and how it was found.
pub open spec fn device_row_cells(v: AppView, i: int, latency: Seq<char>) -> Seq<Seq<char>> {
    let d = v.devices[i];
    seq![
        marker_of(i == v.selected_device),
        device_status_label(d),
        d.ip,
        d.mac,
        latency,
        source_label_of(d.source),
    ]
}

/// The row of hop `i` of the trace table: number, status, address and the
/// latency text given for it.
pub open spec fn hop_row_cells(v: AppView, i: int, latency: Seq<char>) -> Seq<Seq<char>> {
    let h = v.trace_hops[i];
    seq![
        decimal(h.hop as nat),
        if h.latency is Some {
            "OK"@
        } else {
            "SIN RESP."@
        },
        h.address,
        latency,
    ]
}

fn push_cell(cells: &mut Vec<String>, c: String)
    ensures
        string_views(final(cells)@) == string_views(old(cells)@).push(c@),
{
    let ghost v = c@;
    cells.push(c);
    assert(string_views(final(cells)@) =~= string_views(old(cells)@).push(v));
}

impl App {
    /// The rows of the ping screen, given the latency and loss texts of each
    /// target.
    pub fn ping_rows(&self, latencies: &Vec<String>, losses: &Vec<String>) -> (rows: Vec<TableRow>)
        requires
            latencies@.len() == self.targets@.len(),
            losses@.len() == self.targets@.len(),
        ensures
            rows@.len() == self.targets@.len(),
            forall|i: int|
                0 <= i < rows@.len() ==> row_cells(#[trigger] rows@[i]) == ping_row_cells(
                    self@,
                    i,
                    latencies@[i]@,
                    losses@[i]@,
                ) && rows@[i].tone == (if i == self.selected_target {
                    Tone::Shaded
                } else {
                    Tone::Plain
                }),
    {
        let mut rows: Vec<TableRow> = Vec::new();
        let mut i: usize = 0;
        while i < self.targets.len()
            invariant
                0 <= i <= self.targets@.len(),
                latencies@.len() == self.targets@.len(),
                losses@.len() == self.targets@.len(),
                rows@.len() == i,
                forall|j: int|
                    0 <= j < i ==> row_cells(#[trigger] rows@[j]) == ping_row_cells(
                        self@,
                        j,
                        latencies@[j]@,
                        losses@[j]@,
                    ) && rows@[j].tone == (if j == self.selected_target {
                        Tone::Shaded
                    } else {
                        Tone::Plain
                    }),
            decreases self.targets@.len() - i,
        {
            let selected = i == self.selected_target;
            let mut cells: Vec<String> = Vec::new();
            push_cell(&mut cells, selection_marker(selected).to_owned());
            push_cell(&mut cells, self.targets[i].host.clone());
            push_cell(&mut cells, target_status_label(self.targets[i].online).to_owned());
            push_cell(&mut cells, latencies[i].clone());
            push_cell(&mut cells, losses[i].clone());
            let tone = if selected {
                Tone::Shaded
            } else {
                Tone::Plain
            };
            let row = TableRow { cells, tone };
            assert(row_cells(row) =~= ping_row_cells(self@, i as int, latencies@[i as int]@, losses@[i as int]@));
            rows.push(row);
            i = i + 1;
        }
        rows
    }

    /// The rows of the device table that fit `visible_count` rows, from
    /// `offset` on, given the latency text of each device.
    pub fn device_rows(&self, latencies: &Vec<String>, offset: usize, visible_count: usize) -> (rows: Vec<
        TableRow,
    >)
        requires
            latencies@.len() == self.devices@.len(),
        ensures
            rows@.len() == min_nat(visible_count as nat, sat_sub(self@.devices.len(), offset as nat)),
            forall|k: int|
                0 <= k < rows@.len() ==> row_cells(#[trigger] rows@[k]) == device_row_cells(
                    self@,
                    offset + k,
                    latencies@[offset + k]@,
                ) && rows@[k].tone == device_row_tone_of(
                    offset + k == self.selected_device,
                    self@.devices[offset + k].reachable,
                ),
    {
        let mut rows: Vec<TableRow> = Vec::new();
        let mut i: usize = offset;
        while i < self.devices.len() && rows.len() < visible_count
            invariant
                offset <= i,
                i <= self.devices@.len() || i == offset,
                rows@.len() == i - offset,
                latencies@.len() == self.devices@.len(),
                rows@.len() <= visible_count,
                forall|k: int|
                    0 <= k < rows@.len() ==> row_cells(#[trigger] rows@[k]) == device_row_cells(
                        self@,
                        offset + k,
                        latencies@[offset + k]@,
                    ) && rows@[k].tone == device_row_tone_of(
                        offset + k == self.selected_device,
                        self@.devices[offset + k].reachable,
                    ),
            decreases self.devices@.len() - i,
        {
            let d = &self.devices[i];
            let selected = i == self.selected_device;
            let mut cells: Vec<String> = Vec::new();
            push_cell(&mut cells, selection_marker(selected).to_owned());
            push_cell(&mut cells, d.status_label().to_owned());
            push_cell(&mut cells, d.ip.clone());
            push_cell(&mut cells, d.mac.clone());
            push_cell(&mut cells, latencies[i].clone());
            push_cell(&mut cells, d.source_label().to_owned());
            let row = TableRow { cells, tone: device_row_tone(selected, d.reachable) };
            assert(self@.devices[i as int] == d@);
            assert(row_cells(row) =~= device_row_cells(self@, i as int, latencies@[i as int]@));
            rows.push(row);
            i = i + 1;
        }
        rows
    }

    /// The rows of the trace table that fit `visible_count` rows, from
    /// `offset` on, given the latency text of each hop.
    pub fn hop_rows(&self, latencies: &Vec<String>, offset: usize, visible_count: usize) -> (rows: Vec<
        TableRow,
    >)
        requires
            latencies@.len() == self.trace_hops@.len(),
        ensures
            rows@.len() == min_nat(visible_count as nat, sat_sub(self@.trace_hops.len(), offset as nat)),
            forall|k: int|
                0 <= k < rows@.len() ==> row_cells(#[trigger] rows@[k]) == hop_row_cells(
                    self@,
                    offset + k,
                    latencies@[offset + k]@,
                ) && rows@[k].tone == (if self@.trace_hops[offset + k].latency is Some {
                    Tone::Good
                } else {
                    Tone::Warning
                }),
    {
        let mut rows: Vec<TableRow> = Vec::new();
        let mut i: usize = offset;
        while i < self.trace_hops.len() && rows.len() < visible_count
            invariant
                offset <= i,
                i <= self.trace_hops@.len() || i == offset,
                rows@.len() == i - offset,
                latencies@.len() == self.trace_hops@.len(),
                rows@.len() <= visible_count,
                forall|k: int|
                    0 <= k < rows@.len() ==> row_cells(#[trigger] rows@[k]) == hop_row_cells(
                        self@,
                        offset + k,
                        latencies@[offset + k]@,
                    ) && rows@[k].tone == (if self@.trace_hops[offset + k].latency is Some {
                        Tone::Good
                    } else {
                        Tone::Warning
                    }),
            decreases self.trace_hops@.len() - i,
        {
            let h = &self.trace_hops[i];
            let mut cells: Vec<String> = Vec::new();
            push_cell(&mut cells, hop_number_text(h.hop));
            push_cell(&mut cells, h.status_label().to_owned());
            push_cell(&mut cells, h.address.clone());
            push_cell(&mut cells, latencies[i].clone());
            let row = TableRow { cells, tone: hop_row_tone(h.latency_ms.is_some()) };
            assert(self@.trace_hops[i as int] == h@);
            assert(row_cells(row) =~= hop_row_cells(self@, i as int, latencies@[i as int]@));
            rows.push(row);
            i = i + 1;
        }
        rows
    }
}

// ---------------------------------------------------------------------------
// Topology scene
// ---------------------------------------------------------------------------

/// A line of the topology scene: a lead shown in grey, then the body in its
/// tone.
pub struct SceneLine {
    pub lead: String,
    pub body: String,
    pub tone: Tone,
}

/// What a scene line is, as plain values.
pub struct SceneLineView {
    pub lead: Seq<char>,
    pub body: Seq<char>,
    pub tone: Tone,
}

impl View for SceneLine {
    type V = SceneLineView;

    open spec fn view(&self) -> SceneLineView {
        SceneLineView { lead: self.lead@, body: self.body@, tone: self.tone }
    }
}

/// The views of a sequence of scene lines.
pub open spec fn scene_views(ls: Seq<SceneLine>) -> Seq<SceneLineView> {
    ls.map_values(|l: SceneLine| l@)
}

/// A line without a lead.
pub open spec fn plain_line(body: Seq<char>, tone: Tone) -> SceneLineView {
    SceneLineView { lead: seq![], body, tone }
}

/// What the trace has found: pending, or the number of hops.
pub open spec fn trace_status_of(hop_count: nat) -> Seq<char> {
    if hop_count == 0 {
        "trace pendiente"@
    } else {
        decimal(hop_count) + " saltos WAN"@
    }
}

/// A full dot for a device that answered a ping, an empty one otherwise.
pub open spec fn dot_of(reachable: bool) -> Seq<char> {
    if reachable {
        "●"@
    } else {
        "○"@
    }
}

/// The drawing of Internet and the router, with the interface, gateway and
/// device counts.
pub open spec fn scene_head(v: AppView) -> Seq<SceneLineView> {
    seq![
        plain_line("                  ╭───────── INTERNET ─────────╮"@, Tone::Title),
        plain_line("                  │ "@ + pad_right(TRACE_TARGET@, 27) + " │"@, Tone::Plain),
        plain_line(
            "                  ╰───────────┬───────── "@ + trace_status_of(v.trace_hops.len()),
            Tone::Plain,
        ),
        plain_line("                              ╱ ╲"@, Tone::Plain),
        plain_line(
            "               ╔══════════ ROUTER / "@ + pad_right(v.interface, 8) + " ══════════╗"@,
            Tone::Plain,
        ),
        plain_line(
            "               ║ gateway "@ + pad_right(v.gateway, 15) + "  LAN "@ + pad_left(
                decimal(reachable_count(v.devices)),
                3,
            ) + "/"@ + pad_right(decimal(v.devices.len()), 3) + " ping ║"@,
            Tone::Plain,
        ),
        plain_line("               ╚══════════════╤══════════════╤══════╝"@, Tone::Plain),
    ]
}

/// The line about the device in focus: the selected device, or what the
/// scan is doing when there is none.
pub open spec fn focus_line(v: AppView, latencies: Seq<Seq<char>>) -> SceneLineView {
    if v.selected_device < v.devices.len() {
        let d = v.devices[v.selected_device as int];
        SceneLineView {
            lead: "               foco: "@,
            body: dot_of(d.reachable) + " "@ + d.ip + "  "@ + source_label_of(d.source) + "  "@
                + latencies[v.selected_device as int] + " ms"@,
            tone: Tone::Focus,
        }
    } else if v.scanning {
        plain_line("               foco: escaneando dispositivos..."@, Tone::Plain)
    } else {
        plain_line("               foco: sin dispositivos detectados"@, Tone::Plain)
    }
}

/// The branch of device `i` in the scene.
pub open spec fn device_scene_line(v: AppView, latencies: Seq<Seq<char>>, i: int) -> SceneLineView {
    let d = v.devices[i];
    let selected = i == v.selected_device;
    plain_line(
        "                    "@ + (if selected {
            "╰─▶"@
        } else {
            "├──"@
        }) + " "@ + dot_of(d.reachable) + " "@ + pad_right(d.ip, 15) + " "@ + pad_right(
            source_label_of(d.source),
            9,
        ) + " "@ + pad_left(latencies[i], 6) + " ms"@,
        if selected {
            Tone::Focus
        } else if d.reachable {
            Tone::Good
        } else {
            Tone::Muted
        },
    )
}

/// The devices of the scene that fit: all but twelve rows of the area, and
/// at least one.
pub open spec fn scene_capacity(height: u16) -> nat {
    if height >= 13 {
        (height - 12) as nat
    } else {
        1
    }
}

/// The branches shown: the window of the devices around the selection.
pub open spec fn scene_branches(v: AppView, latencies: Seq<Seq<char>>, height: u16) -> Seq<
    SceneLineView,
> {
    let visible = scene_capacity(height);
    let offset = window_start(v.devices.len(), v.selected_device as nat, visible);
    Seq::new(
        min_nat(visible, sat_sub(v.devices.len(), offset)),
        |k: int| device_scene_line(v, latencies, offset + k),
    )
}

/// The topology scene of an area `height` rows high: the drawing, the
/// device in focus, the branches that fit (or what the scan is doing when
/// there are no devices), and the scan summary.
pub open spec fn scene_lines(v: AppView, latencies: Seq<Seq<char>>, height: u16) -> Seq<
    SceneLineView,
> {
    scene_head(v) + seq![focus_line(v, latencies), plain_line(seq![], Tone::Plain)]
        + scene_branches(v, latencies, height) + (if v.devices.len() == 0 {
        seq![
            plain_line(
                if v.scanning {
                    "                    ╰── escaneando..."@
                } else {
                    "                    ╰── sin dispositivos detectados"@
                },
                Tone::Plain,
            ),
        ]
    } else {
        Seq::<SceneLineView>::empty()
    }) + seq![
        plain_line(seq![], Tone::Plain),
        SceneLineView { lead: "Estado: "@, body: v.scan_message, tone: Tone::Plain },
    ]
}

fn push_line(ls: &mut Vec<SceneLine>, lead: String, body: String, tone: Tone)
    ensures
        scene_views(final(ls)@) == scene_views(old(ls)@).push(
            SceneLineView { lead: lead@, body: body@, tone },
        ),
{
    let l = SceneLine { lead, body, tone };
    let ghost lv = l@;
    ls.push(l);
    assert(scene_views(final(ls)@) =~= scene_views(old(ls)@).push(lv));
}

/// Appends `n` padded on the left to `width` characters.
fn push_padded_decimal_left(s: &mut String, n: u64, width: usize)
    ensures
        final(s)@ == old(s)@ + pad_left(decimal(n as nat), width as nat),
{
    let mut d = String::new();
    push_decimal(&mut d, n);
    assert(d@ =~= decimal(n as nat));
    push_padded_left(s, d.as_str(), width);
}

/// Appends `n` padded on the right to `width` characters.
fn push_padded_decimal_right(s: &mut String, n: u64, width: usize)
    ensures
        final(s)@ == old(s)@ + pad_right(decimal(n as nat), width as nat),
{
    let mut d = String::new();
    push_decimal(&mut d, n);
    assert(d@ =~= decimal(n as nat));
    push_padded_right(s, d.as_str(), width);
}

impl App {
    fn scene_head_lines(&self, ls: &mut Vec<SceneLine>)
        ensures
            scene_views(final(ls)@) == scene_views(old(ls)@) + scene_head(self@),
    {
        let ghost start = scene_views(ls@);
        push_line(ls, String::new(), "                  ╭───────── INTERNET ─────────╮".to_owned(), Tone::Title);
        let mut l2 = String::new();
        push_str(&mut l2, "                  │ ");
        push_padded_right(&mut l2, TRACE_TARGET, 27);
        push_str(&mut l2, " │");
        assert(l2@ =~= "                  │ "@ + pad_right(TRACE_TARGET@, 27) + " │"@);
        push_line(ls, String::new(), l2, Tone::Plain);
        let mut l3 = String::new();
        push_str(&mut l3, "                  ╰───────────┬───────── ");
        if self.trace_hops.len() == 0 {
            push_str(&mut l3, "trace pendiente");
        } else {
            push_decimal(&mut l3, self.trace_hops.len() as u64);
            push_str(&mut l3, " saltos WAN");
        }
        assert(l3@ =~= "                  ╰───────────┬───────── "@ + trace_status_of(
            self@.trace_hops.len(),
        ));
        push_line(ls, String::new(), l3, Tone::Plain);
        push_line(ls, String::new(), "                              ╱ ╲".to_owned(), Tone::Plain);
        let mut l5 = String::new();
        push_str(&mut l5, "               ╔══════════ ROUTER / ");
        push_padded_right(&mut l5, self.interface.as_str(), 8);
        push_str(&mut l5, " ══════════╗");
        assert(l5@ =~= "               ╔══════════ ROUTER / "@ + pad_right(self@.interface, 8)
            + " ══════════╗"@);
        push_line(ls, String::new(), l5, Tone::Plain);
        let reachable = crate::network::count_reachable(&self.devices);
        let mut l6 = String::new();
        push_str(&mut l6, "               ║ gateway ");
        push_padded_right(&mut l6, self.gateway.as_str(), 15);
        push_str(&mut l6, "  LAN ");
        push_padded_decimal_left(&mut l6, reachable as u64, 3);
        push_str(&mut l6, "/");
        push_padded_decimal_right(&mut l6, self.devices.len() as u64, 3);
        push_str(&mut l6, " ping ║");
        assert(l6@ =~= "               ║ gateway "@ + pad_right(self@.gateway, 15) + "  LAN "@
            + pad_left(decimal(reachable_count(self@.devices)), 3) + "/"@ + pad_right(
            decimal(self@.devices.len()),
            3,
        ) + " ping ║"@);
        push_line(ls, String::new(), l6, Tone::Plain);
        push_line(
            ls,
            String::new(),
            "               ╚══════════════╤══════════════╤══════╝".to_owned(),
            Tone::Plain,
        );
        assert(scene_views(ls@) =~= start + scene_head(self@));
    }

    fn focus_scene_line(&self, latencies: &Vec<String>, ls: &mut Vec<SceneLine>)
        requires
            latencies@.len() == self.devices@.len(),
        ensures
            scene_views(final(ls)@) == scene_views(old(ls)@).push(
                focus_line(self@, string_views(latencies@)),
            ),
    {
        if self.selected_device < self.devices.len() {
            let d = &self.devices[self.selected_device];
            let mut body = String::new();
            push_str(&mut body, if d.reachable {
                "●"
            } else {
                "○"
            });
            push_str(&mut body, " ");
            push_str(&mut body, d.ip.as_str());
            push_str(&mut body, "  ");
            push_str(&mut body, d.source_label());
            push_str(&mut body, "  ");
            push_str(&mut body, latencies[self.selected_device].as_str());
            push_str(&mut body, " ms");
            assert(self@.devices[self.selected_device as int] == d@);
            push_line(ls, "               foco: ".to_owned(), body, Tone::Focus);
        } else if self.scanning {
            push_line(
                ls,
                String::new(),
                "               foco: escaneando dispositivos...".to_owned(),
                Tone::Plain,
            );
        } else {
            push_line(
                ls,
                String::new(),
                "               foco: sin dispositivos detectados".to_owned(),
                Tone::Plain,
            );
        }
    }

    fn device_scene_lines(&self, latencies: &Vec<String>, height: u16, ls: &mut Vec<SceneLine>)
        requires
            latencies@.len() == self.devices@.len(),
        ensures
            scene_views(final(ls)@) == scene_views(old(ls)@) + scene_branches(
                self@,
                string_views(latencies@),
                height,
            ),
    {
        let ghost start = scene_views(ls@);
        let ghost lat = string_views(latencies@);
        let visible: usize = if height >= 13 {
            (height - 12) as usize
        } else {
            1
        };
        let offset = scroll_offset(self.devices.len(), self.selected_device, visible);
        let ghost count = min_nat(visible as nat, sat_sub(self@.devices.len(), offset as nat));
        let mut i: usize = offset;
        let mut shown: usize = 0;
        while i < self.devices.len() && shown < visible
            invariant
                offset <= i,
                i <= self.devices@.len() || i == offset,
                shown == i - offset,
                shown <= visible,
                latencies@.len() == self.devices@.len(),
                lat == string_views(latencies@),
                scene_views(ls@) == start + Seq::new(
                    shown as nat,
                    |k: int| device_scene_line(self@, lat, offset + k),
                ),
            decreases self.devices@.len() - i,
        {
            let d = &self.devices[i];
            let selected = i == self.selected_device;
            let mut body = String::new();
            push_str(&mut body, "                    ");
            push_str(&mut body, if selected {
                "╰─▶"
            } else {
                "├──"
            });
            push_str(&mut body, " ");
            push_str(&mut body, if d.reachable {
                "●"
            } else {
                "○"
            });
            push_str(&mut body, " ");
            push_padded_right(&mut body, d.ip.as_str(), 15);
            push_str(&mut body, " ");
            push_padded_right(&mut body, d.source_label(), 9);
            push_str(&mut body, " ");
            push_padded_left(&mut body, latencies[i].as_str(), 6);
            push_str(&mut body, " ms");
            let tone = if selected {
                Tone::Focus
            } else if d.reachable {
                Tone::Good
            } else {
                Tone::Muted
            };
            assert(self@.devices[i as int] == d@);
            let ghost before = scene_views(ls@);
            push_line(ls, String::new(), body, tone);
            assert(scene_views(ls@) =~= start + Seq::new(
                (shown + 1) as nat,
                |k: int| device_scene_line(self@, lat, offset + k),
            ));
            i = i + 1;
            shown = shown + 1;
        }
        assert(Seq::new(shown as nat, |k: int| device_scene_line(self@, lat, offset + k))
            =~= scene_branches(self@, lat, height));
    }

    /// The topology scene for an area `height` rows high, given the latency
    /// text of each device.
    pub fn topology_scene_lines(&self, latencies: &Vec<String>, height: u16) -> (ls: Vec<SceneLine>)
        requires
            latencies@.len() == self.devices@.len(),
        ensures
            scene_views(ls@) == scene_lines(self@, string_views(latencies@), height),
    {
        let mut ls: Vec<SceneLine> = Vec::new();
        self.scene_head_lines(&mut ls);
        self.focus_scene_line(latencies, &mut ls);
        push_line(&mut ls, String::new(), String::new(), Tone::Plain);
        self.device_scene_lines(latencies, height, &mut ls);
        if self.devices.len() == 0 {
            let text = if self.scanning {
                "                    ╰── escaneando..."
            } else {
                "                    ╰── sin dispositivos detectados"
            };
            push_line(&mut ls, String::new(), text.to_owned(), Tone::Plain);
        }
        push_line(&mut ls, String::new(), String::new(), Tone::Plain);
        push_line(&mut ls, "Estado: ".to_owned(), self.scan_message.clone(), Tone::Plain);
        assert(scene_views(ls@) =~= scene_lines(self@, string_views(latencies@), height));
        ls
    }
}

} // verus!
