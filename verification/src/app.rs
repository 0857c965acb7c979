//! The state of the monitor and how ping replies, scan results and the
//! passing of time change it. The caller owns the clock, the channel and
//! the worker threads: it hands the messages in and runs the pings and scans
//! that the state asks for.

use std::collections::VecDeque;
use vstd::prelude::*;
use crate::models::{
    fresh_target, latency_view, latency_views, Device, DeviceView, Latency, NetworkScan,
    PingTarget, Screen, TargetView, TraceHop, TraceHopView, MAX_HISTORY,
};
use crate::network::{device_views, hop_views, string_views};
use crate::text::chars_eq;

verus! {

/// How long the monitor waits between two rounds of pings, in milliseconds.
pub const PING_INTERVAL_MS: u64 = 2000;

/// What a worker reports back.
pub enum WorkerMessage {
    /// One ping of `host`: its latency, or none when it got no reply.
    PingResult { host: String, latency: Option<Latency> },
    /// A finished scan of the local network.
    ScanResult(NetworkScan),
}

/// What a worker message says, as plain values.
pub enum MessageView {
    PingResult { host: Seq<char>, latency: Option<Seq<char>> },
    ScanResult { devices: Seq<DeviceView>, trace_hops: Seq<TraceHopView>, message: Seq<char> },
}

impl View for WorkerMessage {
    type V = MessageView;

    open spec fn view(&self) -> MessageView {
        match self {
            WorkerMessage::PingResult { host, latency } => MessageView::PingResult {
                host: host@,
                latency: latency_view(*latency),
            },
            WorkerMessage::ScanResult(scan) => MessageView::ScanResult {
                devices: device_views(scan.devices@),
                trace_hops: hop_views(scan.trace_hops@),
                message: scan.message@,
            },
        }
    }
}

/// What the state asks the caller to do after an input.
#[derive(Clone, Copy, Debug, PartialEq, Eq, Structural)]
pub enum Effect {
    Nothing,
    /// Start a scan of the local network in the background.
    StartScan,
}

/// The state of the monitor.
pub struct App {
    pub screen: Screen,
    pub welcome_index: usize,
    pub selected_target: usize,
    pub selected_device: usize,
    pub trace_scroll: usize,
    pub targets: Vec<PingTarget>,
    pub devices: Vec<Device>,
    pub trace_hops: Vec<TraceHop>,
    pub gateway: String,
    pub interface: String,
    pub input: String,
    pub input_mode: bool,
    pub scanning: bool,
    pub scan_message: String,
    /// When the last round of pings started, in milliseconds on the caller's
    /// clock; none before the first.
    pub last_ping_cycle: Option<u64>,
    pub should_quit: bool,
}

/// What the state of the monitor is, as plain values.
pub struct AppView {
    pub screen: Screen,
    pub welcome_index: usize,
    pub selected_target: usize,
    pub selected_device: usize,
    pub trace_scroll: usize,
    pub targets: Seq<TargetView>,
    pub devices: Seq<DeviceView>,
    pub trace_hops: Seq<TraceHopView>,
    pub gateway: Seq<char>,
    pub interface: Seq<char>,
    pub input: Seq<char>,
    pub input_mode: bool,
    pub scanning: bool,
    pub scan_message: Seq<char>,
    pub last_ping_cycle: Option<u64>,
    pub should_quit: bool,
}

/// The views of a sequence of ping targets.
pub open spec fn target_views(ts: Seq<PingTarget>) -> Seq<TargetView> {
    ts.map_values(|t: PingTarget| t@)
}

impl View for App {
    type V = AppView;

    open spec fn view(&self) -> AppView {
        AppView {
            screen: self.screen,
            welcome_index: self.welcome_index,
            selected_target: self.selected_target,
            selected_device: self.selected_device,
            trace_scroll: self.trace_scroll,
            targets: target_views(self.targets@),
            devices: device_views(self.devices@),
            trace_hops: hop_views(self.trace_hops@),
            gateway: self.gateway@,
            interface: self.interface@,
            input: self.input@,
            input_mode: self.input_mode,
            scanning: self.scanning,
            scan_message: self.scan_message@,
            last_ping_cycle: self.last_ping_cycle,
            should_quit: self.should_quit,
        }
    }
}

// ---------------------------------------------------------------------------
// Specification of the transitions
// ---------------------------------------------------------------------------

/// `n - 1`, or 0 for 0 (`usize::saturating_sub(1)`).
pub open spec fn last_index(n: nat) -> nat {
    if n == 0 {
        0
    } else {
        (n - 1) as nat
    }
}

/// The smaller of two numbers.
pub open spec fn min_nat(a: nat, b: nat) -> nat {
    if a <= b {
        a
    } else {
        b
    }
}

/// The latency history after one more sample: the sample appended, and the
/// oldest samples dropped beyond `MAX_HISTORY`.
pub open spec fn push_bounded(h: Seq<Seq<char>>, v: Seq<char>) -> Seq<Seq<char>> {
    let h2 = h.push(v);
    if h2.len() > MAX_HISTORY {
        h2.skip(h2.len() - MAX_HISTORY)
    } else {
        h2
    }
}

/// A target after one more ping: one more sent; online, with the latency
/// and one more received when it answered; checked at `now`.
pub open spec fn record_reply(t: TargetView, latency: Option<Seq<char>>, now: u64) -> TargetView {
    TargetView {
        online: latency is Some,
        latency,
        sent: (t.sent + 1) as u64,
        received: if latency is Some {
            (t.received + 1) as u64
        } else {
            t.received
        },
        history: match latency {
            Some(v) => push_bounded(t.history, v),
            None => t.history,
        },
        last_checked: Some(now),
        ..t
    }
}

/// The index of the first target with `host`, if any.
pub open spec fn first_target_index(ts: Seq<TargetView>, host: Seq<char>) -> Option<int> {
    if exists|i: int| 0 <= i < ts.len() && ts[i].host == host {
        Some(
            choose|i: int|
                0 <= i < ts.len() && ts[i].host == host && forall|j: int|
                    0 <= j < i ==> ts[j].host != host,
        )
    } else {
        None
    }
}

/// The state after one worker message: a ping result updates the first
/// target with its host (and is dropped when there is none); a scan result
/// replaces the devices, hops and summary, keeps the selections within the
/// new lists and ends the scan.
pub open spec fn apply_message(v: AppView, m: MessageView, now: u64) -> AppView {
    match m {
        MessageView::PingResult { host, latency } => match first_target_index(v.targets, host) {
            Some(i) => AppView {
                targets: v.targets.update(i, record_reply(v.targets[i], latency, now)),
                ..v
            },
            None => v,
        },
        MessageView::ScanResult { devices, trace_hops, message } => AppView {
            devices,
            trace_hops,
            scan_message: message,
            selected_device: min_nat(v.selected_device as nat, last_index(devices.len())) as usize,
            trace_scroll: min_nat(v.trace_scroll as nat, last_index(trace_hops.len())) as usize,
            scanning: false,
            ..v
        },
    }
}

/// Whether a message can be applied without a counter overflowing.
pub open spec fn message_fits(v: AppView, m: MessageView) -> bool {
    match m {
        MessageView::PingResult { host, latency } => match first_target_index(v.targets, host) {
            Some(i) => v.targets[i].sent < u64::MAX && (latency is Some ==> v.targets[i].received
                < u64::MAX),
            None => true,
        },
        MessageView::ScanResult { .. } => true,
    }
}

/// The state after the messages `ms`, in order.
pub open spec fn apply_messages(v: AppView, ms: Seq<MessageView>, now: u64) -> AppView
    decreases ms.len(),
{
    if ms.len() == 0 {
        v
    } else {
        apply_message(apply_messages(v, ms.drop_last(), now), ms.last(), now)
    }
}

/// Whether the messages `ms` can be applied in order without a counter
/// overflowing.
pub open spec fn messages_fit(v: AppView, ms: Seq<MessageView>, now: u64) -> bool
    decreases ms.len(),
{
    if ms.len() == 0 {
        true
    } else {
        messages_fit(v, ms.drop_last(), now) && message_fits(
            apply_messages(v, ms.drop_last(), now),
            ms.last(),
        )
    }
}

/// The views of a sequence of messages.
pub open spec fn message_views(ms: Seq<WorkerMessage>) -> Seq<MessageView> {
    ms.map_values(|m: WorkerMessage| m@)
}

/// Whether a round of pings is due at `now`: none has run yet, or the last
/// one started at least `PING_INTERVAL_MS` ago.
pub open spec fn ping_due(last: Option<u64>, now: u64) -> bool {
    match last {
        None => true,
        Some(t) => t + PING_INTERVAL_MS <= now,
    }
}

/// The message shown while a scan runs.
pub open spec fn scanning_message() -> Seq<char> {
    "Escaneando LAN /24 y traceando 1.1.1.1..."@
}

/// The message shown before the first scan.
pub open spec fn initial_scan_message() -> Seq<char> {
    "Sin escaneo. Abre Topologia o pulsa s."@
}

/// The state after a request to scan: a scan starts unless one runs.
pub open spec fn start_scan(v: AppView) -> (AppView, bool) {
    if v.scanning {
        (v, false)
    } else {
        (AppView { scanning: true, scan_message: scanning_message(), ..v }, true)
    }
}

/// Whether the topology screen has nothing to show and no scan runs.
pub open spec fn needs_scan(v: AppView) -> bool {
    v.devices.len() == 0 && v.trace_hops.len() == 0 && !v.scanning
}

/// The state after opening the topology screen: a first scan starts when
/// there is nothing to show.
pub open spec fn open_topology_view(v: AppView) -> (AppView, bool) {
    let v1 = AppView { screen: Screen::Topology, ..v };
    if needs_scan(v1) {
        start_scan(v1)
    } else {
        (v1, false)
    }
}

/// The effect that a scan request has.
pub open spec fn effect_of(started: bool) -> Effect {
    if started {
        Effect::StartScan
    } else {
        Effect::Nothing
    }
}

// ---------------------------------------------------------------------------
// Implementation
// ---------------------------------------------------------------------------

/// Removes the oldest samples beyond `MAX_HISTORY`.
fn trim_history(h: &mut VecDeque<Latency>)
    ensures
        latency_views(final(h)@) == (if old(h)@.len() > MAX_HISTORY {
            latency_views(old(h)@).skip(old(h)@.len() - MAX_HISTORY)
        } else {
            latency_views(old(h)@)
        }),
{
    let ghost start = latency_views(h@);
    let n: usize = h.len();
    let mut dropped: usize = 0;
    assert(start.skip(0) =~= start);
    while h.len() > MAX_HISTORY
        invariant
            start.len() == n,
            h@.len() + dropped == n,
            dropped > 0 ==> h@.len() >= MAX_HISTORY,
            latency_views(h@) == start.skip(dropped as int),
        decreases h@.len(),
    {
        let ghost before = latency_views(h@);
        let _ = h.pop_front();
        assert(latency_views(h@) =~= before.drop_first());
        assert(start.skip(dropped + 1) =~= start.skip(dropped as int).drop_first());
        dropped = dropped + 1;
    }
}

/// Records one ping of a target.
fn record_ping(t: &mut PingTarget, latency: Option<Latency>, now: u64)
    requires
        old(t).sent < u64::MAX,
        latency is Some ==> old(t).received < u64::MAX,
    ensures
        final(t)@ == record_reply(old(t)@, latency_view(latency), now),
{
    t.sent = t.sent + 1;
    t.online = latency.is_some();
    t.last_checked = Some(now);
    match latency {
        Some(value) => {
            let ghost v = value@;
            t.latency_ms = Some(value.clone());
            t.received = t.received + 1;
            let ghost h0 = latency_views(t.history@);
            t.history.push_back(value);
            assert(latency_views(t.history@) =~= h0.push(v));
            trim_history(&mut t.history);
        },
        None => {
            t.latency_ms = None;
        },
    }
}

impl App {
    /// The monitor as it starts: the welcome screen, the gateway and two
    /// public resolvers as ping targets, no scan yet, and a round of pings
    /// due at once.
    pub fn new(gateway: String, interface: String) -> (app: App)
        ensures
            app@.screen == Screen::Welcome,
            app@.welcome_index == 0,
            app@.selected_target == 0,
            app@.selected_device == 0,
            app@.trace_scroll == 0,
            app@.targets == seq![
                fresh_target(gateway@),
                fresh_target("1.1.1.1"@),
                fresh_target("8.8.8.8"@),
            ],
            app@.devices.len() == 0,
            app@.trace_hops.len() == 0,
            app@.gateway == gateway@,
            app@.interface == interface@,
            app@.input.len() == 0,
            !app@.input_mode,
            !app@.scanning,
            app@.scan_message == initial_scan_message(),
            app@.last_ping_cycle is None,
            !app@.should_quit,
            crate::laws::well_formed(app@),
    {
        let mut targets: Vec<PingTarget> = Vec::new();
        targets.push(PingTarget::new(gateway.as_str()));
        targets.push(PingTarget::new("1.1.1.1"));
        targets.push(PingTarget::new("8.8.8.8"));
        let app = App {
            screen: Screen::Welcome,
            welcome_index: 0,
            selected_target: 0,
            selected_device: 0,
            trace_scroll: 0,
            targets,
            devices: Vec::new(),
            trace_hops: Vec::new(),
            gateway,
            interface,
            input: String::new(),
            input_mode: false,
            scanning: false,
            scan_message: "Sin escaneo. Abre Topologia o pulsa s.".to_owned(),
            last_ping_cycle: None,
            should_quit: false,
        };
        assert(app@.targets =~= seq![
            fresh_target(app.gateway@),
            fresh_target("1.1.1.1"@),
            fresh_target("8.8.8.8"@),
        ]);
        assert(app@.devices =~= Seq::<DeviceView>::empty());
        assert(app@.trace_hops =~= Seq::<TraceHopView>::empty());
        app
    }

    /// The index of the first target with `host`.
    fn find_target(&self, host: &String) -> (r: Option<usize>)
        ensures
            match r {
                Some(i) => i < self.targets@.len() && first_target_index(self@.targets, host@)
                    == Some(i as int),
                None => first_target_index(self@.targets, host@) is None,
            },
    {
        let ghost ts = self@.targets;
        let h = crate::text::chars_of(host.as_str());
        let mut i: usize = 0;
        while i < self.targets.len()
            invariant
                0 <= i <= self.targets@.len(),
                ts == target_views(self.targets@),
                h@ == host@,
                forall|j: int| 0 <= j < i ==> ts[j].host != host@,
            decreases self.targets@.len() - i,
        {
            let th = crate::text::chars_of(self.targets[i].host.as_str());
            if chars_eq(th.as_slice(), h.as_slice()) {
                assert(ts[i as int].host == host@);
                return Some(i);
            }
            i = i + 1;
        }
        None
    }

    /// Records a ping of `host`.
    fn record_ping_result(&mut self, host: String, latency: Option<Latency>, now: u64)
        requires
            message_fits(
                old(self)@,
                MessageView::PingResult { host: host@, latency: latency_view(latency) },
            ),
        ensures
            final(self)@ == apply_message(
                old(self)@,
                MessageView::PingResult { host: host@, latency: latency_view(latency) },
                now,
            ),
    {
        let ghost v = self@;
        let ghost lv = latency_view(latency);
        match self.find_target(&host) {
            Some(i) => {
                let mut t = self.targets.remove(i);
                assert(t@ == v.targets[i as int]);
                record_ping(&mut t, latency, now);
                self.targets.insert(i, t);
                assert(self@.targets =~= v.targets.update(
                    i as int,
                    record_reply(v.targets[i as int], lv, now),
                ));
            },
            None => {},
        }
    }

    /// Takes the result of a scan.
    fn take_scan_result(&mut self, scan: NetworkScan)
        ensures
            final(self)@ == apply_message(
                old(self)@,
                MessageView::ScanResult {
                    devices: device_views(scan.devices@),
                    trace_hops: hop_views(scan.trace_hops@),
                    message: scan.message@,
                },
                0,
            ),
    {
        self.devices = scan.devices;
        self.trace_hops = scan.trace_hops;
        self.scan_message = scan.message;
        let last_device = if self.devices.len() == 0 {
            0
        } else {
            self.devices.len() - 1
        };
        if self.selected_device > last_device {
            self.selected_device = last_device;
        }
        let last_hop = if self.trace_hops.len() == 0 {
            0
        } else {
            self.trace_hops.len() - 1
        };
        if self.trace_scroll > last_hop {
            self.trace_scroll = last_hop;
        }
        self.scanning = false;
    }

    /// Applies one worker message, stamped with the time `now`.
    pub fn process_worker_message(&mut self, message: WorkerMessage, now: u64)
        requires
            message_fits(old(self)@, message@),
        ensures
            final(self)@ == apply_message(old(self)@, message@, now),
    {
        match message {
            WorkerMessage::PingResult { host, latency } => {
                self.record_ping_result(host, latency, now);
            },
            WorkerMessage::ScanResult(scan) => {
                self.take_scan_result(scan);
            },
        }
    }

    /// Applies the worker messages in order, all stamped with `now`.
    pub fn process_worker_messages(&mut self, messages: Vec<WorkerMessage>, now: u64)
        requires
            messages_fit(old(self)@, message_views(messages@), now),
        ensures
            final(self)@ == apply_messages(old(self)@, message_views(messages@), now),
    {
        let ghost v0 = self@;
        let ghost ms = message_views(messages@);
        let total: usize = messages.len();
        let mut messages = messages;
        let mut done: usize = 0;
        assert(ms.take(0) =~= Seq::<MessageView>::empty());
        assert(ms.skip(0) =~= ms);
        while messages.len() > 0
            invariant
                ms.len() == total,
                done <= ms.len(),
                message_views(messages@) == ms.skip(done as int),
                self@ == apply_messages(v0, ms.take(done as int), now),
                messages_fit(v0, ms, now),
            decreases messages@.len(),
        {
            let ghost before = message_views(messages@);
            let m = messages.remove(0);
            proof {
                assert(before.len() > 0);
                assert(done < ms.len());
                assert(ms.skip(done as int)[0] == m@);
                assert(message_views(messages@) =~= before.drop_first());
                assert(message_views(messages@) =~= ms.skip(done + 1));
                lemma_messages_fit_prefix(v0, ms, done + 1, now);
                assert(ms.take(done + 1).drop_last() =~= ms.take(done as int));
                assert(ms.take(done + 1).last() == m@);
            }
            self.process_worker_message(m, now);
            done = done + 1;
        }
        assert(ms.take(done as int) =~= ms);
    }
}

impl App {
    /// The hosts of the targets, in order.
    pub fn target_hosts(&self) -> (hosts: Vec<String>)
        ensures
            string_views(hosts@) == self@.targets.map_values(|t: TargetView| t.host),
    {
        let mut hosts: Vec<String> = Vec::new();
        let mut i: usize = 0;
        while i < self.targets.len()
            invariant
                0 <= i <= self.targets@.len(),
                string_views(hosts@) == self@.targets.take(i as int).map_values(
                    |t: TargetView| t.host,
                ),
            decreases self.targets@.len() - i,
        {
            let h = self.targets[i].host.clone();
            let ghost before = string_views(hosts@);
            hosts.push(h);
            assert(string_views(hosts@) =~= before.push(self@.targets[i as int].host));
            assert(self@.targets.take(i + 1) =~= self@.targets.take(i as int).push(
                self@.targets[i as int],
            ));
            assert(string_views(hosts@) =~= self@.targets.take(i + 1).map_values(
                |t: TargetView| t.host,
            ));
            i = i + 1;
        }
        assert(self@.targets.take(self.targets@.len() as int) =~= self@.targets);
        hosts
    }

    /// One step of the main loop at time `now`: applies the worker messages,
    /// then, when a round of pings is due, starts it and returns the hosts to
    /// ping.
    pub fn tick(&mut self, messages: Vec<WorkerMessage>, now: u64) -> (hosts: Option<Vec<String>>)
        requires
            messages_fit(old(self)@, message_views(messages@), now),
        ensures
            ({
                let v = apply_messages(old(self)@, message_views(messages@), now);
                if ping_due(v.last_ping_cycle, now) {
                    &&& final(self)@ == AppView { last_ping_cycle: Some(now), ..v }
                    &&& hosts matches Some(h) && string_views(h@) == v.targets.map_values(
                        |t: TargetView| t.host,
                    )
                } else {
                    &&& final(self)@ == v
                    &&& hosts is None
                }
            }),
    {
        self.process_worker_messages(messages, now);
        let due = match self.last_ping_cycle {
            None => true,
            Some(t) => t <= now && now - t >= PING_INTERVAL_MS,
        };
        if due {
            let hosts = self.target_hosts();
            self.last_ping_cycle = Some(now);
            Some(hosts)
        } else {
            None
        }
    }

    /// Marks a scan as running, unless one already runs; says whether it
    /// started one.
    pub fn start_scan_state(&mut self) -> (started: bool)
        ensures
            (final(self)@, started) == start_scan(old(self)@),
    {
        if self.scanning {
            return false;
        }
        self.scanning = true;
        self.scan_message = "Escaneando LAN /24 y traceando 1.1.1.1...".to_owned();
        true
    }

    /// Requests a scan of the local network: the caller starts one in the
    /// background when the effect says so.
    pub fn scan(&mut self) -> (e: Effect)
        ensures
            (final(self)@, e == Effect::StartScan) == start_scan(old(self)@),
    {
        if self.start_scan_state() {
            Effect::StartScan
        } else {
            Effect::Nothing
        }
    }

    /// Whether the topology screen has nothing to show and no scan runs.
    pub fn needs_initial_scan(&self) -> (b: bool)
        ensures
            b == needs_scan(self@),
    {
        self.devices.len() == 0 && self.trace_hops.len() == 0 && !self.scanning
    }

    /// Opens the topology screen, with a first scan when there is nothing to
    /// show.
    pub fn open_topology(&mut self) -> (e: Effect)
        ensures
            (final(self)@, e == Effect::StartScan) == open_topology_view(old(self)@),
    {
        self.screen = Screen::Topology;
        if self.needs_initial_scan() {
            self.scan()
        } else {
            Effect::Nothing
        }
    }

    /// Selects the previous device.
    pub fn previous_device(&mut self)
        ensures
            final(self)@ == (AppView {
                selected_device: last_index(old(self)@.selected_device as nat) as usize,
                ..old(self)@
            }),
    {
        if self.selected_device > 0 {
            self.selected_device = self.selected_device - 1;
        }
    }

    /// Selects the next device, staying on the last one.
    pub fn next_device(&mut self)
        requires
            old(self).selected_device < usize::MAX,
        ensures
            final(self)@ == (AppView {
                selected_device: min_nat(
                    (old(self)@.selected_device + 1) as nat,
                    last_index(old(self)@.devices.len()),
                ) as usize,
                ..old(self)@
            }),
    {
        let last = if self.devices.len() == 0 {
            0
        } else {
            self.devices.len() - 1
        };
        let next = self.selected_device + 1;
        self.selected_device = if next <= last {
            next
        } else {
            last
        };
    }

    /// Scrolls the trace `amount` hops up, stopping at the first.
    pub fn scroll_trace_up(&mut self, amount: usize)
        ensures
            final(self)@ == (AppView {
                trace_scroll: if old(self)@.trace_scroll >= amount {
                    (old(self)@.trace_scroll - amount) as usize
                } else {
                    0
                },
                ..old(self)@
            }),
    {
        self.trace_scroll = if self.trace_scroll >= amount {
            self.trace_scroll - amount
        } else {
            0
        };
    }

    /// Scrolls the trace `amount` hops down, stopping at the last.
    pub fn scroll_trace_down(&mut self, amount: usize)
        requires
            old(self).trace_scroll + amount <= usize::MAX,
        ensures
            final(self)@ == (AppView {
                trace_scroll: min_nat(
                    (old(self)@.trace_scroll + amount) as nat,
                    last_index(old(self)@.trace_hops.len()),
                ) as usize,
                ..old(self)@
            }),
    {
        let last = if self.trace_hops.len() == 0 {
            0
        } else {
            self.trace_hops.len() - 1
        };
        let next = self.trace_scroll + amount;
        self.trace_scroll = if next <= last {
            next
        } else {
            last
        };
    }
}

/// A prefix of messages that fit also fits, and so does its next message.
proof fn lemma_messages_fit_prefix(v: AppView, ms: Seq<MessageView>, k: int, now: u64)
    requires
        messages_fit(v, ms, now),
        1 <= k <= ms.len(),
    ensures
        message_fits(apply_messages(v, ms.take(k - 1), now), ms[k - 1]),
    decreases ms.len() - k,
{
    if k == ms.len() {
        assert(ms.drop_last() =~= ms.take(k - 1));
    } else {
        lemma_messages_fit_prefix(v, ms.drop_last(), k, now);
        assert(ms.drop_last().take(k - 1) =~= ms.take(k - 1));
    }
}

} // verus!
