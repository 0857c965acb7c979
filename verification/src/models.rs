//! The data the monitor works on: ping targets, discovered devices, trace
//! hops and the latencies that the network tools report.

use std::collections::VecDeque;
use vstd::prelude::*;
use crate::literals::{is_float_literal, is_float_text};
use crate::text::chars_of;

verus! {

/// Largest number of latency samples kept per ping target.
pub const MAX_HISTORY: usize = 50;

/// The host that the network scan traces the route to.
pub const TRACE_TARGET: &'static str = "1.1.1.1";

/// What `mac` holds when the address of a device is not known.
pub const UNKNOWN_MAC: &'static str = "desconocida";

/// The screens of the monitor.
#[derive(Clone, Copy, Debug, PartialEq, Eq, Structural)]
pub enum Screen {
    Welcome,
    Monitor,
    MultiPing,
    Topology,
}

// ---------------------------------------------------------------------------
// Latency
// ---------------------------------------------------------------------------

/// A latency in milliseconds, held as the decimal text that the network tool
/// printed. The text is always a float literal, so it reads as an `f64`.
/// It has no `==`: texts such as `8.75` and `8.750` denote one value, which
/// only reading them as floating-point numbers decides; so neither do the
/// types that hold a latency.
#[derive(Debug)]
pub struct Latency {
    text: String,
}

impl Clone for Latency {
    fn clone(&self) -> (l: Self)
        ensures
            l@ == self@,
    {
        proof {
            use_type_invariant(self);
        }
        Latency { text: self.text.clone() }
    }
}

impl View for Latency {
    type V = Seq<char>;

    closed spec fn view(&self) -> Seq<char> {
        self.text@
    }
}

impl Latency {
    #[verifier::type_invariant]
    closed spec fn holds_float_literal(self) -> bool {
        is_float_literal(self.text@)
    }

    /// The latency that `text` denotes, if `text` is a float literal.
    pub fn parse(text: &str) -> (r: Option<Latency>)
        ensures
            r is Some <==> is_float_literal(text@),
            r matches Some(l) ==> l@ == text@,
    {
        let cs = chars_of(text);
        Self::from_chars(cs.as_slice())
    }

    /// The latency that the characters `cs` denote, if they are a float
    /// literal.
    pub fn from_chars(cs: &[char]) -> (r: Option<Latency>)
        ensures
            r is Some <==> is_float_literal(cs@),
            r matches Some(l) ==> l@ == cs@,
    {
        if is_float_text(cs) {
            let text = crate::text::string_of(cs, 0, cs.len());
            assert(cs@.subrange(0, cs@.len() as int) =~= cs@);
            Some(Latency { text })
        } else {
            None
        }
    }

    /// Half a millisecond: what a reply faster than the tool can time counts
    /// as.
    pub fn sub_millisecond() -> (l: Latency)
        ensures
            l@ == seq!['0', '.', '5'],
    {
        let cs = ['0', '.', '5'];
        assert(cs@ =~= seq!['0', '.', '5']);
        let text = crate::text::string_of(&cs, 0, 3);
        proof {
            assert(cs@.subrange(0, 3) =~= seq!['0', '.', '5']);
            assert(crate::literals::digit_run(seq!['0', '.', '5']) == 1) by {
                reveal_with_fuel(crate::literals::digit_run, 2);
            }
            let r = seq!['0', '.', '5'].skip(1);
            assert(r =~= seq!['.', '5']);
            assert(r.drop_first() =~= seq!['5']);
            assert(crate::literals::digit_run(seq!['5']) == 1) by {
                reveal_with_fuel(crate::literals::digit_run, 2);
            }
            assert(r.skip(2) =~= Seq::<char>::empty());
        }
        Latency { text }
    }

    /// The latency as text: always a float literal.
    pub fn text(&self) -> (s: &str)
        ensures
            s@ == self@,
            is_float_literal(s@),
    {
        proof {
            use_type_invariant(self);
        }
        self.text.as_str()
    }
}

/// The views of optional latencies.
pub open spec fn latency_view(l: Option<Latency>) -> Option<Seq<char>> {
    match l {
        Some(l) => Some(l@),
        None => None,
    }
}

// ---------------------------------------------------------------------------
// Ping targets
// ---------------------------------------------------------------------------

/// The packets lost by a ping target out of those sent. The loss is
/// `100 * lost / sent` percent, and 0 when nothing was sent.
#[derive(Clone, Copy, Debug, PartialEq, Eq, Structural)]
pub struct PacketLoss {
    pub lost: u64,
    pub sent: u64,
}

/// A host that the monitor pings repeatedly.
#[derive(Clone, Debug)]
pub struct PingTarget {
    pub host: String,
    pub online: bool,
    pub latency_ms: Option<Latency>,
    pub history: VecDeque<Latency>,
    pub sent: u64,
    pub received: u64,
    /// When the last reply or timeout came, in milliseconds on the caller's
    /// clock.
    pub last_checked: Option<u64>,
}

/// What a ping target is, as plain values.
pub struct TargetView {
    pub host: Seq<char>,
    pub online: bool,
    pub latency: Option<Seq<char>>,
    pub history: Seq<Seq<char>>,
    pub sent: u64,
    pub received: u64,
    pub last_checked: Option<u64>,
}

/// The views of a sequence of latencies.
pub open spec fn latency_views(ls: Seq<Latency>) -> Seq<Seq<char>> {
    ls.map_values(|l: Latency| l@)
}

impl View for PingTarget {
    type V = TargetView;

    open spec fn view(&self) -> TargetView {
        TargetView {
            host: self.host@,
            online: self.online,
            latency: latency_view(self.latency_ms),
            history: latency_views(self.history@),
            sent: self.sent,
            received: self.received,
            last_checked: self.last_checked,
        }
    }
}

/// A target that has not been pinged yet, as plain values.
pub open spec fn fresh_target(host: Seq<char>) -> TargetView {
    TargetView {
        host,
        online: false,
        latency: None,
        history: seq![],
        sent: 0,
        received: 0,
        last_checked: None,
    }
}

impl PingTarget {
    /// A target that has not been pinged yet.
    pub fn new(host: &str) -> (t: PingTarget)
        ensures
            t@ == fresh_target(host@),
    {
        let t = PingTarget {
            host: host.to_owned(),
            online: false,
            latency_ms: None,
            history: VecDeque::new(),
            sent: 0,
            received: 0,
            last_checked: None,
        };
        assert(t@.history =~= Seq::<Seq<char>>::empty());
        t
    }

    /// The packets lost so far: `sent - received` out of `sent`.
    pub fn loss(&self) -> (l: PacketLoss)
        requires
            self.received <= self.sent,
        ensures
            l.sent == self.sent,
            l.lost == self.sent - self.received,
            l.lost <= l.sent,
    {
        PacketLoss { lost: self.sent - self.received, sent: self.sent }
    }
}

// ---------------------------------------------------------------------------
// Devices
// ---------------------------------------------------------------------------

/// How a device was found.
#[derive(Clone, Copy, Debug, PartialEq, Eq, Structural)]
pub enum DiscoverySource {
    Arp,
    Ping,
    PingAndArp,
}

/// The label of a discovery source.
pub open spec fn source_label_of(s: DiscoverySource) -> Seq<char> {
    match s {
        DiscoverySource::Arp => "arp"@,
        DiscoverySource::Ping => "ping"@,
        DiscoverySource::PingAndArp => "ping+arp"@,
    }
}

impl DiscoverySource {
    /// The label shown for the source.
    pub fn label(self) -> (s: &'static str)
        ensures
            s@ == source_label_of(self),
    {
        match self {
            DiscoverySource::Arp => "arp",
            DiscoverySource::Ping => "ping",
            DiscoverySource::PingAndArp => "ping+arp",
        }
    }
}

/// A device of the local network.
#[derive(Debug)]
pub struct Device {
    pub ip: String,
    pub mac: String,
    pub reachable: bool,
    pub latency_ms: Option<Latency>,
    pub source: DiscoverySource,
}

impl Clone for Device {
    fn clone(&self) -> (d: Self)
        ensures
            d@ == self@,
    {
        let latency_ms = match &self.latency_ms {
            Some(l) => Some(l.clone()),
            None => None,
        };
        Device {
            ip: self.ip.clone(),
            mac: self.mac.clone(),
            reachable: self.reachable,
            latency_ms,
            source: self.source,
        }
    }
}

/// What a device is, as plain values.
pub struct DeviceView {
    pub ip: Seq<char>,
    pub mac: Seq<char>,
    pub reachable: bool,
    pub latency: Option<Seq<char>>,
    pub source: DiscoverySource,
}

impl View for Device {
    type V = DeviceView;

    open spec fn view(&self) -> DeviceView {
        DeviceView {
            ip: self.ip@,
            mac: self.mac@,
            reachable: self.reachable,
            latency: latency_view(self.latency_ms),
            source: self.source,
        }
    }
}

/// A device seen in the ARP table only.
pub open spec fn arp_device(ip: Seq<char>, mac: Seq<char>) -> DeviceView {
    DeviceView { ip, mac, reachable: false, latency: None, source: DiscoverySource::Arp }
}

/// A device that answered a ping and is not in the ARP table.
pub open spec fn ping_device(ip: Seq<char>, latency: Seq<char>) -> DeviceView {
    DeviceView {
        ip,
        mac: UNKNOWN_MAC@,
        reachable: true,
        latency: Some(latency),
        source: DiscoverySource::Ping,
    }
}

/// `d` once it answered a ping with `latency`: reachable, with that latency,
/// and found by ping as well when it was found by ARP.
pub open spec fn marked_reachable(d: DeviceView, latency: Seq<char>) -> DeviceView {
    DeviceView {
        reachable: true,
        latency: Some(latency),
        source: match d.source {
            DiscoverySource::Arp => DiscoverySource::PingAndArp,
            DiscoverySource::Ping => DiscoverySource::Ping,
            DiscoverySource::PingAndArp => DiscoverySource::PingAndArp,
        },
        ..d
    }
}

/// The status label of a device: whether it answered a ping.
pub open spec fn device_status_label(d: DeviceView) -> Seq<char> {
    if d.reachable {
        "PING"@
    } else {
        "ARP"@
    }
}

impl Device {
    /// A device read from the ARP table.
    pub fn arp(ip: &str, mac: &str) -> (d: Device)
        ensures
            d@ == arp_device(ip@, mac@),
    {
        Self::arp_owned(ip.to_owned(), mac.to_owned())
    }

    /// A device read from the ARP table, from owned strings.
    pub fn arp_owned(ip: String, mac: String) -> (d: Device)
        ensures
            d@ == arp_device(ip@, mac@),
    {
        Device { ip, mac, reachable: false, latency_ms: None, source: DiscoverySource::Arp }
    }

    /// A device that answered a ping.
    pub fn ping(ip: &str, latency_ms: Latency) -> (d: Device)
        ensures
            d@ == ping_device(ip@, latency_ms@),
    {
        Self::ping_owned(ip.to_owned(), latency_ms)
    }

    /// A device that answered a ping, from an owned address.
    pub fn ping_owned(ip: String, latency_ms: Latency) -> (d: Device)
        ensures
            d@ == ping_device(ip@, latency_ms@),
    {
        Device {
            ip,
            mac: UNKNOWN_MAC.to_owned(),
            reachable: true,
            latency_ms: Some(latency_ms),
            source: DiscoverySource::Ping,
        }
    }

    /// Records that the device answered a ping.
    pub fn mark_reachable(&mut self, latency_ms: Latency)
        ensures
            final(self)@ == marked_reachable(old(self)@, latency_ms@),
    {
        self.reachable = true;
        self.latency_ms = Some(latency_ms);
        self.source = match self.source {
            DiscoverySource::Arp => DiscoverySource::PingAndArp,
            DiscoverySource::Ping => DiscoverySource::Ping,
            DiscoverySource::PingAndArp => DiscoverySource::PingAndArp,
        };
    }

    /// `PING` for a device that answered a ping, `ARP` otherwise.
    pub fn status_label(&self) -> (s: &'static str)
        ensures
            s@ == device_status_label(self@),
    {
        if self.reachable {
            "PING"
        } else {
            "ARP"
        }
    }

    /// The label of the way the device was found.
    pub fn source_label(&self) -> (s: &'static str)
        ensures
            s@ == source_label_of(self.source),
    {
        self.source.label()
    }
}

/// A reply to one ping of the sweep of the local network.
#[derive(Clone, Debug)]
pub struct PingScanResult {
    pub ip: String,
    pub latency_ms: Latency,
}

/// The `/24` network of a gateway: the text that precedes the last octet of
/// its addresses, and its broadcast address.
#[derive(Clone, Debug, PartialEq)]
pub struct LocalNetwork {
    pub prefix: String,
    pub broadcast: String,
}

// ---------------------------------------------------------------------------
// Trace hops
// ---------------------------------------------------------------------------

/// One hop of the route to the trace target.
#[derive(Clone, Debug)]
pub struct TraceHop {
    pub hop: u8,
    pub address: String,
    pub latency_ms: Option<Latency>,
}

/// What a trace hop is, as plain values.
pub struct TraceHopView {
    pub hop: u8,
    pub address: Seq<char>,
    pub latency: Option<Seq<char>>,
}

impl View for TraceHop {
    type V = TraceHopView;

    open spec fn view(&self) -> TraceHopView {
        TraceHopView { hop: self.hop, address: self.address@, latency: latency_view(self.latency_ms) }
    }
}

/// The status label of a hop: whether it answered.
pub open spec fn hop_status_label(h: TraceHopView) -> Seq<char> {
    if h.latency is Some {
        "OK"@
    } else {
        "SIN RESP."@
    }
}

impl TraceHop {
    /// A hop.
    pub fn new(hop: u8, address: &str, latency_ms: Option<Latency>) -> (h: TraceHop)
        ensures
            h@ == (TraceHopView { hop, address: address@, latency: latency_view(latency_ms) }),
    {
        TraceHop { hop, address: address.to_owned(), latency_ms }
    }

    /// `OK` for a hop that answered, `SIN RESP.` otherwise.
    pub fn status_label(&self) -> (s: &'static str)
        ensures
            s@ == hop_status_label(self@),
    {
        if self.latency_ms.is_some() {
            "OK"
        } else {
            "SIN RESP."
        }
    }
}

/// The result of a scan of the local network.
#[derive(Clone, Debug)]
pub struct NetworkScan {
    pub devices: Vec<Device>,
    pub trace_hops: Vec<TraceHop>,
    pub message: String,
}

} // verus!
