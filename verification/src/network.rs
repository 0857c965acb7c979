//! What the monitor reads from the network tools (`ping`, `arp`,
//! `traceroute`, the routing table) and how it combines their results.
//! Running the tools is left to the caller; these functions take their
//! output as text.

use std::collections::BTreeMap;
use vstd::prelude::*;
use vstd::std_specs::btree::increasing_seq;
use crate::literals::{
    address_value, digits_value, ipv4_address, ipv4_octets, is_float_literal, octets_value,
    parse_ipv4_chars, parse_u8, parse_u8_chars,
};
use crate::models::{
    arp_device, latency_view, marked_reachable, ping_device, Device, DeviceView, Latency,
    LocalNetwork, NetworkScan, PingScanResult, TraceHop, TraceHopView, TRACE_TARGET, UNKNOWN_MAC,
};
use crate::text::{
    chars_eq, chars_of, contains_char, count_char, count_of, decimal, has_prefix, has_suffix,
    lines, lines_of, next_line, push_decimal, push_str, range_ends_with, range_starts_with,
    split_at_char, split_on, string_of, trim, trim_end_matches, trim_end_matches_end, trim_range,
    views, words, words_of, copy_chars,
};

verus! {

broadcast use vstd::string::group_string_axioms;

// ---------------------------------------------------------------------------
// ping
// ---------------------------------------------------------------------------

/// The latency that the first timing word of `ws` reports: the number after
/// `time=` (less a trailing `ms`) when it is a float literal, and half a
/// millisecond for `time<1` or `time<1ms`.
pub open spec fn ping_latency_in(ws: Seq<Seq<char>>) -> Option<Seq<char>>
    decreases ws.len(),
{
    if ws.len() == 0 {
        None
    } else if has_prefix(ws[0], "time="@) {
        let raw = trim_end_matches(ws[0].skip("time="@.len() as int), "ms"@);
        if is_float_literal(raw) {
            Some(raw)
        } else {
            None
        }
    } else if ws[0] == "time<1"@ || ws[0] == "time<1ms"@ {
        Some(seq!['0', '.', '5'])
    } else {
        ping_latency_in(ws.drop_first())
    }
}

/// The latency that a line of `ping` output reports, if any.
pub open spec fn ping_latency(text: Seq<char>) -> Option<Seq<char>> {
    ping_latency_in(words(text))
}

/// Reads the latency from the output of `ping`.
pub fn parse_ping_latency(text: &str) -> (r: Option<Latency>)
    ensures
        latency_view(r) == ping_latency(text@),
{
    let cs = chars_of(text);
    let ws = words_of(cs.as_slice());
    let time_eq = chars_of("time=");
    let time_lt = chars_of("time<1");
    let time_lt_ms = chars_of("time<1ms");
    let ms = chars_of("ms");
    proof {
        reveal_strlit("ms");
    }
    let ghost all = views(ws@);
    let mut i: usize = 0;
    assert(all.skip(0) =~= all);
    while i < ws.len()
        invariant
            0 <= i <= ws@.len(),
            all == views(ws@),
            all == words(text@),
            time_eq@ == "time="@,
            time_lt@ == "time<1"@,
            time_lt_ms@ == "time<1ms"@,
            ms@ == "ms"@,
            ms@.len() > 0,
            ping_latency_in(all.skip(i as int)) == ping_latency(text@),
        decreases ws@.len() - i,
    {
        let t = ws[i].as_slice();
        let n = t.len();
        assert(all.skip(i as int)[0] == t@);
        assert(all.skip(i as int).drop_first() =~= all.skip(i + 1));
        if range_starts_with(t, 0, n, time_eq.as_slice()) {
            assert(t@.subrange(0, n as int) =~= t@);
            let end = trim_end_matches_end(t, time_eq.len(), n, ms.as_slice());
            assert(t@.subrange(time_eq@.len() as int, n as int) =~= t@.skip(
                time_eq@.len() as int,
            ));
            let raw = copy_chars(t, time_eq.len(), end);
            return Latency::from_chars(raw.as_slice());
        }
        assert(t@.subrange(0, n as int) =~= t@);
        if chars_eq(t, time_lt.as_slice()) || chars_eq(t, time_lt_ms.as_slice()) {
            return Some(Latency::sub_millisecond());
        }
        i = i + 1;
    }
    assert(all.skip(i as int) =~= Seq::<Seq<char>>::empty());
    None
}

/// The latency that a run of `ping` yields: none when it failed, else the
/// latency it printed, or half a millisecond when it printed none.
pub open spec fn ping_outcome(success: bool, stdout: Seq<char>) -> Option<Seq<char>> {
    if !success {
        None
    } else {
        match ping_latency(stdout) {
            Some(l) => Some(l),
            None => Some(seq!['0', '.', '5']),
        }
    }
}

/// The latency of one ping, from whether the command succeeded and what it
/// printed.
pub fn ping_result(success: bool, stdout: &str) -> (r: Option<Latency>)
    ensures
        latency_view(r) == ping_outcome(success, stdout@),
{
    if !success {
        return None;
    }
    match parse_ping_latency(stdout) {
        Some(l) => Some(l),
        None => Some(Latency::sub_millisecond()),
    }
}

// ---------------------------------------------------------------------------
// Scan summary
// ---------------------------------------------------------------------------

/// The summary of a scan: a hint when it found nothing at all, else the
/// number of devices, how many answered a ping, and the number of hops to
/// the trace target.
pub open spec fn scan_summary(device_count: nat, reachable_count: nat, trace_count: nat) -> Seq<
    char,
> {
    if device_count == 0 && trace_count == 0 {
        "Sin resultados. Revisa permisos de red o comandos ping/arp/traceroute."@
    } else {
        decimal(device_count) + " dispositivos, "@ + decimal(reachable_count) + " con ping, "@
            + decimal(trace_count) + " saltos a "@ + TRACE_TARGET@
    }
}

/// The summary shown after a scan.
pub fn scan_message(device_count: usize, reachable_count: usize, trace_count: usize) -> (s: String)
    ensures
        s@ == scan_summary(device_count as nat, reachable_count as nat, trace_count as nat),
{
    if device_count == 0 && trace_count == 0 {
        return "Sin resultados. Revisa permisos de red o comandos ping/arp/traceroute.".to_owned();
    }
    let mut s = String::new();
    push_decimal(&mut s, device_count as u64);
    push_str(&mut s, " dispositivos, ");
    push_decimal(&mut s, reachable_count as u64);
    push_str(&mut s, " con ping, ");
    push_decimal(&mut s, trace_count as u64);
    push_str(&mut s, " saltos a ");
    push_str(&mut s, TRACE_TARGET);
    assert(s@ =~= scan_summary(device_count as nat, reachable_count as nat, trace_count as nat));
    s
}

// ---------------------------------------------------------------------------
// Local network
// ---------------------------------------------------------------------------

/// The text before the last octet of the addresses of the `/24` network of
/// the octets `a.b.c`.
pub open spec fn network_prefix(a: u8, b: u8, c: u8) -> Seq<char> {
    decimal(a as nat) + "."@ + decimal(b as nat) + "."@ + decimal(c as nat) + "."@
}

/// The `/24` network of `gateway`, when the gateway is a dotted IPv4
/// address: the prefix of its addresses and its broadcast address.
pub fn local_network_from_gateway(gateway: &str) -> (r: Option<LocalNetwork>)
    ensures
        r is Some <==> ipv4_octets(gateway@) is Some,
        r matches Some(n) ==> {
            let (a, b, c, d) = ipv4_octets(gateway@)->0;
            &&& n.prefix@ == network_prefix(a, b, c)
            &&& n.broadcast@ == network_prefix(a, b, c) + "255"@
        },
{
    let cs = chars_of(gateway);
    match parse_ipv4_chars(cs.as_slice()) {
        None => None,
        Some((a, b, c, _d)) => {
            let mut prefix = String::new();
            push_decimal(&mut prefix, a as u64);
            push_str(&mut prefix, ".");
            push_decimal(&mut prefix, b as u64);
            push_str(&mut prefix, ".");
            push_decimal(&mut prefix, c as u64);
            push_str(&mut prefix, ".");
            let mut broadcast = prefix.clone();
            push_str(&mut broadcast, "255");
            assert(prefix@ =~= network_prefix(a, b, c));
            Some(LocalNetwork { prefix, broadcast })
        },
    }
}

// ---------------------------------------------------------------------------
// Routing table
// ---------------------------------------------------------------------------

/// The text after `label` on the first line that starts with it once
/// trimmed, itself trimmed.
pub open spec fn value_after_label_in(ls: Seq<Seq<char>>, label: Seq<char>) -> Option<Seq<char>>
    decreases ls.len(),
{
    if ls.len() == 0 {
        None
    } else if has_prefix(trim(ls[0]), label) {
        Some(trim(trim(ls[0]).skip(label.len() as int)))
    } else {
        value_after_label_in(ls.drop_first(), label)
    }
}

/// Finds the value of a `label: value` line, as `route -n get` prints them.
pub fn value_after_label<'a>(text: &'a str, label: &str) -> (r: Option<&'a str>)
    ensures
        r matches Some(v) ==> value_after_label_in(lines(text@), label@) == Some(v@),
        r is None ==> value_after_label_in(lines(text@), label@) is None,
{
    let cs = chars_of(text);
    let lb = chars_of(label);
    let n = cs.len();
    let mut i: usize = 0;
    assert(cs@.skip(0) =~= cs@);
    while i < n
        invariant
            n == cs@.len(),
            cs@ == text@,
            lb@ == label@,
            i <= n,
            value_after_label_in(lines(cs@.skip(i as int)), label@) == value_after_label_in(
                lines(text@),
                label@,
            ),
        decreases n - i,
    {
        let (a, b, next) = next_line(cs.as_slice(), i);
        let ghost l = cs@.subrange(a as int, b as int);
        assert(lines(cs@.skip(i as int))[0] == l);
        assert(lines(cs@.skip(i as int)).drop_first() =~= lines(cs@.skip(next as int)));
        let (ta, tb) = trim_range(cs.as_slice(), a, b);
        if range_starts_with(cs.as_slice(), ta, tb, lb.as_slice()) {
            let (va, vb) = trim_range(cs.as_slice(), ta + lb.len(), tb);
            assert(cs@.subrange(ta as int, tb as int).skip(lb@.len() as int) =~= cs@.subrange(
                ta + lb@.len(),
                tb as int,
            ));
            return Some(text.substring_char(va, vb));
        }
        i = next;
    }
    assert(cs@.skip(n as int) =~= Seq::<char>::empty());
    None
}

/// The word after the first occurrence of `needle` among `ws`, when one
/// follows it.
pub open spec fn word_after_in(ws: Seq<Seq<char>>, needle: Seq<char>) -> Option<Seq<char>>
    decreases ws.len(),
{
    if ws.len() < 2 {
        None
    } else if ws[0] == needle {
        Some(ws[1])
    } else {
        word_after_in(ws.drop_first(), needle)
    }
}

/// The views of a sequence of string slices.
pub open spec fn str_views<'a>(ws: Seq<&'a str>) -> Seq<Seq<char>> {
    ws.map_values(|w: &'a str| w@)
}

/// Finds the word that follows `needle`, as in `ip route` output
/// (`default via <gateway> dev <interface>`).
pub fn word_after<'a>(words: &[&'a str], needle: &str) -> (r: Option<&'a str>)
    ensures
        r matches Some(w) ==> word_after_in(str_views(words@), needle@) == Some(w@),
        r is None ==> word_after_in(str_views(words@), needle@) is None,
{
    let ghost all = str_views(words@);
    let mut i: usize = 0;
    assert(all.skip(0) =~= all);
    while i < words.len() && i + 1 < words.len()
        invariant
            0 <= i <= words@.len(),
            all == str_views(words@),
            word_after_in(all.skip(i as int), needle@) == word_after_in(all, needle@),
        decreases words@.len() - i,
    {
        assert(all.skip(i as int)[0] == words@[i as int]@);
        assert(all.skip(i as int)[1] == words@[i + 1]@);
        if crate::text::str_eq(words[i], needle) {
            return Some(words[i + 1]);
        }
        assert(all.skip(i as int).drop_first() =~= all.skip(i + 1));
        i = i + 1;
    }
    None
}

/// The word after the first `needle` among the words `ws`: its index.
fn word_after_index(ws: &Vec<Vec<char>>, needle: &[char]) -> (r: Option<usize>)
    ensures
        r matches Some(k) ==> k < ws@.len() && word_after_in(views(ws@), needle@) == Some(
            ws@[k as int]@,
        ),
        r is None ==> word_after_in(views(ws@), needle@) is None,
{
    let ghost all = views(ws@);
    let mut i: usize = 0;
    assert(all.skip(0) =~= all);
    while i < ws.len() && i + 1 < ws.len()
        invariant
            0 <= i <= ws@.len(),
            all == views(ws@),
            word_after_in(all.skip(i as int), needle@) == word_after_in(all, needle@),
        decreases ws@.len() - i,
    {
        assert(all.skip(i as int)[0] == ws@[i as int]@);
        assert(all.skip(i as int)[1] == ws@[i + 1]@);
        if chars_eq(ws[i].as_slice(), needle) {
            return Some(i + 1);
        }
        assert(all.skip(i as int).drop_first() =~= all.skip(i + 1));
        i = i + 1;
    }
    None
}

/// The gateway assumed when the routing table says nothing of it.
pub const DEFAULT_GATEWAY: &'static str = "192.168.1.1";

/// `value` when there is one, else `fallback`.
pub open spec fn or_else(value: Option<Seq<char>>, fallback: Seq<char>) -> Seq<char> {
    match value {
        Some(v) => v,
        None => fallback,
    }
}

/// The gateway and interface of the default route, from the output of
/// `route -n get default` (macOS): the values of its `gateway:` and
/// `interface:` lines.
pub fn route_from_labels(text: &str) -> (r: (String, String))
    ensures
        r.0@ == or_else(value_after_label_in(lines(text@), "gateway:"@), DEFAULT_GATEWAY@),
        r.1@ == or_else(value_after_label_in(lines(text@), "interface:"@), UNKNOWN_MAC@),
{
    let gateway = match value_after_label(text, "gateway:") {
        Some(g) => g.to_owned(),
        None => DEFAULT_GATEWAY.to_owned(),
    };
    let interface = match value_after_label(text, "interface:") {
        Some(i) => i.to_owned(),
        None => UNKNOWN_MAC.to_owned(),
    };
    (gateway, interface)
}

/// The gateway and interface of the default route, from the output of
/// `ip route show default` (Linux): the words after `via` and `dev`.
pub fn route_from_words(text: &str) -> (r: (String, String))
    ensures
        r.0@ == or_else(word_after_in(words(text@), "via"@), DEFAULT_GATEWAY@),
        r.1@ == or_else(word_after_in(words(text@), "dev"@), UNKNOWN_MAC@),
{
    let cs = chars_of(text);
    let ws = words_of(cs.as_slice());
    let via = chars_of("via");
    let dev = chars_of("dev");
    let gateway = match word_after_index(&ws, via.as_slice()) {
        Some(k) => string_of(ws[k].as_slice(), 0, ws[k].len()),
        None => DEFAULT_GATEWAY.to_owned(),
    };
    let interface = match word_after_index(&ws, dev.as_slice()) {
        Some(k) => string_of(ws[k].as_slice(), 0, ws[k].len()),
        None => UNKNOWN_MAC.to_owned(),
    };
    proof {
        if let Some(v) = word_after_in(words(text@), "via"@) {
            assert(gateway@ =~= v);
        }
        if let Some(v) = word_after_in(words(text@), "dev"@) {
            assert(interface@ =~= v);
        }
    }
    (gateway, interface)
}

/// The gateway and interface assumed when the routing table cannot be read.
pub fn fallback_route() -> (r: (String, String))
    ensures
        r.0@ == DEFAULT_GATEWAY@,
        r.1@ == UNKNOWN_MAC@,
{
    (DEFAULT_GATEWAY.to_owned(), UNKNOWN_MAC.to_owned())
}

// ---------------------------------------------------------------------------
// traceroute
// ---------------------------------------------------------------------------

/// The first word of `ts` that is neither `*` nor a float literal (a
/// number), or `*` when there is none.
pub open spec fn first_address(ts: Seq<Seq<char>>) -> Seq<char>
    decreases ts.len(),
{
    if ts.len() == 0 {
        "*"@
    } else if ts[0] != "*"@ && !is_float_literal(ts[0]) {
        ts[0]
    } else {
        first_address(ts.drop_first())
    }
}

/// Whether word `i` of `ts` is a latency: a float literal once its trailing
/// `ms` are removed, and either ending in `ms` or followed by the word `ms`.
pub open spec fn is_latency_word(ts: Seq<Seq<char>>, i: int) -> bool {
    &&& is_float_literal(trim_end_matches(ts[i], "ms"@))
    &&& (has_suffix(ts[i], "ms"@) || (i + 1 < ts.len() && ts[i + 1] == "ms"@))
}

/// The first latency among the words `ts[i..]`, less its `ms`.
pub open spec fn first_latency_from(ts: Seq<Seq<char>>, i: int) -> Option<Seq<char>>
    decreases ts.len() - i,
{
    if i < 0 || i >= ts.len() {
        None
    } else if is_latency_word(ts, i) {
        Some(trim_end_matches(ts[i], "ms"@))
    } else {
        first_latency_from(ts, i + 1)
    }
}

/// The hop that a line of `traceroute` output describes: a line whose first
/// word is a hop number (`u8`), with the first address after it and the
/// first latency after it.
pub open spec fn trace_line(line: Seq<char>) -> Option<TraceHopView> {
    let ws = words(line);
    if ws.len() == 0 {
        None
    } else {
        match parse_u8(ws[0]) {
            None => None,
            Some(hop) => Some(
                TraceHopView {
                    hop,
                    address: first_address(ws.skip(1)),
                    latency: first_latency_from(ws.skip(1), 0),
                },
            ),
        }
    }
}

/// Finds the first latency among the words `ts`.
pub fn first_latency_ms(ts: &[Vec<char>]) -> (r: Option<Latency>)
    ensures
        latency_view(r) == first_latency_from(views(ts@), 0),
{
    let ghost all = views(ts@);
    let ms = chars_of("ms");
    proof {
        reveal_strlit("ms");
    }
    let mut i: usize = 0;
    while i < ts.len()
        invariant
            0 <= i <= ts@.len(),
            all == views(ts@),
            ms@ == "ms"@,
            ms@.len() > 0,
            first_latency_from(all, i as int) == first_latency_from(all, 0),
        decreases ts@.len() - i,
    {
        let t = ts[i].as_slice();
        let n = t.len();
        assert(all[i as int] == t@);
        assert(t@.subrange(0, n as int) =~= t@);
        let end = trim_end_matches_end(t, 0, n, ms.as_slice());
        let trimmed = copy_chars(t, 0, end);
        let followed = i + 1 < ts.len() && chars_eq(ts[i + 1].as_slice(), ms.as_slice());
        proof {
            if i + 1 < ts@.len() {
                assert(all[i + 1] == ts@[i + 1]@);
            }
        }
        if range_ends_with(t, 0, n, ms.as_slice()) || followed {
            match Latency::from_chars(trimmed.as_slice()) {
                Some(l) => {
                    return Some(l);
                },
                None => {},
            }
        }
        i = i + 1;
    }
    None
}

/// The first word among `ts` that is neither `*` nor a number.
fn first_address_of(ts: &[Vec<char>]) -> (r: String)
    ensures
        r@ == first_address(views(ts@)),
{
    let ghost all = views(ts@);
    let star = chars_of("*");
    let mut i: usize = 0;
    assert(all.skip(0) =~= all);
    while i < ts.len()
        invariant
            0 <= i <= ts@.len(),
            all == views(ts@),
            star@ == "*"@,
            first_address(all.skip(i as int)) == first_address(all),
        decreases ts@.len() - i,
    {
        let t = ts[i].as_slice();
        assert(all.skip(i as int)[0] == t@);
        assert(all.skip(i as int).drop_first() =~= all.skip(i + 1));
        if !chars_eq(t, star.as_slice()) && !crate::literals::is_float_text(t) {
            let r = string_of(t, 0, t.len());
            assert(t@.subrange(0, t@.len() as int) =~= t@);
            return r;
        }
        i = i + 1;
    }
    assert(all.skip(i as int) =~= Seq::<Seq<char>>::empty());
    "*".to_owned()
}

/// The hop in `line`, if it describes one.
fn trace_line_of(line: &[char]) -> (r: Option<TraceHop>)
    ensures
        match r {
            Some(h) => trace_line(line@) == Some(h@),
            None => trace_line(line@) is None,
        },
{
    let ws = words_of(line);
    if ws.len() == 0 {
        return None;
    }
    assert(views(ws@)[0] == ws@[0]@);
    let hop = match parse_u8_chars(ws[0].as_slice()) {
        Some(h) => h,
        None => {
            return None;
        },
    };
    let rest = ws.as_slice().split_at(1).1;
    assert(views(rest@) =~= views(ws@).skip(1));
    let address = first_address_of(rest);
    let latency = first_latency_ms(rest);
    Some(TraceHop { hop, address, latency_ms: latency })
}

/// Reads one line of `traceroute` output.
pub fn parse_traceroute_line(line: &str) -> (r: Option<TraceHop>)
    ensures
        match r {
            Some(h) => trace_line(line@) == Some(h@),
            None => trace_line(line@) is None,
        },
{
    let cs = chars_of(line);
    trace_line_of(cs.as_slice())
}

/// The hops of the lines `ls` that describe one, in order.
pub open spec fn trace_lines(ls: Seq<Seq<char>>) -> Seq<TraceHopView>
    decreases ls.len(),
{
    if ls.len() == 0 {
        seq![]
    } else {
        let rest = trace_lines(ls.drop_first());
        match trace_line(ls[0]) {
            Some(h) => seq![h] + rest,
            None => rest,
        }
    }
}

/// The views of a sequence of hops.
pub open spec fn hop_views(hs: Seq<TraceHop>) -> Seq<TraceHopView> {
    hs.map_values(|h: TraceHop| h@)
}

/// Reads the hops from the output of `traceroute`.
pub fn parse_traceroute_output(text: &str) -> (hops: Vec<TraceHop>)
    ensures
        hop_views(hops@) == trace_lines(lines(text@)),
{
    let cs = chars_of(text);
    let ls = lines_of(cs.as_slice());
    let ghost all = views(ls@);
    let mut hops: Vec<TraceHop> = Vec::new();
    let mut i: usize = 0;
    assert(all.skip(0) =~= all);
    while i < ls.len()
        invariant
            0 <= i <= ls@.len(),
            all == views(ls@),
            all == lines(text@),
            hop_views(hops@) + trace_lines(all.skip(i as int)) == trace_lines(all),
        decreases ls@.len() - i,
    {
        assert(all.skip(i as int)[0] == ls@[i as int]@);
        assert(all.skip(i as int).drop_first() =~= all.skip(i + 1));
        match trace_line_of(ls[i].as_slice()) {
            Some(h) => {
                assert(hop_views(hops@.push(h)) =~= hop_views(hops@) + seq![h@]);
                hops.push(h);
            },
            None => {},
        }
        i = i + 1;
    }
    assert(all.skip(i as int) =~= Seq::<Seq<char>>::empty());
    hops
}

/// The hops of a run of `traceroute`: none when it failed.
pub fn trace_hops_from_output(success: bool, stdout: &str) -> (hops: Vec<TraceHop>)
    ensures
        hop_views(hops@) == (if success {
            trace_lines(lines(stdout@))
        } else {
            Seq::<TraceHopView>::empty()
        }),
{
    if !success {
        let hops: Vec<TraceHop> = Vec::new();
        assert(hop_views(hops@) =~= Seq::<TraceHopView>::empty());
        return hops;
    }
    parse_traceroute_output(stdout)
}

// ---------------------------------------------------------------------------
// arp
// ---------------------------------------------------------------------------

/// Whether one of the words marks an entry as incomplete.
pub open spec fn has_incomplete_word(ws: Seq<Seq<char>>) -> bool {
    exists|i: int| 0 <= i < ws.len() && (ws[i] == "(incomplete)"@ || ws[i] == "incomplete"@)
}

/// The address of an ARP line: what stands between the first `(` and the
/// next `)` (or `(`), else the first word.
pub open spec fn arp_address(line: Seq<char>, ws: Seq<Seq<char>>) -> Option<Seq<char>> {
    let parts = split_at_char(line, '(');
    if parts.len() > 1 {
        Some(split_at_char(parts[1], ')')[0])
    } else if ws.len() > 0 {
        Some(ws[0])
    } else {
        None
    }
}

/// A word with five `:` or five `-`: a hardware address.
pub open spec fn is_mac_word(w: Seq<char>) -> bool {
    count_char(w, ':') == 5 || count_char(w, '-') == 5
}

/// The first hardware address among the words, or `desconocida`.
pub open spec fn first_mac(ws: Seq<Seq<char>>) -> Seq<char>
    decreases ws.len(),
{
    if ws.len() == 0 {
        UNKNOWN_MAC@
    } else if is_mac_word(ws[0]) {
        ws[0]
    } else {
        first_mac(ws.drop_first())
    }
}

/// The device that a line of `arp -a` output describes: none for an
/// incomplete entry or when the address holds no `.`.
pub open spec fn arp_line(line: Seq<char>) -> Option<DeviceView> {
    let ws = words(line);
    if has_incomplete_word(ws) {
        None
    } else {
        match arp_address(line, ws) {
            Some(ip) => if ip.contains('.') {
                Some(arp_device(ip, first_mac(ws)))
            } else {
                None
            },
            None => None,
        }
    }
}

/// Whether one of the words `ws` marks an incomplete entry.
fn any_incomplete(ws: &Vec<Vec<char>>) -> (b: bool)
    ensures
        b == has_incomplete_word(views(ws@)),
{
    let a = chars_of("(incomplete)");
    let b = chars_of("incomplete");
    let ghost all = views(ws@);
    let mut i: usize = 0;
    while i < ws.len()
        invariant
            0 <= i <= ws@.len(),
            all == views(ws@),
            a@ == "(incomplete)"@,
            b@ == "incomplete"@,
            forall|k: int| 0 <= k < i ==> !(all[k] == "(incomplete)"@ || all[k] == "incomplete"@),
        decreases ws@.len() - i,
    {
        assert(all[i as int] == ws@[i as int]@);
        if chars_eq(ws[i].as_slice(), a.as_slice()) || chars_eq(ws[i].as_slice(), b.as_slice()) {
            return true;
        }
        i = i + 1;
    }
    false
}

/// The first hardware address among the words `ws`, or `desconocida`.
fn first_mac_of(ws: &Vec<Vec<char>>) -> (r: String)
    ensures
        r@ == first_mac(views(ws@)),
{
    let ghost all = views(ws@);
    let mut i: usize = 0;
    assert(all.skip(0) =~= all);
    while i < ws.len()
        invariant
            0 <= i <= ws@.len(),
            all == views(ws@),
            first_mac(all.skip(i as int)) == first_mac(all),
        decreases ws@.len() - i,
    {
        let w = ws[i].as_slice();
        assert(all.skip(i as int)[0] == w@);
        assert(all.skip(i as int).drop_first() =~= all.skip(i + 1));
        if count_of(w, ':') == 5 || count_of(w, '-') == 5 {
            assert(w@.subrange(0, w@.len() as int) =~= w@);
            return string_of(w, 0, w.len());
        }
        i = i + 1;
    }
    assert(all.skip(i as int) =~= Seq::<Seq<char>>::empty());
    UNKNOWN_MAC.to_owned()
}

/// The device in `line`, if it describes one.
fn arp_line_of(line: &[char]) -> (r: Option<Device>)
    ensures
        match r {
            Some(d) => arp_line(line@) == Some(d@),
            None => arp_line(line@) is None,
        },
{
    let ws = words_of(line);
    if any_incomplete(&ws) {
        return None;
    }
    let parts = split_on(line, '(');
    let ip: Vec<char> = if parts.len() > 1 {
        let inner = split_on(parts[1].as_slice(), ')');
        proof {
            crate::text::lemma_split_at_char_nonempty(parts@[1]@, ')');
        }
        copy_chars(inner[0].as_slice(), 0, inner[0].len())
    } else if ws.len() > 0 {
        copy_chars(ws[0].as_slice(), 0, ws[0].len())
    } else {
        return None;
    };
    proof {
        if parts@.len() > 1 {
            assert(split_at_char(line@, '(')[1] == parts@[1]@);
            assert(ip@ =~= split_at_char(parts@[1]@, ')')[0]);
        } else {
            assert(ip@ =~= words(line@)[0]);
        }
    }
    if !contains_char(ip.as_slice(), '.') {
        return None;
    }
    let mac = first_mac_of(&ws);
    let ip_text = string_of(ip.as_slice(), 0, ip.len());
    assert(ip@.subrange(0, ip@.len() as int) =~= ip@);
    Some(Device::arp_owned(ip_text, mac))
}

/// Reads one line of `arp -a` output (macOS or Linux).
pub fn parse_arp_line(line: &str) -> (r: Option<Device>)
    ensures
        match r {
            Some(d) => arp_line(line@) == Some(d@),
            None => arp_line(line@) is None,
        },
{
    let cs = chars_of(line);
    arp_line_of(cs.as_slice())
}

/// The devices of the lines `ls` that describe one, in order.
pub open spec fn arp_lines(ls: Seq<Seq<char>>) -> Seq<DeviceView>
    decreases ls.len(),
{
    if ls.len() == 0 {
        seq![]
    } else {
        let rest = arp_lines(ls.drop_first());
        match arp_line(ls[0]) {
            Some(d) => seq![d] + rest,
            None => rest,
        }
    }
}

/// The views of a sequence of devices.
pub open spec fn device_views(ds: Seq<Device>) -> Seq<DeviceView> {
    ds.map_values(|d: Device| d@)
}

/// Reads the devices from the output of `arp -a`.
pub fn arp_devices_from_output(text: &str) -> (ds: Vec<Device>)
    ensures
        device_views(ds@) == arp_lines(lines(text@)),
{
    let cs = chars_of(text);
    let ls = lines_of(cs.as_slice());
    let ghost all = views(ls@);
    let mut ds: Vec<Device> = Vec::new();
    let mut i: usize = 0;
    assert(all.skip(0) =~= all);
    while i < ls.len()
        invariant
            0 <= i <= ls@.len(),
            all == views(ls@),
            all == lines(text@),
            device_views(ds@) + arp_lines(all.skip(i as int)) == arp_lines(all),
        decreases ls@.len() - i,
    {
        assert(all.skip(i as int)[0] == ls@[i as int]@);
        assert(all.skip(i as int).drop_first() =~= all.skip(i + 1));
        match arp_line_of(ls[i].as_slice()) {
            Some(d) => {
                assert(device_views(ds@.push(d)) =~= device_views(ds@) + seq![d@]);
                ds.push(d);
            },
            None => {},
        }
        i = i + 1;
    }
    assert(all.skip(i as int) =~= Seq::<Seq<char>>::empty());
    ds
}

// ---------------------------------------------------------------------------
// Merging the ping sweep with the ARP table
// ---------------------------------------------------------------------------

/// What a reply of the ping sweep is, as plain values: the address that
/// answered and its latency.
pub open spec fn ping_view(p: PingScanResult) -> (Seq<char>, Seq<char>) {
    (p.ip@, p.latency_ms@)
}

/// The views of a sequence of ping replies.
pub open spec fn ping_views(ps: Seq<PingScanResult>) -> Seq<(Seq<char>, Seq<char>)> {
    ps.map_values(|p: PingScanResult| ping_view(p))
}

/// The devices of the ARP table filed by address: each device whose address
/// is a dotted IPv4 address, a later one replacing an earlier one with the
/// same address.
pub open spec fn arp_map(arps: Seq<DeviceView>) -> Map<u32, DeviceView>
    decreases arps.len(),
{
    if arps.len() == 0 {
        Map::empty()
    } else {
        let m = arp_map(arps.drop_last());
        let d = arps.last();
        match ipv4_address(d.ip) {
            Some(k) => m.insert(k, d),
            None => m,
        }
    }
}

/// The ARP devices merged with the ping replies, filed by address: a reply
/// marks the device with its address as reachable, or adds a device found
/// by ping; replies whose address is not a dotted IPv4 address are dropped.
pub open spec fn merged_map(pings: Seq<(Seq<char>, Seq<char>)>, arps: Seq<DeviceView>) -> Map<
    u32,
    DeviceView,
>
    decreases pings.len(),
{
    if pings.len() == 0 {
        arp_map(arps)
    } else {
        let m = merged_map(pings.drop_last(), arps);
        let (ip, latency) = pings.last();
        match ipv4_address(ip) {
            Some(k) => if m.contains_key(k) {
                m.insert(k, marked_reachable(m[k], latency))
            } else {
                m.insert(k, ping_device(ip, latency))
            },
            None => m,
        }
    }
}

/// The address of a device as a number (0 when it has none).
pub open spec fn device_key(d: DeviceView) -> u32 {
    match ipv4_address(d.ip) {
        Some(k) => k,
        None => 0,
    }
}

/// `ds` lists the devices of `m` in increasing order of address, each once.
pub open spec fn lists_in_address_order(ds: Seq<DeviceView>, m: Map<u32, DeviceView>) -> bool {
    &&& forall|i: int|
        0 <= i < ds.len() ==> {
            &&& ipv4_address(#[trigger] ds[i].ip) is Some
            &&& m.contains_key(device_key(ds[i]))
            &&& m[device_key(ds[i])] == ds[i]
        }
    &&& forall|i: int, j: int|
        0 <= i < j < ds.len() ==> device_key(#[trigger] ds[i]) < device_key(#[trigger] ds[j])
    &&& forall|k: u32|
        #[trigger] m.contains_key(k) ==> exists|i: int| 0 <= i < ds.len() && device_key(ds[i]) == k
}

/// `u32` keys are ordered as numbers: the `Ord` of `u32` obeys its
/// specification, so a map keyed by address walks its keys in increasing
/// numeric order.
proof fn lemma_address_order()
    ensures
        vstd::laws_cmp::obeys_cmp::<u32>(),
        vstd::std_specs::btree::key_obeys_cmp_spec::<u32>(),
{
    broadcast use vstd::laws_cmp::group_laws_cmp;

}

/// Keys in increasing order are strictly increasing numbers.
proof fn lemma_increasing_addresses(keys: Seq<u32>)
    requires
        increasing_seq(keys),
    ensures
        forall|i: int, j: int| 0 <= i < j < keys.len() ==> keys[i] < keys[j],
{
    broadcast use vstd::laws_cmp::group_laws_cmp;

    assert forall|i: int, j: int| 0 <= i < j < keys.len() implies keys[i] < keys[j] by {
        assert(vstd::std_specs::cmp::OrdSpec::cmp_spec(&keys[i], &keys[j]) is Less);
    }
}

/// The map `filed` holds, under each address of `m`, a device whose view is
/// `m`'s entry, and that entry's address is the key it is filed under.
spec fn files(filed: Map<u32, Device>, m: Map<u32, DeviceView>) -> bool {
    &&& filed.dom() == m.dom()
    &&& forall|k: u32|
        #[trigger] filed.contains_key(k) ==> filed[k]@ == m[k] && ipv4_address(m[k].ip) == Some(
            k,
        )
}

/// Files `d` under `k` in `filed`, replacing the device filed there.
fn put_device(filed: &mut BTreeMap<u32, Device>, k: u32, d: Device, Ghost(m): Ghost<
    Map<u32, DeviceView>,
>)
    requires
        files(old(filed)@, m),
        ipv4_address(d@.ip) == Some(k),
    ensures
        files(final(filed)@, m.insert(k, d@)),
{
    proof {
        lemma_address_order();
    }
    let ghost dv = d@;
    let _ = filed.insert(k, d);
    assert(filed@.dom() =~= m.insert(k, dv).dom());
}

/// Merges the replies of the ping sweep with the devices of the ARP table:
/// one device per address, in increasing order of address.
pub fn merge_scan_results(ping_results: Vec<PingScanResult>, arp_devices: Vec<Device>) -> (ds: Vec<
    Device,
>)
    ensures
        lists_in_address_order(
            device_views(ds@),
            merged_map(ping_views(ping_results@), device_views(arp_devices@)),
        ),
{
    proof {
        lemma_address_order();
    }
    let ghost arps = device_views(arp_devices@);
    let ghost pings = ping_views(ping_results@);
    let mut filed: BTreeMap<u32, Device> = BTreeMap::new();
    let mut i: usize = 0;
    assert(arps.take(0) =~= Seq::<DeviceView>::empty());
    assert(filed@.dom() =~= arp_map(arps.take(0)).dom());
    while i < arp_devices.len()
        invariant
            0 <= i <= arp_devices@.len(),
            arps == device_views(arp_devices@),
            files(filed@, arp_map(arps.take(i as int))),
        decreases arp_devices@.len() - i,
    {
        let d = arp_devices[i].clone();
        assert(arps.take(i + 1).drop_last() =~= arps.take(i as int));
        assert(arps.take(i + 1).last() == d@);
        let ip = chars_of(d.ip.as_str());
        match parse_ipv4_chars(ip.as_slice()) {
            Some(o) => {
                let k = octets_value(o);
                put_device(&mut filed, k, d, Ghost(arp_map(arps.take(i as int))));
            },
            None => {},
        }
        i = i + 1;
    }
    assert(arps.take(arp_devices@.len() as int) =~= arps);
    let mut j: usize = 0;
    assert(pings.take(0) =~= Seq::<(Seq<char>, Seq<char>)>::empty());
    while j < ping_results.len()
        invariant
            0 <= j <= ping_results@.len(),
            arps == device_views(arp_devices@),
            pings == ping_views(ping_results@),
            files(filed@, merged_map(pings.take(j as int), arps)),
        decreases ping_results@.len() - j,
    {
        let ghost m = merged_map(pings.take(j as int), arps);
        assert(pings.take(j + 1).drop_last() =~= pings.take(j as int));
        assert(pings.take(j + 1).last() == ping_view(ping_results@[j as int]));
        let p = &ping_results[j];
        let ip = chars_of(p.ip.as_str());
        match parse_ipv4_chars(ip.as_slice()) {
            Some(o) => {
                let k = octets_value(o);
                let ghost before = filed@;
                match filed.remove(&k) {
                    Some(mut d) => {
                        proof {
                            assert(m.contains_key(k));
                        }
                        d.mark_reachable(p.latency_ms.clone());
                        let _ = filed.insert(k, d);
                        proof {
                            let m2 = merged_map(pings.take(j + 1), arps);
                            assert(filed@.dom() =~= m2.dom());
                        }
                    },
                    None => {
                        proof {
                            assert(!m.contains_key(k));
                            assert(filed@ =~= before);
                        }
                        let d = Device::ping_owned(p.ip.clone(), p.latency_ms.clone());
                        put_device(&mut filed, k, d, Ghost(m));
                    },
                }
            },
            None => {},
        }
        j = j + 1;
    }
    assert(pings.take(ping_results@.len() as int) =~= pings);
    let ghost m = merged_map(pings, arps);
    let ghost fm = filed@;
    let values = filed.values();
    let ghost items = vstd::std_specs::iter::IteratorSpec::remaining(&values);
    let ghost keys = choose|ks: Seq<u32>|
        {
            &&& increasing_seq(ks)
            &&& ks.to_set() == fm.dom()
            &&& ks.no_duplicates()
            &&& items == ks.map(|i: int, k| &fm[k])
        };
    let mut ds: Vec<Device> = Vec::new();
    for d in it: values
        invariant
            it.seq() == items,
            items == keys.map(|i: int, k| &fm[k]),
            device_views(ds@) == items.take(it.index()).map_values(|d: &Device| d@),
    {
        let ghost before = device_views(ds@);
        ds.push(d.clone());
        assert(items.take(it.index() + 1) =~= items.take(it.index()).push(d));
        assert(device_views(ds@) =~= before.push(d@));
    }
    proof {
        lemma_increasing_addresses(keys);
        let dv = device_views(ds@);
        assert(items.take(items.len() as int) =~= items);
        assert forall|i: int| 0 <= i < dv.len() implies dv[i] == m[keys[i]] && fm.contains_key(
            keys[i],
        ) by {
            assert(keys.to_set().contains(keys[i]));
        }
        assert forall|i: int| 0 <= i < dv.len() implies {
            &&& ipv4_address(#[trigger] dv[i].ip) is Some
            &&& m.contains_key(device_key(dv[i]))
            &&& m[device_key(dv[i])] == dv[i]
        } by {
            assert(dv[i] == m[keys[i]] && fm.contains_key(keys[i]));
        }
        assert forall|i: int, j: int| 0 <= i < j < dv.len() implies device_key(#[trigger] dv[i])
            < device_key(#[trigger] dv[j]) by {
            assert(dv[i] == m[keys[i]] && fm.contains_key(keys[i]));
            assert(dv[j] == m[keys[j]] && fm.contains_key(keys[j]));
        }
        assert forall|k: u32| #[trigger] m.contains_key(k) implies exists|i: int|
            0 <= i < dv.len() && device_key(dv[i]) == k by {
            assert(fm.contains_key(k));
            assert(keys.to_set().contains(k));
            let i = choose|i: int| 0 <= i < keys.len() && keys[i] == k;
            assert(dv[i] == m[keys[i]] && fm.contains_key(keys[i]));
            assert(device_key(dv[i]) == k);
        }
    }
    ds
}

// ---------------------------------------------------------------------------
// The ping sweep and the scan result
// ---------------------------------------------------------------------------

/// How many workers share the ping sweep of the local network.
pub const SCAN_WORKERS: usize = 32;

/// The views of a sequence of strings.
pub open spec fn string_views(v: Seq<String>) -> Seq<Seq<char>> {
    v.map_values(|s: String| s@)
}

/// The last octet that worker `w` pings in its `m`-th turn.
pub open spec fn sweep_octet(w: int, m: int) -> int {
    w + 1 + 32 * m
}

/// The addresses that the sweep of the `/24` network with `prefix` pings,
/// one batch per worker: worker `w` takes the last octets `w + 1`,
/// `w + 1 + 32`, ... up to 254, in that order.
pub fn sweep_batches(network: &LocalNetwork) -> (batches: Vec<Vec<String>>)
    ensures
        batches@.len() == SCAN_WORKERS,
        forall|w: int, m: int|
            0 <= w < SCAN_WORKERS && 0 <= m ==> (m < batches@[w]@.len() <==> #[trigger] sweep_octet(
                w,
                m,
            ) <= 254),
        forall|w: int, m: int|
            0 <= w < SCAN_WORKERS && 0 <= m < batches@[w]@.len() ==> #[trigger] batches@[w]@[m]@
                == network.prefix@ + decimal((w + 1 + 32 * m) as nat),
{
    let mut batches: Vec<Vec<String>> = Vec::new();
    let mut w: usize = 0;
    while w < SCAN_WORKERS
        invariant
            0 <= w <= SCAN_WORKERS,
            batches@.len() == w,
            forall|v: int, m: int|
                0 <= v < w && 0 <= m ==> (m < batches@[v]@.len() <==> #[trigger] sweep_octet(v, m)
                    <= 254),
            forall|v: int, m: int|
                0 <= v < w && 0 <= m < batches@[v]@.len() ==> #[trigger] batches@[v]@[m]@
                    == network.prefix@ + decimal((v + 1 + 32 * m) as nat),
        decreases SCAN_WORKERS - w,
    {
        let mut batch: Vec<String> = Vec::new();
        let mut octet: u64 = (w + 1) as u64;
        while octet <= 254
            invariant
                0 <= w < SCAN_WORKERS,
                octet == w + 1 + 32 * batch@.len(),
                forall|m: int| 0 <= m < batch@.len() ==> #[trigger] sweep_octet(w as int, m) <= 254,
                forall|m: int|
                    0 <= m < batch@.len() ==> #[trigger] batch@[m]@ == network.prefix@ + decimal(
                        (w + 1 + 32 * m) as nat,
                    ),
            decreases 300 - octet,
        {
            let mut ip = network.prefix.clone();
            push_decimal(&mut ip, octet);
            batch.push(ip);
            octet = octet + 32;
        }
        proof {
            assert forall|m: int| 0 <= m implies (m < batch@.len() <==> #[trigger] sweep_octet(
                w as int,
                m,
            ) <= 254) by {
                if m >= batch@.len() {
                    assert(w + 1 + 32 * m >= w + 1 + 32 * batch@.len());
                }
            }
        }
        batches.push(batch);
        w = w + 1;
    }
    batches
}

/// How many of the devices answered a ping.
pub open spec fn reachable_count(ds: Seq<DeviceView>) -> nat
    decreases ds.len(),
{
    if ds.len() == 0 {
        0
    } else {
        reachable_count(ds.drop_last()) + if ds.last().reachable {
            1nat
        } else {
            0nat
        }
    }
}

/// Counts the devices that answered a ping.
pub fn count_reachable(ds: &Vec<Device>) -> (n: usize)
    ensures
        n == reachable_count(device_views(ds@)),
{
    let ghost dv = device_views(ds@);
    let mut n: usize = 0;
    let mut i: usize = 0;
    while i < ds.len()
        invariant
            0 <= i <= ds@.len(),
            dv == device_views(ds@),
            n == reachable_count(dv.take(i as int)),
            n <= i,
        decreases ds@.len() - i,
    {
        assert(dv.take(i + 1).drop_last() =~= dv.take(i as int));
        if ds[i].reachable {
            n = n + 1;
        }
        i = i + 1;
    }
    assert(dv.take(ds@.len() as int) =~= dv);
    n
}

/// The result of a scan of the local network: the ARP devices merged with
/// the replies of the ping sweep when the sweep ran (the ARP devices alone
/// otherwise), the hops to the trace target, and the summary of both.
pub fn assemble_scan(
    sweep: Option<Vec<PingScanResult>>,
    arp_devices: Vec<Device>,
    trace_hops: Vec<TraceHop>,
) -> (scan: NetworkScan)
    ensures
        match sweep {
            Some(p) => lists_in_address_order(
                device_views(scan.devices@),
                merged_map(ping_views(p@), device_views(arp_devices@)),
            ),
            None => device_views(scan.devices@) == device_views(arp_devices@),
        },
        hop_views(scan.trace_hops@) == hop_views(trace_hops@),
        scan.message@ == scan_summary(
            scan.devices@.len(),
            reachable_count(device_views(scan.devices@)),
            trace_hops@.len(),
        ),
{
    let devices = match sweep {
        Some(p) => merge_scan_results(p, arp_devices),
        None => arp_devices,
    };
    let reachable = count_reachable(&devices);
    let message = scan_message(devices.len(), reachable, trace_hops.len());
    NetworkScan { devices, trace_hops, message }
}

// ---------------------------------------------------------------------------
// The command lines of the network tools
// ---------------------------------------------------------------------------

/// The system the monitor runs on, as far as the tools' options differ.
#[derive(Clone, Copy, Debug, PartialEq, Eq, Structural)]
pub enum Platform {
    MacOs,
    Linux,
    Other,
}

/// A program and its arguments.
#[derive(Clone, Debug)]
pub struct CommandLine {
    pub program: String,
    pub args: Vec<String>,
}

/// The most hops that the route trace follows.
pub const TRACE_MAX_HOPS: u8 = 12;

/// The reply timeout option of `ping`: milliseconds on macOS, seconds
/// elsewhere.
pub open spec fn ping_wait(platform: Platform) -> Seq<char> {
    if platform == Platform::MacOs {
        "500"@
    } else {
        "1"@
    }
}

fn push_owned_arg(args: &mut Vec<String>, a: String)
    ensures
        string_views(final(args)@) == string_views(old(args)@).push(a@),
{
    let ghost v = a@;
    args.push(a);
    assert(string_views(final(args)@) =~= string_views(old(args)@).push(v));
}

fn push_arg(args: &mut Vec<String>, a: &str)
    ensures
        string_views(final(args)@) == string_views(old(args)@).push(a@),
{
    args.push(a.to_owned());
    assert(string_views(final(args)@) =~= string_views(old(args)@).push(a@));
}

/// `ping -c 1 -W <wait> <host>`: one echo request to `host`.
pub fn ping_command(host: &str, platform: Platform) -> (c: CommandLine)
    ensures
        c.program@ == "ping"@,
        string_views(c.args@) == seq!["-c"@, "1"@, "-W"@, ping_wait(platform), host@],
{
    let mut args: Vec<String> = Vec::new();
    push_arg(&mut args, "-c");
    push_arg(&mut args, "1");
    push_arg(&mut args, "-W");
    if platform == Platform::MacOs {
        push_arg(&mut args, "500");
    } else {
        push_arg(&mut args, "1");
    }
    push_arg(&mut args, host);
    CommandLine { program: "ping".to_owned(), args }
}

/// `ping [-b] -c 1 -W <wait> <broadcast>`: one echo request to the broadcast
/// address (`-b` allows it on Linux).
pub fn broadcast_ping_command(broadcast: &str, platform: Platform) -> (c: CommandLine)
    ensures
        c.program@ == "ping"@,
        string_views(c.args@) == (if platform == Platform::Linux {
            seq!["-b"@]
        } else {
            Seq::<Seq<char>>::empty()
        }) + seq!["-c"@, "1"@, "-W"@, ping_wait(platform), broadcast@],
{
    let mut args: Vec<String> = Vec::new();
    if platform == Platform::Linux {
        push_arg(&mut args, "-b");
    }
    push_arg(&mut args, "-c");
    push_arg(&mut args, "1");
    push_arg(&mut args, "-W");
    if platform == Platform::MacOs {
        push_arg(&mut args, "500");
    } else {
        push_arg(&mut args, "1");
    }
    push_arg(&mut args, broadcast);
    CommandLine { program: "ping".to_owned(), args }
}

/// `traceroute -n -m 12 -w 1 <host>`: the route to `host`, numeric, at most
/// twelve hops, one second per probe.
pub fn traceroute_command(host: &str) -> (c: CommandLine)
    ensures
        c.program@ == "traceroute"@,
        string_views(c.args@) == seq!["-n"@, "-m"@, decimal(TRACE_MAX_HOPS as nat), "-w"@, "1"@, host@],
{
    let mut args: Vec<String> = Vec::new();
    push_arg(&mut args, "-n");
    push_arg(&mut args, "-m");
    let mut hops = String::new();
    push_decimal(&mut hops, TRACE_MAX_HOPS as u64);
    assert(hops@ =~= decimal(TRACE_MAX_HOPS as nat));
    push_owned_arg(&mut args, hops);
    push_arg(&mut args, "-w");
    push_arg(&mut args, "1");
    push_arg(&mut args, host);
    assert(string_views(args@) =~= seq!["-n"@, "-m"@, decimal(TRACE_MAX_HOPS as nat), "-w"@, "1"@, host@]);
    CommandLine { program: "traceroute".to_owned(), args }
}

/// The command that shows the default route: `route -n get default` on
/// macOS, `ip route show default` elsewhere.
pub fn default_route_command(platform: Platform) -> (c: CommandLine)
    ensures
        platform == Platform::MacOs ==> c.program@ == "route"@ && string_views(c.args@) == seq![
            "-n"@,
            "get"@,
            "default"@,
        ],
        platform != Platform::MacOs ==> c.program@ == "ip"@ && string_views(c.args@) == seq![
            "route"@,
            "show"@,
            "default"@,
        ],
{
    let mut args: Vec<String> = Vec::new();
    if platform == Platform::MacOs {
        push_arg(&mut args, "-n");
        push_arg(&mut args, "get");
        push_arg(&mut args, "default");
        CommandLine { program: "route".to_owned(), args }
    } else {
        push_arg(&mut args, "route");
        push_arg(&mut args, "show");
        push_arg(&mut args, "default");
        CommandLine { program: "ip".to_owned(), args }
    }
}

/// `arp -a`: the whole ARP table.
pub fn arp_command() -> (c: CommandLine)
    ensures
        c.program@ == "arp"@,
        string_views(c.args@) == seq!["-a"@],
{
    let mut args: Vec<String> = Vec::new();
    push_arg(&mut args, "-a");
    CommandLine { program: "arp".to_owned(), args }
}

/// The gateway and interface of the default route from the output of the
/// route command of `platform`.
pub fn default_route_from_output(platform: Platform, stdout: &str) -> (r: (String, String))
    ensures
        platform == Platform::MacOs ==> r.0@ == or_else(
            value_after_label_in(lines(stdout@), "gateway:"@),
            DEFAULT_GATEWAY@,
        ) && r.1@ == or_else(value_after_label_in(lines(stdout@), "interface:"@), UNKNOWN_MAC@),
        platform != Platform::MacOs ==> r.0@ == or_else(
            word_after_in(words(stdout@), "via"@),
            DEFAULT_GATEWAY@,
        ) && r.1@ == or_else(word_after_in(words(stdout@), "dev"@), UNKNOWN_MAC@),
{
    if platform == Platform::MacOs {
        route_from_labels(stdout)
    } else {
        route_from_words(stdout)
    }
}

} // verus!
