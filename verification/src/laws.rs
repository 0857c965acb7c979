//! What holds of the monitor across operations: the invariant that every
//! input keeps, what scans and pings do to the lists, and the facts about
//! the parsers and windows that the screens rely on.

use vstd::prelude::*;
use crate::app::{
    apply_message, apply_messages, first_target_index, last_index, message_fits, messages_fit,
    min_nat, ping_due, push_bounded, record_reply, scanning_message, start_scan, AppView,
    MessageView, PING_INTERVAL_MS,
};
use crate::input::{key_is_safe, key_step, Key, TRACE_PAGE};
use crate::literals::ipv4_address;
use crate::models::{DeviceView, DiscoverySource, Screen, TargetView, MAX_HISTORY, UNKNOWN_MAC};
use crate::network::{
    arp_line, arp_map, first_address, first_latency_from, first_mac, merged_map, ping_latency,
    ping_latency_in, sweep_octet, trace_line, value_after_label_in, word_after_in,
};
use crate::literals::{is_float_literal, parse_u8};
use crate::text::{count_char, has_prefix, has_suffix, lines, split_at_char, trim, trim_end_matches, words};
use crate::ui::{sat_sub, window_start};

verus! {

// ---------------------------------------------------------------------------
// The state invariant
// ---------------------------------------------------------------------------

/// The counters and history of a target make sense: no more replies than
/// pings, and at most `MAX_HISTORY` samples.
pub open spec fn target_ok(t: TargetView) -> bool {
    t.received <= t.sent && t.history.len() <= MAX_HISTORY
}

/// No two targets have the same host.
pub open spec fn hosts_distinct(ts: Seq<TargetView>) -> bool {
    forall|i: int, j: int| 0 <= i < j < ts.len() ==> ts[i].host != ts[j].host
}

/// The selections of the monitor are in range: there is always a target and
/// the selected one exists; the welcome selection is one of the three
/// options; the selected device and the trace position stay within their
/// lists (at 0 when a list is empty).
pub open spec fn selections_ok(v: AppView) -> bool {
    &&& v.targets.len() >= 1
    &&& v.selected_target < v.targets.len()
    &&& v.welcome_index <= 2
    &&& v.selected_device <= last_index(v.devices.len())
    &&& v.trace_scroll <= last_index(v.trace_hops.len())
}

/// The invariant of the monitor: the selections are in range and every
/// target's counters and history make sense.
pub open spec fn well_formed(v: AppView) -> bool {
    &&& selections_ok(v)
    &&& forall|i: int| 0 <= i < v.targets.len() ==> target_ok(#[trigger] v.targets[i])
}

/// A reply keeps a target's counters and history sensible, and the history
/// never exceeds `MAX_HISTORY`, its newest sample last.
pub proof fn law_reply_keeps_target_ok(t: TargetView, latency: Option<Seq<char>>, now: u64)
    requires
        target_ok(t),
        t.sent < u64::MAX,
    ensures
        target_ok(record_reply(t, latency, now)),
        latency matches Some(l) ==> record_reply(t, latency, now).history.last() == l,
        record_reply(t, latency, now).sent == t.sent + 1,
{
    if let Some(l) = latency {
        let h2 = t.history.push(l);
        if h2.len() > MAX_HISTORY {
            assert(h2.skip(h2.len() - MAX_HISTORY).last() == h2.last());
        }
    }
}

proof fn lemma_first_target_exists(ts: Seq<TargetView>, host: Seq<char>, k: int)
    requires
        0 <= k < ts.len(),
        ts[k].host == host,
    ensures
        exists|i: int|
            0 <= i < ts.len() && ts[i].host == host && forall|j: int|
                0 <= j < i ==> ts[j].host != host,
    decreases k,
{
    if exists|j: int| 0 <= j < k && ts[j].host == host {
        let j = choose|j: int| 0 <= j < k && ts[j].host == host;
        lemma_first_target_exists(ts, host, j);
    } else {
        assert(0 <= k < ts.len() && ts[k].host == host && forall|j: int|
            0 <= j < k ==> ts[j].host != host);
    }
}

/// The target that a ping result updates is the first with its host, and
/// there is one exactly when some target has that host.
pub proof fn law_first_target_index(ts: Seq<TargetView>, host: Seq<char>)
    ensures
        match first_target_index(ts, host) {
            Some(i) => 0 <= i < ts.len() && ts[i].host == host && forall|j: int|
                0 <= j < i ==> ts[j].host != host,
            None => forall|i: int| 0 <= i < ts.len() ==> ts[i].host != host,
        },
{
    if exists|i: int| 0 <= i < ts.len() && ts[i].host == host {
        let k = choose|i: int| 0 <= i < ts.len() && ts[i].host == host;
        lemma_first_target_exists(ts, host, k);
    }
}

/// Every worker message keeps the invariant.
pub proof fn law_message_keeps_well_formed(v: AppView, m: MessageView, now: u64)
    requires
        well_formed(v),
        message_fits(v, m),
    ensures
        well_formed(apply_message(v, m, now)),
{
    match m {
        MessageView::PingResult { host, latency } => {
            law_first_target_index(v.targets, host);
            if let Some(i) = first_target_index(v.targets, host) {
                let w = apply_message(v, m, now);
                law_reply_keeps_target_ok(v.targets[i], latency, now);
                assert forall|j: int| 0 <= j < w.targets.len() implies target_ok(
                    #[trigger] w.targets[j],
                ) by {
                    if j != i {
                        assert(w.targets[j] == v.targets[j]);
                    }
                }
            }
        },
        MessageView::ScanResult { .. } => {},
    }
}

/// A sequence of worker messages keeps the invariant.
pub proof fn law_messages_keep_well_formed(v: AppView, ms: Seq<MessageView>, now: u64)
    requires
        well_formed(v),
        messages_fit(v, ms, now),
    ensures
        well_formed(apply_messages(v, ms, now)),
    decreases ms.len(),
{
    if ms.len() > 0 {
        law_messages_keep_well_formed(v, ms.drop_last(), now);
        law_message_keeps_well_formed(apply_messages(v, ms.drop_last(), now), ms.last(), now);
    }
}

/// How many of the messages `ms` are ping results for `host`.
pub open spec fn pings_for(ms: Seq<MessageView>, host: Seq<char>) -> nat
    decreases ms.len(),
{
    if ms.len() == 0 {
        0
    } else {
        pings_for(ms.drop_last(), host) + match ms.last() {
            MessageView::PingResult { host: h, .. } => if h == host {
                1nat
            } else {
                0nat
            },
            MessageView::ScanResult { .. } => 0nat,
        }
    }
}

/// The latencies of the replies among the messages `ms` for `host`, in
/// order.
pub open spec fn replies_for(ms: Seq<MessageView>, host: Seq<char>) -> Seq<Seq<char>>
    decreases ms.len(),
{
    if ms.len() == 0 {
        seq![]
    } else {
        let r = replies_for(ms.drop_last(), host);
        match ms.last() {
            MessageView::PingResult { host: h, latency: Some(l) } => if h == host {
                r.push(l)
            } else {
                r
            },
            _ => r,
        }
    }
}

/// The newest `MAX_HISTORY` samples of `h`.
pub open spec fn newest(h: Seq<Seq<char>>) -> Seq<Seq<char>> {
    if h.len() > MAX_HISTORY {
        h.skip(h.len() - MAX_HISTORY)
    } else {
        h
    }
}

proof fn lemma_push_newest(h: Seq<Seq<char>>, x: Seq<char>)
    ensures
        push_bounded(newest(h), x) == newest(h.push(x)),
{
    if h.len() > MAX_HISTORY {
        assert(newest(h).push(x).skip(1) =~= h.push(x).skip(h.push(x).len() - MAX_HISTORY));
    }
}

/// Over a batch of worker messages, each target (the hosts being distinct)
/// keeps its host, counts one more ping per result for its host and one
/// more reply per result with a latency, and keeps the newest
/// `MAX_HISTORY` samples of its old history followed by those latencies in
/// order.
pub proof fn law_batch_totals(v: AppView, ms: Seq<MessageView>, now: u64)
    requires
        hosts_distinct(v.targets),
        forall|i: int| 0 <= i < v.targets.len() ==> target_ok(#[trigger] v.targets[i]),
        messages_fit(v, ms, now),
    ensures
        apply_messages(v, ms, now).targets.len() == v.targets.len(),
        forall|i: int|
            0 <= i < v.targets.len() ==> {
                let t = v.targets[i];
                let u = #[trigger] apply_messages(v, ms, now).targets[i];
                &&& u.host == t.host
                &&& u.sent == t.sent + pings_for(ms, t.host)
                &&& u.received == t.received + replies_for(ms, t.host).len()
                &&& u.history == newest(t.history + replies_for(ms, t.host))
            },
    decreases ms.len(),
{
    if ms.len() == 0 {
        assert forall|i: int| 0 <= i < v.targets.len() implies {
            let t = v.targets[i];
            let u = #[trigger] apply_messages(v, ms, now).targets[i];
            &&& u.host == t.host
            &&& u.sent == t.sent + pings_for(ms, t.host)
            &&& u.received == t.received + replies_for(ms, t.host).len()
            &&& u.history == newest(t.history + replies_for(ms, t.host))
        } by {
            assert(target_ok(v.targets[i]));
            assert(v.targets[i].history + replies_for(ms, v.targets[i].host) =~= v.targets[i].history);
        }
    } else {
        let ps = ms.drop_last();
        let m = ms.last();
        law_batch_totals(v, ps, now);
        let u = apply_messages(v, ps, now);
        let w = apply_messages(v, ms, now);
        assert(w == apply_message(u, m, now));
        assert(message_fits(u, m));
        match m {
            MessageView::ScanResult { .. } => {
                assert forall|i: int| 0 <= i < v.targets.len() implies {
                    let t = v.targets[i];
                    let x = #[trigger] apply_messages(v, ms, now).targets[i];
                    &&& x.host == t.host
                    &&& x.sent == t.sent + pings_for(ms, t.host)
                    &&& x.received == t.received + replies_for(ms, t.host).len()
                    &&& x.history == newest(t.history + replies_for(ms, t.host))
                } by {
                    assert(u.targets[i] == w.targets[i]);
                }
            },
            MessageView::PingResult { host, latency } => {
                law_first_target_index(u.targets, host);
                match first_target_index(u.targets, host) {
                    Some(k) => {
                        assert forall|i: int| 0 <= i < v.targets.len() implies {
                            let t = v.targets[i];
                            let x = #[trigger] apply_messages(v, ms, now).targets[i];
                            &&& x.host == t.host
                            &&& x.sent == t.sent + pings_for(ms, t.host)
                            &&& x.received == t.received + replies_for(ms, t.host).len()
                            &&& x.history == newest(t.history + replies_for(ms, t.host))
                        } by {
                            let t = v.targets[i];
                            let r = replies_for(ps, t.host);
                            if i == k {
                                assert(u.targets[k].host == host);
                                if let Some(l) = latency {
                                    lemma_push_newest(t.history + r, l);
                                    assert((t.history + r).push(l) =~= t.history + r.push(l));
                                }
                            } else {
                                assert(v.targets[k].host == u.targets[k].host);
                                assert(t.host != host);
                                assert(w.targets[i] == u.targets[i]);
                            }
                        }
                    },
                    None => {
                        assert forall|i: int| 0 <= i < v.targets.len() implies {
                            let t = v.targets[i];
                            let x = #[trigger] apply_messages(v, ms, now).targets[i];
                            &&& x.host == t.host
                            &&& x.sent == t.sent + pings_for(ms, t.host)
                            &&& x.received == t.received + replies_for(ms, t.host).len()
                            &&& x.history == newest(t.history + replies_for(ms, t.host))
                        } by {
                            assert(u.targets[i].host != host);
                        }
                    },
                }
            },
        }
    }
}

proof fn lemma_targets_ok_after_push(ts: Seq<TargetView>, t: TargetView)
    requires
        forall|i: int| 0 <= i < ts.len() ==> target_ok(#[trigger] ts[i]),
        target_ok(t),
    ensures
        forall|i: int| 0 <= i < ts.push(t).len() ==> target_ok(#[trigger] ts.push(t)[i]),
{
    assert forall|i: int| 0 <= i < ts.push(t).len() implies target_ok(#[trigger] ts.push(t)[i]) by {
        if i < ts.len() {
            assert(ts.push(t)[i] == ts[i]);
        }
    }
}

proof fn lemma_targets_ok_after_remove(ts: Seq<TargetView>, k: int)
    requires
        forall|i: int| 0 <= i < ts.len() ==> target_ok(#[trigger] ts[i]),
        0 <= k < ts.len(),
    ensures
        forall|i: int| 0 <= i < ts.remove(k).len() ==> target_ok(#[trigger] ts.remove(k)[i]),
{
    assert forall|i: int| 0 <= i < ts.remove(k).len() implies target_ok(
        #[trigger] ts.remove(k)[i],
    ) by {
        if i < k {
            assert(ts.remove(k)[i] == ts[i]);
        } else {
            assert(ts.remove(k)[i] == ts[i + 1]);
        }
    }
}

/// Every key keeps the selections in range; in particular the last target
/// is never deleted.
pub proof fn law_key_keeps_selections(v: AppView, key: Key)
    requires
        selections_ok(v),
        key_is_safe(v, key),
    ensures
        selections_ok(key_step(v, key).0),
{
}

/// Every key keeps the invariant: selections stay within their lists, the
/// last target is never deleted, and counters stay sensible.
pub proof fn law_key_keeps_well_formed(v: AppView, key: Key)
    requires
        well_formed(v),
        key_is_safe(v, key),
    ensures
        well_formed(key_step(v, key).0),
{
    law_key_keeps_selections(v, key);
    let w = key_step(v, key).0;
    if v.input_mode {
        if key == Key::Enter {
            let host = crate::text::trim(v.input);
            lemma_targets_ok_after_push(v.targets, crate::models::fresh_target(host));
        }
    } else {
        match key {
            Key::Char(c) => {
                if c == 'd' && v.screen == Screen::MultiPing && v.targets.len() > 1 {
                    lemma_targets_ok_after_remove(v.targets, v.selected_target as int);
                }
            },
            _ => {},
        }
    }
}

/// When the selections are in range every key can be handled, unless the trace is so
/// long that paging down could overflow the scroll position.
pub proof fn law_well_formed_keys_are_safe(v: AppView, key: Key)
    requires
        selections_ok(v),
        v.targets.len() <= usize::MAX,
        v.devices.len() <= usize::MAX,
        v.trace_hops.len() + TRACE_PAGE <= usize::MAX,
    ensures
        key_is_safe(v, key),
{
}

/// Deleting a target never removes the last one.
pub proof fn law_delete_keeps_a_target(v: AppView)
    requires
        selections_ok(v),
        !v.input_mode,
        v.screen == Screen::MultiPing,
    ensures
        key_step(v, Key::Char('d')).0.targets.len() >= 1,
        v.targets.len() > 1 ==> key_step(v, Key::Char('d')).0.targets.len() == v.targets.len()
            - 1,
        v.targets.len() == 1 ==> key_step(v, Key::Char('d')).0.targets == v.targets,
{
}

/// Typing a target never makes two targets share a host.
pub proof fn law_keys_keep_hosts_distinct(v: AppView, key: Key)
    requires
        hosts_distinct(v.targets),
        key_is_safe(v, key),
        !v.input_mode ==> (key == Key::Char('d') && v.screen == Screen::MultiPing && v.targets.len()
            > 1 ==> v.selected_target < v.targets.len()),
    ensures
        hosts_distinct(key_step(v, key).0.targets),
{
    let w = key_step(v, key).0;
    if v.input_mode {
        if key == Key::Enter {
            let host = crate::text::trim(v.input);
            let known = exists|i: int| 0 <= i < v.targets.len() && v.targets[i].host == host;
            if host.len() > 0 && !known {
                let ts = v.targets.push(crate::models::fresh_target(host));
                assert forall|i: int, j: int| 0 <= i < j < ts.len() implies ts[i].host
                    != ts[j].host by {
                    if j == v.targets.len() {
                        assert(ts[i] == v.targets[i]);
                    } else {
                        assert(ts[i] == v.targets[i]);
                        assert(ts[j] == v.targets[j]);
                    }
                }
            }
        }
    } else {
        match key {
            Key::Char(c) => {
                if c == 'd' && v.screen == Screen::MultiPing && v.targets.len() > 1 {
                    let k = v.selected_target as int;
                    let ts = v.targets.remove(k);
                    assert forall|i: int, j: int| 0 <= i < j < ts.len() implies ts[i].host
                        != ts[j].host by {
                        let a = if i < k {
                            i
                        } else {
                            i + 1
                        };
                        let b = if j < k {
                            j
                        } else {
                            j + 1
                        };
                        assert(ts[i] == v.targets[a]);
                        assert(ts[j] == v.targets[b]);
                    }
                }
            },
            _ => {},
        }
    }
}

/// A ping result for a host that a target has updates the first such
/// target alone: one more ping, one more reply when it answered, online
/// exactly when it answered, its latency the one reported (none when it did
/// not answer), checked at `now`, and the reported latency appended to its
/// history (the newest `MAX_HISTORY` kept). Nothing else changes.
pub proof fn law_ping_result_updates_target(
    v: AppView,
    host: Seq<char>,
    latency: Option<Seq<char>>,
    now: u64,
)
    requires
        first_target_index(v.targets, host) is Some,
        message_fits(v, MessageView::PingResult { host, latency }),
    ensures
        ({
            let i = first_target_index(v.targets, host)->0;
            let w = apply_message(v, MessageView::PingResult { host, latency }, now);
            let (t, u) = (v.targets[i], w.targets[i]);
            &&& 0 <= i < v.targets.len()
            &&& w.targets.len() == v.targets.len()
            &&& u.host == host
            &&& u.latency == latency
            &&& u.online == latency is Some
            &&& u.last_checked == Some(now)
            &&& u.sent == t.sent + 1
            &&& u.received == t.received + if latency is Some {
                1int
            } else {
                0int
            }
            &&& latency matches Some(l) ==> u.history == newest(t.history.push(l))
            &&& latency is None ==> u.history == t.history
            &&& forall|j: int| 0 <= j < v.targets.len() && j != i ==> w.targets[j] == v.targets[j]
            &&& AppView { targets: v.targets, ..w } == v
        }),
{
    law_first_target_index(v.targets, host);
    let i = first_target_index(v.targets, host)->0;
    let w = apply_message(v, MessageView::PingResult { host, latency }, now);
    assert(AppView { targets: v.targets, ..w } == v);
}

/// With more than one target, `d` on the ping screen removes exactly the
/// selected target, keeping the others in order, and selects the target
/// that took its place (or the new last one); nothing else changes.
pub proof fn law_delete_removes_selected(v: AppView)
    requires
        !v.input_mode,
        v.screen == Screen::MultiPing,
        v.targets.len() > 1,
        v.selected_target < v.targets.len(),
    ensures
        ({
            let (w, scan) = key_step(v, Key::Char('d'));
            let s = v.selected_target as int;
            &&& !scan
            &&& w.targets.len() == v.targets.len() - 1
            &&& forall|i: int| 0 <= i < s ==> #[trigger] w.targets[i] == v.targets[i]
            &&& forall|i: int| s <= i < w.targets.len() ==> #[trigger] w.targets[i] == v.targets[i
                + 1]
            &&& w.selected_target == if s < v.targets.len() - 1 {
                s
            } else {
                s - 1
            }
            &&& AppView { targets: v.targets, selected_target: v.selected_target, ..w } == v
        }),
{
    let w = key_step(v, Key::Char('d')).0;
    assert(AppView { targets: v.targets, selected_target: v.selected_target, ..w } == v);
}

/// While a target is typed, a character is appended to the text and
/// `Backspace` erases the last one; nothing else changes and no scan starts.
pub proof fn law_typing_edits_text(v: AppView, c: char)
    requires
        v.input_mode,
    ensures
        ({
            let (w, scan) = key_step(v, Key::Char(c));
            &&& !scan
            &&& w.input.len() == v.input.len() + 1
            &&& w.input.last() == c
            &&& w.input.drop_last() == v.input
            &&& AppView { input: v.input, ..w } == v
        }),
        ({
            let (w, scan) = key_step(v, Key::Backspace);
            &&& !scan
            &&& v.input.len() > 0 ==> w.input == v.input.drop_last()
            &&& v.input.len() == 0 ==> w.input.len() == 0
            &&& AppView { input: v.input, ..w } == v
        }),
{
    let w = key_step(v, Key::Char(c)).0;
    assert(w.input.drop_last() =~= v.input);
    assert(AppView { input: v.input, ..w } == v);
    let w2 = key_step(v, Key::Backspace).0;
    assert(AppView { input: v.input, ..w2 } == v);
}

/// `Enter` while a target is typed adds the trimmed text as a new,
/// not yet pinged target at the end of the list and selects it, unless the
/// text is empty or a target already has that host, in which case the
/// targets and the selection stay as they were. Either way the typing ends
/// with an empty text, and no scan starts.
pub proof fn law_enter_adds_target(v: AppView)
    requires
        v.input_mode,
        v.targets.len() < usize::MAX,
    ensures
        ({
            let (w, scan) = key_step(v, Key::Enter);
            let host = trim(v.input);
            let new_host = host.len() > 0 && forall|i: int|
                0 <= i < v.targets.len() ==> #[trigger] v.targets[i].host != host;
            &&& !scan
            &&& !w.input_mode
            &&& w.input.len() == 0
            &&& new_host ==> {
                &&& w.targets.len() == v.targets.len() + 1
                &&& forall|i: int| 0 <= i < v.targets.len() ==> #[trigger] w.targets[i] == v.targets[i]
                &&& w.targets.last().host == host
                &&& w.targets.last().sent == 0
                &&& w.targets.last().received == 0
                &&& !w.targets.last().online
                &&& w.targets.last().latency is None
                &&& w.targets.last().history.len() == 0
                &&& w.selected_target == v.targets.len()
            }
            &&& !new_host ==> w.targets == v.targets && w.selected_target == v.selected_target
            &&& AppView {
                targets: v.targets,
                selected_target: v.selected_target,
                input: v.input,
                input_mode: true,
                ..w
            } == v
        }),
{
    let w = key_step(v, Key::Enter).0;
    assert(AppView {
        targets: v.targets,
        selected_target: v.selected_target,
        input: v.input,
        input_mode: true,
        ..w
    } == v);
}

/// The arrows move the selection of the current screen by one, stopping at
/// the ends (the welcome menu has three options); the trace pages by
/// `TRACE_PAGE` hops within its length; `Home` and `End` go to the first and
/// last device and hop. Nothing else changes, and no scan starts.
pub proof fn law_navigation(v: AppView)
    requires
        selections_ok(v),
        !v.input_mode,
        v.targets.len() <= usize::MAX,
        v.devices.len() <= usize::MAX,
        v.trace_hops.len() <= usize::MAX,
    ensures
        ({
            let (w, scan) = key_step(v, Key::Down);
            &&& !scan
            &&& v.screen == Screen::Welcome ==> w.welcome_index == if v.welcome_index < 2 {
                v.welcome_index + 1
            } else {
                v.welcome_index as int
            }
            &&& v.screen == Screen::MultiPing ==> w.selected_target == if v.selected_target + 1
                < v.targets.len() {
                v.selected_target + 1
            } else {
                v.selected_target as int
            }
            &&& v.screen == Screen::Topology ==> w.selected_device == if v.selected_device + 1
                < v.devices.len() {
                v.selected_device + 1
            } else {
                v.selected_device as int
            }
            &&& AppView {
                welcome_index: v.welcome_index,
                selected_target: v.selected_target,
                selected_device: v.selected_device,
                ..w
            } == v
        }),
        ({
            let (w, scan) = key_step(v, Key::Up);
            &&& !scan
            &&& v.screen == Screen::Welcome ==> w.welcome_index == if v.welcome_index > 0 {
                v.welcome_index - 1
            } else {
                0
            }
            &&& v.screen == Screen::MultiPing ==> w.selected_target == if v.selected_target > 0 {
                v.selected_target - 1
            } else {
                0
            }
            &&& v.screen == Screen::Topology ==> w.selected_device == if v.selected_device > 0 {
                v.selected_device - 1
            } else {
                0
            }
            &&& AppView {
                welcome_index: v.welcome_index,
                selected_target: v.selected_target,
                selected_device: v.selected_device,
                ..w
            } == v
        }),
        v.screen == Screen::Topology ==> ({
            let (w, scan) = key_step(v, Key::PageDown);
            &&& !scan
            &&& w.trace_scroll == if v.trace_scroll + TRACE_PAGE < v.trace_hops.len() {
                v.trace_scroll + TRACE_PAGE
            } else {
                last_index(v.trace_hops.len()) as int
            }
            &&& AppView { trace_scroll: v.trace_scroll, ..w } == v
        }),
        v.screen == Screen::Topology ==> ({
            let (w, scan) = key_step(v, Key::PageUp);
            &&& !scan
            &&& w.trace_scroll == if v.trace_scroll >= TRACE_PAGE {
                v.trace_scroll - TRACE_PAGE
            } else {
                0
            }
            &&& AppView { trace_scroll: v.trace_scroll, ..w } == v
        }),
        v.screen == Screen::Topology ==> ({
            let (w, scan) = key_step(v, Key::Home);
            &&& !scan
            &&& w.selected_device == 0
            &&& w.trace_scroll == 0
            &&& AppView { selected_device: v.selected_device, trace_scroll: v.trace_scroll, ..w }
                == v
        }),
        v.screen == Screen::Topology ==> ({
            let (w, scan) = key_step(v, Key::End);
            &&& !scan
            &&& w.selected_device == last_index(v.devices.len())
            &&& w.trace_scroll == last_index(v.trace_hops.len())
            &&& AppView { selected_device: v.selected_device, trace_scroll: v.trace_scroll, ..w }
                == v
        }),
{
    let w = key_step(v, Key::Down).0;
    assert(AppView {
        welcome_index: v.welcome_index,
        selected_target: v.selected_target,
        selected_device: v.selected_device,
        ..w
    } == v);
    let u = key_step(v, Key::Up).0;
    assert(AppView {
        welcome_index: v.welcome_index,
        selected_target: v.selected_target,
        selected_device: v.selected_device,
        ..u
    } == v);
    let pd = key_step(v, Key::PageDown).0;
    assert(AppView { trace_scroll: v.trace_scroll, ..pd } == v);
    let pu = key_step(v, Key::PageUp).0;
    assert(AppView { trace_scroll: v.trace_scroll, ..pu } == v);
    let h = key_step(v, Key::Home).0;
    assert(AppView { selected_device: v.selected_device, trace_scroll: v.trace_scroll, ..h } == v);
    let e = key_step(v, Key::End).0;
    assert(AppView { selected_device: v.selected_device, trace_scroll: v.trace_scroll, ..e } == v);
}

/// Outside typing, `q` quits, `1` and `2` open the monitor and the ping
/// screen, `Esc` goes back to the welcome screen, `s` starts a scan unless
/// one runs, and `3` opens the topology with a first scan when it has
/// nothing to show and no scan runs.
pub proof fn law_screen_keys(v: AppView)
    requires
        !v.input_mode,
    ensures
        key_step(v, Key::Char('q')) == ((AppView { should_quit: true, ..v }), false),
        key_step(v, Key::Char('1')) == ((AppView { screen: Screen::Monitor, ..v }), false),
        key_step(v, Key::Char('2')) == ((AppView { screen: Screen::MultiPing, ..v }), false),
        key_step(v, Key::Esc) == ((AppView { screen: Screen::Welcome, ..v }), false),
        key_step(v, Key::Char('s')).1 == !v.scanning,
        key_step(v, Key::Char('s')).0.scanning,
        !v.scanning ==> key_step(v, Key::Char('s')).0 == (AppView {
            scanning: true,
            scan_message: scanning_message(),
            ..v
        }),
        v.scanning ==> key_step(v, Key::Char('s')).0 == v,
        key_step(v, Key::Char('3')).0.screen == Screen::Topology,
        key_step(v, Key::Char('3')).1 == (v.devices.len() == 0 && v.trace_hops.len() == 0
            && !v.scanning),
{
}

/// A round of pings is due at the start and then whenever at least
/// `PING_INTERVAL_MS` (two seconds) have passed since the last one began,
/// and never sooner.
pub proof fn law_ping_rounds(last: u64, now: u64)
    ensures
        ping_due(None, now),
        (ping_due(Some(last), now) <==> now >= last + 2000),
        PING_INTERVAL_MS == 2000,
{
}

/// Cancelling the input of a target leaves the targets as they were and
/// clears the text.
pub proof fn law_cancel_input(v: AppView)
    requires
        v.input_mode,
    ensures
        key_step(v, Key::Esc).0.targets == v.targets,
        !key_step(v, Key::Esc).0.input_mode,
        key_step(v, Key::Esc).0.input.len() == 0,
        !key_step(v, Key::Esc).1,
{
}

// ---------------------------------------------------------------------------
// Scans
// ---------------------------------------------------------------------------

/// Only one scan runs at a time: a request while one runs changes nothing
/// and starts nothing.
pub proof fn law_one_scan_at_a_time(v: AppView)
    ensures
        start_scan(start_scan(v).0) == (start_scan(v).0, false),
        start_scan(v).0.scanning,
{
}

/// A scan result always ends the scan and replaces the devices and hops,
/// whatever they were.
pub proof fn law_scan_result_replaces(
    v: AppView,
    devices: Seq<crate::models::DeviceView>,
    hops: Seq<crate::models::TraceHopView>,
    message: Seq<char>,
    now: u64,
)
    ensures
        ({
            let w = apply_message(
                v,
                MessageView::ScanResult { devices, trace_hops: hops, message },
                now,
            );
            &&& !w.scanning
            &&& w.devices == devices
            &&& w.trace_hops == hops
            &&& w.scan_message == message
            &&& w.targets == v.targets
        }),
{
}

/// A ping result for a host that no target has changes nothing.
pub proof fn law_unknown_host_ignored(
    v: AppView,
    host: Seq<char>,
    latency: Option<Seq<char>>,
    now: u64,
)
    requires
        forall|i: int| 0 <= i < v.targets.len() ==> v.targets[i].host != host,
    ensures
        apply_message(v, MessageView::PingResult { host, latency }, now) == v,
{
}

// ---------------------------------------------------------------------------
// Merging the ping sweep with the ARP table
// ---------------------------------------------------------------------------

/// Some device of the ARP table has address `k`.
pub open spec fn arp_has(arps: Seq<DeviceView>, k: u32) -> bool {
    exists|i: int| 0 <= i < arps.len() && ipv4_address(arps[i].ip) == Some(k)
}

/// Some reply of the ping sweep came from address `k`.
pub open spec fn ping_has(pings: Seq<(Seq<char>, Seq<char>)>, k: u32) -> bool {
    exists|i: int| 0 <= i < pings.len() && ipv4_address(pings[i].0) == Some(k)
}

/// The devices as the ARP table yields them: found by ARP, not pinged.
pub open spec fn fresh_arp_devices(arps: Seq<DeviceView>) -> bool {
    forall|i: int|
        0 <= i < arps.len() ==> (#[trigger] arps[i]).source == DiscoverySource::Arp
            && !arps[i].reachable
}

proof fn lemma_arp_has_last(arps: Seq<DeviceView>, k: u32)
    requires
        arps.len() > 0,
    ensures
        arp_has(arps, k) <==> (arp_has(arps.drop_last(), k) || ipv4_address(arps.last().ip) == Some(
            k,
        )),
{
    if arp_has(arps, k) {
        let i = choose|i: int| 0 <= i < arps.len() && ipv4_address(arps[i].ip) == Some(k);
        if i < arps.len() - 1 {
            assert(arps.drop_last()[i] == arps[i]);
        }
    }
    if arp_has(arps.drop_last(), k) {
        let i = choose|i: int|
            0 <= i < arps.drop_last().len() && ipv4_address(arps.drop_last()[i].ip) == Some(k);
        assert(arps[i] == arps.drop_last()[i]);
    }
}

proof fn lemma_ping_has_last(pings: Seq<(Seq<char>, Seq<char>)>, k: u32)
    requires
        pings.len() > 0,
    ensures
        ping_has(pings, k) <==> (ping_has(pings.drop_last(), k) || ipv4_address(pings.last().0)
            == Some(k)),
{
    if ping_has(pings, k) {
        let i = choose|i: int| 0 <= i < pings.len() && ipv4_address(pings[i].0) == Some(k);
        if i < pings.len() - 1 {
            assert(pings.drop_last()[i] == pings[i]);
        }
    }
    if ping_has(pings.drop_last(), k) {
        let i = choose|i: int|
            0 <= i < pings.drop_last().len() && ipv4_address(pings.drop_last()[i].0) == Some(k);
        assert(pings[i] == pings.drop_last()[i]);
    }
}

/// The ARP table files exactly the devices whose address is a dotted IPv4
/// address, each as ARP gave it.
pub proof fn law_arp_map(arps: Seq<DeviceView>, k: u32)
    requires
        fresh_arp_devices(arps),
    ensures
        arp_map(arps).contains_key(k) <==> arp_has(arps, k),
        arp_map(arps).contains_key(k) ==> arp_map(arps)[k].source == DiscoverySource::Arp
            && !arp_map(arps)[k].reachable,
    decreases arps.len(),
{
    if arps.len() > 0 {
        assert(fresh_arp_devices(arps.drop_last())) by {
            assert forall|i: int| 0 <= i < arps.drop_last().len() implies (
            #[trigger] arps.drop_last()[i]).source == DiscoverySource::Arp
                && !arps.drop_last()[i].reachable by {
                assert(arps.drop_last()[i] == arps[i]);
            }
        }
        law_arp_map(arps.drop_last(), k);
        lemma_arp_has_last(arps, k);
        assert(arps.last() == arps[arps.len() - 1]);
    }
}

/// What the merge of a scan says of each address: it lists the addresses
/// that ARP or a ping reply gave; a device is reachable exactly when its
/// address answered a ping; it is marked as found by both, by ARP only or by
/// ping only accordingly; and a device that only answered a ping has an
/// unknown hardware address.
pub proof fn law_merge_sources(pings: Seq<(Seq<char>, Seq<char>)>, arps: Seq<DeviceView>, k: u32)
    requires
        fresh_arp_devices(arps),
    ensures
        ({
            let m = merged_map(pings, arps);
            &&& m.contains_key(k) <==> (arp_has(arps, k) || ping_has(pings, k))
            &&& m.contains_key(k) ==> (m[k].reachable <==> ping_has(pings, k))
            &&& m.contains_key(k) ==> (m[k].source == DiscoverySource::PingAndArp <==> (arp_has(
                arps,
                k,
            ) && ping_has(pings, k)))
            &&& m.contains_key(k) ==> (m[k].source == DiscoverySource::Arp <==> (arp_has(arps, k)
                && !ping_has(pings, k)))
            &&& m.contains_key(k) ==> (m[k].source == DiscoverySource::Ping <==> (!arp_has(arps, k)
                && ping_has(pings, k)))
            &&& (m.contains_key(k) && !arp_has(arps, k)) ==> m[k].mac == UNKNOWN_MAC@
            &&& (m.contains_key(k) && arp_has(arps, k)) ==> m[k].mac == arp_map(arps)[k].mac
        }),
    decreases pings.len(),
{
    if pings.len() == 0 {
        law_arp_map(arps, k);
        assert(!ping_has(pings, k));
    } else {
        law_merge_sources(pings.drop_last(), arps, k);
        lemma_ping_has_last(pings, k);
        assert(pings.last() == pings[pings.len() - 1]);
    }
}

/// Reply `i` of the sweep is the last one from address `k`.
pub open spec fn last_reply_from(pings: Seq<(Seq<char>, Seq<char>)>, k: u32, i: int) -> bool {
    &&& 0 <= i < pings.len()
    &&& ipv4_address(pings[i].0) == Some(k)
    &&& forall|j: int| i < j < pings.len() ==> ipv4_address(#[trigger] pings[j].0) != Some(k)
}

/// A device whose address answered the sweep carries the latency of the
/// last reply from that address, and is reachable, whether ARP knew it or
/// not.
pub proof fn law_merge_keeps_reply_latency(
    pings: Seq<(Seq<char>, Seq<char>)>,
    arps: Seq<DeviceView>,
    k: u32,
    i: int,
)
    requires
        last_reply_from(pings, k, i),
    ensures
        merged_map(pings, arps).contains_key(k),
        merged_map(pings, arps)[k].latency == Some(pings[i].1),
        merged_map(pings, arps)[k].reachable,
    decreases pings.len(),
{
    let n = pings.len() - 1;
    assert(pings.last() == pings[n]);
    if i < n {
        let ps = pings.drop_last();
        assert forall|j: int| i < j < ps.len() implies ipv4_address(#[trigger] ps[j].0) != Some(k) by {
            assert(ps[j] == pings[j]);
        }
        assert(ps[i] == pings[i]);
        law_merge_keeps_reply_latency(ps, arps, k, i);
        assert(ipv4_address(pings[n].0) != Some(k));
    }
}

/// A device whose address did not answer the sweep is the one that ARP
/// gave last for that address, latency included.
pub proof fn law_merge_keeps_unanswered_arp_device(
    pings: Seq<(Seq<char>, Seq<char>)>,
    arps: Seq<DeviceView>,
    k: u32,
)
    requires
        !ping_has(pings, k),
    ensures
        merged_map(pings, arps).contains_key(k) == arp_map(arps).contains_key(k),
        arp_map(arps).contains_key(k) ==> merged_map(pings, arps)[k] == arp_map(arps)[k],
    decreases pings.len(),
{
    if pings.len() > 0 {
        lemma_ping_has_last(pings, k);
        law_merge_keeps_unanswered_arp_device(pings.drop_last(), arps, k);
    }
}

// ---------------------------------------------------------------------------
// The parsers of traceroute and arp
// ---------------------------------------------------------------------------

proof fn lemma_first_address_at(ts: Seq<Seq<char>>, j: int)
    requires
        0 <= j < ts.len(),
        ts[j] != "*"@,
        !is_float_literal(ts[j]),
        forall|i: int| 0 <= i < j ==> (#[trigger] ts[i]) == "*"@ || is_float_literal(ts[i]),
    ensures
        first_address(ts) == ts[j],
    decreases j,
{
    if j > 0 {
        let rest = ts.drop_first();
        assert forall|i: int| 0 <= i < j - 1 implies (#[trigger] rest[i]) == "*"@
            || is_float_literal(rest[i]) by {
            assert(rest[i] == ts[i + 1]);
        }
        assert(rest[j - 1] == ts[j]);
        assert(ts[0] == "*"@ || is_float_literal(ts[0]));
        lemma_first_address_at(rest, j - 1);
    }
}

proof fn lemma_no_address(ts: Seq<Seq<char>>)
    requires
        forall|i: int| 0 <= i < ts.len() ==> (#[trigger] ts[i]) == "*"@ || is_float_literal(ts[i]),
    ensures
        first_address(ts) == "*"@,
    decreases ts.len(),
{
    if ts.len() > 0 {
        let rest = ts.drop_first();
        assert forall|i: int| 0 <= i < rest.len() implies (#[trigger] rest[i]) == "*"@
            || is_float_literal(rest[i]) by {
            assert(rest[i] == ts[i + 1]);
        }
        assert(ts[0] == "*"@ || is_float_literal(ts[0]));
        lemma_no_address(rest);
    }
}

/// A traceroute line whose first word is a hop number gives that hop, with
/// the first later word that is neither `*` nor a number as its address,
/// whatever stars or numbers come before it.
pub proof fn law_trace_hop_address(line: Seq<char>, j: int)
    requires
        words(line).len() > 0,
        parse_u8(words(line)[0]) is Some,
        1 <= j < words(line).len(),
        words(line)[j] != "*"@,
        !is_float_literal(words(line)[j]),
        forall|i: int|
            1 <= i < j ==> (#[trigger] words(line)[i]) == "*"@ || is_float_literal(words(line)[i]),
    ensures
        trace_line(line) matches Some(h) && h.hop == parse_u8(words(line)[0])->0 && h.address
            == words(line)[j],
{
    let ws = words(line);
    let ts = ws.skip(1);
    assert forall|i: int| 0 <= i < j - 1 implies (#[trigger] ts[i]) == "*"@ || is_float_literal(
        ts[i],
    ) by {
        assert(ts[i] == ws[i + 1]);
    }
    assert(ts[j - 1] == ws[j]);
    lemma_first_address_at(ts, j - 1);
}

/// A traceroute line whose words after the hop number are all stars or
/// numbers gives the hop with the address `*`.
pub proof fn law_trace_hop_without_address(line: Seq<char>)
    requires
        words(line).len() > 0,
        parse_u8(words(line)[0]) is Some,
        forall|i: int|
            1 <= i < words(line).len() ==> (#[trigger] words(line)[i]) == "*"@ || is_float_literal(
                words(line)[i],
            ),
    ensures
        trace_line(line) matches Some(h) && h.hop == parse_u8(words(line)[0])->0 && h.address
            == "*"@,
{
    let ws = words(line);
    let ts = ws.skip(1);
    assert forall|i: int| 0 <= i < ts.len() implies (#[trigger] ts[i]) == "*"@ || is_float_literal(
        ts[i],
    ) by {
        assert(ts[i] == ws[i + 1]);
    }
    lemma_no_address(ts);
}

/// A device read from an ARP line has as address the text between the
/// first `(` and the next `)` when the line holds a `(` (whatever word comes
/// first), and the first word otherwise; that address holds a `.`; the
/// device is found by ARP, not pinged. Conversely, a complete line whose
/// parenthesised text holds a `.` always gives a device.
pub proof fn law_arp_address(line: Seq<char>)
    ensures
        arp_line(line) matches Some(d) ==> {
            &&& split_at_char(line, '(').len() > 1 ==> d.ip == split_at_char(
                split_at_char(line, '(')[1],
                ')',
            )[0]
            &&& split_at_char(line, '(').len() <= 1 ==> d.ip == words(line)[0]
            &&& d.ip.contains('.')
            &&& d.source == DiscoverySource::Arp
            &&& !d.reachable
            &&& d.latency is None
        },
        ({
            let ws = words(line);
            &&& forall|i: int|
                0 <= i < ws.len() ==> (#[trigger] ws[i]) != "(incomplete)"@ && ws[i]
                    != "incomplete"@
            &&& split_at_char(line, '(').len() > 1
            &&& split_at_char(split_at_char(line, '(')[1], ')')[0].contains('.')
        }) ==> arp_line(line) is Some,
{
    crate::text::lemma_split_at_char_nonempty(line, '(');
    if split_at_char(line, '(').len() > 1 {
        crate::text::lemma_split_at_char_nonempty(split_at_char(line, '(')[1], ')');
    }
}

/// A word that reports the timing of a ping: `time=...`, `time<1` or
/// `time<1ms`.
pub open spec fn is_timing_word(w: Seq<char>) -> bool {
    has_prefix(w, "time="@) || w == "time<1"@ || w == "time<1ms"@
}

proof fn lemma_ping_latency_at(ws: Seq<Seq<char>>, j: int)
    requires
        0 <= j < ws.len(),
        is_timing_word(ws[j]),
        forall|i: int| 0 <= i < j ==> !is_timing_word(#[trigger] ws[i]),
    ensures
        ping_latency_in(ws) == ping_latency_in(ws.skip(j)),
    decreases j,
{
    if j > 0 {
        let rest = ws.drop_first();
        assert forall|i: int| 0 <= i < j - 1 implies !is_timing_word(#[trigger] rest[i]) by {
            assert(rest[i] == ws[i + 1]);
        }
        assert(!is_timing_word(ws[0]));
        lemma_ping_latency_at(rest, j - 1);
        assert(rest.skip(j - 1) =~= ws.skip(j));
    }
}

proof fn lemma_ping_latency_none(ws: Seq<Seq<char>>)
    requires
        forall|i: int| 0 <= i < ws.len() ==> !is_timing_word(#[trigger] ws[i]),
    ensures
        ping_latency_in(ws) is None,
    decreases ws.len(),
{
    if ws.len() > 0 {
        let rest = ws.drop_first();
        assert forall|i: int| 0 <= i < rest.len() implies !is_timing_word(#[trigger] rest[i]) by {
            assert(rest[i] == ws[i + 1]);
        }
        assert(!is_timing_word(ws[0]));
        lemma_ping_latency_none(rest);
    }
}

/// The latency of a ping line comes from its first timing word: after
/// `time=`, the number less its trailing `ms` (none when that is not a
/// number); for `time<1` or `time<1ms`, half a millisecond. A line without a
/// timing word reports no latency.
pub proof fn law_ping_latency_from_first_timing_word(text: Seq<char>, j: int)
    requires
        0 <= j < words(text).len(),
        is_timing_word(words(text)[j]),
        forall|i: int| 0 <= i < j ==> !is_timing_word(#[trigger] words(text)[i]),
    ensures
        ({
            let w = words(text)[j];
            let raw = trim_end_matches(w.skip("time="@.len() as int), "ms"@);
            ping_latency(text) == if has_prefix(w, "time="@) {
                if is_float_literal(raw) {
                    Some(raw)
                } else {
                    None
                }
            } else {
                Some("0.5"@)
            }
        }),
{
    reveal_strlit("0.5");
    let ws = words(text);
    lemma_ping_latency_at(ws, j);
    assert(ws.skip(j)[0] == ws[j]);
}

/// A ping line without a timing word reports no latency.
pub proof fn law_ping_latency_none(text: Seq<char>)
    requires
        forall|i: int| 0 <= i < words(text).len() ==> !is_timing_word(#[trigger] words(text)[i]),
    ensures
        ping_latency(text) is None,
{
    lemma_ping_latency_none(words(text));
}

/// Word `j` of a traceroute line reports a latency: a number once its
/// trailing `ms` are removed, and either ending in `ms` or followed by the
/// word `ms`.
pub open spec fn reports_latency(ws: Seq<Seq<char>>, j: int) -> bool {
    &&& is_float_literal(trim_end_matches(ws[j], "ms"@))
    &&& (has_suffix(ws[j], "ms"@) || (j + 1 < ws.len() && ws[j + 1] == "ms"@))
}

proof fn lemma_first_latency_at(ts: Seq<Seq<char>>, from: int, j: int)
    requires
        0 <= from <= j < ts.len(),
        reports_latency(ts, j),
        forall|i: int| from <= i < j ==> !reports_latency(ts, i),
    ensures
        first_latency_from(ts, from) == Some(trim_end_matches(ts[j], "ms"@)),
    decreases j - from,
{
    if from < j {
        assert(!reports_latency(ts, from));
        lemma_first_latency_at(ts, from + 1, j);
    }
}

proof fn lemma_no_latency(ts: Seq<Seq<char>>, from: int)
    requires
        0 <= from,
        forall|i: int| from <= i < ts.len() ==> !reports_latency(ts, i),
    ensures
        first_latency_from(ts, from) is None,
    decreases ts.len() - from,
{
    if from < ts.len() {
        assert(!reports_latency(ts, from));
        lemma_no_latency(ts, from + 1);
    }
}

/// The latency of a traceroute hop is the first word after the hop number
/// that reports one, less its `ms`; a hop whose words report none has no
/// latency.
pub proof fn law_trace_hop_latency(line: Seq<char>, j: int)
    requires
        words(line).len() > 0,
        parse_u8(words(line)[0]) is Some,
        1 <= j < words(line).len(),
        reports_latency(words(line), j),
        forall|i: int| 1 <= i < j ==> !reports_latency(words(line), i),
    ensures
        trace_line(line) matches Some(h) && h.latency == Some(trim_end_matches(words(line)[j], "ms"@)),
{
    let ws = words(line);
    let ts = ws.skip(1);
    assert forall|i: int| 0 <= i < ts.len() implies #[trigger] reports_latency(ts, i)
        == reports_latency(ws, i + 1) by {
        assert(ts[i] == ws[i + 1]);
        if i + 1 < ts.len() {
            assert(ts[i + 1] == ws[i + 2]);
        }
    }
    assert forall|i: int| 0 <= i < j - 1 implies !reports_latency(ts, i) by {
        assert(reports_latency(ts, i) == reports_latency(ws, i + 1));
    }
    assert(reports_latency(ts, j - 1) == reports_latency(ws, j));
    lemma_first_latency_at(ts, 0, j - 1);
    assert(ts[j - 1] == ws[j]);
}

/// A traceroute hop none of whose words after the hop number reports a
/// latency has no latency.
pub proof fn law_trace_hop_without_latency(line: Seq<char>)
    requires
        words(line).len() > 0,
        parse_u8(words(line)[0]) is Some,
        forall|i: int| 1 <= i < words(line).len() ==> !reports_latency(words(line), i),
    ensures
        trace_line(line) matches Some(h) && h.latency is None,
{
    let ws = words(line);
    let ts = ws.skip(1);
    assert forall|i: int| 0 <= i < ts.len() implies !reports_latency(ts, i) by {
        assert(ts[i] == ws[i + 1]);
        if i + 1 < ts.len() {
            assert(ts[i + 1] == ws[i + 2]);
        }
        assert(!reports_latency(ws, i + 1));
    }
    lemma_no_latency(ts, 0);
}

/// A word with five `:` or five `-`: a hardware address.
pub open spec fn looks_like_mac(w: Seq<char>) -> bool {
    count_char(w, ':') == 5 || count_char(w, '-') == 5
}

proof fn lemma_first_mac_at(ws: Seq<Seq<char>>, j: int)
    requires
        0 <= j < ws.len(),
        looks_like_mac(ws[j]),
        forall|i: int| 0 <= i < j ==> !looks_like_mac(#[trigger] ws[i]),
    ensures
        first_mac(ws) == ws[j],
    decreases j,
{
    if j > 0 {
        let rest = ws.drop_first();
        assert forall|i: int| 0 <= i < j - 1 implies !looks_like_mac(#[trigger] rest[i]) by {
            assert(rest[i] == ws[i + 1]);
        }
        assert(!looks_like_mac(ws[0]));
        lemma_first_mac_at(rest, j - 1);
    }
}

proof fn lemma_no_mac(ws: Seq<Seq<char>>)
    requires
        forall|i: int| 0 <= i < ws.len() ==> !looks_like_mac(#[trigger] ws[i]),
    ensures
        first_mac(ws) == UNKNOWN_MAC@,
    decreases ws.len(),
{
    if ws.len() > 0 {
        let rest = ws.drop_first();
        assert forall|i: int| 0 <= i < rest.len() implies !looks_like_mac(#[trigger] rest[i]) by {
            assert(rest[i] == ws[i + 1]);
        }
        assert(!looks_like_mac(ws[0]));
        lemma_no_mac(rest);
    }
}

/// The hardware address of a device read from an ARP line is the first word
/// of the line with five `:` or five `-`, and `desconocida` when there is
/// none.
pub proof fn law_arp_hardware_address(line: Seq<char>)
    ensures
        arp_line(line) matches Some(d) ==> {
            &&& forall|j: int|
                0 <= j < words(line).len() && looks_like_mac(#[trigger] words(line)[j]) && (forall|
                    i: int,
                | 0 <= i < j ==> !looks_like_mac(#[trigger] words(line)[i])) ==> d.mac
                    == words(line)[j]
            &&& (forall|i: int|
                0 <= i < words(line).len() ==> !looks_like_mac(#[trigger] words(line)[i]))
                ==> d.mac == UNKNOWN_MAC@
        },
{
    let ws = words(line);
    if arp_line(line) is Some {
        assert forall|j: int|
            0 <= j < ws.len() && looks_like_mac(#[trigger] ws[j]) && (forall|i: int|
                0 <= i < j ==> !looks_like_mac(#[trigger] ws[i])) implies arp_line(line)->0.mac
            == ws[j] by {
            lemma_first_mac_at(ws, j);
        }
        if forall|i: int| 0 <= i < ws.len() ==> !looks_like_mac(#[trigger] ws[i]) {
            lemma_no_mac(ws);
        }
    }
}

proof fn lemma_label_at(ls: Seq<Seq<char>>, label: Seq<char>, j: int)
    requires
        0 <= j < ls.len(),
        has_prefix(trim(ls[j]), label),
        forall|i: int| 0 <= i < j ==> !has_prefix(trim(#[trigger] ls[i]), label),
    ensures
        value_after_label_in(ls, label) == Some(trim(trim(ls[j]).skip(label.len() as int))),
    decreases j,
{
    if j > 0 {
        let rest = ls.drop_first();
        assert forall|i: int| 0 <= i < j - 1 implies !has_prefix(trim(#[trigger] rest[i]), label) by {
            assert(rest[i] == ls[i + 1]);
        }
        assert(!has_prefix(trim(ls[0]), label));
        lemma_label_at(rest, label, j - 1);
    }
}

proof fn lemma_no_label(ls: Seq<Seq<char>>, label: Seq<char>)
    requires
        forall|i: int| 0 <= i < ls.len() ==> !has_prefix(trim(#[trigger] ls[i]), label),
    ensures
        value_after_label_in(ls, label) is None,
    decreases ls.len(),
{
    if ls.len() > 0 {
        let rest = ls.drop_first();
        assert forall|i: int| 0 <= i < rest.len() implies !has_prefix(trim(#[trigger] rest[i]), label) by {
            assert(rest[i] == ls[i + 1]);
        }
        assert(!has_prefix(trim(ls[0]), label));
        lemma_no_label(rest, label);
    }
}

/// The value of a `label: value` line (as `route -n get` prints them) is
/// read from the first line that starts with the label once trimmed: the
/// rest of that line, trimmed. Without such a line there is no value.
pub proof fn law_value_after_label(text: Seq<char>, label: Seq<char>)
    ensures
        forall|j: int|
            0 <= j < lines(text).len() && has_prefix(trim(#[trigger] lines(text)[j]), label) && (
            forall|i: int| 0 <= i < j ==> !has_prefix(trim(#[trigger] lines(text)[i]), label))
                ==> value_after_label_in(lines(text), label) == Some(
                trim(trim(lines(text)[j]).skip(label.len() as int)),
            ),
        (forall|i: int| 0 <= i < lines(text).len() ==> !has_prefix(trim(#[trigger] lines(text)[i]), label))
            ==> value_after_label_in(lines(text), label) is None,
{
    let ls = lines(text);
    assert forall|j: int|
        0 <= j < ls.len() && has_prefix(trim(#[trigger] ls[j]), label) && (forall|i: int|
            0 <= i < j ==> !has_prefix(trim(#[trigger] ls[i]), label)) implies value_after_label_in(
        ls,
        label,
    ) == Some(trim(trim(ls[j]).skip(label.len() as int))) by {
        lemma_label_at(ls, label, j);
    }
    if forall|i: int| 0 <= i < ls.len() ==> !has_prefix(trim(#[trigger] ls[i]), label) {
        lemma_no_label(ls, label);
    }
}

proof fn lemma_word_after_at(ws: Seq<Seq<char>>, needle: Seq<char>, j: int)
    requires
        0 <= j,
        j + 1 < ws.len(),
        ws[j] == needle,
        forall|i: int| 0 <= i < j ==> #[trigger] ws[i] != needle,
    ensures
        word_after_in(ws, needle) == Some(ws[j + 1]),
    decreases j,
{
    if j > 0 {
        let rest = ws.drop_first();
        assert forall|i: int| 0 <= i < j - 1 implies #[trigger] rest[i] != needle by {
            assert(rest[i] == ws[i + 1]);
        }
        assert(ws[0] != needle);
        assert(rest[j - 1] == ws[j] && rest[j] == ws[j + 1]);
        lemma_word_after_at(rest, needle, j - 1);
    }
}

proof fn lemma_no_word_after(ws: Seq<Seq<char>>, needle: Seq<char>)
    requires
        forall|i: int| 0 <= i < ws.len() - 1 ==> #[trigger] ws[i] != needle,
    ensures
        word_after_in(ws, needle) is None,
    decreases ws.len(),
{
    if ws.len() >= 2 {
        let rest = ws.drop_first();
        assert forall|i: int| 0 <= i < rest.len() - 1 implies #[trigger] rest[i] != needle by {
            assert(rest[i] == ws[i + 1]);
        }
        assert(ws[0] != needle);
        lemma_no_word_after(rest, needle);
    }
}

/// The word after `needle` (as `ip route` prints `via <gateway> dev
/// <interface>`) is the word that follows its first occurrence among all
/// but the last word; there is none when no such occurrence exists.
pub proof fn law_word_after(ws: Seq<Seq<char>>, needle: Seq<char>)
    ensures
        forall|j: int|
            0 <= j && j + 1 < ws.len() && #[trigger] ws[j] == needle && (forall|i: int|
                0 <= i < j ==> #[trigger] ws[i] != needle) ==> word_after_in(ws, needle) == Some(
                ws[j + 1],
            ),
        (forall|i: int| 0 <= i < ws.len() - 1 ==> #[trigger] ws[i] != needle) ==> word_after_in(
            ws,
            needle,
        ) is None,
{
    assert forall|j: int|
        0 <= j && j + 1 < ws.len() && #[trigger] ws[j] == needle && (forall|i: int|
            0 <= i < j ==> #[trigger] ws[i] != needle) implies word_after_in(ws, needle) == Some(
        ws[j + 1],
    ) by {
        lemma_word_after_at(ws, needle, j);
    }
    if forall|i: int| 0 <= i < ws.len() - 1 ==> #[trigger] ws[i] != needle {
        lemma_no_word_after(ws, needle);
    }
}

// ---------------------------------------------------------------------------
// The ping sweep
// ---------------------------------------------------------------------------

/// The sweep pings every host of the `/24` network exactly once: each last
/// octet from 1 to 254 is the `m`-th turn of exactly one worker `w`.
pub proof fn law_sweep_covers_each_host_once(octet: int)
    requires
        1 <= octet <= 254,
    ensures
        sweep_octet((octet - 1) % 32, (octet - 1) / 32) == octet,
        forall|w: int, m: int|
            0 <= w < 32 && 0 <= m && #[trigger] sweep_octet(w, m) == octet ==> w == (octet - 1)
                % 32 && m == (octet - 1) / 32,
{
    assert forall|w: int, m: int|
        0 <= w < 32 && 0 <= m && #[trigger] sweep_octet(w, m) == octet implies w == (octet - 1)
            % 32 && m == (octet - 1) / 32 by {
        assert(octet - 1 == 32 * m + w);
        assert((32 * m + w) / 32 == m && (32 * m + w) % 32 == w) by (nonlinear_arith)
            requires
                0 <= w < 32,
                0 <= m,
        ;
    }
}

// ---------------------------------------------------------------------------
// Windows of long lists
// ---------------------------------------------------------------------------

/// The window of a list always shows the selected item, and never runs past
/// the end of the list.
pub proof fn law_window_keeps_selection_visible(item_count: nat, selected: nat, visible_count: nat)
    requires
        visible_count >= 1,
        selected < item_count,
    ensures
        window_start(item_count, selected, visible_count) <= selected,
        selected < window_start(item_count, selected, visible_count) + visible_count,
        item_count > visible_count ==> window_start(item_count, selected, visible_count)
            + visible_count <= item_count,
{
}

/// The trace window starts at the scroll position when the list is long
/// enough, and never leaves rows empty that the list could fill.
pub proof fn law_trace_window_full(trace_scroll: nat, hop_count: nat, visible_count: nat)
    ensures
        min_nat(trace_scroll, sat_sub(hop_count, visible_count)) <= trace_scroll,
        hop_count >= visible_count ==> min_nat(trace_scroll, sat_sub(hop_count, visible_count))
            + visible_count <= hop_count,
{
}

} // verus!
