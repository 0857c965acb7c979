//! What the keys do. The caller turns the terminal's key events into `Key`
//! values and starts a scan when the returned effect asks for one.

use vstd::prelude::*;
use crate::app::{
    effect_of, last_index, min_nat, open_topology_view, start_scan, App, AppView, Effect,
};
use crate::models::{fresh_target, PingTarget, Screen};
use crate::text::{chars_eq, chars_of, pop_char, push_char, string_of, trim, trim_range};

verus! {

/// A key press, as far as the monitor tells keys apart.
#[derive(Clone, Copy, Debug, PartialEq, Eq, Structural)]
pub enum Key {
    Char(char),
    Enter,
    Esc,
    Backspace,
    Up,
    Down,
    PageUp,
    PageDown,
    Home,
    End,
    Other,
}

/// How many hops PageUp and PageDown scroll the trace.
pub const TRACE_PAGE: usize = 5;

/// The state after a key while a target is being typed: `Esc` cancels,
/// `Enter` adds the trimmed text as a new target (unless it is empty or a
/// target already has it) and selects it, `Backspace` erases the last
/// character, and a character is appended.
pub open spec fn input_step(v: AppView, key: Key) -> AppView {
    match key {
        Key::Esc => AppView { input_mode: false, input: seq![], ..v },
        Key::Enter => {
            let host = trim(v.input);
            let known = exists|i: int| 0 <= i < v.targets.len() && v.targets[i].host == host;
            let v1 = if host.len() > 0 && !known {
                AppView {
                    targets: v.targets.push(fresh_target(host)),
                    selected_target: v.targets.len() as usize,
                    ..v
                }
            } else {
                v
            };
            AppView { input_mode: false, input: seq![], ..v1 }
        },
        Key::Backspace => AppView {
            input: if v.input.len() > 0 {
                v.input.drop_last()
            } else {
                v.input
            },
            ..v
        },
        Key::Char(c) => AppView { input: v.input.push(c), ..v },
        _ => v,
    }
}

/// The state after the up arrow: the previous welcome option, target or
/// device, stopping at the first.
pub open spec fn up_step(v: AppView) -> AppView {
    match v.screen {
        Screen::Welcome => AppView { welcome_index: last_index(v.welcome_index as nat) as usize, ..v },
        Screen::MultiPing => AppView {
            selected_target: last_index(v.selected_target as nat) as usize,
            ..v
        },
        Screen::Topology => AppView {
            selected_device: last_index(v.selected_device as nat) as usize,
            ..v
        },
        Screen::Monitor => v,
    }
}

/// The state after the down arrow: the next welcome option (of three),
/// target or device, stopping at the last.
pub open spec fn down_step(v: AppView) -> AppView {
    match v.screen {
        Screen::Welcome => AppView {
            welcome_index: min_nat((v.welcome_index + 1) as nat, 2) as usize,
            ..v
        },
        Screen::MultiPing => AppView {
            selected_target: min_nat(
                (v.selected_target + 1) as nat,
                last_index(v.targets.len()),
            ) as usize,
            ..v
        },
        Screen::Topology => AppView {
            selected_device: min_nat(
                (v.selected_device + 1) as nat,
                last_index(v.devices.len()),
            ) as usize,
            ..v
        },
        Screen::Monitor => v,
    }
}

/// The state after deleting the selected target: nothing happens to the
/// last one left.
pub open spec fn delete_step(v: AppView) -> AppView {
    if v.targets.len() > 1 {
        let ts = v.targets.remove(v.selected_target as int);
        AppView {
            targets: ts,
            selected_target: min_nat(v.selected_target as nat, (ts.len() - 1) as nat) as usize,
            ..v
        }
    } else {
        v
    }
}

/// The state after confirming the selected welcome option: the monitor, the
/// pings, or the topology with a scan.
pub open spec fn welcome_step(v: AppView) -> (AppView, bool) {
    if v.welcome_index == 0 {
        (AppView { screen: Screen::Monitor, ..v }, false)
    } else if v.welcome_index == 1 {
        (AppView { screen: Screen::MultiPing, ..v }, false)
    } else {
        start_scan(AppView { screen: Screen::Topology, ..v })
    }
}

/// The state after a key outside target input, and whether a scan started.
pub open spec fn command_step(v: AppView, key: Key) -> (AppView, bool) {
    match key {
        Key::Char(c) => if c == 'q' {
            (AppView { should_quit: true, ..v }, false)
        } else if c == '1' {
            (AppView { screen: Screen::Monitor, ..v }, false)
        } else if c == '2' {
            (AppView { screen: Screen::MultiPing, ..v }, false)
        } else if c == '3' {
            open_topology_view(v)
        } else if c == 's' {
            start_scan(v)
        } else if c == 'a' && v.screen == Screen::MultiPing {
            (AppView { input_mode: true, ..v }, false)
        } else if c == 'd' && v.screen == Screen::MultiPing {
            (delete_step(v), false)
        } else {
            (v, false)
        },
        Key::Esc => (AppView { screen: Screen::Welcome, ..v }, false),
        Key::Up => (up_step(v), false),
        Key::Down => (down_step(v), false),
        Key::PageUp => if v.screen == Screen::Topology {
            (
                AppView {
                    trace_scroll: if v.trace_scroll >= TRACE_PAGE {
                        (v.trace_scroll - TRACE_PAGE) as usize
                    } else {
                        0
                    },
                    ..v
                },
                false,
            )
        } else {
            (v, false)
        },
        Key::PageDown => if v.screen == Screen::Topology {
            (
                AppView {
                    trace_scroll: min_nat(
                        (v.trace_scroll + TRACE_PAGE) as nat,
                        last_index(v.trace_hops.len()),
                    ) as usize,
                    ..v
                },
                false,
            )
        } else {
            (v, false)
        },
        Key::Home => if v.screen == Screen::Topology {
            (AppView { selected_device: 0, trace_scroll: 0, ..v }, false)
        } else {
            (v, false)
        },
        Key::End => if v.screen == Screen::Topology {
            (
                AppView {
                    selected_device: last_index(v.devices.len()) as usize,
                    trace_scroll: last_index(v.trace_hops.len()) as usize,
                    ..v
                },
                false,
            )
        } else {
            (v, false)
        },
        Key::Enter => if v.screen == Screen::Welcome {
            welcome_step(v)
        } else {
            (v, false)
        },
        _ => (v, false),
    }
}

/// The state after any key, and whether a scan started.
pub open spec fn key_step(v: AppView, key: Key) -> (AppView, bool) {
    if v.input_mode {
        (input_step(v, key), false)
    } else {
        command_step(v, key)
    }
}

/// Whether a key can be handled without an index leaving its list or a
/// counter overflowing.
pub open spec fn key_is_safe(v: AppView, key: Key) -> bool {
    if v.input_mode {
        true
    } else {
        match key {
            Key::Char(c) => (c == 'd' && v.screen == Screen::MultiPing && v.targets.len() > 1)
                ==> v.selected_target < v.targets.len(),
            Key::Down => match v.screen {
                Screen::Welcome => v.welcome_index < usize::MAX,
                Screen::MultiPing => v.selected_target < usize::MAX,
                Screen::Topology => v.selected_device < usize::MAX,
                Screen::Monitor => true,
            },
            Key::PageDown => v.screen == Screen::Topology ==> v.trace_scroll + TRACE_PAGE
                <= usize::MAX,
            _ => true,
        }
    }
}

impl App {
    /// Handles a key while a target is being typed.
    fn handle_input_key(&mut self, key: Key)
        requires
            old(self).input_mode,
        ensures
            final(self)@ == input_step(old(self)@, key),
    {
        match key {
            Key::Esc => {
                self.input_mode = false;
                self.input = String::new();
            },
            Key::Enter => {
                let cs = chars_of(self.input.as_str());
                let (a, b) = trim_range(cs.as_slice(), 0, cs.len());
                assert(cs@.subrange(0, cs@.len() as int) =~= cs@);
                let host = string_of(cs.as_slice(), a, b);
                let hc = chars_of(host.as_str());
                let ghost ts = self@.targets;
                let mut known = false;
                let mut i: usize = 0;
                while i < self.targets.len()
                    invariant
                        0 <= i <= self.targets@.len(),
                        ts == self@.targets,
                        hc@ == host@,
                        known == exists|j: int| 0 <= j < i && ts[j].host == host@,
                    decreases self.targets@.len() - i,
                {
                    let th = chars_of(self.targets[i].host.as_str());
                    let same = chars_eq(th.as_slice(), hc.as_slice());
                    proof {
                        assert(ts[i as int].host == th@);
                        if same {
                            assert(0 <= i < i + 1 && ts[i as int].host == host@);
                        } else {
                            assert forall|j: int| 0 <= j < i + 1 && ts[j].host == host@ implies 0
                                <= j < i && ts[j].host == host@ by {}
                        }
                    }
                    if same {
                        known = true;
                    }
                    i = i + 1;
                }
                if b > a && !known {
                    let ghost v = self@;
                    self.targets.push(PingTarget::new(host.as_str()));
                    self.selected_target = self.targets.len() - 1;
                    assert(self@.targets =~= v.targets.push(fresh_target(host@)));
                }
                self.input_mode = false;
                self.input = String::new();
            },
            Key::Backspace => {
                let _ = pop_char(&mut self.input);
            },
            Key::Char(c) => {
                push_char(&mut self.input, c);
            },
            _ => {},
        }
    }

    /// Moves the selection of the current screen up.
    fn handle_up(&mut self)
        ensures
            final(self)@ == up_step(old(self)@),
    {
        match self.screen {
            Screen::Welcome => {
                if self.welcome_index > 0 {
                    self.welcome_index = self.welcome_index - 1;
                }
            },
            Screen::MultiPing => {
                if self.selected_target > 0 {
                    self.selected_target = self.selected_target - 1;
                }
            },
            Screen::Topology => self.previous_device(),
            Screen::Monitor => {},
        }
    }

    /// Moves the selection of the current screen down.
    fn handle_down(&mut self)
        requires
            key_is_safe(old(self)@, Key::Down),
            !old(self).input_mode,
        ensures
            final(self)@ == down_step(old(self)@),
    {
        match self.screen {
            Screen::Welcome => {
                let next = self.welcome_index + 1;
                self.welcome_index = if next <= 2 {
                    next
                } else {
                    2
                };
            },
            Screen::MultiPing => {
                let last = if self.targets.len() == 0 {
                    0
                } else {
                    self.targets.len() - 1
                };
                let next = self.selected_target + 1;
                self.selected_target = if next <= last {
                    next
                } else {
                    last
                };
            },
            Screen::Topology => self.next_device(),
            Screen::Monitor => {},
        }
    }

    /// Deletes the selected target, unless it is the last one.
    fn delete_selected_target(&mut self)
        requires
            old(self).targets@.len() > 1 ==> old(self).selected_target < old(self).targets@.len(),
        ensures
            final(self)@ == delete_step(old(self)@),
    {
        if self.targets.len() > 1 {
            let ghost v = self@;
            let _ = self.targets.remove(self.selected_target);
            assert(self@.targets =~= v.targets.remove(v.selected_target as int));
            let last = self.targets.len() - 1;
            if self.selected_target > last {
                self.selected_target = last;
            }
        }
    }

    /// Opens the module selected on the welcome screen.
    fn open_selected_welcome_option(&mut self) -> (e: Effect)
        ensures
            (final(self)@, e == Effect::StartScan) == welcome_step(old(self)@),
    {
        if self.welcome_index == 0 {
            self.screen = Screen::Monitor;
            Effect::Nothing
        } else if self.welcome_index == 1 {
            self.screen = Screen::MultiPing;
            Effect::Nothing
        } else {
            self.screen = Screen::Topology;
            self.scan()
        }
    }

    /// Handles a key outside target input.
    fn handle_command_key(&mut self, key: Key) -> (e: Effect)
        requires
            !old(self).input_mode,
            key_is_safe(old(self)@, key),
        ensures
            (final(self)@, e == Effect::StartScan) == command_step(old(self)@, key),
    {
        match key {
            Key::Char(c) => {
                if c == 'q' {
                    self.should_quit = true;
                } else if c == '1' {
                    self.screen = Screen::Monitor;
                } else if c == '2' {
                    self.screen = Screen::MultiPing;
                } else if c == '3' {
                    return self.open_topology();
                } else if c == 's' {
                    return self.scan();
                } else if c == 'a' && self.screen == Screen::MultiPing {
                    self.input_mode = true;
                } else if c == 'd' && self.screen == Screen::MultiPing {
                    self.delete_selected_target();
                }
                Effect::Nothing
            },
            Key::Esc => {
                self.screen = Screen::Welcome;
                Effect::Nothing
            },
            Key::Up => {
                self.handle_up();
                Effect::Nothing
            },
            Key::Down => {
                self.handle_down();
                Effect::Nothing
            },
            Key::PageUp => {
                if self.screen == Screen::Topology {
                    self.scroll_trace_up(TRACE_PAGE);
                }
                Effect::Nothing
            },
            Key::PageDown => {
                if self.screen == Screen::Topology {
                    self.scroll_trace_down(TRACE_PAGE);
                }
                Effect::Nothing
            },
            Key::Home => {
                if self.screen == Screen::Topology {
                    self.selected_device = 0;
                    self.trace_scroll = 0;
                }
                Effect::Nothing
            },
            Key::End => {
                if self.screen == Screen::Topology {
                    self.selected_device = if self.devices.len() == 0 {
                        0
                    } else {
                        self.devices.len() - 1
                    };
                    self.trace_scroll = if self.trace_hops.len() == 0 {
                        0
                    } else {
                        self.trace_hops.len() - 1
                    };
                }
                Effect::Nothing
            },
            Key::Enter => {
                if self.screen == Screen::Welcome {
                    self.open_selected_welcome_option()
                } else {
                    Effect::Nothing
                }
            },
            _ => Effect::Nothing,
        }
    }

    /// Handles a key press; the effect says whether a scan must be started.
    pub fn handle_key(&mut self, key: Key) -> (e: Effect)
        requires
            key_is_safe(old(self)@, key),
        ensures
            (final(self)@, e == Effect::StartScan) == key_step(old(self)@, key),
    {
        if self.input_mode {
            self.handle_input_key(key);
            return Effect::Nothing;
        }
        self.handle_command_key(key)
    }
}

} // verus!
