//! The state of the terminal console and how it answers keys and results.
use vstd::prelude::*;
use crate::device::{Device, DeviceView};
use crate::error::{error_text, AdbError, AdbErrorView};
use crate::text::{decimal, decimal_text, pop_char, push_char};

verus! {

/// The screen shown.
#[derive(Debug, Clone, Copy, PartialEq, Eq, Structural)]
pub enum Screen {
    Devices,
    Commands,
    Logs,
}

/// The most log lines kept; older ones are dropped first.
pub const MAX_LOGS: usize = 1000;

/// How long a notification stays, in milliseconds.
pub const NOTIFICATION_MS: u64 = 3000;

/// The console's state.
#[derive(Debug)]
pub struct Console {
    /// The devices known.
    pub devices: Vec<Device>,
    /// The index of the highlighted device.
    pub selected_device: Option<usize>,
    /// The indices of the devices picked for batch commands, in the order picked.
    pub selected_devices: Vec<usize>,
    /// The screen shown.
    pub screen: Screen,
    /// The command being typed.
    pub command_input: String,
    /// The output of the last command run.
    pub command_output: Vec<String>,
    /// The commands run, oldest first.
    pub command_history: Vec<String>,
    /// The entry of the history being browsed.
    pub history_index: Option<usize>,
    /// The status line.
    pub status_message: String,
    /// The log lines, oldest first.
    pub logs: Vec<String>,
    /// Whether the console should close.
    pub should_quit: bool,
    /// The notification shown.
    pub notification: Option<String>,
    /// Until when (in milliseconds) the notification shows.
    pub notification_until: Option<u64>,
}

/// The abstract content of a [`Console`].
pub struct ConsoleView {
    pub devices: Seq<DeviceView>,
    pub selected_device: Option<usize>,
    pub selected_devices: Seq<usize>,
    pub screen: Screen,
    pub command_input: Seq<char>,
    pub command_output: Seq<Seq<char>>,
    pub command_history: Seq<Seq<char>>,
    pub history_index: Option<usize>,
    pub status_message: Seq<char>,
    pub logs: Seq<Seq<char>>,
    pub should_quit: bool,
    pub notification: Option<Seq<char>>,
    pub notification_until: Option<u64>,
}

impl View for Console {
    type V = ConsoleView;

    open spec fn view(&self) -> ConsoleView {
        ConsoleView {
            devices: self.devices.deep_view(),
            selected_device: self.selected_device,
            selected_devices: self.selected_devices@,
            screen: self.screen,
            command_input: self.command_input@,
            command_output: self.command_output.deep_view(),
            command_history: self.command_history.deep_view(),
            history_index: self.history_index,
            status_message: self.status_message@,
            logs: self.logs.deep_view(),
            should_quit: self.should_quit,
            notification: crate::device::opt_text(self.notification),
            notification_until: self.notification_until,
        }
    }
}

/// No entry of the history repeats the one before it.
pub open spec fn no_repeats(h: Seq<Seq<char>>) -> bool {
    forall|i: int| #![trigger h[i]] 0 <= i < h.len() - 1 ==> h[i] != h[i + 1]
}

/// The console's invariant: the highlighted device is on the list, the
/// browsed history entry exists, no device is picked twice, at most
/// [`MAX_LOGS`] log lines are kept, and no history entry repeats the one
/// before it.
pub open spec fn console_wf(c: ConsoleView) -> bool {
    &&& c.selected_device matches Some(i) ==> i < c.devices.len()
    &&& c.history_index matches Some(i) ==> i < c.command_history.len()
    &&& c.selected_devices.no_duplicates()
    &&& c.logs.len() <= MAX_LOGS
    &&& no_repeats(c.command_history)
}

/// Toggling keeps every device picked at most once.
pub proof fn lemma_toggled_distinct(s: Seq<usize>, i: usize)
    requires
        s.no_duplicates(),
    ensures
        toggled(s, i).no_duplicates(),
{
    s.index_of_first_ensures(i);
    match s.index_of_first(i) {
        Some(p) => {
            let t = s.remove(p);
            assert forall|a: int, b: int| 0 <= a < t.len() && 0 <= b < t.len() && a != b implies t[a]
                != t[b] by {
                let a2 = if a < p { a } else { a + 1 };
                let b2 = if b < p { b } else { b + 1 };
                assert(t[a] == s[a2]);
                assert(t[b] == s[b2]);
            }
        },
        None => {
            let t = s.push(i);
            assert forall|a: int, b: int| 0 <= a < t.len() && 0 <= b < t.len() && a != b implies t[a]
                != t[b] by {
                if a == s.len() as int {
                    assert(t[b] == s[b]);
                } else if b == s.len() as int {
                    assert(t[a] == s[a]);
                } else {
                    assert(t[a] == s[a]);
                    assert(t[b] == s[b]);
                }
            }
        },
    }
}

/// Dropping picks keeps every device picked at most once.
pub proof fn lemma_kept_distinct(s: Seq<usize>, len: nat)
    requires
        s.no_duplicates(),
    ensures
        kept_selection(s, len).no_duplicates(),
    decreases s.len(),
{
    reveal_with_fuel(Seq::<_>::filter, 1);
    if s.len() > 0 {
        let d = s.drop_last();
        assert(d.no_duplicates()) by {
            assert forall|a: int, b: int| 0 <= a < d.len() && 0 <= b < d.len() && a != b implies d[a]
                != d[b] by {
                assert(d[a] == s[a]);
                assert(d[b] == s[b]);
            }
        }
        lemma_kept_distinct(d, len);
        let f = kept_selection(d, len);
        if s.last() < len {
            assert(!f.contains(s.last())) by {
                if f.contains(s.last()) {
                    d.lemma_filter_contains_rev(|i: usize| i < len, s.last());
                    let k = choose|k: int| 0 <= k < d.len() && d[k] == s.last();
                    assert(s[k] == s[s.len() - 1]);
                }
            }
            let t = f.push(s.last());
            assert forall|a: int, b: int| 0 <= a < t.len() && 0 <= b < t.len() && a != b implies t[a]
                != t[b] by {
                if a == f.len() as int {
                    assert(t[b] == f[b]);
                } else if b == f.len() as int {
                    assert(t[a] == f[a]);
                } else {
                    assert(t[a] == f[a]);
                    assert(t[b] == f[b]);
                }
            }
        }
    }
}

/// A log line: `[<stamp>] <message>`.
pub open spec fn log_line(stamp: Seq<char>, message: Seq<char>) -> Seq<char> {
    "["@ + stamp + "] "@ + message
}

/// The log after adding a line: the oldest line goes once more than
/// [`MAX_LOGS`] are kept.
pub open spec fn logged(logs: Seq<Seq<char>>, line: Seq<char>) -> Seq<Seq<char>> {
    if logs.len() + 1 > MAX_LOGS {
        logs.push(line).drop_first()
    } else {
        logs.push(line)
    }
}

/// The console with `message` logged at `stamp`.
pub open spec fn with_log(c: ConsoleView, stamp: Seq<char>, message: Seq<char>) -> ConsoleView {
    ConsoleView { logs: logged(c.logs, log_line(stamp, message)), ..c }
}

/// `<n> device(s)`.
pub open spec fn count_text(n: nat) -> Seq<char> {
    decimal_text(n) + " device(s)"@
}

/// The log line about a changed device count.
pub open spec fn change_text(old_count: nat, new_count: nat) -> Seq<char> {
    "Device list changed: "@ + decimal_text(old_count) + " -> "@ + count_text(new_count)
}

/// The status after a changed device count.
pub open spec fn updated_text(n: nat) -> Seq<char> {
    "Device list updated: "@ + count_text(n)
}

/// The highlighted device after the list changed to `len` devices: one off
/// the list moves to the first device (or none on an empty list); none
/// becomes the first device where there is one.
pub open spec fn reselected(sel: Option<usize>, len: nat) -> Option<usize> {
    match sel {
        Some(i) => if i >= len {
            if len == 0 {
                None
            } else {
                Some(0)
            }
        } else {
            Some(i)
        },
        None => if len == 0 {
            None
        } else {
            Some(0)
        },
    }
}

/// The picked devices that are still on a list of `len` devices.
pub open spec fn kept_selection(sel: Seq<usize>, len: nat) -> Seq<usize> {
    sel.filter(|i: usize| i < len)
}

/// The console after the device list became `ds`.
pub open spec fn updated_console(c: ConsoleView, ds: Seq<DeviceView>, stamp: Seq<char>) -> ConsoleView {
    let changed = c.devices.len() != ds.len();
    let c1 = if changed {
        with_log(c, stamp, change_text(c.devices.len(), ds.len()))
    } else {
        c
    };
    ConsoleView {
        devices: ds,
        selected_device: reselected(c.selected_device, ds.len()),
        selected_devices: kept_selection(c.selected_devices, ds.len()),
        status_message: if changed {
            updated_text(ds.len())
        } else {
            c.status_message
        },
        ..c1
    }
}

/// The picked devices after toggling `index`: its first pick removed where
/// picked, else added at the end.
pub open spec fn toggled(sel: Seq<usize>, index: usize) -> Seq<usize> {
    match sel.index_of_first(index) {
        Some(p) => sel.remove(p),
        None => sel.push(index),
    }
}

/// Every device, in list order.
pub open spec fn all_indices(len: nat) -> Seq<usize> {
    Seq::new(len, |i: int| i as usize)
}

/// Picking every device picks each once.
pub proof fn lemma_all_indices_distinct(len: nat)
    requires
        len <= usize::MAX + 1,
    ensures
        all_indices(len).no_duplicates(),
{
}

/// Appends `rest` to `s`.
fn append_text(s: &mut String, rest: &str)
    ensures
        final(s)@ == old(s)@ + rest@,
{
    s.append(rest);
}

/// `<n> device(s)`.
fn count_message(n: usize) -> (s: String)
    ensures
        s@ == count_text(n as nat),
{
    let mut s = decimal(n);
    append_text(&mut s, " device(s)");
    s
}

impl Console {
    /// Whether the highlighted device and browsed history entry exist.
    pub open spec fn wf(&self) -> bool {
        console_wf(self@)
    }

    /// A console with no devices, on the device screen, with the greeting status.
    pub fn new() -> (c: Console)
        ensures
            c@ == (ConsoleView {
                devices: Seq::empty(),
                selected_device: None,
                selected_devices: Seq::empty(),
                screen: Screen::Devices,
                command_input: Seq::empty(),
                command_output: Seq::empty(),
                command_history: Seq::empty(),
                history_index: None,
                status_message: "Press 'q' to quit, 'r' to refresh devices"@,
                logs: Seq::empty(),
                should_quit: false,
                notification: None,
                notification_until: None,
            }),
            c.wf(),
    {
        let c = Console {
            devices: Vec::new(),
            selected_device: None,
            selected_devices: Vec::new(),
            screen: Screen::Devices,
            command_input: String::new(),
            command_output: Vec::new(),
            command_history: Vec::new(),
            history_index: None,
            status_message: String::from_str("Press 'q' to quit, 'r' to refresh devices"),
            logs: Vec::new(),
            should_quit: false,
            notification: None,
            notification_until: None,
        };
        assert(c@.devices =~= Seq::<DeviceView>::empty());
        assert(c@.command_output =~= Seq::<Seq<char>>::empty());
        assert(c@.command_history =~= Seq::<Seq<char>>::empty());
        assert(c@.logs =~= Seq::<Seq<char>>::empty());
        c
    }

    /// Logs `message` at `stamp`, dropping the oldest line beyond [`MAX_LOGS`].
    pub fn add_log(&mut self, message: &str, stamp: &str)
        ensures
            final(self)@ == with_log(old(self)@, stamp@, message@),
    {
        let mut line = String::from_str("[");
        append_text(&mut line, stamp);
        append_text(&mut line, "] ");
        append_text(&mut line, message);
        let ghost before = self.logs.deep_view();
        self.logs.push(line);
        assert(self.logs.deep_view() =~= before.push(log_line(stamp@, message@)));
        if self.logs.len() > MAX_LOGS {
            let ghost pushed = self.logs.deep_view();
            self.logs.remove(0);
            assert(self.logs.deep_view() =~= pushed.drop_first());
        }
    }

    /// Makes the device list `new_devices`: logs and reports a changed count,
    /// keeps the highlighted device on the list and drops picks off it.
    pub fn update_devices(&mut self, new_devices: Vec<Device>, stamp: &str)
        requires
            old(self).wf(),
        ensures
            final(self)@ == updated_console(old(self)@, new_devices.deep_view(), stamp@),
            final(self).wf(),
    {
        let ghost c0 = self@;
        proof {
            lemma_kept_distinct(c0.selected_devices, new_devices.deep_view().len());
        }
        let old_count = self.devices.len();
        let new_count = new_devices.len();
        if old_count != new_count {
            let mut m = String::from_str("Device list changed: ");
            let o = decimal(old_count);
            append_text(&mut m, o.as_str());
            append_text(&mut m, " -> ");
            let n = count_message(new_count);
            append_text(&mut m, n.as_str());
            self.add_log(m.as_str(), stamp);
        }
        self.devices = new_devices;
        let len = self.devices.len();
        match self.selected_device {
            Some(idx) => {
                if idx >= len {
                    self.selected_device = if len == 0 {
                        None
                    } else {
                        Some(0)
                    };
                }
            },
            None => {
                if len != 0 {
                    self.selected_device = Some(0);
                }
            },
        }
        let ghost sel = self.selected_devices@;
        let mut kept: Vec<usize> = Vec::new();
        let mut i: usize = 0;
        assert(sel.take(0) =~= Seq::<usize>::empty());
        while i < self.selected_devices.len()
            invariant
                i <= sel.len(),
                sel == self.selected_devices@,
                len == self.devices@.len(),
                kept@ == kept_selection(sel.take(i as int), len as nat),
            decreases sel.len() - i,
        {
            assert(sel.take(i + 1).drop_last() =~= sel.take(i as int));
            reveal_with_fuel(Seq::<_>::filter, 1);
            let k = self.selected_devices[i];
            if k < len {
                kept.push(k);
            }
            i = i + 1;
        }
        assert(sel.take(sel.len() as int) =~= sel);
        self.selected_devices = kept;
        if old_count != new_count {
            let mut s = String::from_str("Device list updated: ");
            let n = count_message(new_count);
            append_text(&mut s, n.as_str());
            self.status_message = s;
        }
    }

    /// Picks device `index` for batch commands, or unpicks it where picked.
    pub fn toggle_device_selection(&mut self, index: usize)
        ensures
            final(self)@ == (ConsoleView {
                selected_devices: toggled(old(self)@.selected_devices, index),
                ..old(self)@
            }),
    {
        let ghost sel = self.selected_devices@;
        let mut pos: usize = 0;
        while pos < self.selected_devices.len() && self.selected_devices[pos] != index
            invariant
                pos <= sel.len(),
                sel == self.selected_devices@,
                forall|k: int| 0 <= k < pos ==> sel[k] != index,
            decreases sel.len() - pos,
        {
            pos = pos + 1;
        }
        if pos < self.selected_devices.len() {
            proof {
                sel.index_of_first_ensures(index);
                assert(sel.contains(index)) by {
                    assert(sel[pos as int] == index);
                }
                let j = sel.index_of_first(index)->0;
                assert(j == pos as int) by {
                    if j > pos {
                        assert(sel[pos as int] == index);
                    }
                }
            }
            self.selected_devices.remove(pos);
        } else {
            proof {
                sel.index_of_first_ensures(index);
            }
            self.selected_devices.push(index);
        }
    }

    /// Unpicks every device.
    pub fn clear_device_selection(&mut self)
        ensures
            final(self)@ == (ConsoleView { selected_devices: Seq::empty(), ..old(self)@ }),
    {
        self.selected_devices.clear();
    }

    /// Picks every device, in list order.
    pub fn select_all_devices(&mut self)
        ensures
            final(self)@ == (ConsoleView {
                selected_devices: all_indices(old(self)@.devices.len()),
                ..old(self)@
            }),
    {
        let n = self.devices.len();
        let mut all: Vec<usize> = Vec::new();
        let mut i: usize = 0;
        while i < n
            invariant
                i <= n,
                all@ == all_indices(i as nat),
            decreases n - i,
        {
            all.push(i);
            assert(all@ =~= all_indices((i + 1) as nat));
            i = i + 1;
        }
        self.selected_devices = all;
    }

    /// Shows `msg` for [`NOTIFICATION_MS`] from `now_ms`.
    pub fn show_notification(&mut self, msg: String, now_ms: u64)
        requires
            now_ms + NOTIFICATION_MS <= u64::MAX,
        ensures
            final(self)@ == (ConsoleView {
                notification: Some(msg@),
                notification_until: Some((now_ms + NOTIFICATION_MS) as u64),
                ..old(self)@
            }),
    {
        self.notification = Some(msg);
        self.notification_until = Some(now_ms + NOTIFICATION_MS);
    }

    /// Hides the notification once its time is up at `now_ms`.
    pub fn update_notification(&mut self, now_ms: u64)
        ensures
            final(self)@ == (match old(self)@.notification_until {
                Some(until) => if now_ms >= until {
                    ConsoleView { notification: None, notification_until: None, ..old(self)@ }
                } else {
                    old(self)@
                },
                None => old(self)@,
            }),
    {
        if let Some(until) = self.notification_until {
            if now_ms >= until {
                self.notification = None;
                self.notification_until = None;
            }
        }
    }
}


// ---------------------------------------------------------------------------
// Keys.
// ---------------------------------------------------------------------------

/// A key, as the console tells keys apart.
#[derive(Debug, Clone, Copy, PartialEq, Eq, Structural)]
pub enum KeyCode {
    Char(char),
    Up,
    Down,
    Left,
    Right,
    Enter,
    Backspace,
    Other,
}

/// A key press with the modifiers the console looks at.
#[derive(Debug, Clone, Copy, PartialEq, Eq, Structural)]
pub struct Key {
    pub code: KeyCode,
    pub alt: bool,
    pub ctrl: bool,
}

/// What a key asks of the caller beyond the console's own state.
#[derive(Debug, Clone, Copy, PartialEq, Eq, Structural)]
pub enum Effect {
    /// Nothing.
    Nothing,
    /// Refresh the device list (then call [`Console::refresh_devices`]).
    Refresh,
    /// Run the typed command (see [`Console::execute_command`]).
    Execute,
}

/// The highlighted device after moving up: one up unless at the top; the
/// first device where none was highlighted.
pub open spec fn moved_up(c: ConsoleView) -> Option<usize> {
    match c.selected_device {
        Some(i) => if i > 0 {
            Some((i - 1) as usize)
        } else {
            Some(i)
        },
        None => if c.devices.len() > 0 {
            Some(0)
        } else {
            None
        },
    }
}

/// The highlighted device after moving down: one down unless at the bottom;
/// the first device where none was highlighted.
pub open spec fn moved_down(c: ConsoleView) -> Option<usize> {
    match c.selected_device {
        Some(i) => if i + 1 < c.devices.len() {
            Some((i + 1) as usize)
        } else {
            Some(i)
        },
        None => if c.devices.len() > 0 {
            Some(0)
        } else {
            None
        },
    }
}

/// Browsing one entry back in the history: from the newest when not
/// browsing, stopping at the oldest; the entry becomes the typed command.
pub open spec fn history_up(c: ConsoleView) -> ConsoleView {
    if c.command_history.len() == 0 {
        c
    } else {
        let n: usize = match c.history_index {
            None => (c.command_history.len() - 1) as usize,
            Some(i) => if i == 0 {
                0
            } else {
                (i - 1) as usize
            },
        };
        ConsoleView { history_index: Some(n), command_input: c.command_history[n as int], ..c }
    }
}

/// Browsing one entry forward in the history; past the newest, browsing
/// stops and the typed command is cleared.
pub open spec fn history_down(c: ConsoleView) -> ConsoleView {
    match c.history_index {
        Some(i) => if i + 1 < c.command_history.len() {
            ConsoleView {
                history_index: Some((i + 1) as usize),
                command_input: c.command_history[i + 1],
                ..c
            }
        } else {
            ConsoleView { history_index: None, command_input: Seq::empty(), ..c }
        },
        None => c,
    }
}

/// What a key does on the screen shown.
pub open spec fn screen_key(c: ConsoleView, k: Key) -> (ConsoleView, Effect) {
    match c.screen {
        Screen::Devices => match k.code {
            KeyCode::Up => (ConsoleView { selected_device: moved_up(c), ..c }, Effect::Nothing),
            KeyCode::Down => (ConsoleView { selected_device: moved_down(c), ..c }, Effect::Nothing),
            KeyCode::Char(' ') => match c.selected_device {
                Some(i) => (
                    ConsoleView { selected_devices: toggled(c.selected_devices, i), ..c },
                    Effect::Nothing,
                ),
                None => (c, Effect::Nothing),
            },
            KeyCode::Char(ch) => if k.ctrl && (ch == 'd' || ch == 'D') {
                (ConsoleView { selected_devices: Seq::empty(), ..c }, Effect::Nothing)
            } else if k.ctrl && (ch == 'a' || ch == 'A') {
                (
                    ConsoleView { selected_devices: all_indices(c.devices.len()), ..c },
                    Effect::Nothing,
                )
            } else {
                (c, Effect::Nothing)
            },
            _ => (c, Effect::Nothing),
        },
        Screen::Commands => match k.code {
            KeyCode::Enter => (c, Effect::Execute),
            KeyCode::Char(ch) => (
                ConsoleView { history_index: None, command_input: c.command_input.push(ch), ..c },
                Effect::Nothing,
            ),
            KeyCode::Backspace => (
                ConsoleView {
                    history_index: None,
                    command_input: if c.command_input.len() > 0 {
                        c.command_input.drop_last()
                    } else {
                        c.command_input
                    },
                    ..c
                },
                Effect::Nothing,
            ),
            KeyCode::Up => (history_up(c), Effect::Nothing),
            KeyCode::Down => (history_down(c), Effect::Nothing),
            _ => (c, Effect::Nothing),
        },
        Screen::Logs => match k.code {
            KeyCode::Char(ch) => if ch == 'c' && k.alt {
                (ConsoleView { logs: Seq::empty(), ..c }, Effect::Nothing)
            } else {
                (c, Effect::Nothing)
            },
            _ => (c, Effect::Nothing),
        },
    }
}

/// What a key does: Alt+Q quits, Alt+R asks for a refresh on the device
/// screen, Alt+1/2/3 switch screens; other keys act on the screen shown.
pub open spec fn key_result(c: ConsoleView, k: Key) -> (ConsoleView, Effect) {
    match k.code {
        KeyCode::Char(ch) => if k.alt && (ch == 'q' || ch == 'Q') {
            (ConsoleView { should_quit: true, ..c }, Effect::Nothing)
        } else if k.alt && ch == 'r' {
            (c, if c.screen == Screen::Devices {
                Effect::Refresh
            } else {
                Effect::Nothing
            })
        } else if k.alt && ch == '1' {
            (ConsoleView { screen: Screen::Devices, ..c }, Effect::Nothing)
        } else if k.alt && ch == '2' {
            (ConsoleView { screen: Screen::Commands, ..c }, Effect::Nothing)
        } else if k.alt && ch == '3' {
            (ConsoleView { screen: Screen::Logs, ..c }, Effect::Nothing)
        } else {
            screen_key(c, k)
        },
        _ => screen_key(c, k),
    }
}

impl Console {
    fn history_entry(&self, i: usize) -> (s: String)
        requires
            i < self.command_history@.len(),
        ensures
            s@ == self@.command_history[i as int],
    {
        self.command_history[i].clone()
    }

    /// Acts on a key of the screen shown.
    fn handle_screen_keys(&mut self, key: Key) -> (e: Effect)
        requires
            old(self).wf(),
        ensures
            (final(self)@, e) == screen_key(old(self)@, key),
            final(self).wf(),
    {
        match self.screen {
            Screen::Devices => match key.code {
                KeyCode::Up => {
                    match self.selected_device {
                        Some(idx) => {
                            if idx > 0 {
                                self.selected_device = Some(idx - 1);
                            }
                        },
                        None => {
                            if self.devices.len() != 0 {
                                self.selected_device = Some(0);
                            }
                        },
                    }
                    Effect::Nothing
                },
                KeyCode::Down => {
                    match self.selected_device {
                        Some(idx) => {
                            let n = self.devices.len();
                            assert(self.devices.deep_view().len() == n);
                            if idx < n - 1 {
                                self.selected_device = Some(idx + 1);
                            }
                        },
                        None => {
                            if self.devices.len() != 0 {
                                self.selected_device = Some(0);
                            }
                        },
                    }
                    Effect::Nothing
                },
                KeyCode::Char(' ') => {
                    if let Some(idx) = self.selected_device {
                        proof {
                            lemma_toggled_distinct(self@.selected_devices, idx);
                        }
                        self.toggle_device_selection(idx);
                    }
                    Effect::Nothing
                },
                KeyCode::Char(ch) => {
                    if key.ctrl && (ch == 'd' || ch == 'D') {
                        self.clear_device_selection();
                    } else if key.ctrl && (ch == 'a' || ch == 'A') {
                        let n = self.devices.len();
                        proof {
                            assert(self@.devices.len() == n);
                            lemma_all_indices_distinct(self@.devices.len());
                        }
                        self.select_all_devices();
                    }
                    Effect::Nothing
                },
                _ => Effect::Nothing,
            },
            Screen::Commands => match key.code {
                KeyCode::Enter => Effect::Execute,
                KeyCode::Char(ch) => {
                    self.history_index = None;
                    push_char(&mut self.command_input, ch);
                    Effect::Nothing
                },
                KeyCode::Backspace => {
                    self.history_index = None;
                    let _ = pop_char(&mut self.command_input);
                    Effect::Nothing
                },
                KeyCode::Up => {
                    let len = self.command_history.len();
                    if len != 0 {
                        let new_index = match self.history_index {
                            None => len - 1,
                            Some(i) => {
                                if i == 0 {
                                    0
                                } else {
                                    i - 1
                                }
                            },
                        };
                        self.history_index = Some(new_index);
                        self.command_input = self.history_entry(new_index);
                    }
                    Effect::Nothing
                },
                KeyCode::Down => {
                    match self.history_index {
                        Some(i) => {
                            let n = self.command_history.len();
                            assert(self.command_history.deep_view().len() == n);
                            if i < n - 1 {
                                self.history_index = Some(i + 1);
                                self.command_input = self.history_entry(i + 1);
                            } else {
                                self.history_index = None;
                                self.command_input = String::new();
                            }
                        },
                        None => {},
                    }
                    Effect::Nothing
                },
                _ => Effect::Nothing,
            },
            Screen::Logs => match key.code {
                KeyCode::Char(ch) => {
                    if ch == 'c' && key.alt {
                        self.logs.clear();
                        assert(self.logs.deep_view() =~= Seq::<Seq<char>>::empty());
                    }
                    Effect::Nothing
                },
                _ => Effect::Nothing,
            },
        }
    }

    /// Acts on a key (see [`key_result`]) and says what it asks of the caller.
    pub fn handle_key_event(&mut self, key: Key) -> (e: Effect)
        requires
            old(self).wf(),
        ensures
            (final(self)@, e) == key_result(old(self)@, key),
            final(self).wf(),
    {
        match key.code {
            KeyCode::Char(ch) => {
                if key.alt && (ch == 'q' || ch == 'Q') {
                    self.should_quit = true;
                    Effect::Nothing
                } else if key.alt && ch == 'r' {
                    if self.screen == Screen::Devices {
                        Effect::Refresh
                    } else {
                        Effect::Nothing
                    }
                } else if key.alt && ch == '1' {
                    self.screen = Screen::Devices;
                    Effect::Nothing
                } else if key.alt && ch == '2' {
                    self.screen = Screen::Commands;
                    Effect::Nothing
                } else if key.alt && ch == '3' {
                    self.screen = Screen::Logs;
                    Effect::Nothing
                } else {
                    self.handle_screen_keys(key)
                }
            },
            _ => self.handle_screen_keys(key),
        }
    }
}


// ---------------------------------------------------------------------------
// Refreshing the devices and running commands.
// ---------------------------------------------------------------------------

/// The console with every message logged at `stamp`, in order.
pub open spec fn with_logs(c: ConsoleView, stamp: Seq<char>, msgs: Seq<Seq<char>>) -> ConsoleView
    decreases msgs.len(),
{
    if msgs.len() == 0 {
        c
    } else {
        with_log(with_logs(c, stamp, msgs.drop_last()), stamp, msgs.last())
    }
}

/// A device's model, or `Unknown`.
pub open spec fn model_name(m: Option<Seq<char>>) -> Seq<char> {
    match m {
        Some(t) => t,
        None => "Unknown"@,
    }
}

/// The log line describing a found device: `  - <id> (<model>) - status: <status>`.
pub open spec fn device_entry_text(d: DeviceView) -> Seq<char> {
    "  - "@ + d.id + " ("@ + model_name(d.model) + ") - status: "@ + d.status
}

/// `Found <n> device(s)`.
pub open spec fn found_text(n: nat) -> Seq<char> {
    "Found "@ + count_text(n)
}

/// The log lines of a refresh that found `ds`.
pub open spec fn found_messages(ds: Seq<DeviceView>) -> Seq<Seq<char>> {
    seq![found_text(ds.len())] + ds.map_values(
        |d: DeviceView| device_entry_text(d),
    )
}

/// The console after a refresh asked for at `asked_at` gave `r` at `stamp`:
/// the found devices replace the list with the first highlighted; a failure
/// is logged and reported.
pub open spec fn refreshed_console(
    c: ConsoleView,
    r: Result<Seq<DeviceView>, AdbErrorView>,
    asked_at: Seq<char>,
    stamp: Seq<char>,
) -> ConsoleView {
    let c0 = with_log(c, asked_at, "Refreshing devices..."@);
    match r {
        Ok(ds) => ConsoleView {
            devices: ds,
            selected_device: if ds.len() > 0 {
                Some(0)
            } else {
                None
            },
            status_message: found_text(ds.len()),
            ..with_logs(c0, stamp, found_messages(ds))
        },
        Err(e) => ConsoleView {
            status_message: "Error: "@ + error_text(e),
            ..with_logs(c0, stamp, seq!["Error getting devices: "@ + error_text(e)])
        },
    }
}

/// Whether every picked device is on the list.
pub open spec fn picks_on_list(c: ConsoleView) -> bool {
    forall|k: int| 0 <= k < c.selected_devices.len() ==> #[trigger] c.selected_devices[k] < c.devices.len()
}

/// Whether running the typed command reaches for the picked devices, which
/// must then be on the list.
pub open spec fn command_needs_picks(c: ConsoleView) -> bool {
    c.command_input.len() > 0 && c.devices.len() > 0 && c.selected_devices.len() > 0
}

/// The devices a typed command runs on, or the notification that says why
/// it runs on none; nothing happens for an empty command.
pub open spec fn command_plan(c: ConsoleView) -> Result<Seq<Seq<char>>, Option<Seq<char>>> {
    if c.command_input.len() == 0 {
        Err(None)
    } else if c.devices.len() == 0 {
        Err(Some("No devices connected"@))
    } else if c.selected_devices.len() == 0 {
        match c.selected_device {
            Some(i) => Ok(seq![c.devices[i as int].id]),
            None => Err(Some("No device selected"@)),
        }
    } else {
        Ok(c.selected_devices.map_values(|k: usize| c.devices[k as int].id))
    }
}

/// The result of running a command on one device.
pub open spec fn run_view(r: (String, Result<(String, String), AdbError>)) -> (
    Seq<char>,
    Result<(Seq<char>, Seq<char>), AdbErrorView>,
) {
    (
        r.0@,
        match r.1 {
            Ok(o) => Ok((o.0@, o.1@)),
            Err(e) => Err(e@),
        },
    )
}

/// The output lines for one device's result.
pub open spec fn run_output(r: (Seq<char>, Result<(Seq<char>, Seq<char>), AdbErrorView>)) -> Seq<
    Seq<char>,
> {
    match r.1 {
        Ok(o) => seq!["=== Device: "@ + r.0 + " ==="@] + (if o.0.len() > 0 {
            seq![o.0]
        } else {
            Seq::empty()
        }) + (if o.1.len() > 0 {
            seq!["STDERR: "@ + o.1]
        } else {
            Seq::empty()
        }),
        Err(e) => seq!["=== Device: "@ + r.0 + " - Error: "@ + error_text(e) + " ==="@],
    }
}

/// The log lines for one device's result.
pub open spec fn run_messages(r: (Seq<char>, Result<(Seq<char>, Seq<char>), AdbErrorView>)) -> Seq<
    Seq<char>,
> {
    seq![
        "Running on device: "@ + r.0,
        match r.1 {
            Ok(_) => "Command completed on device: "@ + r.0,
            Err(e) => "Error on device "@ + r.0 + ": "@ + error_text(e),
        },
    ]
}

/// All output lines for the results, in order.
pub open spec fn runs_output(rs: Seq<(Seq<char>, Result<(Seq<char>, Seq<char>), AdbErrorView>)>) -> Seq<
    Seq<char>,
>
    decreases rs.len(),
{
    if rs.len() == 0 {
        Seq::empty()
    } else {
        runs_output(rs.drop_last()) + run_output(rs.last())
    }
}

/// All log lines for the results, in order.
pub open spec fn runs_messages(rs: Seq<(Seq<char>, Result<(Seq<char>, Seq<char>), AdbErrorView>)>) -> Seq<
    Seq<char>,
>
    decreases rs.len(),
{
    if rs.len() == 0 {
        Seq::empty()
    } else {
        runs_messages(rs.drop_last()) + run_messages(rs.last())
    }
}

/// The line that announces a run: `<what><command> on <n> device(s)`.
pub open spec fn executing_text(what: Seq<char>, command: Seq<char>, n: nat) -> Seq<char> {
    what + command + " on "@ + count_text(n)
}

/// The console as the typed command starts on `n` devices at `stamp`: the
/// run is logged and the output shows only its announcement.
pub open spec fn started_console(c: ConsoleView, n: nat, stamp: Seq<char>) -> ConsoleView {
    ConsoleView {
        command_output: seq![executing_text("Executing: "@, c.command_input, n)],
        ..with_log(c, stamp, executing_text("Executing command: "@, c.command_input, n))
    }
}

/// The console after the typed command ran with results `rs`: the output
/// shows them after what it showed, the log records them, the command joins
/// the history unless it repeats the newest entry, and the typed command is
/// cleared.
pub open spec fn recorded_console(
    c: ConsoleView,
    rs: Seq<(Seq<char>, Result<(Seq<char>, Seq<char>), AdbErrorView>)>,
    stamp: Seq<char>,
) -> ConsoleView {
    let cmd = c.command_input;
    let logged_c = with_logs(c, stamp, runs_messages(rs));
    ConsoleView {
        command_output: c.command_output + runs_output(rs),
        command_history: if c.command_history.len() > 0 && c.command_history.last() == cmd {
            c.command_history
        } else {
            c.command_history.push(cmd)
        },
        history_index: None,
        command_input: Seq::empty(),
        ..logged_c
    }
}

fn text2(prefix: &str, rest: &str) -> (s: String)
    ensures
        s@ == prefix@ + rest@,
{
    let mut s = String::from_str(prefix);
    append_text(&mut s, rest);
    s
}

/// Logging changes nothing but the log, and keeps it within [`MAX_LOGS`] lines.
pub proof fn lemma_with_logs_fields(c: ConsoleView, stamp: Seq<char>, msgs: Seq<Seq<char>>)
    ensures
        with_logs(c, stamp, msgs) == (ConsoleView { logs: with_logs(c, stamp, msgs).logs, ..c }),
        c.logs.len() <= MAX_LOGS ==> with_logs(c, stamp, msgs).logs.len() <= MAX_LOGS,
    decreases msgs.len(),
{
    if msgs.len() > 0 {
        lemma_with_logs_fields(c, stamp, msgs.drop_last());
    }
}

fn text_of(prefix: &str, middle: &str, suffix: &str) -> (s: String)
    ensures
        s@ == prefix@ + middle@ + suffix@,
{
    let mut s = String::from_str(prefix);
    append_text(&mut s, middle);
    append_text(&mut s, suffix);
    s
}

proof fn lemma_with_logs_push(c: ConsoleView, stamp: Seq<char>, msgs: Seq<Seq<char>>, m: Seq<char>)
    ensures
        with_logs(c, stamp, msgs.push(m)) == with_log(with_logs(c, stamp, msgs), stamp, m),
{
    assert(msgs.push(m).drop_last() =~= msgs);
}

impl Console {
    fn log_all(&mut self, msgs: &Vec<String>, stamp: &str)
        ensures
            final(self)@ == with_logs(old(self)@, stamp@, msgs.deep_view()),
            final(self)@ == (ConsoleView { logs: final(self)@.logs, ..old(self)@ }),
            old(self)@.logs.len() <= MAX_LOGS ==> final(self)@.logs.len() <= MAX_LOGS,
    {
        proof {
            lemma_with_logs_fields(self@, stamp@, msgs.deep_view());
        }
        let ghost start = self@;
        let ghost m = msgs.deep_view();
        let mut i: usize = 0;
        assert(m.take(0) =~= Seq::<Seq<char>>::empty());
        while i < msgs.len()
            invariant
                i <= msgs@.len(),
                m == msgs.deep_view(),
                self@ == with_logs(start, stamp@, m.take(i as int)),
            decreases msgs@.len() - i,
        {
            assert(m.take(i + 1) =~= m.take(i as int).push(m[i as int]));
            proof {
                lemma_with_logs_push(start, stamp@, m.take(i as int), m[i as int]);
            }
            self.add_log(msgs[i].as_str(), stamp);
            i = i + 1;
        }
        assert(m.take(msgs@.len() as int) =~= m);
    }

    /// Takes the result of refreshing the device list, asked for at
    /// `asked_at` and answered at `stamp` (see [`refreshed_console`]).
    pub fn refresh_devices(
        &mut self,
        result: Result<Vec<Device>, AdbError>,
        asked_at: &str,
        stamp: &str,
    )
        requires
            old(self).wf(),
        ensures
            final(self)@ == refreshed_console(
                old(self)@,
                match result {
                    Ok(ds) => Ok(ds.deep_view()),
                    Err(e) => Err(e@),
                },
                asked_at@,
                stamp@,
            ),
            final(self).wf(),
    {
        self.add_log("Refreshing devices...", asked_at);
        let mut msgs: Vec<String> = Vec::new();
        match result {
            Ok(devices) => {
                let count = count_message(devices.len());
                let found = text2("Found ", count.as_str());
                let ghost ds = devices.deep_view();
                msgs.push(found.clone());
                let mut i: usize = 0;
                let ghost head = msgs.deep_view();
                while i < devices.len()
                    invariant
                        i <= devices@.len(),
                        ds == devices.deep_view(),
                        msgs.deep_view() == head + ds.take(i as int).map_values(
                            |d: DeviceView| device_entry_text(d),
                        ),
                    decreases devices@.len() - i,
                {
                    let d = &devices[i];
                    let model: &str = match &d.model {
                        Some(m) => m.as_str(),
                        None => "Unknown",
                    };
                    let mut line = text_of("  - ", d.id.as_str(), " (");
                    append_text(&mut line, model);
                    append_text(&mut line, ") - status: ");
                    append_text(&mut line, d.status.as_str());
                    let ghost before = msgs.deep_view();
                    msgs.push(line);
                    assert(msgs.deep_view() =~= before.push(device_entry_text(ds[i as int])));
                    assert(ds.take(i + 1).map_values(|d: DeviceView| device_entry_text(d))
                        =~= ds.take(i as int).map_values(|d: DeviceView| device_entry_text(d)).push(
                        device_entry_text(ds[i as int]),
                    ));
                    i = i + 1;
                }
                assert(ds.take(ds.len() as int) =~= ds);
                assert(msgs.deep_view() =~= found_messages(ds));
                self.log_all(&msgs, stamp);
                let has_devices = devices.len() != 0;
                self.devices = devices;
                self.selected_device = if has_devices {
                    Some(0)
                } else {
                    None
                };
                self.status_message = found;
            },
            Err(e) => {
                let m = e.message();
                msgs.push(text2("Error getting devices: ", m.as_str()));
                assert(msgs.deep_view() =~= seq!["Error getting devices: "@ + error_text(e@)]);
                self.log_all(&msgs, stamp);
                self.status_message = text2("Error: ", m.as_str());
            },
        }
    }

    /// Whether every picked device is on the list.
    pub fn picks_in_range(&self) -> (b: bool)
        ensures
            b == picks_on_list(self@),
    {
        let n = self.devices.len();
        let mut i: usize = 0;
        while i < self.selected_devices.len()
            invariant
                i <= self.selected_devices@.len(),
                n == self@.devices.len(),
                forall|k: int| 0 <= k < i ==> #[trigger] self@.selected_devices[k] < n,
            decreases self.selected_devices@.len() - i,
        {
            if self.selected_devices[i] >= n {
                assert(self@.selected_devices[i as int] >= self@.devices.len());
                return false;
            }
            i = i + 1;
        }
        true
    }

    /// Logs and shows at `stamp` that the typed command starts on `n` devices.
    fn announce(&mut self, n: usize, stamp: &str)
        requires
            old(self).wf(),
        ensures
            final(self)@ == started_console(old(self)@, n as nat, stamp@),
            final(self).wf(),
    {
        let count = count_message(n);
        let mut line = text_of("Executing command: ", self.command_input.as_str(), " on ");
        append_text(&mut line, count.as_str());
        let mut first = text_of("Executing: ", self.command_input.as_str(), " on ");
        append_text(&mut first, count.as_str());
        self.add_log(line.as_str(), stamp);
        let mut out: Vec<String> = Vec::new();
        out.push(first);
        assert(out.deep_view() =~= seq![executing_text("Executing: "@, self@.command_input, n as nat)]);
        self.command_output = out;
    }

    /// Decides which devices the typed command runs on (see [`command_plan`]):
    /// the picked devices, else the highlighted one. Where it runs on some,
    /// the run is announced at `stamp` (see [`started_console`]); where on
    /// none, the reason shows as a notification from `now_ms`.
    pub fn execute_command(&mut self, now_ms: u64, stamp: &str) -> (targets: Option<Vec<String>>)
        requires
            old(self).wf(),
            (command_plan(old(self)@) matches Err(Some(_))) ==> now_ms + NOTIFICATION_MS
                <= u64::MAX,
            command_needs_picks(old(self)@) ==> picks_on_list(old(self)@),
        ensures
            match command_plan(old(self)@) {
                Ok(ids) => targets matches Some(t) && t.deep_view() == ids && final(self)@
                    == started_console(old(self)@, ids.len(), stamp@),
                Err(None) => targets is None && final(self)@ == old(self)@,
                Err(Some(m)) => targets is None && final(self)@ == (ConsoleView {
                    notification: Some(m),
                    notification_until: Some((now_ms + NOTIFICATION_MS) as u64),
                    ..old(self)@
                }),
            },
            final(self).wf(),
    {
        if self.command_input.as_str().is_empty() {
            return None;
        }
        if self.devices.len() == 0 {
            self.show_notification(String::from_str("No devices connected"), now_ms);
            return None;
        }
        if self.selected_devices.len() == 0 {
            match self.selected_device {
                Some(idx) => {
                    let mut t: Vec<String> = Vec::new();
                    t.push(self.devices[idx].id.clone());
                    assert(t.deep_view() =~= seq![self@.devices[idx as int].id]);
                    self.announce(t.len(), stamp);
                    Some(t)
                },
                None => {
                    self.show_notification(String::from_str("No device selected"), now_ms);
                    None
                },
            }
        } else {
            let ghost c = self@;
            let mut t: Vec<String> = Vec::new();
            let mut i: usize = 0;
            while i < self.selected_devices.len()
                invariant
                    c == self@,
                    i <= c.selected_devices.len(),
                    picks_on_list(c),
                    t.deep_view() == c.selected_devices.take(i as int).map_values(
                        |k: usize| c.devices[k as int].id,
                    ),
                decreases c.selected_devices.len() - i,
            {
                let k = self.selected_devices[i];
                assert(k < c.devices.len());
                let ghost before = t.deep_view();
                t.push(self.devices[k].id.clone());
                assert(t.deep_view() =~= before.push(c.devices[k as int].id));
                assert(c.selected_devices.take(i + 1).map_values(|k: usize| c.devices[k as int].id)
                    =~= c.selected_devices.take(i as int).map_values(
                    |k: usize| c.devices[k as int].id,
                ).push(c.devices[k as int].id));
                i = i + 1;
            }
            assert(c.selected_devices.take(c.selected_devices.len() as int) =~= c.selected_devices);
            self.announce(t.len(), stamp);
            Some(t)
        }
    }

    /// Records the results of running the typed command (see [`recorded_console`]).
    pub fn record_command_results(
        &mut self,
        results: Vec<(String, Result<(String, String), AdbError>)>,
        stamp: &str,
    )
        requires
            old(self).wf(),
        ensures
            final(self)@ == recorded_console(
                old(self)@,
                results@.map_values(|r: (String, Result<(String, String), AdbError>)| run_view(r)),
                stamp@,
            ),
            final(self).wf(),
    {
        let ghost rs = results@.map_values(
            |r: (String, Result<(String, String), AdbError>)| run_view(r),
        );
        let ghost cmd = self.command_input@;
        let mut msgs: Vec<String> = Vec::new();
        let mut out: Vec<String> = Vec::new();
        let ghost msgs0 = msgs.deep_view();
        let ghost out0 = out.deep_view();
        assert(msgs0 =~= Seq::<Seq<char>>::empty());
        assert(out0 =~= Seq::<Seq<char>>::empty());
        let mut i: usize = 0;
        assert(rs.take(0) =~= Seq::<(Seq<char>, Result<(Seq<char>, Seq<char>), AdbErrorView>)>::empty());
        assert(msgs0 + runs_messages(rs.take(0)) =~= msgs0);
        assert(out0 + runs_output(rs.take(0)) =~= out0);
        while i < results.len()
            invariant
                i <= results@.len(),
                rs == results@.map_values(
                    |r: (String, Result<(String, String), AdbError>)| run_view(r),
                ),
                msgs.deep_view() == msgs0 + runs_messages(rs.take(i as int)),
                out.deep_view() == out0 + runs_output(rs.take(i as int)),
            decreases results@.len() - i,
        {
            let ghost r = rs[i as int];
            assert(rs.take(i + 1).drop_last() =~= rs.take(i as int));
            let ghost m_before = msgs.deep_view();
            let ghost o_before = out.deep_view();
            let (id, res) = &results[i];
            msgs.push(text2("Running on device: ", id.as_str()));
            match res {
                Ok((stdout, stderr)) => {
                    out.push(text_of("=== Device: ", id.as_str(), " ==="));
                    if !stdout.as_str().is_empty() {
                        out.push(stdout.clone());
                    }
                    if !stderr.as_str().is_empty() {
                        out.push(text2("STDERR: ", stderr.as_str()));
                    }
                    msgs.push(text2("Command completed on device: ", id.as_str()));
                },
                Err(e) => {
                    let em = e.message();
                    let mut line = text_of("=== Device: ", id.as_str(), " - Error: ");
                    append_text(&mut line, em.as_str());
                    append_text(&mut line, " ===");
                    out.push(line);
                    let mut lm = text_of("Error on device ", id.as_str(), ": ");
                    append_text(&mut lm, em.as_str());
                    msgs.push(lm);
                },
            }
            assert(msgs.deep_view() =~= m_before + run_messages(r));
            assert(out.deep_view() =~= o_before + run_output(r));
            i = i + 1;
        }
        assert(rs.take(results@.len() as int) =~= rs);
        assert(msgs.deep_view() =~= runs_messages(rs));
        self.log_all(&msgs, stamp);
        let ghost shown = self.command_output.deep_view();
        self.command_output.append(&mut out);
        assert(self.command_output.deep_view() =~= shown + runs_output(rs));
        let len = self.command_history.len();
        let repeat = len > 0 && self.command_history[len - 1] == self.command_input;
        let ghost hist = self.command_history.deep_view();
        if !repeat {
            let c = self.command_input.clone();
            self.command_history.push(c);
            assert(self.command_history.deep_view() =~= hist.push(cmd));
            assert(no_repeats(hist.push(cmd))) by {
                let h2 = hist.push(cmd);
                assert forall|i: int| #![trigger h2[i]] 0 <= i < h2.len() - 1 implies h2[i] != h2[i
                    + 1] by {
                    if i == hist.len() - 1 {
                        assert(h2[i] == hist.last());
                    } else {
                        assert(h2[i] == hist[i]);
                        assert(h2[i + 1] == hist[i + 1]);
                    }
                }
            }
        }
        self.history_index = None;
        self.command_input = String::new();
    }
}


// ---------------------------------------------------------------------------
// What the device screen shows.
// ---------------------------------------------------------------------------

/// `[x]` for a picked device, `[ ]` otherwise.
pub open spec fn pick_marker(picked: bool) -> Seq<char> {
    if picked {
        "[x]"@
    } else {
        "[ ]"@
    }
}

/// The list row of device `d`: `<marker> <id> - <model> (<status>)`.
pub open spec fn device_row_text(picked: bool, d: DeviceView) -> Seq<char> {
    pick_marker(picked) + " "@ + d.id + " - "@ + model_name(d.model) + " ("@ + d.status + ")"@
}

/// The title of the device list.
pub open spec fn devices_title_text(picked: nat) -> Seq<char> {
    "Devices ("@ + decimal_text(picked) + " selected) [Space: toggle, Ctrl+A/Ctrl+D]"@
}

/// The lines joined by `'\n'`.
pub open spec fn join_lines(ls: Seq<Seq<char>>) -> Seq<char>
    decreases ls.len(),
{
    if ls.len() == 0 {
        Seq::empty()
    } else if ls.len() == 1 {
        ls[0]
    } else {
        join_lines(ls.drop_last()) + seq!['\n'] + ls.last()
    }
}

/// One line per picked device that is on the list: `  [x] <id> (<model>)`.
pub open spec fn picked_lines(sel: Seq<usize>, ds: Seq<DeviceView>) -> Seq<Seq<char>>
    decreases sel.len(),
{
    if sel.len() == 0 {
        Seq::empty()
    } else {
        let prev = picked_lines(sel.drop_last(), ds);
        let k = sel.last();
        if k < ds.len() {
            prev.push("  [x] "@ + ds[k as int].id + " ("@ + model_name(ds[k as int].model) + ")"@)
        } else {
            prev
        }
    }
}

/// The device panel: the highlighted device's details when none is picked,
/// else the picked devices.
pub open spec fn device_info_text(c: ConsoleView) -> Seq<char> {
    if c.selected_devices.len() == 0 {
        match c.selected_device {
            Some(i) => {
                let d = c.devices[i as int];
                "Device ID: "@ + d.id + "\nStatus: "@ + d.status + "\nModel: "@ + model_name(d.model)
                    + "\n\nSelected for batch: none (use Space to select)"@
            },
            None => "No device selected"@,
        }
    } else {
        "Selected for batch ("@ + decimal_text(c.selected_devices.len()) + "):\n"@ + join_lines(
            picked_lines(c.selected_devices, c.devices),
        ) + "\n\nPress Space to toggle selection\nCtrl+D to clear selection"@
    }
}

fn model_str(d: &Device) -> (m: &str)
    ensures
        m@ == model_name(d@.model),
{
    match &d.model {
        Some(m) => m.as_str(),
        None => "Unknown",
    }
}

impl Console {
    /// Whether device `index` is picked.
    pub fn is_picked(&self, index: usize) -> (b: bool)
        ensures
            b == self@.selected_devices.contains(index),
    {
        let mut k: usize = 0;
        while k < self.selected_devices.len()
            invariant
                k <= self@.selected_devices.len(),
                forall|j: int| 0 <= j < k ==> self@.selected_devices[j] != index,
            decreases self@.selected_devices.len() - k,
        {
            if self.selected_devices[k] == index {
                assert(self@.selected_devices[k as int] == index);
                return true;
            }
            k = k + 1;
        }
        false
    }

    /// The list row of device `index` and whether it is picked.
    pub fn device_row(&self, index: usize) -> (r: (String, bool))
        requires
            index < self@.devices.len(),
        ensures
            r.1 == self@.selected_devices.contains(index),
            r.0@ == device_row_text(r.1, self@.devices[index as int]),
    {
        let picked = self.is_picked(index);
        let d = &self.devices[index];
        let mut s = String::from_str(if picked {
            "[x]"
        } else {
            "[ ]"
        });
        append_text(&mut s, " ");
        append_text(&mut s, d.id.as_str());
        append_text(&mut s, " - ");
        append_text(&mut s, model_str(d));
        append_text(&mut s, " (");
        append_text(&mut s, d.status.as_str());
        append_text(&mut s, ")");
        (s, picked)
    }

    /// The title of the device list.
    pub fn devices_title(&self) -> (s: String)
        ensures
            s@ == devices_title_text(self@.selected_devices.len()),
    {
        let mut s = String::from_str("Devices (");
        let n = decimal(self.selected_devices.len());
        append_text(&mut s, n.as_str());
        append_text(&mut s, " selected) [Space: toggle, Ctrl+A/Ctrl+D]");
        s
    }

    /// The device panel (see [`device_info_text`]).
    pub fn device_info(&self) -> (s: String)
        requires
            self.wf(),
        ensures
            s@ == device_info_text(self@),
    {
        if self.selected_devices.len() == 0 {
            match self.selected_device {
                Some(i) => {
                    let d = &self.devices[i];
                    let mut s = String::from_str("Device ID: ");
                    append_text(&mut s, d.id.as_str());
                    append_text(&mut s, "\nStatus: ");
                    append_text(&mut s, d.status.as_str());
                    append_text(&mut s, "\nModel: ");
                    append_text(&mut s, model_str(d));
                    append_text(&mut s, "\n\nSelected for batch: none (use Space to select)");
                    s
                },
                None => String::from_str("No device selected"),
            }
        } else {
            let ghost c = self@;
            let mut lines = String::new();
            let mut count: usize = 0;
            let mut i: usize = 0;
            assert(c.selected_devices.take(0) =~= Seq::<usize>::empty());
            while i < self.selected_devices.len()
                invariant
                    c == self@,
                    i <= c.selected_devices.len(),
                    count as nat == picked_lines(c.selected_devices.take(i as int), c.devices).len(),
                    count <= i,
                    lines@ == join_lines(picked_lines(c.selected_devices.take(i as int), c.devices)),
                decreases c.selected_devices.len() - i,
            {
                assert(c.selected_devices.take(i + 1).drop_last() =~= c.selected_devices.take(
                    i as int,
                ));
                let k = self.selected_devices[i];
                if k < self.devices.len() {
                    let d = &self.devices[k];
                    let ghost prev = lines@;
                    if count > 0 {
                        append_text(&mut lines, "\n");
                        proof {
                            reveal_strlit("\n");
                        }
                    }
                    append_text(&mut lines, "  [x] ");
                    append_text(&mut lines, d.id.as_str());
                    append_text(&mut lines, " (");
                    append_text(&mut lines, model_str(d));
                    append_text(&mut lines, ")");
                    let ghost line = "  [x] "@ + c.devices[k as int].id + " ("@ + model_name(
                        c.devices[k as int].model,
                    ) + ")"@;
                    let ghost pl = picked_lines(c.selected_devices.take(i as int), c.devices);
                    assert(c.selected_devices.take(i + 1).last() == k);
                    assert(picked_lines(c.selected_devices.take(i + 1), c.devices) == pl.push(line));
                    assert(pl.push(line).drop_last() =~= pl);
                    if count > 0 {
                        assert(lines@ =~= prev + seq!['\n'] + line);
                    } else {
                        assert(lines@ =~= line);
                    }
                    count = count + 1;
                }
                i = i + 1;
            }
            assert(c.selected_devices.take(c.selected_devices.len() as int) =~= c.selected_devices);
            let mut s = String::from_str("Selected for batch (");
            let n = decimal(self.selected_devices.len());
            append_text(&mut s, n.as_str());
            append_text(&mut s, "):\n");
            append_text(&mut s, lines.as_str());
            append_text(&mut s, "\n\nPress Space to toggle selection\nCtrl+D to clear selection");
            s
        }
    }
}

} // verus!
