//! Properties of the client that hold across its operations.
use vstd::prelude::*;
use vstd::utf8::encode_utf8;
use crate::exchange::{
    fail_bytes, okay_bytes, request_start, request_step, shell_start, shell_step, shell_request,
    transport_request, ActionView, EventView, OutcomeView, ProgressView, RequestView, ShellView,
};
use crate::error::AdbErrorView;
use crate::frame::{
    all_ascii, ascii_text, digits_from, framed, hex_bytes, hex_char, hex_digit, length_prefix,
    radix16, reply_length,
};
use crate::text::{is_blank, trim, trim_end, trim_start, utf8_lossy};
use crate::console::{
    console_wf, key_result, kept_selection, lemma_all_indices_distinct, lemma_kept_distinct,
    lemma_toggled_distinct, lemma_with_logs_fields, no_repeats, picks_on_list, recorded_console,
    started_console,
    toggled, updated_console, with_log, ConsoleView, Effect, Key, KeyCode, Screen, MAX_LOGS,
};
use crate::device::{
    device_of_line, devices_of_lines, is_listed_status, listed_devices, DeviceView,
};
use crate::text::{lines, pieces, words};
use crate::exchange::{
    devices_request, job_step, next_attached, request_pending, scan_next, scan_pending, scan_step,
    scan_wf, with_model, JobKindView, JobView, ScanView,
};
use crate::device::status_device;
use crate::session::{
    at, finished, goal_start, session_accepts, session_step, started_for, GoalView,
    SessionView, StageView,
};
use crate::exchange::{startup_step, version_line, version_request, CheckView, StartupView};
use crate::tracker::{track_step, tracker_wf, TrackStageView, TrackerView};
use crate::host::{common_paths, wsl_path, wsl_user_paths, Platform};
use crate::locate::{
    locate_start, locate_step, locator_wf, reports_on, LocatorView, ProbeView, ReportView,
    StageView as SearchStage,
};

verus! {

proof fn lemma_digits_concat(a: Seq<char>, b: Seq<char>, acc: nat)
    ensures
        digits_from(a + b, acc) == match digits_from(a, acc) {
            Ok(x) => digits_from(b, x),
            Err(e) => Err(e),
        },
    decreases a.len(),
{
    if a.len() == 0 {
        assert(a + b =~= b);
    } else {
        assert((a + b).drop_first() =~= a.drop_first() + b);
        assert((a + b)[0] == a[0]);
        match hex_digit(a[0]) {
            Some(d) => {
                if acc * 16 + d <= usize::MAX {
                    lemma_digits_concat(a.drop_first(), b, acc * 16 + d);
                }
            },
            None => {},
        }
    }
}

proof fn lemma_hex_char(d: nat)
    requires
        d < 16,
    ensures
        hex_char(d) < 0x80,
        hex_digit(hex_char(d) as char) == Some(d),
        !is_blank(hex_char(d) as char),
        hex_char(d) as char != '+',
        hex_char(d) as char != '-',
{
}

proof fn lemma_ascii_text_push(b: Seq<u8>, x: u8)
    ensures
        ascii_text(b.push(x)) == ascii_text(b) + seq![x as char],
{
    assert(ascii_text(b.push(x)) =~= ascii_text(b) + seq![x as char]);
}

proof fn lemma_hex_bytes(n: nat)
    requires
        n <= usize::MAX,
    ensures
        digits_from(ascii_text(hex_bytes(n)), 0) == Ok::<nat, crate::frame::HexError>(n),
        all_ascii(hex_bytes(n)),
        hex_bytes(n).len() >= 1,
        forall|k: int|
            0 <= k < hex_bytes(n).len() ==> #[trigger] hex_digit(hex_bytes(n)[k] as char) is Some,
        n < 16 ==> hex_bytes(n).len() == 1,
        n < 256 ==> hex_bytes(n).len() <= 2,
        n < 4096 ==> hex_bytes(n).len() <= 3,
        n < 65536 ==> hex_bytes(n).len() <= 4,
    decreases n,
{
    if n < 16 {
        lemma_hex_char(n);
        let c = hex_char(n) as char;
        assert(ascii_text(hex_bytes(n)) =~= seq![c]);
        assert(seq![c].drop_first() =~= Seq::<char>::empty());
        assert(digits_from(Seq::<char>::empty(), n) == Ok::<nat, crate::frame::HexError>(n));
        assert(digits_from(seq![c], 0) == digits_from(seq![c].drop_first(), n));
    } else {
        let q = n / 16;
        let r = n % 16;
        lemma_hex_bytes(q);
        lemma_hex_char(r);
        let h = hex_bytes(q);
        lemma_ascii_text_push(h, hex_char(r));
        lemma_digits_concat(ascii_text(h), seq![hex_char(r) as char], 0);
        assert(seq![hex_char(r) as char].drop_first() =~= Seq::<char>::empty());
        assert(q * 16 + r == n);
        let c = hex_char(r) as char;
        assert(digits_from(Seq::<char>::empty(), n) == Ok::<nat, crate::frame::HexError>(n));
        assert(digits_from(seq![c], q) == digits_from(seq![c].drop_first(), n));
        assert forall|k: int| 0 <= k < hex_bytes(n).len() implies #[trigger] hex_digit(
            hex_bytes(n)[k] as char,
        ) is Some by {
            if k < h.len() {
                assert(hex_bytes(n)[k] == h[k]);
            }
        }
    }
}

proof fn lemma_zeros(k: nat, rest: Seq<char>)
    ensures
        digits_from(Seq::new(k, |i: int| '0') + rest, 0) == digits_from(rest, 0),
    decreases k,
{
    if k > 0 {
        let z = Seq::new(k, |i: int| '0');
        assert((z + rest).drop_first() =~= Seq::new((k - 1) as nat, |i: int| '0') + rest);
        assert((z + rest)[0] == '0');
        lemma_zeros((k - 1) as nat, rest);
    } else {
        assert(Seq::new(k, |i: int| '0') + rest =~= rest);
    }
}

/// The length prefix the client writes (see [`crate::frame::encode_request`])
/// is four ASCII characters that the reply reader reads back as the same
/// length, for every length that four hex digits hold.
pub proof fn law_length_prefix_roundtrip(n: nat)
    requires
        n < 0x10000,
    ensures
        length_prefix(n).len() == 4,
        all_ascii(length_prefix(n)),
        reply_length(length_prefix(n)) == Ok::<nat, crate::frame::HexError>(n),
{
    lemma_hex_bytes(n);
    let h = hex_bytes(n);
    let k = (4 - h.len()) as nat;
    let p = length_prefix(n);
    let zb = Seq::new(k, |i: int| 0x30u8);
    assert(p =~= zb + h);
    let t = ascii_text(p);
    assert(t =~= Seq::new(k, |i: int| '0') + ascii_text(h));
    lemma_zeros(k, ascii_text(h));
    assert(all_ascii(p)) by {
        assert forall|i: int| 0 <= i < p.len() implies p[i] < 0x80 by {
            if i >= k {
                assert(p[i] == h[i - k]);
            }
        }
    }
    assert(!is_blank(t[0]) && t[0] != '+' && t[0] != '-') by {
        if k > 0 {
            assert(t[0] == '0');
        } else {
            assert(t[0] == h[0] as char);
            assert(hex_digit(h[0] as char) is Some);
        }
    }
    assert(!is_blank(t.last())) by {
        assert(t.last() == h[h.len() - 1] as char);
        assert(hex_digit(h[h.len() - 1] as char) is Some);
    }
    assert(trim_start(t) == t);
    assert(trim_end(t) == t);
    assert(trim(t) == t);
}

/// A request answered `OKAY` with a framed payload: the client connects,
/// sends exactly the framed command, reads the header, the length and a body
/// of that length, and returns the body as text.
pub proof fn law_request_answered(command: Seq<char>, payload: Seq<u8>)
    requires
        0 < payload.len() < 0x10000,
    ensures
        ({
            let f = framed(encode_utf8(command));
            let n = payload.len();
            &&& request_start(command) == RequestView::Connecting(f)
            &&& request_step(RequestView::Connecting(f), EventView::Connected)
                == ProgressView::<RequestView, Seq<char>>::Continue(
                RequestView::Sending(f),
                ActionView::Send(f),
            )
            &&& request_step(RequestView::Sending(f), EventView::Sent) == ProgressView::<
                RequestView,
                Seq<char>,
            >::Continue(RequestView::ReadingHeader, ActionView::Receive(4))
            &&& request_step(RequestView::ReadingHeader, EventView::Received(okay_bytes()))
                == ProgressView::<RequestView, Seq<char>>::Continue(
                RequestView::ReadingLength(okay_bytes()),
                ActionView::Receive(4),
            )
            &&& request_step(
                RequestView::ReadingLength(okay_bytes()),
                EventView::Received(length_prefix(n)),
            ) == ProgressView::<RequestView, Seq<char>>::Continue(
                RequestView::ReadingBody(okay_bytes(), n),
                ActionView::Receive(n),
            )
            &&& request_step(RequestView::ReadingBody(okay_bytes(), n), EventView::Received(payload))
                == ProgressView::<RequestView, Seq<char>>::Done(Ok(utf8_lossy(payload)))
        }),
{
    law_length_prefix_roundtrip(payload.len());
}

/// A request answered `OKAY` with a zero length returns the empty text without reading a body.
pub proof fn law_request_answered_empty()
    ensures
        request_step(RequestView::ReadingLength(okay_bytes()), EventView::Received(length_prefix(0)))
            == ProgressView::<RequestView, Seq<char>>::Done(Ok(Seq::empty())),
{
    law_length_prefix_roundtrip(0);
}

/// A request the server refuses with `FAIL` and a framed explanation fails
/// with that explanation.
pub proof fn law_request_refused(reason: Seq<u8>)
    requires
        reason.len() < 0x10000,
    ensures
        ({
            let n = reason.len();
            &&& request_step(RequestView::ReadingHeader, EventView::Received(fail_bytes()))
                == ProgressView::<RequestView, Seq<char>>::Continue(
                RequestView::ReadingLength(fail_bytes()),
                ActionView::Receive(4),
            )
            &&& request_step(
                RequestView::ReadingLength(fail_bytes()),
                EventView::Received(length_prefix(n)),
            ) == ProgressView::<RequestView, Seq<char>>::Continue(
                RequestView::ReadingBody(fail_bytes(), n),
                ActionView::Receive(n),
            )
            &&& request_step(RequestView::ReadingBody(fail_bytes(), n), EventView::Received(reason))
                == ProgressView::<RequestView, Seq<char>>::Done(
                Err(AdbErrorView::CommandFailed(utf8_lossy(reason))),
            )
        }),
{
    law_length_prefix_roundtrip(reason.len());
    assert(fail_bytes() != okay_bytes()) by {
        assert(fail_bytes()[0] != okay_bytes()[0]);
    }
}

/// A shell command on a named device: the client selects the device with
/// `host:transport:<device>`, then asks `shell:<command>`, each answered
/// `OKAY`, then reads the output to its end; the output is the standard
/// output and the standard error is empty.
pub proof fn law_shell_on_device(device: Seq<char>, command: Seq<char>, output: Seq<char>)
    requires
        device.len() > 0,
    ensures
        ({
            let t = transport_request(device);
            let c = shell_request(command);
            &&& shell_start(device, command) == ShellView::Connecting(Some(t), c)
            &&& shell_step(ShellView::Connecting(Some(t), c), EventView::Connected) == ProgressView::<
                ShellView,
                (Seq<char>, Seq<char>),
            >::Continue(ShellView::SendingTransport(t, c), ActionView::Send(t))
            &&& shell_step(ShellView::SendingTransport(t, c), EventView::Sent) == ProgressView::<
                ShellView,
                (Seq<char>, Seq<char>),
            >::Continue(ShellView::AwaitingTransport(c), ActionView::Receive(4))
            &&& shell_step(ShellView::AwaitingTransport(c), EventView::Received(okay_bytes()))
                == ProgressView::<ShellView, (Seq<char>, Seq<char>)>::Continue(
                ShellView::SendingShell(c),
                ActionView::Send(c),
            )
            &&& shell_step(ShellView::SendingShell(c), EventView::Sent) == ProgressView::<
                ShellView,
                (Seq<char>, Seq<char>),
            >::Continue(ShellView::AwaitingShell, ActionView::Receive(4))
            &&& shell_step(ShellView::AwaitingShell, EventView::Received(okay_bytes()))
                == ProgressView::<ShellView, (Seq<char>, Seq<char>)>::Continue(
                ShellView::ReadingOutput,
                ActionView::ReceiveRest,
            )
            &&& shell_step(ShellView::ReadingOutput, EventView::ReceivedText(output))
                == ProgressView::<ShellView, (Seq<char>, Seq<char>)>::Done(
                Ok((output, Seq::empty())),
            )
        }),
{
}

/// With an empty serial no device is selected: the shell request is the first thing sent.
pub proof fn law_shell_without_device(command: Seq<char>)
    ensures
        shell_step(shell_start(Seq::empty(), command), EventView::Connected) == ProgressView::<
            ShellView,
            (Seq<char>, Seq<char>),
        >::Continue(ShellView::SendingShell(shell_request(command)), ActionView::Send(shell_request(command))),
{
}

/// A device that refuses selection ends the command with the header it answered.
pub proof fn law_shell_device_refused(c: Seq<u8>, header: Seq<u8>)
    requires
        header != okay_bytes(),
    ensures
        shell_step(ShellView::AwaitingTransport(c), EventView::Received(header)) == ProgressView::<
            ShellView,
            (Seq<char>, Seq<char>),
        >::Done(Err(AdbErrorView::SelectDevice(utf8_lossy(header)))),
{
}


/// Picking a device that is not picked and then unpicking it leaves the
/// picks as they were; where every device is picked at most once, toggling
/// a device twice leaves the same devices picked.
pub proof fn law_toggle_twice(sel: Seq<usize>, i: usize)
    ensures
        !sel.contains(i) ==> toggled(toggled(sel, i), i) == sel,
        sel.no_duplicates() ==> toggled(toggled(sel, i), i).to_set() == sel.to_set(),
{
    sel.index_of_first_ensures(i);
    match sel.index_of_first(i) {
        None => {
            let t = sel.push(i);
            assert(t[sel.len() as int] == i);
            assert(t.contains(i));
            t.index_of_first_ensures(i);
            let p = t.index_of_first(i)->0;
            assert(p == sel.len() as int) by {
                if 0 <= p < sel.len() {
                    assert(t[p] == sel[p]);
                    assert(sel.contains(i));
                }
            }
            assert(t.remove(p) =~= sel);
        },
        Some(p) => {
            if sel.no_duplicates() {
                let t = sel.remove(p);
                assert(!t.contains(i)) by {
                    if t.contains(i) {
                        let q = choose|q: int| 0 <= q < t.len() && t[q] == i;
                        let q2 = if q < p { q } else { q + 1 };
                        assert(sel[q2] == i);
                    }
                }
                t.index_of_first_ensures(i);
                let u = t.push(i);
                assert forall|x: usize| u.contains(x) <==> sel.contains(x) by {
                    if u.contains(x) {
                        let q = choose|q: int| 0 <= q < u.len() && u[q] == x;
                        if q < t.len() {
                            let q2 = if q < p { q } else { q + 1 };
                            assert(sel[q2] == x);
                        } else {
                            assert(sel[p] == x);
                        }
                    }
                    if sel.contains(x) {
                        let q = choose|q: int| 0 <= q < sel.len() && sel[q] == x;
                        if q == p {
                            assert(u[t.len() as int] == x);
                        } else if q < p {
                            assert(u[q] == x);
                        } else {
                            assert(u[q - 1] == x);
                        }
                    }
                }
                assert(u.to_set() =~= sel.to_set());
            }
        },
    }
}

/// Whatever the new device list, every device still picked is on it, and
/// the console's invariant still holds.
pub proof fn law_update_keeps_picks_on_list(c: ConsoleView, ds: Seq<DeviceView>, stamp: Seq<char>)
    requires
        console_wf(c),
    ensures
        picks_on_list(updated_console(c, ds, stamp)),
        console_wf(updated_console(c, ds, stamp)),
{
    reveal_with_fuel(Seq::<_>::filter, 1);
    let k = kept_selection(c.selected_devices, ds.len());
    assert forall|j: int| 0 <= j < k.len() implies #[trigger] k[j] < ds.len() by {
        c.selected_devices.lemma_filter_pred(|i: usize| i < ds.len(), j);
    }
    lemma_kept_distinct(c.selected_devices, ds.len());
}

/// However many lines are logged, at most [`MAX_LOGS`] are kept, the newest last.
pub proof fn law_log_bounded(c: ConsoleView, stamp: Seq<char>, message: Seq<char>)
    requires
        c.logs.len() <= MAX_LOGS,
    ensures
        with_log(c, stamp, message).logs.len() <= MAX_LOGS,
        with_log(c, stamp, message).logs.last() == crate::console::log_line(stamp, message),
{
}

/// Running the typed command, from its start on `n` devices to its results:
/// the command joins the history unless it repeats the newest entry, so it
/// is the newest entry and still no entry repeats the one before it.
pub proof fn law_history_records_command(
    c: ConsoleView,
    n: nat,
    started_at: Seq<char>,
    rs: Seq<(Seq<char>, Result<(Seq<char>, Seq<char>), AdbErrorView>)>,
    stamp: Seq<char>,
)
    requires
        console_wf(c),
    ensures
        ({
            let h = c.command_history;
            let done = recorded_console(started_console(c, n, started_at), rs, stamp);
            &&& done.command_history == (if h.len() > 0 && h.last() == c.command_input {
                h
            } else {
                h.push(c.command_input)
            })
            &&& done.command_history.last() == c.command_input
            &&& no_repeats(done.command_history)
            &&& console_wf(done)
        }),
{
    let c1 = started_console(c, n, started_at);
    let cmd = c.command_input;
    let hist = c.command_history;
    let msgs = crate::console::runs_messages(rs);
    lemma_with_logs_fields(c1, stamp, msgs);
    if !(hist.len() > 0 && hist.last() == cmd) {
        let h2 = hist.push(cmd);
        assert forall|i: int| #![trigger h2[i]] 0 <= i < h2.len() - 1 implies h2[i] != h2[i + 1] by {
            if i == hist.len() - 1 {
                assert(h2[i] == hist.last());
            } else {
                assert(h2[i] == hist[i]);
                assert(h2[i + 1] == hist[i + 1]);
            }
        }
    }
}

/// No key breaks the console's invariant, and where every picked device is
/// on the list, it still is after any key.
pub proof fn law_keys_keep_invariant(c: ConsoleView, k: Key)
    requires
        console_wf(c),
        c.devices.len() <= usize::MAX,
    ensures
        console_wf(key_result(c, k).0),
        picks_on_list(c) ==> picks_on_list(key_result(c, k).0),
{
    lemma_all_indices_distinct(c.devices.len());
    if let Some(i) = c.selected_device {
        lemma_toggled_distinct(c.selected_devices, i);
    }
    if picks_on_list(c) {
        law_keys_keep_indices_in_range(c, k);
    }
}

/// The console's indices are in range: the highlighted device and every
/// picked device are on the list, and the browsed history entry exists.
pub open spec fn indices_in_range(c: ConsoleView) -> bool {
    &&& c.selected_device matches Some(i) ==> i < c.devices.len()
    &&& picks_on_list(c)
    &&& c.history_index matches Some(i) ==> i < c.command_history.len()
}

/// Keys keep the console's indices in range: where the highlighted device
/// and every pick are on the list and the browsed history entry exists,
/// they still are after any key.
pub proof fn law_keys_keep_indices_in_range(c: ConsoleView, k: Key)
    requires
        indices_in_range(c),
        c.devices.len() <= usize::MAX,
    ensures
        indices_in_range(key_result(c, k).0),
{
    if let Some(i) = c.selected_device {
        let sel = c.selected_devices;
        let t = toggled(sel, i);
        sel.index_of_first_ensures(i);
        assert forall|j: int| 0 <= j < t.len() implies #[trigger] t[j] < c.devices.len() by {
            match sel.index_of_first(i) {
                Some(p) => {
                    if j < p {
                        assert(t[j] == sel[j]);
                    } else {
                        assert(t[j] == sel[j + 1]);
                    }
                },
                None => {
                    if j < sel.len() {
                        assert(t[j] == sel[j]);
                    }
                },
            }
        }
    }
}

/// Following the device list never finishes: whatever happens, the next
/// step is another outside step.
pub proof fn law_tracker_never_finishes(t: TrackerView, e: EventView)
    requires
        tracker_wf(t),
    ensures
        !(track_step(t.stage, e).next is Finish),
        tracker_wf(track_step(t.stage, e)),
{
}

/// A finished operation takes no further report.
pub proof fn law_finished_session_is_final(s: SessionView, e: EventView)
    requires
        s.stage is Finished,
    ensures
        !session_accepts(s, e),
{
}

/// A pull succeeds exactly when `adb` exits successfully, and so does a push.
pub proof fn law_transfer_follows_exit(path: Seq<char>, args: Seq<Seq<char>>, ok: bool, out: Seq<u8>)
    ensures
        job_step(JobView::Running(JobKindView::Pull, path, args), EventView::Ran(ok, out))
            == ProgressView::<JobView, OutcomeView>::Done(
            if ok {
                Ok(OutcomeView::Nothing)
            } else {
                Err(AdbErrorView::PullFailed)
            },
        ),
        job_step(JobView::Running(JobKindView::Push, path, args), EventView::Ran(ok, out))
            == ProgressView::<JobView, OutcomeView>::Done(
            if ok {
                Ok(OutcomeView::Nothing)
            } else {
                Err(AdbErrorView::PushFailed)
            },
        ),
{
}


/// Whether `c` separates pieces (a newline for lines, whitespace for words).
pub open spec fn separates(c: char, by_lines: bool) -> bool {
    if by_lines {
        c == '\n'
    } else {
        is_blank(c)
    }
}

proof fn lemma_pieces_join(x: Seq<char>, c: char, y: Seq<char>, by_lines: bool)
    requires
        separates(c, by_lines),
    ensures
        pieces(x + seq![c] + y, by_lines) == pieces(x, by_lines) + pieces(y, by_lines),
    decreases y.len(),
{
    if y.len() == 0 {
        assert(x + seq![c] + y =~= x.push(c));
        assert(x.push(c).drop_last() =~= x);
        assert(pieces(y, by_lines) =~= seq![Seq::<char>::empty()]);
        assert(pieces(x, by_lines).push(Seq::<char>::empty()) =~= pieces(x, by_lines) + pieces(
            y,
            by_lines,
        ));
    } else {
        let z = x + seq![c] + y;
        let y2 = y.drop_last();
        assert(z.drop_last() =~= x + seq![c] + y2);
        assert(z.last() == y.last());
        lemma_pieces_join(x, c, y2, by_lines);
        crate::text::lemma_pieces_nonempty(y2, by_lines);
        let px = pieces(x, by_lines);
        let py2 = pieces(y2, by_lines);
        if separates(y.last(), by_lines) {
            assert((px + py2).push(Seq::<char>::empty()) =~= px + py2.push(Seq::<char>::empty()));
        } else {
            let both = px + py2;
            assert(both.update(both.len() - 1, both.last().push(y.last())) =~= px + py2.update(
                py2.len() - 1,
                py2.last().push(y.last()),
            ));
        }
    }
}

proof fn lemma_pieces_whole(s: Seq<char>, by_lines: bool)
    requires
        forall|i: int| 0 <= i < s.len() ==> !separates(#[trigger] s[i], by_lines),
    ensures
        pieces(s, by_lines) == seq![s],
    decreases s.len(),
{
    if s.len() > 0 {
        let d = s.drop_last();
        assert forall|i: int| 0 <= i < d.len() implies !separates(#[trigger] d[i], by_lines) by {
            assert(d[i] == s[i]);
        }
        lemma_pieces_whole(d, by_lines);
        assert(!separates(s[s.len() - 1], by_lines));
        assert(d.push(s.last()) =~= s);
        assert(seq![d].update(0, d.push(s.last())) =~= seq![s]);
    } else {
        assert(s =~= Seq::<char>::empty());
    }
}

/// The line the server sends for a device: serial, tab, state, newline.
pub open spec fn device_row(d: DeviceView) -> Seq<char> {
    d.id + seq!['\t'] + d.status
}

/// A device list as the server sends it: one row per device, each ended by a newline.
pub open spec fn device_list_text(ds: Seq<DeviceView>) -> Seq<char>
    decreases ds.len(),
{
    if ds.len() == 0 {
        Seq::empty()
    } else {
        device_list_text(ds.drop_last()) + device_row(ds.last()) + seq!['\n']
    }
}

/// A device the server can list: a serial of one or more characters with
/// no whitespace, a listed state, and no model yet.
pub open spec fn listable(d: DeviceView) -> bool {
    &&& d.id.len() > 0
    &&& forall|i: int| 0 <= i < d.id.len() ==> !is_blank(#[trigger] d.id[i])
    &&& is_listed_status(d.status)
    &&& d.model is None
}

proof fn lemma_row_words(d: DeviceView)
    requires
        listable(d),
    ensures
        words(device_row(d)) == seq![d.id, d.status],
        forall|i: int| 0 <= i < device_row(d).len() ==> #[trigger] device_row(d)[i] != '\n',
{
    let st = d.status;
    assert(forall|i: int| 0 <= i < st.len() ==> !is_blank(#[trigger] st[i]) && st[i] != '\n') by {
        reveal_strlit("device");
        reveal_strlit("unauthorized");
        reveal_strlit("offline");
    }
    assert forall|i: int| 0 <= i < d.id.len() implies !separates(#[trigger] d.id[i], false) by {}
    assert forall|i: int| 0 <= i < st.len() implies !separates(#[trigger] st[i], false) by {}
    lemma_pieces_whole(d.id, false);
    lemma_pieces_whole(st, false);
    lemma_pieces_join(d.id, '\t', st, false);
    let f = |w: Seq<char>| w.len() > 0;
    Seq::filter_distributes_over_add(seq![d.id], seq![st], f);
    reveal_with_fuel(Seq::<_>::filter, 2);
    assert(seq![d.id].drop_last() =~= Seq::<Seq<char>>::empty());
    assert(seq![st].drop_last() =~= Seq::<Seq<char>>::empty());
    assert(seq![d.id] + seq![st] =~= seq![d.id, st]);
    assert(seq![d.id].filter(f) =~= seq![d.id]);
    assert(seq![st].filter(f) =~= seq![st]);
    assert(st.len() > 0);
    assert forall|i: int| 0 <= i < device_row(d).len() implies #[trigger] device_row(d)[i]
        != '\n' by {
        if i < d.id.len() {
            assert(device_row(d)[i] == d.id[i]);
            assert(!is_blank(d.id[i]));
        } else if i > d.id.len() {
            assert(device_row(d)[i] == st[i - d.id.len() - 1]);
        }
    }
}

/// The rows of a device list.
pub open spec fn device_rows(ds: Seq<DeviceView>) -> Seq<Seq<char>> {
    ds.map_values(|d: DeviceView| device_row(d))
}

proof fn lemma_list_lines(ds: Seq<DeviceView>)
    requires
        forall|i: int| 0 <= i < ds.len() ==> listable(#[trigger] ds[i]),
    ensures
        lines(device_list_text(ds)) == device_rows(ds).push(Seq::<char>::empty()),
    decreases ds.len(),
{
    if ds.len() == 0 {
        assert(device_rows(ds) =~= Seq::<Seq<char>>::empty());
    } else {
        let d2 = ds.drop_last();
        assert forall|i: int| 0 <= i < d2.len() implies listable(#[trigger] d2[i]) by {
            assert(d2[i] == ds[i]);
        }
        lemma_list_lines(d2);
        let last = ds.last();
        assert(listable(ds[ds.len() - 1]));
        lemma_row_words(last);
        let row = device_row(last);
        assert forall|i: int| 0 <= i < row.len() implies !separates(#[trigger] row[i], true) by {}
        lemma_pieces_whole(row, true);
        let x = device_list_text(d2) + row;
        lemma_pieces_join(x, '\n', Seq::<char>::empty(), true);
        assert(x + seq!['\n'] + Seq::<char>::empty() =~= device_list_text(ds));
        assert(pieces(Seq::<char>::empty(), true) =~= seq![Seq::<char>::empty()]);
        if d2.len() == 0 {
            assert(x =~= row);
            assert(device_rows(ds) =~= seq![row]);
        } else {
            let y = device_list_text(d2.drop_last()) + device_row(d2.last());
            assert(device_list_text(d2) =~= y + seq!['\n'] + Seq::<char>::empty());
            lemma_pieces_join(y, '\n', Seq::<char>::empty(), true);
            assert(pieces(y, true) =~= device_rows(d2)) by {
                assert(pieces(y, true) + seq![Seq::<char>::empty()] =~= device_rows(d2).push(
                    Seq::<char>::empty(),
                ));
                assert(pieces(y, true) =~= (pieces(y, true) + seq![Seq::<char>::empty()]).drop_last());
            }
            assert(x =~= y + seq!['\n'] + row);
            lemma_pieces_join(y, '\n', row, true);
            assert(device_rows(ds) =~= device_rows(d2).push(row));
        }
        assert(pieces(x, true) =~= device_rows(ds));
    }
}

proof fn lemma_rows_devices(ds: Seq<DeviceView>)
    requires
        forall|i: int| 0 <= i < ds.len() ==> listable(#[trigger] ds[i]),
    ensures
        devices_of_lines(device_rows(ds)) == ds,
    decreases ds.len(),
{
    if ds.len() > 0 {
        let d2 = ds.drop_last();
        assert forall|i: int| 0 <= i < d2.len() implies listable(#[trigger] d2[i]) by {
            assert(d2[i] == ds[i]);
        }
        lemma_rows_devices(d2);
        assert(listable(ds[ds.len() - 1]));
        lemma_row_words(ds.last());
        assert(device_rows(ds).drop_last() =~= device_rows(d2));
        let d = ds.last();
        assert(device_of_line(device_row(d)) == Some(
            DeviceView { id: d.id, status: d.status, model: None },
        ));
        assert(ds =~= d2.push(d));
    } else {
        assert(device_rows(ds) =~= Seq::<Seq<char>>::empty());
    }
}

/// A device list as the server sends it (`serial\tstate\n` per device)
/// parses back to the same devices, in order.
pub proof fn law_device_list_roundtrip(ds: Seq<DeviceView>)
    requires
        forall|i: int| 0 <= i < ds.len() ==> listable(#[trigger] ds[i]),
    ensures
        listed_devices(device_list_text(ds)) == ds,
{
    lemma_list_lines(ds);
    lemma_rows_devices(ds);
    let rows = device_rows(ds);
    assert(rows.push(Seq::<char>::empty()).drop_last() =~= rows);
    lemma_empty_line_lists_nothing();
}


/// Two lists hold the same devices in the same states, in the same order.
pub open spec fn same_listing(a: Seq<DeviceView>, b: Seq<DeviceView>) -> bool {
    &&& a.len() == b.len()
    &&& forall|i: int| 0 <= i < a.len() ==> #[trigger] a[i].id == b[i].id && a[i].status == b[i].status
}

proof fn lemma_next_attached(ds: Seq<DeviceView>, from: nat)
    ensures
        next_attached(ds, from) matches Some(j) ==> from <= j < ds.len() && ds[j as int].status
            == status_device(),
    decreases ds.len() - from,
{
    if from < ds.len() && ds[from as int].status != status_device() {
        lemma_next_attached(ds, from + 1);
    }
}

proof fn lemma_scan_next(ds: Seq<DeviceView>, from: nat)
    ensures
        scan_next(ds, from) matches ProgressView::Continue(ScanView::Modeling(ds2, j, _), _) ==> ds2
            == ds && j < ds.len() && ds[j as int].status == status_device(),
        scan_next(ds, from) matches ProgressView::Done(r) ==> r == Ok::<
            Seq<DeviceView>,
            AdbErrorView,
        >(ds),
{
    lemma_next_attached(ds, from);
}

/// A scan asks only attached devices (state `device`) for their model, and
/// while it asks, the listed devices and their states stay as listed: only
/// models are filled in.
pub proof fn law_scan_fills_only_models(s: ScanView, e: EventView)
    requires
        scan_wf(s),
    ensures
        scan_step(s, e) matches ProgressView::Continue(ScanView::Modeling(ds, j, _), _) ==> j
            < ds.len() && ds[j as int].status == status_device(),
        s matches ScanView::Modeling(ds0, _, _) ==> (scan_step(s, e) matches ProgressView::Continue(
            ScanView::Modeling(ds, _, _),
            _,
        ) ==> same_listing(ds0, ds)),
        s matches ScanView::Modeling(ds0, _, _) ==> (scan_step(s, e) matches ProgressView::Done(
            Ok(ds),
        ) ==> same_listing(ds0, ds)),
{
    match s {
        ScanView::Listing(r) => {
            match crate::exchange::request_step(r, e) {
                ProgressView::Done(Ok(t)) => lemma_scan_next(crate::device::listed_devices(t), 0),
                _ => {},
            }
        },
        ScanView::Modeling(ds0, j, r) => {
            match crate::exchange::request_step(r, e) {
                ProgressView::Done(res) => {
                    let m = match res {
                        Ok(t) => crate::device::model_of_answer(t),
                        Err(_) => None,
                    };
                    let ds1 = with_model(ds0, j, m);
                    lemma_scan_next(ds1, j + 1);
                    assert(same_listing(ds0, ds1));
                },
                _ => {
                    assert(same_listing(ds0, ds0));
                },
            }
        },
    }
}

/// Where a request stands after the events `es`, taken in order until it is done.
pub open spec fn request_after(r: RequestView, es: Seq<EventView>) -> ProgressView<
    RequestView,
    Seq<char>,
>
    decreases es.len(),
{
    if es.len() == 0 {
        ProgressView::Continue(r, request_pending(r))
    } else {
        match request_step(r, es[0]) {
            ProgressView::Continue(r2, _) => request_after(r2, es.drop_first()),
            ProgressView::Done(x) => ProgressView::Done(x),
        }
    }
}

/// Where a scan stands after the events `es`, taken in order until it is done.
pub open spec fn scan_after(s: ScanView, es: Seq<EventView>) -> ProgressView<
    ScanView,
    Seq<DeviceView>,
>
    decreases es.len(),
{
    if es.len() == 0 {
        ProgressView::Continue(s, scan_pending(s))
    } else {
        match scan_step(s, es[0]) {
            ProgressView::Continue(s2, _) => scan_after(s2, es.drop_first()),
            ProgressView::Done(x) => ProgressView::Done(x),
        }
    }
}

/// `ds` holds the devices of `ds0` in their states, and a device not in
/// state `device` keeps its model from `ds0`.
pub open spec fn models_kept(ds0: Seq<DeviceView>, ds: Seq<DeviceView>) -> bool {
    &&& same_listing(ds0, ds)
    &&& forall|i: int|
        0 <= i < ds.len() && #[trigger] ds[i].status != status_device() ==> ds[i].model
            == ds0[i].model
}

spec fn scan_kept(ds0: Seq<DeviceView>, p: ProgressView<ScanView, Seq<DeviceView>>) -> bool {
    match p {
        ProgressView::Continue(ScanView::Modeling(ds, j, _), _) => {
            &&& models_kept(ds0, ds)
            &&& j < ds.len()
            &&& ds[j as int].status == status_device()
        },
        ProgressView::Continue(ScanView::Listing(_), _) => false,
        ProgressView::Done(Ok(ds)) => models_kept(ds0, ds),
        ProgressView::Done(Err(_)) => false,
    }
}

proof fn lemma_scan_next_kept(ds0: Seq<DeviceView>, ds: Seq<DeviceView>, from: nat)
    requires
        models_kept(ds0, ds),
    ensures
        scan_kept(ds0, scan_next(ds, from)),
{
    lemma_scan_next(ds, from);
}

proof fn lemma_scan_step_kept(ds0: Seq<DeviceView>, s: ScanView, a: ActionView, e: EventView)
    requires
        scan_kept(ds0, ProgressView::Continue(s, a)),
    ensures
        scan_kept(ds0, scan_step(s, e)),
{
    if let ScanView::Modeling(ds, j, r) = s {
        match request_step(r, e) {
            ProgressView::Done(res) => {
                let m = match res {
                    Ok(t) => crate::device::model_of_answer(t),
                    Err(_) => None,
                };
                let ds1 = with_model(ds, j, m);
                assert(models_kept(ds0, ds1)) by {
                    assert forall|i: int|
                        0 <= i < ds1.len() && #[trigger] ds1[i].status != status_device()
                            implies ds1[i].model == ds0[i].model by {
                        if i != j {
                            assert(ds1[i] == ds[i]);
                        }
                    }
                }
                lemma_scan_next_kept(ds0, ds1, j + 1);
            },
            _ => {},
        }
    }
}

proof fn lemma_scan_after_kept(ds0: Seq<DeviceView>, s: ScanView, a: ActionView, es: Seq<EventView>)
    requires
        scan_kept(ds0, ProgressView::Continue(s, a)),
    ensures
        scan_kept(ds0, scan_after(s, es)),
    decreases es.len(),
{
    if es.len() > 0 {
        lemma_scan_step_kept(ds0, s, a, es[0]);
        match scan_step(s, es[0]) {
            ProgressView::Continue(s2, a2) => lemma_scan_after_kept(ds0, s2, a2, es.drop_first()),
            _ => {},
        }
    } else {
        assert(scan_kept(ds0, ProgressView::Continue(s, scan_pending(s))));
    }
}

proof fn lemma_listing_phase(r: RequestView, es: Seq<EventView>, k: nat, t: Seq<char>)
    requires
        k <= es.len(),
        request_after(r, es.take(k as int)) == ProgressView::<RequestView, Seq<char>>::Done(Ok(t)),
    ensures
        scan_kept(listed_devices(t), scan_after(ScanView::Listing(r), es)),
    decreases es.len(),
{
    if es.len() == 0 || k == 0 {
        assert(es.take(0) =~= Seq::<EventView>::empty());
    } else {
        let e = es[0];
        assert(es.take(k as int)[0] == e);
        assert(es.take(k as int).drop_first() =~= es.drop_first().take(k - 1));
        match request_step(r, e) {
            ProgressView::Continue(r2, _) => {
                lemma_listing_phase(r2, es.drop_first(), (k - 1) as nat, t);
            },
            ProgressView::Done(Ok(t2)) => {
                let ds0 = listed_devices(t);
                assert(t2 == t);
                assert(models_kept(ds0, ds0));
                lemma_scan_next_kept(ds0, ds0, 0);
                match scan_next(ds0, 0) {
                    ProgressView::Continue(s2, a2) => lemma_scan_after_kept(
                        ds0,
                        s2,
                        a2,
                        es.drop_first(),
                    ),
                    _ => {},
                }
            },
            ProgressView::Done(Err(_)) => {},
        }
    }
}

proof fn lemma_listed_no_models(ls: Seq<Seq<char>>)
    ensures
        forall|i: int|
            0 <= i < devices_of_lines(ls).len() ==> (#[trigger] devices_of_lines(ls)[i]).model
                is None,
    decreases ls.len(),
{
    if ls.len() > 0 {
        lemma_listed_no_models(ls.drop_last());
    }
}

/// A whole device scan (`get_devices_socket`): once the list request
/// answered with the text `t`, the scan can no longer fail. While it runs it
/// holds the devices `t` lists, and when it ends, it ends with exactly those
/// devices, in order and in their states, where only devices in state
/// `device` may have a model.
pub proof fn law_scan_lists_then_models(es: Seq<EventView>, k: nat, t: Seq<char>)
    requires
        k <= es.len(),
        request_after(devices_request(), es.take(k as int)) == ProgressView::<
            RequestView,
            Seq<char>,
        >::Done(Ok(t)),
    ensures
        match scan_after(ScanView::Listing(devices_request()), es) {
            ProgressView::Done(r) => r matches Ok(ds) && {
                &&& same_listing(ds, listed_devices(t))
                &&& forall|i: int|
                    0 <= i < ds.len() && #[trigger] ds[i].status != status_device()
                        ==> ds[i].model is None
            },
            ProgressView::Continue(s, _) => s matches ScanView::Modeling(ds, _, _) && same_listing(
                ds,
                listed_devices(t),
            ),
        },
{
    lemma_listing_phase(devices_request(), es, k, t);
    lemma_listed_no_models(lines(t));
    let ds0 = listed_devices(t);
    if let ProgressView::Done(Ok(ds)) = scan_after(ScanView::Listing(devices_request()), es) {
        assert forall|i: int|
            0 <= i < ds.len() && #[trigger] ds[i].status != status_device() implies ds[i].model
            is None by {
            assert(ds0[i].model is None);
        }
    }
}

proof fn lemma_lines_append(a: Seq<char>, b: Seq<char>)
    requires
        a.len() > 0,
        a.last() == '\n',
    ensures
        lines(a + b) == lines(a).drop_last() + lines(b),
    decreases b.len(),
{
    if b.len() == 0 {
        assert(a + b =~= a);
        let pa = pieces(a.drop_last(), true);
        assert(lines(a) == pa.push(Seq::<char>::empty()));
        assert(lines(a).drop_last() + lines(b) =~= lines(a));
    } else {
        let b1 = b.drop_last();
        lemma_lines_append(a, b1);
        assert((a + b).drop_last() =~= a + b1);
        assert((a + b).last() == b.last());
        crate::text::lemma_pieces_nonempty(b1, true);
        let pa = lines(a).drop_last();
        let pb = lines(b1);
        if b.last() == '\n' {
            assert(lines(a + b) == (pa + pb).push(Seq::<char>::empty()));
            assert(lines(b) == pb.push(Seq::<char>::empty()));
            assert((pa + pb).push(Seq::<char>::empty()) =~= pa + pb.push(Seq::<char>::empty()));
        } else {
            let q = pa + pb;
            assert(lines(a + b) == q.update(q.len() - 1, q.last().push(b.last())));
            assert(lines(b) == pb.update(pb.len() - 1, pb.last().push(b.last())));
            assert(q.last() == pb.last());
            assert(q.update(q.len() - 1, q.last().push(b.last())) =~= pa + pb.update(
                pb.len() - 1,
                pb.last().push(b.last()),
            ));
        }
    }
}

proof fn lemma_devices_of_lines_append(l1: Seq<Seq<char>>, l2: Seq<Seq<char>>)
    ensures
        devices_of_lines(l1 + l2) == devices_of_lines(l1) + devices_of_lines(l2),
    decreases l2.len(),
{
    if l2.len() == 0 {
        assert(l1 + l2 =~= l1);
        assert(devices_of_lines(l1) + devices_of_lines(l2) =~= devices_of_lines(l1));
    } else {
        lemma_devices_of_lines_append(l1, l2.drop_last());
        assert((l1 + l2).drop_last() =~= l1 + l2.drop_last());
        assert((l1 + l2).last() == l2.last());
        let p1 = devices_of_lines(l1);
        let p2 = devices_of_lines(l2.drop_last());
        match device_of_line(l2.last()) {
            Some(d) => {
                assert((p1 + p2).push(d) =~= p1 + p2.push(d));
            },
            None => {},
        }
    }
}

proof fn lemma_empty_line_lists_nothing()
    ensures
        device_of_line(Seq::<char>::empty()) is None,
{
    assert(pieces(Seq::<char>::empty(), false) =~= seq![Seq::<char>::empty()]);
    reveal_with_fuel(Seq::<_>::filter, 2);
    assert(seq![Seq::<char>::empty()].drop_last() =~= Seq::<Seq<char>>::empty());
}

/// A device list read in two parts, the first empty or ending with a line
/// break, lists the devices of the first part followed by those of the second.
pub proof fn law_device_list_concat(a: Seq<char>, b: Seq<char>)
    requires
        a.len() == 0 || a.last() == '\n',
    ensures
        listed_devices(a + b) == listed_devices(a) + listed_devices(b),
{
    lemma_empty_line_lists_nothing();
    if a.len() == 0 {
        assert(a + b =~= b);
        assert(lines(a) =~= seq![Seq::<char>::empty()]);
        assert(seq![Seq::<char>::empty()].drop_last() =~= Seq::<Seq<char>>::empty());
        reveal_with_fuel(devices_of_lines, 2);
        assert(listed_devices(a) =~= Seq::<DeviceView>::empty());
        assert(listed_devices(a) + listed_devices(b) =~= listed_devices(b));
    } else {
        lemma_lines_append(a, b);
        lemma_devices_of_lines_append(lines(a).drop_last(), lines(b));
        let pa = pieces(a.drop_last(), true);
        assert(lines(a) == pa.push(Seq::<char>::empty()));
        assert(lines(a).drop_last() =~= pa);
    }
}

/// Where a session stands after the events `es`, taken in order until it is over.
pub open spec fn session_after(s: SessionView, es: Seq<EventView>) -> SessionView
    decreases es.len(),
{
    if es.len() == 0 || s.stage is Finished {
        s
    } else {
        session_after(session_step(s.stage, es[0]), es.drop_first())
    }
}

/// The session that makes sure the server runs ends exactly at the last of `pre`.
pub open spec fn ready_exactly(pre: Seq<EventView>) -> bool {
    &&& pre.len() > 0
    &&& !(session_after(started_for(GoalView::Ready), pre.drop_last()).stage is Finished)
    &&& session_after(started_for(GoalView::Ready), pre) == finished(Ok(OutcomeView::Nothing))
}

proof fn lemma_finished_stays(r: Result<OutcomeView, AdbErrorView>, es: Seq<EventView>)
    ensures
        session_after(finished(r), es) == finished(r),
{
}

proof fn lemma_starting_goal(
    st: StartupView,
    a: ActionView,
    g: GoalView,
    pre: Seq<EventView>,
    post: Seq<EventView>,
)
    ensures
        session_after(at(StageView::Starting(st, GoalView::Ready), a), pre) matches
            SessionView { stage: StageView::Finished, next: ActionView::Finish(Err(x)) }
            ==> session_after(at(StageView::Starting(st, g), a), pre + post) == finished(Err(x)),
        ({
            let ready = at(StageView::Starting(st, GoalView::Ready), a);
            &&& pre.len() > 0
            &&& !(session_after(ready, pre.drop_last()).stage is Finished)
            &&& session_after(ready, pre) == finished(Ok(OutcomeView::Nothing))
        }) ==> session_after(at(StageView::Starting(st, g), a), pre + post) == session_after(
            goal_start(g),
            post,
        ),
    decreases pre.len(),
{
    let ready = at(StageView::Starting(st, GoalView::Ready), a);
    let goal = at(StageView::Starting(st, g), a);
    if pre.len() > 0 {
        let e = pre[0];
        assert((pre + post)[0] == e);
        assert((pre + post).drop_first() =~= pre.drop_first() + post);
        match startup_step(st, e) {
            ProgressView::Continue(st2, a2) => {
                lemma_starting_goal(st2, a2, g, pre.drop_first(), post);
                if pre.len() > 1 {
                    assert(pre.drop_last().drop_first() =~= pre.drop_first().drop_last());
                    assert(pre.drop_last()[0] == e);
                } else {
                    assert(pre.drop_first() =~= Seq::<EventView>::empty());
                }
            },
            ProgressView::Done(Err(x)) => {
                lemma_finished_stays(Err(x), pre.drop_first());
                lemma_finished_stays(Err(x), pre.drop_first() + post);
            },
            ProgressView::Done(Ok(_)) => {
                lemma_finished_stays(Ok(OutcomeView::Nothing), pre.drop_first());
                if pre.len() > 1 {
                    assert(pre.drop_last()[0] == e);
                    lemma_finished_stays(Ok(OutcomeView::Nothing), pre.drop_last().drop_first());
                } else {
                    assert(pre + post =~= seq![e] + post);
                    assert((pre + post).drop_first() =~= post);
                }
            },
        }
    } else {
        assert(pre + post =~= post);
    }
}

/// An operation that first makes sure the server runs (`check_adb_available`,
/// `get_devices`, `execute_command`, `run_binary`) fails with the error of
/// that step where it fails, and where it succeeds goes on exactly as the
/// bare operation (goal) would with the events that follow.
pub proof fn law_started_operation(g: GoalView, pre: Seq<EventView>, post: Seq<EventView>)
    ensures
        session_after(started_for(GoalView::Ready), pre) matches
            SessionView { stage: StageView::Finished, next: ActionView::Finish(Err(x)) }
            ==> session_after(started_for(g), pre + post) == finished(Err(x)),
        ready_exactly(pre) ==> session_after(started_for(g), pre + post) == session_after(
            goal_start(g),
            post,
        ),
{
    lemma_starting_goal(StartupView::Probing, ActionView::Connect, g, pre, post);
}

/// The bare operations that follow the start: checking the server
/// (`check_adb_server_running`), listing the devices (`get_devices_socket`)
/// and running a command (`execute_command_socket`; `run_binary` runs its
/// command line).
pub proof fn law_goals_are_bare_operations(device: Seq<char>, command: Seq<char>)
    ensures
        goal_start(GoalView::Check) == at(StageView::Checking(CheckView::Probing), ActionView::Connect),
        goal_start(GoalView::Scan) == at(
            StageView::Scanning(ScanView::Listing(devices_request())),
            ActionView::Connect,
        ),
        goal_start(GoalView::Shell(device, command)) == at(
            StageView::Running(shell_start(device, command)),
            ActionView::Connect,
        ),
        goal_start(GoalView::Ready) == finished(Ok(OutcomeView::Nothing)),
{
}

proof fn lemma_request_continue_pending(r: RequestView, e: EventView)
    ensures
        request_step(r, e) matches ProgressView::Continue(r2, a) ==> a == request_pending(r2),
{
}

proof fn lemma_version_run(r: RequestView, es: Seq<EventView>)
    ensures
        session_after(at(StageView::Checking(CheckView::Asking(r)), request_pending(r)), es) == (
        match request_after(r, es) {
            ProgressView::Continue(r2, a) => at(StageView::Checking(CheckView::Asking(r2)), a),
            ProgressView::Done(Ok(t)) => finished(Ok(OutcomeView::Text(version_line(t)))),
            ProgressView::Done(Err(x)) => finished(Err(x)),
        }),
    decreases es.len(),
{
    if es.len() > 0 {
        match request_step(r, es[0]) {
            ProgressView::Continue(r2, a) => {
                lemma_request_continue_pending(r, es[0]);
                lemma_version_run(r2, es.drop_first());
            },
            ProgressView::Done(Ok(t)) => {
                lemma_finished_stays(Ok(OutcomeView::Text(version_line(t))), es.drop_first());
            },
            ProgressView::Done(Err(x)) => {
                lemma_finished_stays(Err(x), es.drop_first());
            },
        }
    }
}

/// Asking the server's version over a whole run (`get_adb_version_socket`):
/// it ends as the `host:version` request ends, its text prefixed with
/// `ADB server version: `, and its errors passed on.
pub proof fn law_version_run(es: Seq<EventView>)
    ensures
        session_after(
            at(StageView::Checking(CheckView::Asking(version_request())), ActionView::Connect),
            es,
        ) == (match request_after(version_request(), es) {
            ProgressView::Continue(r2, a) => at(StageView::Checking(CheckView::Asking(r2)), a),
            ProgressView::Done(Ok(t)) => finished(Ok(OutcomeView::Text(version_line(t)))),
            ProgressView::Done(Err(x)) => finished(Err(x)),
        }),
{
    lemma_version_run(version_request(), es);
}

/// Every path the search checks or ends with is non-empty.
pub open spec fn search_paths_nonempty(l: LocatorView) -> bool {
    match l.stage {
        SearchStage::LookupExists(path) => path.len() > 0,
        SearchStage::WslExists(w) => w.len() > 0,
        SearchStage::Trying(c, _) => forall|i: int| 0 <= i < c.len() ==> (#[trigger] c[i]).len() > 0,
        SearchStage::Done => l.next matches ProbeView::Found(Ok(p)) ==> p.len() > 0,
        _ => true,
    }
}

proof fn lemma_user_paths_nonempty(users: Seq<Seq<char>>)
    ensures
        forall|i: int|
            0 <= i < wsl_user_paths(users).len() ==> (#[trigger] wsl_user_paths(users)[i]).len() > 0,
    decreases users.len(),
{
    if users.len() > 0 {
        lemma_user_paths_nonempty(users.drop_last());
        reveal_strlit("/mnt/c/Users/");
        let prev = wsl_user_paths(users.drop_last());
        let u = users.last();
        let two = seq![
            "/mnt/c/Users/"@ + u + "/AppData/Local/Android/sdk/platform-tools/adb.exe"@,
            "/mnt/c/Users/"@ + u + "/Android/sdk/platform-tools/adb.exe"@,
        ];
        assert forall|i: int| 0 <= i < (prev + two).len() implies (#[trigger] (prev + two)[i]).len()
            > 0 by {
            if i >= prev.len() {
                assert((prev + two)[i] == two[i - prev.len()]);
            } else {
                assert((prev + two)[i] == prev[i]);
            }
        }
    }
}

proof fn lemma_seq_nonempty_concat(a: Seq<Seq<char>>, b: Seq<Seq<char>>)
    requires
        forall|i: int| 0 <= i < a.len() ==> (#[trigger] a[i]).len() > 0,
        forall|i: int| 0 <= i < b.len() ==> (#[trigger] b[i]).len() > 0,
    ensures
        forall|i: int| 0 <= i < (a + b).len() ==> (#[trigger] (a + b)[i]).len() > 0,
{
    assert forall|i: int| 0 <= i < (a + b).len() implies (#[trigger] (a + b)[i]).len() > 0 by {
        if i >= a.len() {
            assert((a + b)[i] == b[i - a.len()]);
        } else {
            assert((a + b)[i] == a[i]);
        }
    }
}

proof fn lemma_common_paths_nonempty(
    p: Platform,
    home: Option<Seq<char>>,
    users: Option<Seq<Seq<char>>>,
)
    ensures
        forall|i: int|
            0 <= i < common_paths(p, home, users).len() ==> (#[trigger] common_paths(
                p,
                home,
                users,
            )[i]).len() > 0,
{
    reveal_strlit("\\AppData\\Local\\Android\\sdk\\platform-tools\\adb.exe");
    reveal_strlit("\\Android\\sdk\\platform-tools\\adb.exe");
    reveal_strlit("C:\\Android\\sdk\\platform-tools\\adb.exe");
    reveal_strlit("C:\\Program Files\\Android\\platform-tools\\adb.exe");
    reveal_strlit("C:\\Program Files (x86)\\Android\\platform-tools\\adb.exe");
    reveal_strlit("/Library/Android/sdk/platform-tools/adb");
    reveal_strlit("/usr/local/bin/adb");
    reveal_strlit("/opt/homebrew/bin/adb");
    reveal_strlit("/Android/Sdk/platform-tools/adb");
    reveal_strlit("/usr/bin/adb");
    reveal_strlit("/mnt/c/Android/sdk/platform-tools/adb.exe");
    reveal_strlit("/mnt/c/Program Files/Android/platform-tools/adb.exe");
    let first: Seq<Seq<char>> = match p {
        Platform::Windows => match home {
            Some(h) => seq![
                h + "\\AppData\\Local\\Android\\sdk\\platform-tools\\adb.exe"@,
                h + "\\Android\\sdk\\platform-tools\\adb.exe"@,
            ],
            None => Seq::empty(),
        },
        Platform::MacOs => match home {
            Some(h) => seq![h + "/Library/Android/sdk/platform-tools/adb"@],
            None => Seq::empty(),
        },
        Platform::Linux => match home {
            Some(h) => seq![h + "/Android/Sdk/platform-tools/adb"@],
            None => Seq::empty(),
        },
    };
    assert forall|i: int| 0 <= i < first.len() implies (#[trigger] first[i]).len() > 0 by {}
    match p {
        Platform::Windows => {
            let fixed = seq![
                "C:\\Android\\sdk\\platform-tools\\adb.exe"@,
                "C:\\Program Files\\Android\\platform-tools\\adb.exe"@,
                "C:\\Program Files (x86)\\Android\\platform-tools\\adb.exe"@,
            ];
            assert forall|i: int| 0 <= i < fixed.len() implies (#[trigger] fixed[i]).len() > 0 by {}
            lemma_seq_nonempty_concat(first, fixed);
        },
        Platform::MacOs => {
            let fixed = seq!["/usr/local/bin/adb"@, "/opt/homebrew/bin/adb"@];
            assert forall|i: int| 0 <= i < fixed.len() implies (#[trigger] fixed[i]).len() > 0 by {}
            lemma_seq_nonempty_concat(first, fixed);
        },
        Platform::Linux => {
            let fixed = seq!["/usr/bin/adb"@, "/usr/local/bin/adb"@];
            assert forall|i: int| 0 <= i < fixed.len() implies (#[trigger] fixed[i]).len() > 0 by {}
            lemma_seq_nonempty_concat(first, fixed);
            let wsl: Seq<Seq<char>> = match users {
                Some(us) => wsl_user_paths(us) + seq![
                    "/mnt/c/Android/sdk/platform-tools/adb.exe"@,
                    "/mnt/c/Program Files/Android/platform-tools/adb.exe"@,
                ],
                None => Seq::empty(),
            };
            if let Some(us) = users {
                lemma_user_paths_nonempty(us);
                let last = seq![
                    "/mnt/c/Android/sdk/platform-tools/adb.exe"@,
                    "/mnt/c/Program Files/Android/platform-tools/adb.exe"@,
                ];
                assert forall|i: int| 0 <= i < last.len() implies (#[trigger] last[i]).len() > 0 by {}
                lemma_seq_nonempty_concat(wsl_user_paths(us), last);
            }
            assert forall|i: int| 0 <= i < wsl.len() implies (#[trigger] wsl[i]).len() > 0 by {}
            lemma_seq_nonempty_concat(first + fixed, wsl);
        },
    }
}

/// The search for `adb` (`find_adb_path`) never checks, nor ends with, an
/// empty path: every step keeps all the paths it holds non-empty, from the start on.
pub proof fn law_found_path_nonempty(l: LocatorView, r: ReportView)
    requires
        locator_wf(l),
        search_paths_nonempty(l),
        reports_on(l.next, r),
    ensures
        search_paths_nonempty(locate_start(l.platform)),
        search_paths_nonempty(locate_step(l.platform, l.stage, r)),
{
    let p = l.platform;
    match (l.stage, r) {
        (SearchStage::WslLookup, ReportView::Ran(ran)) => {
            if let Some(out) = crate::locate::lookup_output(ran) {
                let f = crate::host::first_line(out);
                if f.len() > 0 {
                    reveal_strlit("/mnt/");
                    assert(wsl_path(f).len() > 0);
                }
            }
        },
        (SearchStage::Home, ReportView::Var(h)) => {
            lemma_common_paths_nonempty(p, h, None);
        },
        (SearchStage::WindowsDrive(h), ReportView::Exists(_)) => {
            lemma_common_paths_nonempty(p, h, None);
        },
        (SearchStage::WindowsUsers(h), ReportView::Entries(us)) => {
            lemma_common_paths_nonempty(
                p,
                h,
                Some(
                    match us {
                        Some(names) => names,
                        None => Seq::empty(),
                    },
                ),
            );
        },
        _ => {},
    }
}

proof fn lemma_next_attached_first(ds: Seq<DeviceView>, from: nat)
    ensures
        match next_attached(ds, from) {
            Some(k) => {
                &&& from <= k < ds.len()
                &&& ds[k as int].status == status_device()
                &&& forall|i: int| from <= i < k ==> #[trigger] ds[i].status != status_device()
            },
            None => forall|i: int|
                from <= i < ds.len() ==> #[trigger] ds[i].status != status_device(),
        },
    decreases ds.len() - from,
{
    if from < ds.len() && ds[from as int].status != status_device() {
        lemma_next_attached_first(ds, from + 1);
    }
}

/// Whether some device from index `from` on is attached (state `device`).
pub open spec fn attached_from(ds: Seq<DeviceView>, from: int) -> bool {
    exists|i: int| from <= i < ds.len() && #[trigger] ds[i].status == status_device()
}

/// Where a scan goes with the list `ds` from index `from` on: to the model
/// query of the first attached device from `from` on, with every device
/// before it (from `from`) not attached; or, where no device from there on is
/// attached, to its end with `ds` as it is.
pub open spec fn goes_on_from(
    ds: Seq<DeviceView>,
    from: int,
    out: ProgressView<ScanView, Seq<DeviceView>>,
) -> bool {
    if attached_from(ds, from) {
        out matches ProgressView::Continue(ScanView::Modeling(ds2, k, q), a) && {
            &&& ds2 == ds
            &&& from <= k < ds.len()
            &&& ds[k as int].status == status_device()
            &&& forall|i: int| from <= i < k ==> #[trigger] ds[i].status != status_device()
            &&& q == request_start(
                "host-serial:"@ + ds[k as int].id + ":getprop:ro.product.model"@,
            )
            &&& a == ActionView::Connect
        }
    } else {
        out == ProgressView::<ScanView, Seq<DeviceView>>::Done(Ok(ds))
    }
}

proof fn lemma_scan_next_goes_on(ds: Seq<DeviceView>, from: nat)
    ensures
        goes_on_from(ds, from as int, scan_next(ds, from)),
{
    lemma_next_attached_first(ds, from);
    match next_attached(ds, from) {
        Some(k) => {
            assert(attached_from(ds, from as int)) by {
                assert(ds[k as int].status == status_device());
            }
        },
        None => {},
    }
}

/// A device scan asks every attached device for its model, in list order.
/// Once the list request answers with the text `t`, the scan goes to the
/// model query of the first attached device that `t` lists, or ends with
/// those devices where none is attached. Once the model query for the
/// attached device at `j` is answered, that device (and only it) takes the
/// model the answer names (none for a failed query), and the scan goes to
/// the next attached device after `j`; only where there is none does it end.
pub proof fn law_scan_asks_every_attached(ds: Seq<DeviceView>, j: nat, r: RequestView, e: EventView)
    ensures
        request_step(r, e) matches ProgressView::Done(Ok(t)) ==> goes_on_from(
            listed_devices(t),
            0,
            scan_step(ScanView::Listing(r), e),
        ),
        j < ds.len() ==> (request_step(r, e) matches ProgressView::Done(res) ==> {
            let m = match res {
                Ok(t) => if trim(t).len() == 0 {
                    None
                } else {
                    Some(trim(t))
                },
                Err(_) => None,
            };
            let ds1 = ds.update(
                j as int,
                DeviceView { id: ds[j as int].id, status: ds[j as int].status, model: m },
            );
            goes_on_from(ds1, j + 1int, scan_step(ScanView::Modeling(ds, j, r), e))
        }),
{
    match request_step(r, e) {
        ProgressView::Done(Ok(t)) => {
            lemma_scan_next_goes_on(listed_devices(t), 0);
        },
        _ => {},
    }
    if j < ds.len() {
        match request_step(r, e) {
            ProgressView::Done(res) => {
                let m = match res {
                    Ok(t) => crate::device::model_of_answer(t),
                    Err(_) => None,
                };
                lemma_scan_next_goes_on(with_model(ds, j, m), j + 1);
            },
            _ => {},
        }
    }
}

/// Making sure the server runs (`ensure_adb_server_running`, and the first
/// part of every operation that starts with it): a server that answers the
/// connection needs nothing more, and the operation goes on at once as the
/// bare operation. A server that does not answer is started with
/// `<adb> start-server`, using the `adb` that was found; where that run exits
/// successfully, the operation goes on exactly as the bare operation would
/// with the events that follow, and only where it exits unsuccessfully does
/// it fail, with "Failed to start ADB server".
pub proof fn law_server_started_then_operation(
    g: GoalView,
    m: Seq<char>,
    adb: Seq<char>,
    ok: bool,
    out: Seq<u8>,
    post: Seq<EventView>,
)
    ensures
        session_after(started_for(g), seq![EventView::Connected] + post) == session_after(
            goal_start(g),
            post,
        ),
        session_step(started_for(g).stage, EventView::Failed(m)).next == ActionView::LocateAdb,
        session_step(
            session_step(started_for(g).stage, EventView::Failed(m)).stage,
            EventView::Located(adb),
        ).next == ActionView::RunAdb(adb, seq!["start-server"@]),
        session_after(
            started_for(g),
            seq![EventView::Failed(m), EventView::Located(adb), EventView::Ran(ok, out)] + post,
        ) == (if ok {
            session_after(goal_start(g), post)
        } else {
            finished(Err(AdbErrorView::StartServer))
        }),
{
    let es1 = seq![EventView::Connected] + post;
    assert(es1[0] == EventView::Connected);
    assert(es1.drop_first() =~= post);
    let es = seq![EventView::Failed(m), EventView::Located(adb), EventView::Ran(ok, out)] + post;
    assert(es[0] == EventView::Failed(m));
    assert(es.drop_first()[0] == EventView::Located(adb));
    assert(es.drop_first().drop_first()[0] == EventView::Ran(ok, out));
    assert(es.drop_first().drop_first().drop_first() =~= post);
    let s1 = session_step(started_for(g).stage, EventView::Failed(m));
    assert(s1 == at(StageView::Starting(StartupView::Locating, g), ActionView::LocateAdb));
    let s2 = session_step(s1.stage, EventView::Located(adb));
    assert(s2 == at(
        StageView::Starting(StartupView::Starting(adb), g),
        ActionView::RunAdb(adb, crate::exchange::start_server_args()),
    ));
    let rest1 = es.drop_first();
    let rest2 = rest1.drop_first();
    assert(session_after(started_for(g), es) == session_after(s1, rest1));
    assert(session_after(s1, rest1) == session_after(s2, rest2));
    let s3 = session_step(s2.stage, EventView::Ran(ok, out));
    assert(session_after(s2, rest2) == session_after(s3, post));
    if !ok {
        lemma_finished_stays(Err(AdbErrorView::StartServer), post);
    }
}

/// Following the device list hands over every list whole: once the length
/// field of a list reads `n > 0`, exactly `n` bytes are read, and the body
/// `d` read then is handed over as all the devices its text lists, in order
/// (see [`law_device_list_concat`]); in particular, a body whose text is the
/// rows of the devices `ds` (as the server sends them) hands over exactly
/// `ds`. After the hand-over the next list is read.
pub proof fn law_tracker_publishes_whole_lists(
    initial: bool,
    f: Seq<u8>,
    n: nat,
    d: Seq<u8>,
    ds: Seq<DeviceView>,
)
    ensures
        (reply_length(f) == Ok::<nat, crate::frame::HexError>(n) && n > 0) ==> track_step(
            TrackStageView::ReadingLength(initial),
            EventView::Received(f),
        ) == (TrackerView {
            stage: TrackStageView::ReadingList(initial, n),
            next: ActionView::Receive(n),
        }),
        track_step(TrackStageView::ReadingList(initial, n), EventView::Received(d)).next
            == ActionView::Publish(listed_devices(utf8_lossy(d))),
        (utf8_lossy(d) == device_list_text(ds) && forall|i: int|
            0 <= i < ds.len() ==> listable(#[trigger] ds[i])) ==> track_step(
            TrackStageView::ReadingList(initial, n),
            EventView::Received(d),
        ).next == ActionView::Publish(ds),
        track_step(TrackStageView::Publishing, EventView::Resumed) == (TrackerView {
            stage: TrackStageView::ReadingLength(false),
            next: ActionView::Receive(4),
        }),
{
    if utf8_lossy(d) == device_list_text(ds) && forall|i: int|
        0 <= i < ds.len() ==> listable(#[trigger] ds[i]) {
        law_device_list_roundtrip(ds);
    }
}

/// The search for `adb` (`find_adb_path`) ends with any candidate it
/// confirms: where it checks that a candidate path for `adb` exists (a
/// lookup's answer, its WSL form, or a common place) and the path does, the
/// search ends with that path. In particular on Windows, where `where adb`
/// runs successfully and names a path on its first line that exists, that
/// path is the result; elsewhere a successful `which adb` with a non-empty
/// answer is the result, trimmed.
pub proof fn law_confirmed_path_is_found(l: LocatorView, out: Seq<u8>)
    requires
        locator_wf(l),
    ensures
        !(l.stage is WslShell) && !(l.stage is WindowsDrive) ==> (l.next matches ProbeView::Exists(
            x,
        ) ==> locate_step(l.platform, l.stage, ReportView::Exists(true))
            == crate::locate::found(l.platform, Ok(x))),
        ({
            let line = crate::host::first_line(utf8_lossy(out));
            let after = locate_step(
                Platform::Windows,
                locate_start(Platform::Windows).stage,
                ReportView::Ran(Some((true, out))),
            );
            line.len() > 0 ==> after.next == ProbeView::Exists(line) && locate_step(
                Platform::Windows,
                after.stage,
                ReportView::Exists(true),
            ) == crate::locate::found(Platform::Windows, Ok(line))
        }),
        forall|p: Platform|
            p != Platform::Windows && trim(utf8_lossy(out)).len() > 0 ==> locate_step(
                p,
                #[trigger] locate_start(p).stage,
                ReportView::Ran(Some((true, out))),
            ) == crate::locate::found(p, Ok(trim(utf8_lossy(out)))),
{
}

/// On the device screen, Ctrl with `a` or `A` picks every device, each once,
/// in list order, and Ctrl with `d` or `D` unpicks every device; nothing else
/// changes and nothing more is asked.
pub proof fn law_ctrl_picks_all_or_none(c: ConsoleView, letter: char)
    requires
        c.screen == Screen::Devices,
        c.devices.len() <= usize::MAX,
    ensures
        (letter == 'a' || letter == 'A') ==> ({
            let (c2, e) = key_result(c, Key { code: KeyCode::Char(letter), alt: false, ctrl: true });
            &&& e == Effect::Nothing
            &&& c2.selected_devices.len() == c.devices.len()
            &&& forall|i: int| 0 <= i < c.devices.len() ==> #[trigger] c2.selected_devices[i] == i
            &&& c2 == (ConsoleView { selected_devices: c2.selected_devices, ..c })
        }),
        (letter == 'd' || letter == 'D') ==> key_result(
            c,
            Key { code: KeyCode::Char(letter), alt: false, ctrl: true },
        ) == (ConsoleView { selected_devices: Seq::empty(), ..c }, Effect::Nothing),
{
}

/// A common place that does not hold `adb` is passed over for the next one,
/// in order; after the last one the search ends with "ADB executable not
/// found".
pub proof fn law_missing_candidate_moves_on(p: Platform, c: Seq<Seq<char>>, i: nat)
    requires
        i < c.len(),
    ensures
        i + 1 < c.len() ==> locate_step(p, SearchStage::Trying(c, i), ReportView::Exists(false))
            == (LocatorView {
            platform: p,
            stage: SearchStage::Trying(c, i + 1),
            next: ProbeView::Exists(c[i + 1int]),
        }),
        i + 1 == c.len() ==> locate_step(p, SearchStage::Trying(c, i), ReportView::Exists(false))
            == crate::locate::found(p, Err(AdbErrorView::AdbNotFound)),
{
}

} // verus!
