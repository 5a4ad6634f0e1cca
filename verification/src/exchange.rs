//! The steps of a conversation with the ADB server and the `adb` tool.
//!
//! A conversation is a machine: it names the next outside step to take (an
//! [`Action`]), is told how that step went (an [`Event`]), and decides the
//! step after it, until it finishes with a result.
use vstd::prelude::*;
use vstd::utf8::encode_utf8;
use crate::device::{Device, DeviceView};
use crate::error::{AdbError, AdbErrorView};
use crate::files::{FileEntry, FileEntryView};
use crate::frame::{encode_request, framed, parse_length_field, reply_length};
use crate::text::{decode_lossy, utf8_lossy};
use crate::device::{
    is_attached, listed_devices, model_from_reply, model_of_answer, parse_device_list,
    status_device,
};
use crate::files::{listed_entries, listing_well_formed, parse_file_listing};

verus! {

/// What an operation produced.
#[derive(Debug, Clone)]
pub enum Outcome {
    /// Nothing beyond success.
    Nothing,
    /// A line of text.
    Text(String),
    /// A command's standard output and standard error.
    Output(String, String),
    /// A device list.
    Devices(Vec<Device>),
    /// A directory listing.
    Files(Vec<FileEntry>),
}

/// The abstract content of an [`Outcome`].
pub enum OutcomeView {
    Nothing,
    Text(Seq<char>),
    Output(Seq<char>, Seq<char>),
    Devices(Seq<DeviceView>),
    Files(Seq<FileEntryView>),
}

impl DeepView for Outcome {
    type V = OutcomeView;

    open spec fn deep_view(&self) -> OutcomeView {
        match self {
            Outcome::Nothing => OutcomeView::Nothing,
            Outcome::Text(t) => OutcomeView::Text(t@),
            Outcome::Output(o, e) => OutcomeView::Output(o@, e@),
            Outcome::Devices(d) => OutcomeView::Devices(d.deep_view()),
            Outcome::Files(f) => OutcomeView::Files(f.deep_view()),
        }
    }
}

/// The abstract content of a result.
pub open spec fn result_view<T: DeepView>(r: Result<T, AdbError>) -> Result<T::V, AdbErrorView> {
    match r {
        Ok(v) => Ok(v.deep_view()),
        Err(e) => Err(e@),
    }
}

/// The next outside step a conversation asks for.
#[derive(Debug)]
pub enum Action {
    /// Open a connection to the server at 127.0.0.1:5037 (dropping any open one).
    Connect,
    /// Write all these bytes to the connection.
    Send(Vec<u8>),
    /// Read exactly this many bytes from the connection.
    Receive(usize),
    /// Read the connection to its end as UTF-8 text.
    ReceiveRest,
    /// Find the `adb` executable.
    LocateAdb,
    /// Run the `adb` executable found at the path with these arguments.
    RunAdb(String, Vec<String>),
    /// Hand this device list to whoever follows the devices.
    Publish(Vec<Device>),
    /// Wait this many seconds.
    Pause(u64),
    /// The conversation is over, with this result.
    Finish(Result<Outcome, AdbError>),
}

/// The abstract content of an [`Action`].
pub enum ActionView {
    Connect,
    Send(Seq<u8>),
    Receive(nat),
    ReceiveRest,
    LocateAdb,
    RunAdb(Seq<char>, Seq<Seq<char>>),
    Publish(Seq<DeviceView>),
    Pause(nat),
    Finish(Result<OutcomeView, AdbErrorView>),
}

impl DeepView for Action {
    type V = ActionView;

    open spec fn deep_view(&self) -> ActionView {
        match self {
            Action::Connect => ActionView::Connect,
            Action::Send(b) => ActionView::Send(b@),
            Action::Receive(n) => ActionView::Receive(*n as nat),
            Action::ReceiveRest => ActionView::ReceiveRest,
            Action::LocateAdb => ActionView::LocateAdb,
            Action::RunAdb(p, a) => ActionView::RunAdb(p@, a.deep_view()),
            Action::Publish(d) => ActionView::Publish(d.deep_view()),
            Action::Pause(s) => ActionView::Pause(*s as nat),
            Action::Finish(r) => ActionView::Finish(result_view(*r)),
        }
    }
}

/// How the step a conversation asked for went.
#[derive(Debug)]
pub enum Event {
    /// The connection is open.
    Connected,
    /// The bytes were written.
    Sent,
    /// These bytes were read.
    Received(Vec<u8>),
    /// The connection was read to its end; this is the text.
    ReceivedText(String),
    /// The `adb` executable is at this path.
    Located(String),
    /// `adb` ran: whether it exited successfully, and its standard output.
    Ran(bool, Vec<u8>),
    /// A hand-over or a wait is done.
    Resumed,
    /// The step failed with this message.
    Failed(String),
}

/// The abstract content of an [`Event`].
pub enum EventView {
    Connected,
    Sent,
    Received(Seq<u8>),
    ReceivedText(Seq<char>),
    Located(Seq<char>),
    Ran(bool, Seq<u8>),
    Resumed,
    Failed(Seq<char>),
}

impl DeepView for Event {
    type V = EventView;

    open spec fn deep_view(&self) -> EventView {
        match self {
            Event::Connected => EventView::Connected,
            Event::Sent => EventView::Sent,
            Event::Received(b) => EventView::Received(b@),
            Event::ReceivedText(t) => EventView::ReceivedText(t@),
            Event::Located(p) => EventView::Located(p@),
            Event::Ran(ok, out) => EventView::Ran(*ok, out@),
            Event::Resumed => EventView::Resumed,
            Event::Failed(m) => EventView::Failed(m@),
        }
    }
}

/// Whether `e` reports on the step `a`: the kind of report that step gives,
/// with exactly the bytes asked for where bytes were read.
pub open spec fn answers(a: ActionView, e: EventView) -> bool {
    match a {
        ActionView::Connect => e is Connected || e is Failed,
        ActionView::Send(_) => e is Sent || e is Failed,
        ActionView::Receive(n) => (e matches EventView::Received(b) && b.len() == n) || e is Failed,
        ActionView::ReceiveRest => e is ReceivedText || e is Failed,
        ActionView::LocateAdb => e is Located || e is Failed,
        ActionView::RunAdb(_, _) => e is Ran || e is Failed,
        ActionView::Publish(_) => e is Resumed,
        ActionView::Pause(_) => e is Resumed,
        ActionView::Finish(_) => false,
    }
}

/// A step of a part of a conversation: go on with the next action, or stop with a result.
pub enum Progress<M, T> {
    Continue(M, Action),
    Done(Result<T, AdbError>),
}

/// The abstract content of a [`Progress`].
pub enum ProgressView<M, T> {
    Continue(M, ActionView),
    Done(Result<T, AdbErrorView>),
}

impl<M: DeepView, T: DeepView> DeepView for Progress<M, T> {
    type V = ProgressView<M::V, T::V>;

    open spec fn deep_view(&self) -> ProgressView<M::V, T::V> {
        match self {
            Progress::Continue(m, a) => ProgressView::Continue(m.deep_view(), a.deep_view()),
            Progress::Done(r) => ProgressView::Done(result_view(*r)),
        }
    }
}

/// The bytes `OKAY`, the header of an accepted request.
pub open spec fn okay_bytes() -> Seq<u8> {
    seq![0x4fu8, 0x4bu8, 0x41u8, 0x59u8]
}

/// The bytes `FAIL`, the header of a refused request.
pub open spec fn fail_bytes() -> Seq<u8> {
    seq![0x46u8, 0x41u8, 0x49u8, 0x4cu8]
}

fn is_okay(h: &[u8]) -> (b: bool)
    ensures
        b == (h@ == okay_bytes()),
{
    let r = h.len() == 4 && h[0] == 0x4f && h[1] == 0x4b && h[2] == 0x41 && h[3] == 0x59;
    if r {
        assert(h@ =~= okay_bytes());
    }
    r
}

fn is_fail(h: &[u8]) -> (b: bool)
    ensures
        b == (h@ == fail_bytes()),
{
    let r = h.len() == 4 && h[0] == 0x46 && h[1] == 0x41 && h[2] == 0x49 && h[3] == 0x4c;
    if r {
        assert(h@ =~= fail_bytes());
    }
    r
}

// ---------------------------------------------------------------------------
// One request to the server, answered with a length-prefixed reply.
// ---------------------------------------------------------------------------

/// A request to the server and the reading of its reply (one connection).
#[derive(Debug)]
pub enum Request {
    /// Connecting; the framed request waits to be sent.
    Connecting(Vec<u8>),
    /// Sending the framed request.
    Sending(Vec<u8>),
    /// Reading the four-byte header.
    ReadingHeader,
    /// Reading the four-byte length field after this header.
    ReadingLength(Vec<u8>),
    /// Reading a body of this length after this header.
    ReadingBody(Vec<u8>, usize),
}

/// The abstract content of a [`Request`].
pub enum RequestView {
    Connecting(Seq<u8>),
    Sending(Seq<u8>),
    ReadingHeader,
    ReadingLength(Seq<u8>),
    ReadingBody(Seq<u8>, nat),
}

impl DeepView for Request {
    type V = RequestView;

    open spec fn deep_view(&self) -> RequestView {
        match self {
            Request::Connecting(f) => RequestView::Connecting(f@),
            Request::Sending(f) => RequestView::Sending(f@),
            Request::ReadingHeader => RequestView::ReadingHeader,
            Request::ReadingLength(h) => RequestView::ReadingLength(h@),
            Request::ReadingBody(h, n) => RequestView::ReadingBody(h@, *n as nat),
        }
    }
}

/// The action a request is waiting on.
pub open spec fn request_pending(r: RequestView) -> ActionView {
    match r {
        RequestView::Connecting(_) => ActionView::Connect,
        RequestView::Sending(f) => ActionView::Send(f),
        RequestView::ReadingHeader => ActionView::Receive(4),
        RequestView::ReadingLength(_) => ActionView::Receive(4),
        RequestView::ReadingBody(_, n) => ActionView::Receive(n),
    }
}

/// The start of a request for `command`: connect, then send it framed.
pub open spec fn request_start(command: Seq<char>) -> RequestView {
    RequestView::Connecting(framed(encode_utf8(command)))
}

/// What a request does when told `e`. Once the length is known, a body of
/// that length is read, except that an empty body is not read after `OKAY`
/// (the reply is then empty) nor after another header (the reply is then
/// the header itself). A `FAIL` reply is an error carrying its body.
pub open spec fn request_step(r: RequestView, e: EventView) -> ProgressView<RequestView, Seq<char>> {
    match e {
        EventView::Failed(m) => match r {
            RequestView::Connecting(_) => ProgressView::Done(Err(AdbErrorView::Connect(m))),
            _ => ProgressView::Done(Err(AdbErrorView::Io(m))),
        },
        _ => match r {
            RequestView::Connecting(f) => ProgressView::Continue(
                RequestView::Sending(f),
                ActionView::Send(f),
            ),
            RequestView::Sending(_) => ProgressView::Continue(
                RequestView::ReadingHeader,
                ActionView::Receive(4),
            ),
            RequestView::ReadingHeader => match e {
                EventView::Received(h) => ProgressView::Continue(
                    RequestView::ReadingLength(h),
                    ActionView::Receive(4),
                ),
                _ => ProgressView::Done(Err(AdbErrorView::Io(Seq::empty()))),
            },
            RequestView::ReadingLength(h) => match e {
                EventView::Received(field) => match reply_length(field) {
                    Err(k) => ProgressView::Done(Err(AdbErrorView::InvalidLength(k))),
                    Ok(n) => if n == 0 && h == okay_bytes() {
                        ProgressView::Done(Ok(Seq::empty()))
                    } else if n == 0 && h != fail_bytes() {
                        ProgressView::Done(Ok(utf8_lossy(h)))
                    } else {
                        ProgressView::Continue(RequestView::ReadingBody(h, n), ActionView::Receive(n))
                    },
                },
                _ => ProgressView::Done(Err(AdbErrorView::Io(Seq::empty()))),
            },
            RequestView::ReadingBody(h, _) => match e {
                EventView::Received(d) => if h == fail_bytes() {
                    ProgressView::Done(Err(AdbErrorView::CommandFailed(utf8_lossy(d))))
                } else {
                    ProgressView::Done(Ok(utf8_lossy(d)))
                },
                _ => ProgressView::Done(Err(AdbErrorView::Io(Seq::empty()))),
            },
        },
    }
}

impl Request {
    /// The action this request is waiting on.
    pub open spec fn pending(&self) -> ActionView {
        request_pending(self.deep_view())
    }

    /// Starts a request for `command`; its first action is [`Action::Connect`].
    pub fn start(command: &str) -> (r: (Request, Action))
        ensures
            r.0.deep_view() == request_start(command@),
            r.1.deep_view() == ActionView::Connect,
    {
        (Request::Connecting(encode_request(command)), Action::Connect)
    }

    /// The request's next step after `e`.
    pub fn step(self, e: Event) -> (p: Progress<Request, String>)
        requires
            answers(self.pending(), e.deep_view()),
        ensures
            p.deep_view() == request_step(self.deep_view(), e.deep_view()),
            p matches Progress::Continue(r, a) ==> a.deep_view() == r.pending(),
    {
        match e {
            Event::Failed(m) => match self {
                Request::Connecting(_) => Progress::Done(Err(AdbError::Connect(m))),
                _ => Progress::Done(Err(AdbError::Io(m))),
            },
            Event::Connected => match self {
                Request::Connecting(f) => {
                    let a = Action::Send(f.clone());
                    Progress::Continue(Request::Sending(f), a)
                },
                _ => {
                    proof {
                        assert(false);
                    }
                    Progress::Done(Err(AdbError::Io(String::new())))
                },
            },
            Event::Sent => Progress::Continue(Request::ReadingHeader, Action::Receive(4)),
            Event::Received(b) => match self {
                Request::ReadingHeader => Progress::Continue(
                    Request::ReadingLength(b),
                    Action::Receive(4),
                ),
                Request::ReadingLength(h) => match parse_length_field(b.as_slice()) {
                    Err(k) => Progress::Done(Err(AdbError::InvalidLength(k))),
                    Ok(n) => {
                        if n == 0 && is_okay(h.as_slice()) {
                            Progress::Done(Ok(String::new()))
                        } else if n == 0 && !is_fail(h.as_slice()) {
                            Progress::Done(Ok(decode_lossy(h.as_slice())))
                        } else {
                            Progress::Continue(Request::ReadingBody(h, n), Action::Receive(n))
                        }
                    },
                },
                Request::ReadingBody(h, _) => {
                    let text = decode_lossy(b.as_slice());
                    if is_fail(h.as_slice()) {
                        Progress::Done(Err(AdbError::CommandFailed(text)))
                    } else {
                        Progress::Done(Ok(text))
                    }
                },
                _ => {
                    proof {
                        assert(false);
                    }
                    Progress::Done(Err(AdbError::Io(String::new())))
                },
            },
            _ => {
                proof {
                    assert(false);
                }
                Progress::Done(Err(AdbError::Io(String::new())))
            },
        }
    }
}


/// `prefix` followed by `rest`.
pub fn joined(prefix: &str, rest: &str) -> (s: String)
    ensures
        s@ == prefix@ + rest@,
{
    let mut s = String::from_str(prefix);
    s.append(rest);
    s
}

// ---------------------------------------------------------------------------
// A shell command on a device.
// ---------------------------------------------------------------------------

/// Running a shell command on a device over one connection: select the
/// device (unless the serial is empty), ask for the shell command, read its
/// output to the end.
#[derive(Debug)]
pub enum Shell {
    /// Connecting; the framed transport request (if any) and shell request wait.
    Connecting(Option<Vec<u8>>, Vec<u8>),
    /// Sending the transport request; the shell request waits.
    SendingTransport(Vec<u8>, Vec<u8>),
    /// Reading the answer to the transport request.
    AwaitingTransport(Vec<u8>),
    /// Sending the shell request.
    SendingShell(Vec<u8>),
    /// Reading the answer to the shell request.
    AwaitingShell,
    /// Reading the command's output.
    ReadingOutput,
}

/// The abstract content of a [`Shell`].
pub enum ShellView {
    Connecting(Option<Seq<u8>>, Seq<u8>),
    SendingTransport(Seq<u8>, Seq<u8>),
    AwaitingTransport(Seq<u8>),
    SendingShell(Seq<u8>),
    AwaitingShell,
    ReadingOutput,
}

impl DeepView for Shell {
    type V = ShellView;

    open spec fn deep_view(&self) -> ShellView {
        match self {
            Shell::Connecting(t, s) => ShellView::Connecting(
                match t {
                    Some(f) => Some(f@),
                    None => None,
                },
                s@,
            ),
            Shell::SendingTransport(t, s) => ShellView::SendingTransport(t@, s@),
            Shell::AwaitingTransport(s) => ShellView::AwaitingTransport(s@),
            Shell::SendingShell(s) => ShellView::SendingShell(s@),
            Shell::AwaitingShell => ShellView::AwaitingShell,
            Shell::ReadingOutput => ShellView::ReadingOutput,
        }
    }
}

/// The request that selects device `device`.
pub open spec fn transport_request(device: Seq<char>) -> Seq<u8> {
    framed(encode_utf8("host:transport:"@ + device))
}

/// The request that runs `command` in the selected device's shell.
pub open spec fn shell_request(command: Seq<char>) -> Seq<u8> {
    framed(encode_utf8("shell:"@ + command))
}

/// The start of running `command` on `device`.
pub open spec fn shell_start(device: Seq<char>, command: Seq<char>) -> ShellView {
    ShellView::Connecting(
        if device.len() == 0 {
            None
        } else {
            Some(transport_request(device))
        },
        shell_request(command),
    )
}

/// The action a shell run is waiting on.
pub open spec fn shell_pending(s: ShellView) -> ActionView {
    match s {
        ShellView::Connecting(_, _) => ActionView::Connect,
        ShellView::SendingTransport(t, _) => ActionView::Send(t),
        ShellView::AwaitingTransport(_) => ActionView::Receive(4),
        ShellView::SendingShell(c) => ActionView::Send(c),
        ShellView::AwaitingShell => ActionView::Receive(4),
        ShellView::ReadingOutput => ActionView::ReceiveRest,
    }
}

/// What a shell run does when told `e`: each request must be answered
/// `OKAY`, else the run fails with the header it got; the output read to
/// the end is the standard output, and the standard error is empty.
pub open spec fn shell_step(s: ShellView, e: EventView) -> ProgressView<ShellView, (Seq<char>, Seq<char>)> {
    match e {
        EventView::Failed(m) => match s {
            ShellView::Connecting(_, _) => ProgressView::Done(Err(AdbErrorView::Connect(m))),
            ShellView::ReadingOutput => ProgressView::Done(Err(AdbErrorView::ReadOutput(m))),
            _ => ProgressView::Done(Err(AdbErrorView::Io(m))),
        },
        EventView::Connected => match s {
            ShellView::Connecting(Some(t), c) => ProgressView::Continue(
                ShellView::SendingTransport(t, c),
                ActionView::Send(t),
            ),
            ShellView::Connecting(None, c) => ProgressView::Continue(
                ShellView::SendingShell(c),
                ActionView::Send(c),
            ),
            _ => ProgressView::Done(Err(AdbErrorView::Io(Seq::empty()))),
        },
        EventView::Sent => match s {
            ShellView::SendingTransport(_, c) => ProgressView::Continue(
                ShellView::AwaitingTransport(c),
                ActionView::Receive(4),
            ),
            _ => ProgressView::Continue(ShellView::AwaitingShell, ActionView::Receive(4)),
        },
        EventView::Received(h) => match s {
            ShellView::AwaitingTransport(c) => if h == okay_bytes() {
                ProgressView::Continue(ShellView::SendingShell(c), ActionView::Send(c))
            } else {
                ProgressView::Done(Err(AdbErrorView::SelectDevice(utf8_lossy(h))))
            },
            _ => if h == okay_bytes() {
                ProgressView::Continue(ShellView::ReadingOutput, ActionView::ReceiveRest)
            } else {
                ProgressView::Done(Err(AdbErrorView::ShellRefused(utf8_lossy(h))))
            },
        },
        EventView::ReceivedText(t) => ProgressView::Done(Ok((t, Seq::empty()))),
        _ => ProgressView::Done(Err(AdbErrorView::Io(Seq::empty()))),
    }
}

impl Shell {
    /// The action this run is waiting on.
    pub open spec fn pending(&self) -> ActionView {
        shell_pending(self.deep_view())
    }

    /// Starts running `command` on `device`; its first action is [`Action::Connect`].
    pub fn start(device: &str, command: &str) -> (r: (Shell, Action))
        ensures
            r.0.deep_view() == shell_start(device@, command@),
            r.1.deep_view() == ActionView::Connect,
    {
        let transport = if device.is_empty() {
            None
        } else {
            let t = joined("host:transport:", device);
            Some(encode_request(t.as_str()))
        };
        let c = joined("shell:", command);
        let shell = encode_request(c.as_str());
        (Shell::Connecting(transport, shell), Action::Connect)
    }

    /// The run's next step after `e`.
    pub fn step(self, e: Event) -> (p: Progress<Shell, (String, String)>)
        requires
            answers(self.pending(), e.deep_view()),
        ensures
            p.deep_view() == shell_step(self.deep_view(), e.deep_view()),
            p matches Progress::Continue(r, a) ==> a.deep_view() == r.pending(),
    {
        match e {
            Event::Failed(m) => match self {
                Shell::Connecting(_, _) => Progress::Done(Err(AdbError::Connect(m))),
                Shell::ReadingOutput => Progress::Done(Err(AdbError::ReadOutput(m))),
                _ => Progress::Done(Err(AdbError::Io(m))),
            },
            Event::Connected => match self {
                Shell::Connecting(Some(t), c) => {
                    let a = Action::Send(t.clone());
                    Progress::Continue(Shell::SendingTransport(t, c), a)
                },
                Shell::Connecting(None, c) => {
                    let a = Action::Send(c.clone());
                    Progress::Continue(Shell::SendingShell(c), a)
                },
                _ => {
                    proof {
                        assert(false);
                    }
                    Progress::Done(Err(AdbError::Io(String::new())))
                },
            },
            Event::Sent => match self {
                Shell::SendingTransport(_, c) => Progress::Continue(
                    Shell::AwaitingTransport(c),
                    Action::Receive(4),
                ),
                _ => Progress::Continue(Shell::AwaitingShell, Action::Receive(4)),
            },
            Event::Received(h) => match self {
                Shell::AwaitingTransport(c) => {
                    if is_okay(h.as_slice()) {
                        let a = Action::Send(c.clone());
                        Progress::Continue(Shell::SendingShell(c), a)
                    } else {
                        Progress::Done(Err(AdbError::SelectDevice(decode_lossy(h.as_slice()))))
                    }
                },
                _ => {
                    if is_okay(h.as_slice()) {
                        Progress::Continue(Shell::ReadingOutput, Action::ReceiveRest)
                    } else {
                        Progress::Done(Err(AdbError::ShellRefused(decode_lossy(h.as_slice()))))
                    }
                },
            },
            Event::ReceivedText(t) => Progress::Done(Ok((t, String::new()))),
            _ => {
                proof {
                    assert(false);
                }
                Progress::Done(Err(AdbError::Io(String::new())))
            },
        }
    }
}

// ---------------------------------------------------------------------------
// Making sure the server runs.
// ---------------------------------------------------------------------------

/// Making sure the server runs: try to connect; where that fails, find `adb`
/// and run `adb start-server`.
#[derive(Debug)]
pub enum Startup {
    /// Trying to connect.
    Probing,
    /// Finding `adb`.
    Locating,
    /// Running `adb start-server` with the `adb` at this path.
    Starting(String),
}

/// The abstract content of a [`Startup`].
pub enum StartupView {
    Probing,
    Locating,
    Starting(Seq<char>),
}

impl DeepView for Startup {
    type V = StartupView;

    open spec fn deep_view(&self) -> StartupView {
        match self {
            Startup::Probing => StartupView::Probing,
            Startup::Locating => StartupView::Locating,
            Startup::Starting(p) => StartupView::Starting(p@),
        }
    }
}

/// The arguments `start-server`.
pub open spec fn start_server_args() -> Seq<Seq<char>> {
    seq!["start-server"@]
}

/// The action a startup is waiting on.
pub open spec fn startup_pending(s: StartupView) -> ActionView {
    match s {
        StartupView::Probing => ActionView::Connect,
        StartupView::Locating => ActionView::LocateAdb,
        StartupView::Starting(p) => ActionView::RunAdb(p, start_server_args()),
    }
}

/// What a startup does when told `e`: a server that answers needs nothing
/// more; otherwise `adb start-server` must succeed.
pub open spec fn startup_step(s: StartupView, e: EventView) -> ProgressView<StartupView, ()> {
    match s {
        StartupView::Probing => match e {
            EventView::Connected => ProgressView::Done(Ok(())),
            _ => ProgressView::Continue(StartupView::Locating, ActionView::LocateAdb),
        },
        StartupView::Locating => match e {
            EventView::Located(p) => ProgressView::Continue(
                StartupView::Starting(p),
                ActionView::RunAdb(p, start_server_args()),
            ),
            EventView::Failed(m) => ProgressView::Done(Err(AdbErrorView::Io(m))),
            _ => ProgressView::Done(Err(AdbErrorView::Io(Seq::empty()))),
        },
        StartupView::Starting(_) => match e {
            EventView::Ran(ok, _) => if ok {
                ProgressView::Done(Ok(()))
            } else {
                ProgressView::Done(Err(AdbErrorView::StartServer))
            },
            EventView::Failed(m) => ProgressView::Done(Err(AdbErrorView::Io(m))),
            _ => ProgressView::Done(Err(AdbErrorView::Io(Seq::empty()))),
        },
    }
}

fn start_server_arguments() -> (v: Vec<String>)
    ensures
        v.deep_view() == start_server_args(),
{
    let mut v: Vec<String> = Vec::new();
    v.push(String::from_str("start-server"));
    assert(v.deep_view() =~= start_server_args());
    v
}

impl Startup {
    /// The action this startup is waiting on.
    pub open spec fn pending(&self) -> ActionView {
        startup_pending(self.deep_view())
    }

    /// Starts making sure the server runs; the first action is [`Action::Connect`].
    pub fn start() -> (r: (Startup, Action))
        ensures
            r.0.deep_view() == StartupView::Probing,
            r.1.deep_view() == ActionView::Connect,
    {
        (Startup::Probing, Action::Connect)
    }

    /// The startup's next step after `e`.
    pub fn step(self, e: Event) -> (p: Progress<Startup, ()>)
        requires
            answers(self.pending(), e.deep_view()),
        ensures
            p.deep_view() == startup_step(self.deep_view(), e.deep_view()),
            p matches Progress::Continue(r, a) ==> a.deep_view() == r.pending(),
    {
        match self {
            Startup::Probing => match e {
                Event::Connected => Progress::Done(Ok(())),
                _ => Progress::Continue(Startup::Locating, Action::LocateAdb),
            },
            Startup::Locating => match e {
                Event::Located(p) => {
                    let a = Action::RunAdb(p.clone(), start_server_arguments());
                    Progress::Continue(Startup::Starting(p), a)
                },
                Event::Failed(m) => Progress::Done(Err(AdbError::Io(m))),
                _ => {
                    proof {
                        assert(false);
                    }
                    Progress::Done(Err(AdbError::Io(String::new())))
                },
            },
            Startup::Starting(_) => match e {
                Event::Ran(ok, _) => {
                    if ok {
                        Progress::Done(Ok(()))
                    } else {
                        Progress::Done(Err(AdbError::StartServer))
                    }
                },
                Event::Failed(m) => Progress::Done(Err(AdbError::Io(m))),
                _ => {
                    proof {
                        assert(false);
                    }
                    Progress::Done(Err(AdbError::Io(String::new())))
                },
            },
        }
    }
}


// ---------------------------------------------------------------------------
// Running `adb` for a file transfer or a listing.
// ---------------------------------------------------------------------------

/// What an `adb` run is for, and so how its result reads.
#[derive(Debug)]
pub enum JobKind {
    /// `adb pull`: succeeds when `adb` does.
    Pull,
    /// `adb push`: succeeds when `adb` does.
    Push,
    /// `adb shell ls -la` of this directory: its output is a listing.
    List(String),
}

/// The abstract content of a [`JobKind`].
pub enum JobKindView {
    Pull,
    Push,
    List(Seq<char>),
}

/// Finding `adb`, then running it with some arguments.
#[derive(Debug)]
pub enum Job {
    /// Finding `adb`; these arguments wait.
    Locating(JobKind, Vec<String>),
    /// Running the `adb` at this path with these arguments.
    Running(JobKind, String, Vec<String>),
}

/// The abstract content of a [`Job`].
pub enum JobView {
    Locating(JobKindView, Seq<Seq<char>>),
    Running(JobKindView, Seq<char>, Seq<Seq<char>>),
}

impl DeepView for JobKind {
    type V = JobKindView;

    open spec fn deep_view(&self) -> JobKindView {
        match self {
            JobKind::Pull => JobKindView::Pull,
            JobKind::Push => JobKindView::Push,
            JobKind::List(d) => JobKindView::List(d@),
        }
    }
}

impl DeepView for Job {
    type V = JobView;

    open spec fn deep_view(&self) -> JobView {
        match self {
            Job::Locating(k, a) => JobView::Locating(k.deep_view(), a.deep_view()),
            Job::Running(k, p, a) => JobView::Running(k.deep_view(), p@, a.deep_view()),
        }
    }
}

/// The action a job is waiting on.
pub open spec fn job_pending(j: JobView) -> ActionView {
    match j {
        JobView::Locating(_, _) => ActionView::LocateAdb,
        JobView::Running(_, p, a) => ActionView::RunAdb(p, a),
    }
}

/// Whether a job can take `e`: it answers the pending action, and a listing
/// it reads is one that can be read (see [`listing_well_formed`]).
pub open spec fn job_accepts(j: JobView, e: EventView) -> bool {
    &&& answers(job_pending(j), e)
    &&& (j matches JobView::Running(JobKindView::List(_), _, _) ==> (e matches EventView::Ran(
        _,
        out,
    ) ==> listing_well_formed(utf8_lossy(out))))
}

/// What a job does when told `e`: a transfer succeeds exactly when `adb`
/// exits successfully; a listing is read from `adb`'s output whatever its exit.
pub open spec fn job_step(j: JobView, e: EventView) -> ProgressView<JobView, OutcomeView> {
    match e {
        EventView::Failed(m) => ProgressView::Done(Err(AdbErrorView::Io(m))),
        EventView::Located(p) => match j {
            JobView::Locating(k, a) => ProgressView::Continue(
                JobView::Running(k, p, a),
                ActionView::RunAdb(p, a),
            ),
            _ => ProgressView::Done(Err(AdbErrorView::Io(Seq::empty()))),
        },
        EventView::Ran(ok, out) => match j {
            JobView::Running(JobKindView::Pull, _, _) => if ok {
                ProgressView::Done(Ok(OutcomeView::Nothing))
            } else {
                ProgressView::Done(Err(AdbErrorView::PullFailed))
            },
            JobView::Running(JobKindView::Push, _, _) => if ok {
                ProgressView::Done(Ok(OutcomeView::Nothing))
            } else {
                ProgressView::Done(Err(AdbErrorView::PushFailed))
            },
            JobView::Running(JobKindView::List(dir), _, _) => ProgressView::Done(
                Ok(OutcomeView::Files(listed_entries(utf8_lossy(out), dir))),
            ),
            _ => ProgressView::Done(Err(AdbErrorView::Io(Seq::empty()))),
        },
        _ => ProgressView::Done(Err(AdbErrorView::Io(Seq::empty()))),
    }
}

fn clone_strings(v: &Vec<String>) -> (out: Vec<String>)
    ensures
        out.deep_view() == v.deep_view(),
{
    let mut out: Vec<String> = Vec::new();
    let mut i: usize = 0;
    while i < v.len()
        invariant
            i <= v@.len(),
            out.deep_view() == v.deep_view().take(i as int),
        decreases v@.len() - i,
    {
        let ghost before = out.deep_view();
        let c = v[i].clone();
        out.push(c);
        assert(out.deep_view() =~= before.push(v[i as int]@));
        assert(v.deep_view().take(i + 1) =~= v.deep_view().take(i as int).push(v[i as int]@));
        i = i + 1;
    }
    assert(v.deep_view().take(v@.len() as int) =~= v.deep_view());
    out
}

impl Job {
    /// The action this job is waiting on.
    pub open spec fn pending(&self) -> ActionView {
        job_pending(self.deep_view())
    }

    /// Starts a job; the first action is [`Action::LocateAdb`].
    pub fn start(kind: JobKind, args: Vec<String>) -> (r: (Job, Action))
        ensures
            r.0.deep_view() == JobView::Locating(kind.deep_view(), args.deep_view()),
            r.1.deep_view() == ActionView::LocateAdb,
    {
        (Job::Locating(kind, args), Action::LocateAdb)
    }

    /// Whether the job can take `e`.
    pub fn accepts(&self, e: &Event) -> (b: bool)
        ensures
            b == job_accepts(self.deep_view(), e.deep_view()),
    {
        match self {
            Job::Locating(_, _) => match e {
                Event::Located(_) | Event::Failed(_) => true,
                _ => false,
            },
            Job::Running(k, _, _) => match e {
                Event::Failed(_) => true,
                Event::Ran(_, out) => match k {
                    JobKind::List(_) => {
                        let text = decode_lossy(out.as_slice());
                        crate::files::listing_parsable(text.as_str())
                    },
                    _ => true,
                },
                _ => false,
            },
        }
    }

    /// The job's next step after `e`.
    pub fn step(self, e: Event) -> (p: Progress<Job, Outcome>)
        requires
            job_accepts(self.deep_view(), e.deep_view()),
        ensures
            p.deep_view() == job_step(self.deep_view(), e.deep_view()),
            p matches Progress::Continue(r, a) ==> a.deep_view() == r.pending(),
    {
        match e {
            Event::Failed(m) => Progress::Done(Err(AdbError::Io(m))),
            Event::Located(p) => match self {
                Job::Locating(k, a) => {
                    let act = Action::RunAdb(p.clone(), clone_strings(&a));
                    Progress::Continue(Job::Running(k, p, a), act)
                },
                _ => {
                    proof {
                        assert(false);
                    }
                    Progress::Done(Err(AdbError::Io(String::new())))
                },
            },
            Event::Ran(ok, out) => match self {
                Job::Running(JobKind::Pull, _, _) => {
                    if ok {
                        Progress::Done(Ok(Outcome::Nothing))
                    } else {
                        Progress::Done(Err(AdbError::PullFailed))
                    }
                },
                Job::Running(JobKind::Push, _, _) => {
                    if ok {
                        Progress::Done(Ok(Outcome::Nothing))
                    } else {
                        Progress::Done(Err(AdbError::PushFailed))
                    }
                },
                Job::Running(JobKind::List(dir), _, _) => {
                    let text = decode_lossy(out.as_slice());
                    let files = parse_file_listing(text.as_str(), dir.as_str());
                    Progress::Done(Ok(Outcome::Files(files)))
                },
                _ => {
                    proof {
                        assert(false);
                    }
                    Progress::Done(Err(AdbError::Io(String::new())))
                },
            },
            _ => {
                proof {
                    assert(false);
                }
                Progress::Done(Err(AdbError::Io(String::new())))
            },
        }
    }
}

// ---------------------------------------------------------------------------
// Asking the server for its version.
// ---------------------------------------------------------------------------

/// Asking the server for its version, possibly after checking that it answers.
#[derive(Debug)]
pub enum Check {
    /// Checking that the server answers a connection.
    Probing,
    /// Asking `host:version`.
    Asking(Request),
}

/// The abstract content of a [`Check`].
pub enum CheckView {
    Probing,
    Asking(RequestView),
}

impl DeepView for Check {
    type V = CheckView;

    open spec fn deep_view(&self) -> CheckView {
        match self {
            Check::Probing => CheckView::Probing,
            Check::Asking(r) => CheckView::Asking(r.deep_view()),
        }
    }
}

/// The action a check is waiting on.
pub open spec fn check_pending(c: CheckView) -> ActionView {
    match c {
        CheckView::Probing => ActionView::Connect,
        CheckView::Asking(r) => request_pending(r),
    }
}

/// The version request.
pub open spec fn version_request() -> RequestView {
    request_start("host:version"@)
}

/// The line that reports the server's version.
pub open spec fn version_line(reply: Seq<char>) -> Seq<char> {
    "ADB server version: "@ + reply
}

/// What a check does when told `e`: a server that cannot be reached is not
/// running; otherwise its answer to `host:version` is reported.
pub open spec fn check_step(c: CheckView, e: EventView) -> ProgressView<CheckView, Seq<char>> {
    match c {
        CheckView::Probing => match e {
            EventView::Failed(m) => ProgressView::Done(Err(AdbErrorView::ServerNotRunning(m))),
            _ => ProgressView::Continue(CheckView::Asking(version_request()), ActionView::Connect),
        },
        CheckView::Asking(r) => match request_step(r, e) {
            ProgressView::Continue(r2, a) => ProgressView::Continue(CheckView::Asking(r2), a),
            ProgressView::Done(Ok(t)) => ProgressView::Done(Ok(version_line(t))),
            ProgressView::Done(Err(x)) => ProgressView::Done(Err(x)),
        },
    }
}

impl Check {
    /// The action this check is waiting on.
    pub open spec fn pending(&self) -> ActionView {
        check_pending(self.deep_view())
    }

    /// Starts checking that the server answers, then asking its version.
    pub fn start() -> (r: (Check, Action))
        ensures
            r.0.deep_view() == CheckView::Probing,
            r.1.deep_view() == ActionView::Connect,
    {
        (Check::Probing, Action::Connect)
    }

    /// Starts asking the server's version straight away.
    pub fn version() -> (r: (Check, Action))
        ensures
            r.0.deep_view() == CheckView::Asking(version_request()),
            r.1.deep_view() == ActionView::Connect,
    {
        let (q, a) = Request::start("host:version");
        (Check::Asking(q), a)
    }

    /// The check's next step after `e`.
    pub fn step(self, e: Event) -> (p: Progress<Check, String>)
        requires
            answers(self.pending(), e.deep_view()),
        ensures
            p.deep_view() == check_step(self.deep_view(), e.deep_view()),
            p matches Progress::Continue(r, a) ==> a.deep_view() == r.pending(),
    {
        match self {
            Check::Probing => match e {
                Event::Failed(m) => Progress::Done(Err(AdbError::ServerNotRunning(m))),
                _ => {
                    let (q, a) = Request::start("host:version");
                    Progress::Continue(Check::Asking(q), a)
                },
            },
            Check::Asking(r) => match r.step(e) {
                Progress::Continue(r2, a) => Progress::Continue(Check::Asking(r2), a),
                Progress::Done(Ok(t)) => Progress::Done(Ok(joined("ADB server version: ", t.as_str()))),
                Progress::Done(Err(x)) => Progress::Done(Err(x)),
            },
        }
    }
}


// ---------------------------------------------------------------------------
// Listing the devices with their models.
// ---------------------------------------------------------------------------

/// Listing the devices, then asking each attached one for its model.
#[derive(Debug)]
pub enum Scan {
    /// Asking `host:devices-l`.
    Listing(Request),
    /// Asking the device at this index of the list for its model.
    Modeling(Vec<Device>, usize, Request),
}

/// The abstract content of a [`Scan`].
pub enum ScanView {
    Listing(RequestView),
    Modeling(Seq<DeviceView>, nat, RequestView),
}

impl DeepView for Scan {
    type V = ScanView;

    open spec fn deep_view(&self) -> ScanView {
        match self {
            Scan::Listing(r) => ScanView::Listing(r.deep_view()),
            Scan::Modeling(d, j, r) => ScanView::Modeling(d.deep_view(), *j as nat, r.deep_view()),
        }
    }
}

/// The action a scan is waiting on.
pub open spec fn scan_pending(s: ScanView) -> ActionView {
    match s {
        ScanView::Listing(r) => request_pending(r),
        ScanView::Modeling(_, _, r) => request_pending(r),
    }
}

/// A scan asks a model of an attached device that is on its list.
pub open spec fn scan_wf(s: ScanView) -> bool {
    s matches ScanView::Modeling(ds, j, _) ==> j < ds.len() && ds[j as int].status == status_device()
}

/// The device list request.
pub open spec fn devices_request() -> RequestView {
    request_start("host:devices-l"@)
}

/// The request for the model of device `id`.
pub open spec fn model_request(id: Seq<char>) -> RequestView {
    request_start("host-serial:"@ + id + ":getprop:ro.product.model"@)
}

/// The first index from `from` on whose device is attached (state `device`).
pub open spec fn next_attached(ds: Seq<DeviceView>, from: nat) -> Option<nat>
    decreases ds.len() - from,
{
    if from >= ds.len() {
        None
    } else if ds[from as int].status == status_device() {
        Some(from)
    } else {
        next_attached(ds, from + 1)
    }
}

/// The list with the model of the device at `j` set to `m`.
pub open spec fn with_model(ds: Seq<DeviceView>, j: nat, m: Option<Seq<char>>) -> Seq<DeviceView> {
    ds.update(j as int, DeviceView { id: ds[j as int].id, status: ds[j as int].status, model: m })
}

/// Going on from index `from`: ask the next attached device for its model,
/// or finish with the list.
pub open spec fn scan_next(ds: Seq<DeviceView>, from: nat) -> ProgressView<ScanView, Seq<DeviceView>> {
    match next_attached(ds, from) {
        None => ProgressView::Done(Ok(ds)),
        Some(j) => ProgressView::Continue(
            ScanView::Modeling(ds, j, model_request(ds[j as int].id)),
            ActionView::Connect,
        ),
    }
}

/// What a scan does when told `e`: a failed list fails the scan; a failed
/// model query leaves that device without a model.
pub open spec fn scan_step(s: ScanView, e: EventView) -> ProgressView<ScanView, Seq<DeviceView>> {
    match s {
        ScanView::Listing(r) => match request_step(r, e) {
            ProgressView::Continue(r2, a) => ProgressView::Continue(ScanView::Listing(r2), a),
            ProgressView::Done(Err(x)) => ProgressView::Done(Err(x)),
            ProgressView::Done(Ok(t)) => scan_next(listed_devices(t), 0),
        },
        ScanView::Modeling(ds, j, r) => match request_step(r, e) {
            ProgressView::Continue(r2, a) => ProgressView::Continue(ScanView::Modeling(ds, j, r2), a),
            ProgressView::Done(res) => scan_next(
                with_model(
                    ds,
                    j,
                    match res {
                        Ok(t) => model_of_answer(t),
                        Err(_) => None,
                    },
                ),
                j + 1,
            ),
        },
    }
}

fn scan_from(ds: Vec<Device>, from: usize) -> (p: Progress<Scan, Vec<Device>>)
    ensures
        p.deep_view() == scan_next(ds.deep_view(), from as nat),
        p matches Progress::Continue(s, a) ==> a.deep_view() == scan_pending(s.deep_view())
            && scan_wf(s.deep_view()),
{
    let ghost d = ds.deep_view();
    let mut k: usize = from;
    while k < ds.len() && !is_attached(&ds[k].status)
        invariant
            from <= k,
            d == ds.deep_view(),
            next_attached(d, from as nat) == next_attached(d, k as nat),
        decreases ds@.len() - k,
    {
        k = k + 1;
    }
    if k < ds.len() {
        let mut cmd = joined("host-serial:", ds[k].id.as_str());
        cmd.append(":getprop:ro.product.model");
        let (q, a) = Request::start(cmd.as_str());
        Progress::Continue(Scan::Modeling(ds, k, q), a)
    } else {
        Progress::Done(Ok(ds))
    }
}

impl Scan {
    /// The action this scan is waiting on.
    pub open spec fn pending(&self) -> ActionView {
        scan_pending(self.deep_view())
    }

    /// Starts a scan; its first action is [`Action::Connect`].
    pub fn start() -> (r: (Scan, Action))
        ensures
            r.0.deep_view() == ScanView::Listing(devices_request()),
            r.1.deep_view() == ActionView::Connect,
    {
        let (q, a) = Request::start("host:devices-l");
        (Scan::Listing(q), a)
    }

    /// The scan's next step after `e`.
    pub fn step(self, e: Event) -> (p: Progress<Scan, Vec<Device>>)
        requires
            scan_wf(self.deep_view()),
            answers(self.pending(), e.deep_view()),
        ensures
            p.deep_view() == scan_step(self.deep_view(), e.deep_view()),
            p matches Progress::Continue(s, a) ==> a.deep_view() == s.pending() && scan_wf(
                s.deep_view(),
            ),
    {
        match self {
            Scan::Listing(r) => match r.step(e) {
                Progress::Continue(r2, a) => Progress::Continue(Scan::Listing(r2), a),
                Progress::Done(Err(x)) => Progress::Done(Err(x)),
                Progress::Done(Ok(t)) => scan_from(parse_device_list(t.as_str()), 0),
            },
            Scan::Modeling(ds, j, r) => match r.step(e) {
                Progress::Continue(r2, a) => Progress::Continue(Scan::Modeling(ds, j, r2), a),
                Progress::Done(res) => {
                    let ghost r0 = res;
                    let m = model_from_reply(res);
                    let mut ds = ds;
                    let d = Device { id: ds[j].id.clone(), status: ds[j].status.clone(), model: m };
                    let ghost before = ds.deep_view();
                    ds.set(j, d);
                    assert(ds.deep_view() =~= with_model(
                        before,
                        j as nat,
                        match r0 {
                            Ok(t) => model_of_answer(t@),
                            Err(_) => None,
                        },
                    ));
                    let n = ds.len();
                    assert(j < n);
                    scan_from(ds, j + 1)
                },
            },
        }
    }
}

} // verus!
