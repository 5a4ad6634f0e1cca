//! Errors of ADB operations and the messages they read as.
use vstd::prelude::*;
use crate::frame::HexError;

verus! {

/// Why an ADB operation failed.
#[derive(Debug, Clone)]
pub enum AdbError {
    /// The server could not be reached; holds the I/O error's text.
    Connect(String),
    /// An I/O step or an outside tool failed; holds its message verbatim.
    Io(String),
    /// A reply's length field is not a hex number.
    InvalidLength(HexError),
    /// The server answered `FAIL`; holds its explanation.
    CommandFailed(String),
    /// The server refused to switch to the device; holds the header it sent.
    SelectDevice(String),
    /// The server refused the shell command; holds the header it sent.
    ShellRefused(String),
    /// The command's output could not be read; holds the I/O error's text.
    ReadOutput(String),
    /// The server is not running; holds the I/O error of the connection attempt.
    ServerNotRunning(String),
    /// `adb start-server` did not succeed.
    StartServer,
    /// `adb pull` did not succeed.
    PullFailed,
    /// `adb push` did not succeed.
    PushFailed,
    /// No `adb` executable was found.
    AdbNotFound,
}

/// The abstract content of an [`AdbError`].
pub enum AdbErrorView {
    Connect(Seq<char>),
    Io(Seq<char>),
    InvalidLength(HexError),
    CommandFailed(Seq<char>),
    SelectDevice(Seq<char>),
    ShellRefused(Seq<char>),
    ReadOutput(Seq<char>),
    ServerNotRunning(Seq<char>),
    StartServer,
    PullFailed,
    PushFailed,
    AdbNotFound,
}

impl View for AdbError {
    type V = AdbErrorView;

    open spec fn view(&self) -> AdbErrorView {
        match self {
            AdbError::Connect(m) => AdbErrorView::Connect(m@),
            AdbError::Io(m) => AdbErrorView::Io(m@),
            AdbError::InvalidLength(k) => AdbErrorView::InvalidLength(*k),
            AdbError::CommandFailed(m) => AdbErrorView::CommandFailed(m@),
            AdbError::SelectDevice(m) => AdbErrorView::SelectDevice(m@),
            AdbError::ShellRefused(m) => AdbErrorView::ShellRefused(m@),
            AdbError::ReadOutput(m) => AdbErrorView::ReadOutput(m@),
            AdbError::ServerNotRunning(m) => AdbErrorView::ServerNotRunning(m@),
            AdbError::StartServer => AdbErrorView::StartServer,
            AdbError::PullFailed => AdbErrorView::PullFailed,
            AdbError::PushFailed => AdbErrorView::PushFailed,
            AdbError::AdbNotFound => AdbErrorView::AdbNotFound,
        }
    }
}

impl DeepView for AdbError {
    type V = AdbErrorView;

    open spec fn deep_view(&self) -> AdbErrorView {
        self@
    }
}

/// The text of a hex reading error (`ParseIntError`'s message).
pub open spec fn hex_error_text(k: HexError) -> Seq<char> {
    match k {
        HexError::Empty => "cannot parse integer from empty string"@,
        HexError::InvalidDigit => "invalid digit found in string"@,
        HexError::Overflow => "number too large to fit in target type"@,
    }
}

/// The text of the failed connection attempt.
pub open spec fn connect_text(m: Seq<char>) -> Seq<char> {
    "Failed to connect to ADB server at 127.0.0.1:5037: "@ + m
}

/// The message when no `adb` executable was found.
pub open spec fn not_found_text() -> Seq<char> {
    "ADB executable not found. Please ensure Android SDK Platform-Tools is installed and 'adb' is in your PATH"@
}

/// The message an error reads as.
pub open spec fn error_text(e: AdbErrorView) -> Seq<char> {
    match e {
        AdbErrorView::Connect(m) => connect_text(m),
        AdbErrorView::Io(m) => m,
        AdbErrorView::InvalidLength(k) => "Invalid length in ADB response: "@ + hex_error_text(k),
        AdbErrorView::CommandFailed(m) => "ADB command failed: "@ + m,
        AdbErrorView::SelectDevice(h) => "Failed to select device: "@ + h,
        AdbErrorView::ShellRefused(h) => "Failed to execute shell command: "@ + h,
        AdbErrorView::ReadOutput(m) => "Error reading command output: "@ + m,
        AdbErrorView::ServerNotRunning(m) => "ADB server not running: "@ + connect_text(m),
        AdbErrorView::StartServer => "Failed to start ADB server"@,
        AdbErrorView::PullFailed => "Failed to pull file from device"@,
        AdbErrorView::PushFailed => "Failed to push file to device"@,
        AdbErrorView::AdbNotFound => not_found_text(),
    }
}

fn text_then(prefix: &str, rest: &str) -> (s: String)
    ensures
        s@ == prefix@ + rest@,
{
    let mut s = String::from_str(prefix);
    s.append(rest);
    s
}

fn hex_error_message(k: HexError) -> (s: String)
    ensures
        s@ == hex_error_text(k),
{
    match k {
        HexError::Empty => String::from_str("cannot parse integer from empty string"),
        HexError::InvalidDigit => String::from_str("invalid digit found in string"),
        HexError::Overflow => String::from_str("number too large to fit in target type"),
    }
}

fn connect_message(m: &str) -> (s: String)
    ensures
        s@ == connect_text(m@),
{
    text_then("Failed to connect to ADB server at 127.0.0.1:5037: ", m)
}

impl AdbError {
    /// The message this error reads as.
    pub fn message(&self) -> (s: String)
        ensures
            s@ == error_text(self@),
    {
        match self {
            AdbError::Connect(m) => connect_message(m.as_str()),
            AdbError::Io(m) => m.clone(),
            AdbError::InvalidLength(k) => {
                let t = hex_error_message(*k);
                text_then("Invalid length in ADB response: ", t.as_str())
            },
            AdbError::CommandFailed(m) => text_then("ADB command failed: ", m.as_str()),
            AdbError::SelectDevice(h) => text_then("Failed to select device: ", h.as_str()),
            AdbError::ShellRefused(h) => text_then("Failed to execute shell command: ", h.as_str()),
            AdbError::ReadOutput(m) => text_then("Error reading command output: ", m.as_str()),
            AdbError::ServerNotRunning(m) => {
                let c = connect_message(m.as_str());
                text_then("ADB server not running: ", c.as_str())
            },
            AdbError::StartServer => String::from_str("Failed to start ADB server"),
            AdbError::PullFailed => String::from_str("Failed to pull file from device"),
            AdbError::PushFailed => String::from_str("Failed to push file to device"),
            AdbError::AdbNotFound => String::from_str(
                "ADB executable not found. Please ensure Android SDK Platform-Tools is installed and 'adb' is in your PATH",
            ),
        }
    }
}

} // verus!
