use adb_tui::error::AdbError;
use adb_tui::exchange::{Action, Event, Outcome};
use adb_tui::frame::{encode_request, HexError};
use adb_tui::session::{
    batch_execute, batch_pull, batch_push, binary_command_line, check_adb_available, check_adb_server_running,
    ensure_adb_server_running, execute_command, execute_command_socket, get_adb_version_socket,
    get_devices, get_devices_socket, list_files, pull_file, push_file, run_binary, Session,
};
use adb_tui::tracker::track_devices;

fn feed(s: &mut Session, e: Event) {
    assert!(s.accepts(&e), "event {:?} not accepted at {:?}", e, s.action());
    s.advance(e);
}

fn expect_connect(s: &Session) {
    assert!(matches!(s.action(), Action::Connect), "{:?}", s.action());
}

fn expect_send(s: &Session, bytes: &[u8]) {
    match s.action() {
        Action::Send(b) => assert_eq!(b.as_slice(), bytes),
        a => panic!("expected a send, got {:?}", a),
    }
}

fn expect_receive(s: &Session, n: usize) {
    match s.action() {
        Action::Receive(m) => assert_eq!(*m, n),
        a => panic!("expected a read of {}, got {:?}", n, a),
    }
}

fn result(s: Session) -> Result<Outcome, AdbError> {
    match s.next {
        Action::Finish(r) => r,
        a => panic!("not finished: {:?}", a),
    }
}

/// Answers a host request with the header, the length field and the body.
fn answer(s: &mut Session, request: &str, header: &[u8], field: &[u8], body: &[u8]) {
    expect_connect(s);
    feed(s, Event::Connected);
    expect_send(s, &encode_request(request));
    feed(s, Event::Sent);
    expect_receive(s, 4);
    feed(s, Event::Received(header.to_vec()));
    expect_receive(s, 4);
    feed(s, Event::Received(field.to_vec()));
    if !body.is_empty() {
        expect_receive(s, body.len());
        feed(s, Event::Received(body.to_vec()));
    }
}

#[test]
fn version_reply_is_reported() {
    let mut s = get_adb_version_socket();
    answer(&mut s, "host:version", b"OKAY", b"0004", b"0029");
    match result(s) {
        Ok(Outcome::Text(t)) => assert_eq!(t, "ADB server version: 0029"),
        r => panic!("{:?}", r),
    }
}

#[test]
fn refused_request_fails_with_its_reason() {
    let mut s = get_adb_version_socket();
    answer(&mut s, "host:version", b"FAIL", b"0005", b"nope!");
    match result(s) {
        Err(AdbError::CommandFailed(m)) => assert_eq!(m, "nope!"),
        r => panic!("{:?}", r),
    }
}

#[test]
fn other_header_with_empty_body_is_the_reply() {
    let mut s = get_adb_version_socket();
    answer(&mut s, "host:version", b"1234", b"0000", b"");
    match result(s) {
        Ok(Outcome::Text(t)) => assert_eq!(t, "ADB server version: 1234"),
        r => panic!("{:?}", r),
    }
}

#[test]
fn okay_with_empty_body_is_empty() {
    let mut s = get_adb_version_socket();
    answer(&mut s, "host:version", b"OKAY", b"0000", b"");
    match result(s) {
        Ok(Outcome::Text(t)) => assert_eq!(t, "ADB server version: "),
        r => panic!("{:?}", r),
    }
}

#[test]
fn bad_length_field_is_an_error() {
    let mut s = get_adb_version_socket();
    answer(&mut s, "host:version", b"OKAY", b"zzzz", b"");
    match result(s) {
        Err(AdbError::InvalidLength(HexError::InvalidDigit)) => {},
        r => panic!("{:?}", r),
    }
}

#[test]
fn unreachable_server_is_not_running() {
    let mut s = check_adb_server_running();
    expect_connect(&s);
    feed(&mut s, Event::Failed("Connection refused (os error 111)".to_string()));
    match result(s) {
        Err(e) => assert_eq!(e.message(), "ADB server not running: Failed to connect to ADB server at 127.0.0.1:5037: Connection refused (os error 111)"),
        r => panic!("{:?}", r),
    }
}

#[test]
fn shell_selects_device_then_runs() {
    let mut s = execute_command_socket("emu", "ls /");
    expect_connect(&s);
    feed(&mut s, Event::Connected);
    expect_send(&s, b"0012host:transport:emu");
    feed(&mut s, Event::Sent);
    expect_receive(&s, 4);
    feed(&mut s, Event::Received(b"OKAY".to_vec()));
    expect_send(&s, b"000ashell:ls /");
    feed(&mut s, Event::Sent);
    expect_receive(&s, 4);
    feed(&mut s, Event::Received(b"OKAY".to_vec()));
    assert!(matches!(s.action(), Action::ReceiveRest));
    feed(&mut s, Event::ReceivedText("bin\netc\n".to_string()));
    match result(s) {
        Ok(Outcome::Output(o, e)) => {
            assert_eq!(o, "bin\netc\n");
            assert_eq!(e, "");
        },
        r => panic!("{:?}", r),
    }
}

#[test]
fn shell_without_serial_skips_selection() {
    let mut s = execute_command_socket("", "id");
    feed(&mut s, Event::Connected);
    expect_send(&s, b"0008shell:id");
}

#[test]
fn refused_selection_reports_header() {
    let mut s = execute_command_socket("emu", "id");
    feed(&mut s, Event::Connected);
    feed(&mut s, Event::Sent);
    feed(&mut s, Event::Received(b"FAIL".to_vec()));
    match result(s) {
        Err(e) => assert_eq!(e.message(), "Failed to select device: FAIL"),
        r => panic!("{:?}", r),
    }
}

#[test]
fn output_read_failure_is_reported() {
    let mut s = execute_command_socket("", "id");
    feed(&mut s, Event::Connected);
    feed(&mut s, Event::Sent);
    feed(&mut s, Event::Received(b"OKAY".to_vec()));
    feed(&mut s, Event::Failed("stream did not contain valid UTF-8".to_string()));
    match result(s) {
        Err(e) => assert_eq!(e.message(), "Error reading command output: stream did not contain valid UTF-8"),
        r => panic!("{:?}", r),
    }
}

#[test]
fn startup_runs_start_server_when_unreachable() {
    let mut s = ensure_adb_server_running();
    feed(&mut s, Event::Failed("refused".to_string()));
    assert!(matches!(s.action(), Action::LocateAdb));
    feed(&mut s, Event::Located("/usr/bin/adb".to_string()));
    match s.action() {
        Action::RunAdb(p, a) => {
            assert_eq!(p, "/usr/bin/adb");
            assert_eq!(a, &vec!["start-server".to_string()]);
        },
        a => panic!("{:?}", a),
    }
    feed(&mut s, Event::Ran(false, Vec::new()));
    match result(s) {
        Err(AdbError::StartServer) => {},
        r => panic!("{:?}", r),
    }
}

#[test]
fn startup_needs_nothing_when_server_answers() {
    let mut s = ensure_adb_server_running();
    feed(&mut s, Event::Connected);
    assert!(matches!(result(s), Ok(Outcome::Nothing)));
}

#[test]
fn missing_adb_is_reported() {
    let mut s = ensure_adb_server_running();
    feed(&mut s, Event::Failed("refused".to_string()));
    feed(&mut s, Event::Failed("ADB executable not found".to_string()));
    match result(s) {
        Err(e) => assert_eq!(e.message(), "ADB executable not found"),
        r => panic!("{:?}", r),
    }
}

#[test]
fn devices_are_listed_with_models() {
    let mut s = get_devices();
    feed(&mut s, Event::Connected);
    let list = b"emu\tdevice product:x\nR58 offline\n";
    answer(&mut s, "host:devices-l", b"OKAY", &adb_tui::frame::encode_length(list.len()), list);
    answer(&mut s, "host-serial:emu:getprop:ro.product.model", b"OKAY", b"0006", b"Pixel\n");
    match result(s) {
        Ok(Outcome::Devices(ds)) => {
            assert_eq!(ds.len(), 2);
            assert_eq!(ds[0].id, "emu");
            assert_eq!(ds[0].model, Some("Pixel".to_string()));
            assert_eq!(ds[1].id, "R58");
            assert_eq!(ds[1].status, "offline");
            assert_eq!(ds[1].model, None);
        },
        r => panic!("{:?}", r),
    }
}

#[test]
fn failed_model_query_leaves_no_model() {
    let mut s = get_devices_socket();
    let list = b"a device\n";
    answer(&mut s, "host:devices-l", b"OKAY", &adb_tui::frame::encode_length(list.len()), list);
    expect_connect(&s);
    feed(&mut s, Event::Failed("refused".to_string()));
    match result(s) {
        Ok(Outcome::Devices(ds)) => {
            assert_eq!(ds.len(), 1);
            assert_eq!(ds[0].model, None);
        },
        r => panic!("{:?}", r),
    }
}

#[test]
fn check_reports_version() {
    let mut s = check_adb_available();
    feed(&mut s, Event::Connected);
    expect_connect(&s);
    feed(&mut s, Event::Connected);
    answer(&mut s, "host:version", b"OKAY", b"0004", b"0029");
    match result(s) {
        Ok(Outcome::Text(t)) => assert_eq!(t, "ADB server version: 0029"),
        r => panic!("{:?}", r),
    }
}

#[test]
fn execute_command_starts_server_first() {
    let mut s = execute_command("emu", "id");
    expect_connect(&s);
    feed(&mut s, Event::Connected);
    expect_connect(&s);
    feed(&mut s, Event::Connected);
    expect_send(&s, b"0012host:transport:emu");
}

#[test]
fn run_binary_joins_arguments() {
    assert_eq!(binary_command_line("/data/local/tmp/app", &["-x", "1"]), "/data/local/tmp/app -x 1");
    assert_eq!(binary_command_line("/data/local/tmp/app", &[]), "/data/local/tmp/app");
    let mut s = run_binary("emu", "/bin/t", &["a", "b c"]);
    feed(&mut s, Event::Connected);
    feed(&mut s, Event::Connected);
    feed(&mut s, Event::Sent);
    feed(&mut s, Event::Received(b"OKAY".to_vec()));
    expect_send(&s, &encode_request("shell:/bin/t a b c"));
}

#[test]
fn pull_follows_adb_exit() {
    let mut s = pull_file("emu", "/sdcard/a", "/tmp/a");
    assert!(matches!(s.action(), Action::LocateAdb));
    feed(&mut s, Event::Located("adb".to_string()));
    match s.action() {
        Action::RunAdb(p, a) => {
            assert_eq!(p, "adb");
            assert_eq!(a, &vec!["-s", "emu", "pull", "/sdcard/a", "/tmp/a"].into_iter().map(String::from).collect::<Vec<_>>());
        },
        a => panic!("{:?}", a),
    }
    feed(&mut s, Event::Ran(false, Vec::new()));
    match result(s) {
        Err(e) => assert_eq!(e.message(), "Failed to pull file from device"),
        r => panic!("{:?}", r),
    }
    let mut s = push_file("emu", "/tmp/a", "/sdcard/a");
    feed(&mut s, Event::Located("adb".to_string()));
    match s.action() {
        Action::RunAdb(_, a) => assert_eq!(a[2], "push"),
        a => panic!("{:?}", a),
    }
    feed(&mut s, Event::Ran(true, Vec::new()));
    assert!(matches!(result(s), Ok(Outcome::Nothing)));
}

#[test]
fn listing_is_read_from_adb_output() {
    let mut s = list_files("emu", "/sdcard");
    feed(&mut s, Event::Located("adb".to_string()));
    let out = b"total 4\n-rw-r--r-- 1 u g 3 Jan 1 10:00 notes.txt\n".to_vec();
    feed(&mut s, Event::Ran(false, out));
    match result(s) {
        Ok(Outcome::Files(fs)) => {
            assert_eq!(fs.len(), 1);
            assert_eq!(fs[0].path, "/sdcard/notes.txt");
        },
        r => panic!("{:?}", r),
    }
}

#[test]
fn unreadable_listing_is_not_accepted() {
    let mut s = list_files("emu", "/sdcard");
    feed(&mut s, Event::Located("adb".to_string()));
    let bad = Event::Ran(true, b"total 0\na b c d e f g\n".to_vec());
    assert!(!s.accepts(&bad));
}

#[test]
fn wrong_report_is_not_accepted() {
    let s = get_adb_version_socket();
    assert!(!s.accepts(&Event::Sent));
    assert!(s.accepts(&Event::Connected));
    let mut s = get_adb_version_socket();
    feed(&mut s, Event::Connected);
    feed(&mut s, Event::Sent);
    assert!(!s.accepts(&Event::Received(b"OK".to_vec())));
}

#[test]
fn batches_make_one_session_per_device() {
    let devices = vec!["a".to_string(), "b".to_string()];
    let b = batch_execute(&devices, "id");
    assert_eq!(b.len(), 2);
    assert_eq!(b[0].0, "a");
    assert_eq!(b[1].0, "b");
    let p = batch_push(&devices, "/tmp/x", "/sdcard/x");
    assert_eq!(p.len(), 2);
    match p[1].1.action() {
        Action::LocateAdb => {},
        a => panic!("{:?}", a),
    }
}

#[test]
fn tracker_publishes_and_starts_over() {
    let mut t = track_devices();
    assert!(matches!(t.action(), Action::Connect));
    t.advance(Event::Connected);
    assert!(matches!(t.action(), Action::Connect));
    t.advance(Event::Connected);
    match t.action() {
        Action::Send(b) => assert_eq!(b, &encode_request("host:track-devices")),
        a => panic!("{:?}", a),
    }
    t.advance(Event::Sent);
    t.advance(Event::Received(b"OKAY".to_vec()));
    assert!(matches!(t.action(), Action::Receive(4)));
    t.advance(Event::Received(b"000a".to_vec()));
    assert!(matches!(t.action(), Action::Receive(10)));
    t.advance(Event::Received(b"a\tdevice\nb".to_vec()));
    match t.action() {
        Action::Publish(ds) => {
            assert_eq!(ds.len(), 1);
            assert_eq!(ds[0].id, "a");
        },
        a => panic!("{:?}", a),
    }
    t.advance(Event::Resumed);
    assert!(matches!(t.action(), Action::Receive(4)));
    t.advance(Event::Received(b"0000".to_vec()));
    match t.action() {
        Action::Publish(ds) => assert!(ds.is_empty()),
        a => panic!("{:?}", a),
    }
    t.advance(Event::Resumed);
    t.advance(Event::Failed("closed".to_string()));
    assert!(matches!(t.action(), Action::Pause(3)));
    t.advance(Event::Resumed);
    assert!(matches!(t.action(), Action::Connect));
}

#[test]
fn tracker_reads_on_after_a_bad_first_list() {
    let mut t = track_devices();
    t.advance(Event::Connected);
    t.advance(Event::Connected);
    t.advance(Event::Sent);
    t.advance(Event::Received(b"OKAY".to_vec()));
    t.advance(Event::Received(b"zzzz".to_vec()));
    assert!(matches!(t.action(), Action::Receive(4)));
    t.advance(Event::Received(b"zzzz".to_vec()));
    assert!(matches!(t.action(), Action::Pause(3)));
}

#[test]
fn tracker_waits_when_subscription_refused() {
    let mut t = track_devices();
    t.advance(Event::Connected);
    t.advance(Event::Connected);
    t.advance(Event::Sent);
    t.advance(Event::Received(b"FAIL".to_vec()));
    assert!(matches!(t.action(), Action::Pause(3)));
}

#[test]
fn malformed_reply_text_is_replaced_not_kept() {
    let mut s = get_adb_version_socket();
    answer(&mut s, "host:version", b"OKAY", b"0002", &[0x41, 0xff]);
    match result(s) {
        Ok(Outcome::Text(t)) => assert_eq!(t, "ADB server version: A\u{FFFD}"),
        r => panic!("{:?}", r),
    }
}

#[test]
fn finished_session_takes_no_report() {
    let mut s = ensure_adb_server_running();
    feed(&mut s, Event::Connected);
    for e in [Event::Connected, Event::Sent, Event::Resumed, Event::Failed("x".to_string()), Event::Received(Vec::new())] {
        assert!(!s.accepts(&e));
    }
}

#[test]
fn each_failure_has_its_error() {
    let mut s = get_adb_version_socket();
    feed(&mut s, Event::Failed("refused".to_string()));
    assert!(matches!(result(s), Err(AdbError::Connect(m)) if m == "refused"));

    let mut s = get_adb_version_socket();
    feed(&mut s, Event::Connected);
    feed(&mut s, Event::Failed("broken pipe".to_string()));
    assert!(matches!(result(s), Err(AdbError::Io(m)) if m == "broken pipe"));

    let mut s = execute_command_socket("", "id");
    feed(&mut s, Event::Connected);
    feed(&mut s, Event::Sent);
    feed(&mut s, Event::Received(b"FAIL".to_vec()));
    match result(s) {
        Err(e) => assert_eq!(e.message(), "Failed to execute shell command: FAIL"),
        r => panic!("{:?}", r),
    }

    let mut s = push_file("emu", "/tmp/a", "/sdcard/a");
    feed(&mut s, Event::Located("adb".to_string()));
    feed(&mut s, Event::Ran(false, Vec::new()));
    assert!(matches!(result(s), Err(AdbError::PushFailed)));

    let mut s = pull_file("emu", "/sdcard/a", "/tmp/a");
    feed(&mut s, Event::Located("adb".to_string()));
    feed(&mut s, Event::Failed("No such file or directory (os error 2)".to_string()));
    assert!(matches!(result(s), Err(AdbError::Io(_))));
}

#[test]
fn batch_pull_fills_one_directory_per_device() {
    let devices = vec!["a".to_string(), "emu-5554".to_string()];
    let mut p = batch_pull(&devices, "/sdcard/log.txt", "out");
    assert_eq!(p.len(), 2);
    assert_eq!(p[0].0, "a");
    assert_eq!(p[0].1, "out/a");
    assert_eq!(p[1].0, "emu-5554");
    assert_eq!(p[1].1, "out/emu-5554");
    let (_, _, mut s) = p.remove(1);
    assert!(matches!(s.action(), Action::LocateAdb));
    feed(&mut s, Event::Located("adb".to_string()));
    match s.action() {
        Action::RunAdb(_, a) => assert_eq!(
            a,
            &vec!["-s", "emu-5554", "pull", "/sdcard/log.txt", "out/emu-5554"]
                .into_iter()
                .map(String::from)
                .collect::<Vec<_>>()
        ),
        a => panic!("{:?}", a),
    }
    feed(&mut s, Event::Ran(true, Vec::new()));
    assert!(result(s).is_ok());
}
