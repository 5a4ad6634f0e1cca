use adb_tui::console::{Console, Effect, Key, KeyCode, Screen, MAX_LOGS};
use adb_tui::device::Device;
use adb_tui::error::AdbError;

fn dev(id: &str, status: &str, model: Option<&str>) -> Device {
    Device { id: id.to_string(), status: status.to_string(), model: model.map(|m| m.to_string()) }
}

fn key(code: KeyCode) -> Key {
    Key { code, alt: false, ctrl: false }
}

fn alt(c: char) -> Key {
    Key { code: KeyCode::Char(c), alt: true, ctrl: false }
}

fn ctrl(c: char) -> Key {
    Key { code: KeyCode::Char(c), alt: false, ctrl: true }
}

fn three() -> Vec<Device> {
    vec![dev("a", "device", Some("P1")), dev("b", "offline", None), dev("c", "device", None)]
}

#[test]
fn new_console_greets() {
    let c = Console::new();
    assert_eq!(c.status_message, "Press 'q' to quit, 'r' to refresh devices");
    assert_eq!(c.screen, Screen::Devices);
    assert!(c.devices.is_empty());
    assert_eq!(c.selected_device, None);
}

#[test]
fn refresh_lists_devices_and_logs() {
    let mut c = Console::new();
    c.refresh_devices(Ok(three()), "09:59:59", "10:00:00");
    assert_eq!(c.devices.len(), 3);
    assert_eq!(c.selected_device, Some(0));
    assert_eq!(c.status_message, "Found 3 device(s)");
    assert_eq!(c.logs, vec![
        "[09:59:59] Refreshing devices...".to_string(),
        "[10:00:00] Found 3 device(s)".to_string(),
        "[10:00:00]   - a (P1) - status: device".to_string(),
        "[10:00:00]   - b (Unknown) - status: offline".to_string(),
        "[10:00:00]   - c (Unknown) - status: device".to_string(),
    ]);
}

#[test]
fn refresh_failure_is_reported() {
    let mut c = Console::new();
    c.refresh_devices(Err(AdbError::StartServer), "s", "t");
    assert_eq!(c.status_message, "Error: Failed to start ADB server");
    assert_eq!(c.logs, vec![
        "[s] Refreshing devices...".to_string(),
        "[t] Error getting devices: Failed to start ADB server".to_string(),
    ]);
}

#[test]
fn update_reselects_and_drops_stale_picks() {
    let mut c = Console::new();
    c.update_devices(three(), "t");
    assert_eq!(c.selected_device, Some(0));
    assert_eq!(c.status_message, "Device list updated: 3 device(s)");
    assert_eq!(c.logs, vec!["[t] Device list changed: 0 -> 3 device(s)".to_string()]);
    c.handle_key_event(key(KeyCode::Down));
    c.handle_key_event(key(KeyCode::Down));
    assert_eq!(c.selected_device, Some(2));
    c.select_all_devices();
    assert_eq!(c.selected_devices, vec![0, 1, 2]);
    c.update_devices(vec![dev("a", "device", None)], "t");
    assert_eq!(c.selected_device, Some(0));
    assert_eq!(c.selected_devices, vec![0]);
    c.update_devices(Vec::new(), "t");
    assert_eq!(c.selected_device, None);
    assert!(c.selected_devices.is_empty());
}

#[test]
fn same_count_update_is_quiet() {
    let mut c = Console::new();
    c.update_devices(three(), "t");
    let logs = c.logs.len();
    c.status_message = "keep".to_string();
    c.update_devices(three(), "t");
    assert_eq!(c.logs.len(), logs);
    assert_eq!(c.status_message, "keep");
}

#[test]
fn toggling_twice_restores_picks() {
    let mut c = Console::new();
    c.update_devices(three(), "t");
    c.toggle_device_selection(1);
    assert_eq!(c.selected_devices, vec![1]);
    c.toggle_device_selection(1);
    assert!(c.selected_devices.is_empty());
    c.toggle_device_selection(2);
    c.toggle_device_selection(0);
    c.toggle_device_selection(2);
    assert_eq!(c.selected_devices, vec![0]);
}

#[test]
fn device_screen_keys() {
    let mut c = Console::new();
    assert_eq!(c.handle_key_event(key(KeyCode::Up)), Effect::Nothing);
    assert_eq!(c.selected_device, None);
    c.update_devices(three(), "t");
    c.handle_key_event(key(KeyCode::Up));
    assert_eq!(c.selected_device, Some(0));
    c.handle_key_event(Key { code: KeyCode::Down, alt: true, ctrl: false });
    assert_eq!(c.selected_device, Some(1));
    c.handle_key_event(key(KeyCode::Char(' ')));
    assert_eq!(c.selected_devices, vec![1]);
    c.handle_key_event(ctrl('A'));
    assert_eq!(c.selected_devices, vec![0, 1, 2]);
    c.handle_key_event(ctrl('d'));
    assert!(c.selected_devices.is_empty());
    c.handle_key_event(key(KeyCode::Char('d')));
    assert!(c.selected_devices.is_empty());
    assert_eq!(c.handle_key_event(alt('r')), Effect::Refresh);
    c.handle_key_event(alt('2'));
    assert_eq!(c.screen, Screen::Commands);
    assert_eq!(c.handle_key_event(alt('r')), Effect::Nothing);
    c.handle_key_event(alt('3'));
    assert_eq!(c.screen, Screen::Logs);
    c.handle_key_event(alt('c'));
    assert!(c.logs.is_empty());
    c.handle_key_event(alt('1'));
    assert_eq!(c.screen, Screen::Devices);
    c.handle_key_event(alt('Q'));
    assert!(c.should_quit);
}

#[test]
fn typing_and_history() {
    let mut c = Console::new();
    c.update_devices(three(), "t");
    c.handle_key_event(alt('2'));
    for ch in "ls".chars() {
        c.handle_key_event(key(KeyCode::Char(ch)));
    }
    assert_eq!(c.command_input, "ls");
    c.handle_key_event(key(KeyCode::Backspace));
    assert_eq!(c.command_input, "l");
    c.handle_key_event(key(KeyCode::Char('s')));
    assert_eq!(c.handle_key_event(key(KeyCode::Enter)), Effect::Execute);
    let targets = c.execute_command(0, "t").unwrap();
    assert_eq!(targets, vec!["a".to_string()]);
    c.record_command_results(vec![("a".to_string(), Ok(("x\n".to_string(), String::new())))], "t");
    assert_eq!(c.command_history, vec!["ls".to_string()]);
    assert_eq!(c.command_input, "");
    assert_eq!(c.command_output, vec![
        "Executing: ls on 1 device(s)".to_string(),
        "=== Device: a ===".to_string(),
        "x\n".to_string(),
    ]);
    for ch in "id".chars() {
        c.handle_key_event(key(KeyCode::Char(ch)));
    }
    c.execute_command(0, "t").unwrap();
    c.record_command_results(vec![("a".to_string(), Err(AdbError::ShellRefused("FAIL".to_string())))], "t");
    assert_eq!(c.command_output[1], "=== Device: a - Error: Failed to execute shell command: FAIL ===");
    assert_eq!(c.logs.last().unwrap(), "[t] Error on device a: Failed to execute shell command: FAIL");
    for ch in "id".chars() {
        c.handle_key_event(key(KeyCode::Char(ch)));
    }
    c.record_command_results(Vec::new(), "t");
    assert_eq!(c.command_history, vec!["ls".to_string(), "id".to_string()]);
    c.handle_key_event(key(KeyCode::Up));
    assert_eq!(c.history_index, Some(1));
    assert_eq!(c.command_input, "id");
    c.handle_key_event(key(KeyCode::Up));
    c.handle_key_event(key(KeyCode::Up));
    assert_eq!(c.history_index, Some(0));
    assert_eq!(c.command_input, "ls");
    c.handle_key_event(key(KeyCode::Down));
    assert_eq!(c.command_input, "id");
    c.handle_key_event(key(KeyCode::Down));
    assert_eq!(c.history_index, None);
    assert_eq!(c.command_input, "");
}

#[test]
fn stderr_is_shown_prefixed() {
    let mut c = Console::new();
    c.command_input = "x".to_string();
    c.devices = vec![dev("d", "device", None)];
    c.selected_device = Some(0);
    assert_eq!(c.execute_command(0, "t0"), Some(vec!["d".to_string()]));
    c.record_command_results(vec![("d".to_string(), Ok((String::new(), "oops".to_string())))], "t1");
    assert_eq!(c.command_output, vec![
        "Executing: x on 1 device(s)".to_string(),
        "=== Device: d ===".to_string(),
        "STDERR: oops".to_string(),
    ]);
    assert_eq!(c.logs, vec![
        "[t0] Executing command: x on 1 device(s)".to_string(),
        "[t1] Running on device: d".to_string(),
        "[t1] Command completed on device: d".to_string(),
    ]);
}

#[test]
fn commands_need_devices() {
    let mut c = Console::new();
    assert_eq!(c.execute_command(5, "t"), None);
    assert_eq!(c.notification, None);
    c.command_input = "ls".to_string();
    assert_eq!(c.execute_command(5, "t"), None);
    assert_eq!(c.notification, Some("No devices connected".to_string()));
    assert_eq!(c.notification_until, Some(3005));
    c.update_notification(3004);
    assert!(c.notification.is_some());
    c.update_notification(3005);
    assert_eq!(c.notification, None);
    c.devices = three();
    assert_eq!(c.execute_command(0, "t"), None);
    assert_eq!(c.notification, Some("No device selected".to_string()));
    assert!(c.logs.is_empty());
    c.selected_devices = vec![2, 0];
    assert_eq!(c.execute_command(0, "t"), Some(vec!["c".to_string(), "a".to_string()]));
    assert_eq!(c.command_output, vec!["Executing: ls on 2 device(s)".to_string()]);
    assert_eq!(c.logs, vec!["[t] Executing command: ls on 2 device(s)".to_string()]);
}

#[test]
fn logs_keep_the_newest_thousand() {
    let mut c = Console::new();
    for i in 0..(MAX_LOGS + 5) {
        c.add_log(&i.to_string(), "t");
    }
    assert_eq!(c.logs.len(), MAX_LOGS);
    assert_eq!(c.logs[0], "[t] 5");
    assert_eq!(c.logs.last().unwrap(), &format!("[t] {}", MAX_LOGS + 4));
}

#[test]
fn device_panel_texts() {
    let mut c = Console::new();
    assert_eq!(c.device_info(), "No device selected");
    c.update_devices(three(), "t");
    assert_eq!(c.device_info(), "Device ID: a\nStatus: device\nModel: P1\n\nSelected for batch: none (use Space to select)");
    c.toggle_device_selection(2);
    c.toggle_device_selection(0);
    assert_eq!(c.device_info(), "Selected for batch (2):\n  [x] c (Unknown)\n  [x] a (P1)\n\nPress Space to toggle selection\nCtrl+D to clear selection");
    assert_eq!(c.devices_title(), "Devices (2 selected) [Space: toggle, Ctrl+A/Ctrl+D]");
    assert_eq!(c.device_row(0), ("[x] a - P1 (device)".to_string(), true));
    assert_eq!(c.device_row(1), ("[ ] b - Unknown (offline)".to_string(), false));
}
