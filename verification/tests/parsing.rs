use adb_tui::device::{device_model_from_output, is_attached, model_from_reply, parse_device_list};
use adb_tui::files::{listing_parsable, parse_file_listing};
use adb_tui::host::wsl_mount_path;
use adb_tui::host::{adb_invocation, first_line_of, get_common_adb_paths, windows_to_wsl_path, Platform};
use adb_tui::text::{decimal, trim_text};

#[test]
fn device_list_keeps_listed_states() {
    let text = "emulator-5554\tdevice product:sdk model:sdk_phone\nR58M123 unauthorized usb:1-1\n\n   \nXYZ offline\nABC recovery\nlonely\n";
    let ds = parse_device_list(text);
    assert_eq!(ds.len(), 3);
    assert_eq!(ds[0].id, "emulator-5554");
    assert_eq!(ds[0].status, "device");
    assert_eq!(ds[0].model, None);
    assert_eq!(ds[1].id, "R58M123");
    assert_eq!(ds[1].status, "unauthorized");
    assert_eq!(ds[2].id, "XYZ");
    assert_eq!(ds[2].status, "offline");
}

#[test]
fn device_list_handles_crlf_and_empty() {
    let ds = parse_device_list("a device\r\nb offline\r\n");
    assert_eq!(ds.len(), 2);
    assert_eq!(ds[1].id, "b");
    assert_eq!(ds[1].status, "offline");
    assert!(parse_device_list("").is_empty());
    assert!(parse_device_list("\n\n").is_empty());
}

#[test]
fn model_is_trimmed_answer() {
    assert_eq!(device_model_from_output(&" Pixel 7 \n".to_string()), Some("Pixel 7".to_string()));
    assert_eq!(device_model_from_output(&" \n\t".to_string()), None);
    assert_eq!(model_from_reply::<()>(Err(())), None);
    assert_eq!(model_from_reply::<()>(Ok("SM-G991B\n".to_string())), Some("SM-G991B".to_string()));
    assert!(is_attached(&"device".to_string()));
    assert!(!is_attached(&"offline".to_string()));
}

#[test]
fn trim_and_decimal() {
    assert_eq!(trim_text("\u{a0} x y \u{3000}\n"), "x y");
    assert_eq!(decimal(0), "0");
    assert_eq!(decimal(1000), "1000");
    assert_eq!(decimal(usize::MAX), usize::MAX.to_string());
}

#[test]
fn listing_entries_skip_total_and_short_lines() {
    let listing = "total 8\ndrwxr-xr-x 2 root root 4096 Jan 1 12:00 My Dir\n-rw-r--r-- 1 root root 10 Jan 1 12:00 a.txt\nshort line\n";
    assert!(listing_parsable(listing));
    let files = parse_file_listing(listing, "/sdcard//");
    assert_eq!(files.len(), 2);
    assert_eq!(files[0].name, "My Dir");
    assert_eq!(files[0].path, "/sdcard/My Dir");
    assert!(files[0].is_dir);
    assert_eq!(files[1].name, "a.txt");
    assert_eq!(files[1].path, "/sdcard/a.txt");
    assert!(!files[1].is_dir);
}

#[test]
fn listing_name_starts_at_the_ninth_word() {
    let files = parse_file_listing("total 8\ndrwxr-xr-x 2 root root 4096 2024-01-01 12:00 My Dir\n", "/sdcard");
    assert_eq!(files.len(), 1);
    assert_eq!(files[0].name, "Dir");
    assert_eq!(files[0].path, "/sdcard/Dir");
}

#[test]
fn listing_line_of_eight_words_has_empty_name() {
    let files = parse_file_listing("total 0\nd a b c d e f g\n", "/");
    assert_eq!(files.len(), 1);
    assert_eq!(files[0].name, "");
    assert_eq!(files[0].path, "/");
    assert!(files[0].is_dir);
}

#[test]
fn listing_with_seven_words_is_not_parsable() {
    assert!(!listing_parsable("total 0\na b c d e f g\n"));
    assert!(listing_parsable("a b c d e f g\n"));
}

#[test]
fn windows_paths_map_to_wsl() {
    assert_eq!(windows_to_wsl_path("C:\\Users\\me\\adb.exe"), "/mnt/c/Users/me/adb.exe");
    assert_eq!(windows_to_wsl_path("D:\\a:b\\c"), "/mnt/d/a");
    assert_eq!(windows_to_wsl_path("/usr/bin/adb"), "/usr/bin/adb");
    assert_eq!(windows_to_wsl_path(":x"), "/mnt/x");
}

#[test]
fn first_line_is_trimmed() {
    assert_eq!(first_line_of("C:\\sdk\\adb.exe\r\nC:\\other\\adb.exe\r\n"), "C:\\sdk\\adb.exe");
    assert_eq!(first_line_of(""), "");
    assert_eq!(first_line_of("\nsecond"), "");
}

#[test]
fn windows_adb_runs_through_cmd_on_linux() {
    let args = vec!["start-server".to_string()];
    let (p, a) = adb_invocation("/mnt/c/sdk/adb.exe", &args, true);
    assert_eq!(p, "/mnt/c/Windows/System32/cmd.exe");
    assert_eq!(a, vec!["/c".to_string(), "/mnt/c/sdk/adb.exe".to_string(), "start-server".to_string()]);
    let (p, a) = adb_invocation("/mnt/c/sdk/adb.exe", &args, false);
    assert_eq!(p, "/mnt/c/sdk/adb.exe");
    assert_eq!(a, args);
    let (p, a) = adb_invocation("/usr/bin/adb", &args, true);
    assert_eq!(p, "/usr/bin/adb");
    assert_eq!(a, args);
}

#[test]
fn common_paths_per_platform() {
    let w = get_common_adb_paths(Platform::Windows, Some("C:\\Users\\me".to_string()), None);
    assert_eq!(w, vec![
        "C:\\Users\\me\\AppData\\Local\\Android\\sdk\\platform-tools\\adb.exe".to_string(),
        "C:\\Users\\me\\Android\\sdk\\platform-tools\\adb.exe".to_string(),
        "C:\\Android\\sdk\\platform-tools\\adb.exe".to_string(),
        "C:\\Program Files\\Android\\platform-tools\\adb.exe".to_string(),
        "C:\\Program Files (x86)\\Android\\platform-tools\\adb.exe".to_string(),
    ]);
    let m = get_common_adb_paths(Platform::MacOs, None, None);
    assert_eq!(m, vec!["/usr/local/bin/adb".to_string(), "/opt/homebrew/bin/adb".to_string()]);
    let l = get_common_adb_paths(Platform::Linux, Some("/home/u".to_string()), Some(vec!["Ann".to_string()]));
    assert_eq!(l, vec![
        "/home/u/Android/Sdk/platform-tools/adb".to_string(),
        "/usr/bin/adb".to_string(),
        "/usr/local/bin/adb".to_string(),
        "/mnt/c/Users/Ann/AppData/Local/Android/sdk/platform-tools/adb.exe".to_string(),
        "/mnt/c/Users/Ann/Android/sdk/platform-tools/adb.exe".to_string(),
        "/mnt/c/Android/sdk/platform-tools/adb.exe".to_string(),
        "/mnt/c/Program Files/Android/platform-tools/adb.exe".to_string(),
    ]);
    let l2 = get_common_adb_paths(Platform::Linux, None, None);
    assert_eq!(l2, vec!["/usr/bin/adb".to_string(), "/usr/local/bin/adb".to_string()]);
}

#[test]
fn server_device_list_parses_back() {
    let rows = [("emulator-5554", "device"), ("R58M", "unauthorized"), ("0123", "offline")];
    let mut text = String::new();
    for (id, st) in rows.iter() {
        text.push_str(&format!("{}\t{}\n", id, st));
    }
    let ds = parse_device_list(&text);
    assert_eq!(ds.len(), rows.len());
    for (d, (id, st)) in ds.iter().zip(rows.iter()) {
        assert_eq!(d.id, *id);
        assert_eq!(d.status, *st);
        assert_eq!(d.model, None);
    }
}

#[test]
fn device_list_read_in_parts_lists_both_parts() {
    let a = "emu\tdevice\nR58 offline\n";
    let b = "XYZ unauthorized usb:1\nlonely\n";
    let whole = parse_device_list(&format!("{}{}", a, b));
    let first = parse_device_list(a);
    let second = parse_device_list(b);
    assert_eq!(whole.len(), first.len() + second.len());
    let ids: Vec<&str> = whole.iter().map(|d| d.id.as_str()).collect();
    assert_eq!(ids, vec!["emu", "R58", "XYZ"]);
    for (w, p) in whole.iter().zip(first.iter().chain(second.iter())) {
        assert_eq!(w.id, p.id);
        assert_eq!(w.status, p.status);
        assert_eq!(w.model, p.model);
    }
}

#[test]
fn wsl_mount_path_takes_the_lowercased_drive() {
    assert_eq!(wsl_mount_path("c", "\\Users\\me\\adb.exe"), "/mnt/c/Users/me/adb.exe");
    assert_eq!(wsl_mount_path("d", "\\x:y"), "/mnt/d/x");
    assert_eq!(windows_to_wsl_path("D:\\Tools\\adb.exe"), "/mnt/d/Tools/adb.exe");
}
