use adb_tui::host::Platform;
use adb_tui::locate::{find_adb_path, Locator, Probe, Report};

fn exists_probe(l: &Locator) -> String {
    match l.probe() {
        Probe::Exists(p) => p.clone(),
        q => panic!("expected an existence check, got {:?}", q),
    }
}

fn outcome(l: &Locator) -> Option<String> {
    match l.probe() {
        Probe::Found(f) => f.as_ref().ok().cloned(),
        q => panic!("not over: {:?}", q),
    }
}

fn step(l: &mut Locator, r: Report) {
    assert!(l.accepts(&r), "{:?} does not answer {:?}", r, l.probe());
    l.advance(r);
}

#[test]
fn which_answer_is_taken_trimmed() {
    let mut l = find_adb_path(Platform::Linux);
    match l.probe() {
        Probe::Run(p, a) => {
            assert_eq!(p, "which");
            assert_eq!(a, &vec!["adb".to_string()]);
        }
        q => panic!("{:?}", q),
    }
    step(&mut l, Report::Ran(Some((true, b"/usr/bin/adb\n".to_vec()))));
    assert_eq!(outcome(&l), Some("/usr/bin/adb".to_string()));
}

#[test]
fn wsl_lookup_converts_the_windows_path() {
    let mut l = find_adb_path(Platform::Linux);
    step(&mut l, Report::Ran(Some((false, Vec::new()))));
    assert_eq!(exists_probe(&l), "/mnt/c/Windows/System32/cmd.exe");
    step(&mut l, Report::Exists(true));
    match l.probe() {
        Probe::Run(p, a) => {
            assert_eq!(p, "/mnt/c/Windows/System32/cmd.exe");
            assert_eq!(a, &vec!["/c".to_string(), "where".to_string(), "adb".to_string()]);
        }
        q => panic!("{:?}", q),
    }
    step(&mut l, Report::Ran(Some((true, b"C:\\sdk\\adb.exe\r\n".to_vec()))));
    assert_eq!(exists_probe(&l), "/mnt/c/sdk/adb.exe");
    step(&mut l, Report::Exists(true));
    assert_eq!(outcome(&l), Some("/mnt/c/sdk/adb.exe".to_string()));
}

#[test]
fn common_places_are_tried_in_order() {
    let mut l = find_adb_path(Platform::Linux);
    step(&mut l, Report::Ran(None));
    step(&mut l, Report::Exists(false));
    match l.probe() {
        Probe::Var(v) => assert_eq!(v, "HOME"),
        q => panic!("{:?}", q),
    }
    step(&mut l, Report::Var(Some("/home/u".to_string())));
    assert_eq!(exists_probe(&l), "/mnt/c");
    step(&mut l, Report::Exists(true));
    match l.probe() {
        Probe::ListDir(d) => assert_eq!(d, "/mnt/c/Users"),
        q => panic!("{:?}", q),
    }
    step(&mut l, Report::Entries(None));
    assert_eq!(exists_probe(&l), "/home/u/Android/Sdk/platform-tools/adb");
    step(&mut l, Report::Exists(false));
    assert_eq!(exists_probe(&l), "/usr/bin/adb");
    step(&mut l, Report::Exists(false));
    assert_eq!(exists_probe(&l), "/usr/local/bin/adb");
    step(&mut l, Report::Exists(false));
    assert_eq!(exists_probe(&l), "/mnt/c/Android/sdk/platform-tools/adb.exe");
    step(&mut l, Report::Exists(true));
    assert_eq!(outcome(&l), Some("/mnt/c/Android/sdk/platform-tools/adb.exe".to_string()));
}

#[test]
fn nothing_found_ends_the_search() {
    let mut l = find_adb_path(Platform::MacOs);
    step(&mut l, Report::Ran(Some((true, b"  \n".to_vec()))));
    step(&mut l, Report::Exists(false));
    step(&mut l, Report::Var(None));
    step(&mut l, Report::Exists(false));
    step(&mut l, Report::Exists(false));
    assert_eq!(outcome(&l), None);
    match l.probe() {
        Probe::Found(Err(e)) => assert_eq!(
            e.message(),
            "ADB executable not found. Please ensure Android SDK Platform-Tools is installed and 'adb' is in your PATH"
        ),
        q => panic!("{:?}", q),
    }
}

#[test]
fn windows_checks_where_answer_exists() {
    let mut l = find_adb_path(Platform::Windows);
    match l.probe() {
        Probe::Run(p, _) => assert_eq!(p, "where"),
        q => panic!("{:?}", q),
    }
    step(&mut l, Report::Ran(Some((true, b"C:\\a\\adb.exe\r\nC:\\b\\adb.exe\r\n".to_vec()))));
    assert_eq!(exists_probe(&l), "C:\\a\\adb.exe");
    step(&mut l, Report::Exists(false));
    match l.probe() {
        Probe::Var(v) => assert_eq!(v, "USERPROFILE"),
        q => panic!("{:?}", q),
    }
    step(&mut l, Report::Var(None));
    assert_eq!(exists_probe(&l), "C:\\Android\\sdk\\platform-tools\\adb.exe");
    assert!(!l.accepts(&Report::Var(None)));
}
