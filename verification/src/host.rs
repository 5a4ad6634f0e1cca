//! Where the `adb` executable may be, and how to run it.
use vstd::prelude::*;
use crate::text::{chars_of, lines, lines_of, string_of, trim, trim_chars};

verus! {

/// The operating system the console runs on.
#[derive(Debug, Clone, Copy, PartialEq, Eq, Structural)]
pub enum Platform {
    Windows,
    MacOs,
    Linux,
}

/// The text that `str::to_lowercase` makes of `s`.
pub uninterp spec fn lowercase(s: Seq<char>) -> Seq<char>;

/// Calls `str::to_lowercase`; its result is named by [`lowercase`], what
/// Unicode's lowercase mapping gives, which is left unstated here.
#[verifier::external_body]
fn to_lowercase(s: &str) -> (out: String)
    ensures
        out@ == lowercase(s@),
{
    s.to_lowercase()
}

/// The index of the first `':'` in `s`, if any.
pub open spec fn first_colon(s: Seq<char>) -> Option<int>
    decreases s.len(),
{
    if s.len() == 0 {
        None
    } else if s.last() == ':' {
        match first_colon(s.drop_last()) {
            Some(i) => Some(i),
            None => Some(s.len() - 1),
        }
    } else {
        first_colon(s.drop_last())
    }
}

/// `s` with every `'\\'` replaced by `'/'`.
pub open spec fn forward_slashes(s: Seq<char>) -> Seq<char> {
    s.map_values(|c: char| if c == '\\' { '/' } else { c })
}

/// The text of `rest` up to its first `':'` (all of it where it has none).
pub open spec fn before_colon(rest: Seq<char>) -> Seq<char> {
    match first_colon(rest) {
        Some(j) => rest.take(j),
        None => rest,
    }
}

/// The WSL mount path of a drive (already in lowercase) and the text after
/// the drive's `':'`: `/mnt/`, the drive, then that text up to its next
/// `':'` with backslashes made slashes.
pub open spec fn wsl_mount(drive: Seq<char>, rest: Seq<char>) -> Seq<char> {
    "/mnt/"@ + drive + forward_slashes(before_colon(rest))
}

/// The WSL path of a Windows path: where the path has a `':'`, the mount
/// path of the text before the first `':'` in lowercase and the text after
/// it; any other path is kept.
pub open spec fn wsl_path(p: Seq<char>) -> Seq<char> {
    match first_colon(p) {
        None => p,
        Some(i) => wsl_mount(lowercase(p.take(i)), p.skip(i + 1)),
    }
}

fn find_colon(s: &[char]) -> (r: Option<usize>)
    ensures
        match r {
            Some(k) => first_colon(s@) == Some(k as int) && k < s@.len(),
            None => first_colon(s@) is None,
        },
{
    proof {
        lemma_first_colon_bounds(s@);
    }
    let mut i: usize = 0;
    while i < s.len()
        invariant
            i <= s@.len(),
            first_colon(s@.take(i as int)) is None,
        decreases s@.len() - i,
    {
        assert(s@.take(i + 1).drop_last() =~= s@.take(i as int));
        if s[i] == ':' {
            proof {
                lemma_first_colon_prefix(s@, i as int);
            }
            return Some(i);
        }
        i = i + 1;
    }
    assert(s@.take(s@.len() as int) =~= s@);
    None
}

proof fn lemma_first_colon_bounds(s: Seq<char>)
    ensures
        first_colon(s) matches Some(i) ==> 0 <= i < s.len() && s[i] == ':',
    decreases s.len(),
{
    if s.len() > 0 {
        lemma_first_colon_bounds(s.drop_last());
    }
}

proof fn lemma_first_colon_prefix(s: Seq<char>, i: int)
    requires
        0 <= i < s.len(),
        s[i] == ':',
        first_colon(s.take(i)) is None,
    ensures
        first_colon(s) == Some(i),
    decreases s.len(),
{
    if s.len() - 1 == i {
        assert(s.drop_last() =~= s.take(i));
    } else {
        assert(s.drop_last().take(i) =~= s.take(i));
        lemma_first_colon_prefix(s.drop_last(), i);
    }
}

fn slice_chars(s: &[char], from: usize, to: usize) -> (out: Vec<char>)
    requires
        from <= to <= s@.len(),
    ensures
        out@ == s@.subrange(from as int, to as int),
{
    let mut out: Vec<char> = Vec::new();
    let mut k: usize = from;
    while k < to
        invariant
            from <= k <= to,
            to <= s@.len(),
            out@ == s@.subrange(from as int, k as int),
        decreases to - k,
    {
        out.push(s[k]);
        assert(out@ =~= s@.subrange(from as int, k + 1));
        k = k + 1;
    }
    out
}

/// Builds the WSL mount path of `drive` (already in lowercase) and the
/// text `rest` after the drive's `':'` (see [`wsl_mount`]).
pub fn wsl_mount_path(drive: &str, rest: &str) -> (out: String)
    ensures
        out@ == wsl_mount(drive@, rest@),
{
    let rest = chars_of(rest);
    let end = match find_colon(rest.as_slice()) {
        Some(j) => j,
        None => rest.len(),
    };
    assert(rest@.take(end as int) =~= before_colon(rest@));
    let mut second: Vec<char> = Vec::new();
    let mut k: usize = 0;
    while k < end
        invariant
            k <= end <= rest@.len(),
            second@ == forward_slashes(rest@.take(k as int)),
        decreases end - k,
    {
        let c = rest[k];
        second.push(if c == '\\' {
            '/'
        } else {
            c
        });
        assert(second@ =~= forward_slashes(rest@.take(k + 1)));
        k = k + 1;
    }
    let tail = string_of(second.as_slice());
    let mut out = String::from_str("/mnt/");
    out.append(drive);
    out.append(tail.as_str());
    out
}

/// Converts a Windows path to the path WSL sees it under (see [`wsl_path`]).
pub fn windows_to_wsl_path(windows_path: &str) -> (out: String)
    ensures
        out@ == wsl_path(windows_path@),
{
    let cs = chars_of(windows_path);
    match find_colon(cs.as_slice()) {
        None => String::from_str(windows_path),
        Some(i) => {
            let n = cs.len();
            let drive_chars = slice_chars(cs.as_slice(), 0, i);
            let rest_chars = slice_chars(cs.as_slice(), i + 1, n);
            assert(rest_chars@ =~= cs@.skip(i + 1));
            assert(drive_chars@ =~= cs@.take(i as int));
            let drive_text = string_of(drive_chars.as_slice());
            let drive = to_lowercase(drive_text.as_str());
            let rest = string_of(rest_chars.as_slice());
            wsl_mount_path(drive.as_str(), rest.as_str())
        },
    }
}

/// The first line of a tool's output, trimmed (what `where adb` reports first).
pub open spec fn first_line(out: Seq<char>) -> Seq<char> {
    trim(lines(out)[0])
}

/// The first line of `output`, trimmed.
pub fn first_line_of(output: &str) -> (s: String)
    ensures
        s@ == first_line(output@),
{
    let cs = chars_of(output);
    let ls = lines_of(cs.as_slice());
    proof {
        crate::text::lemma_pieces_nonempty(cs@, true);
    }
    assert(ls[0].deep_view() =~= ls[0]@);
    let t = trim_chars(ls[0].as_slice());
    string_of(t.as_slice())
}

/// The place `cmd.exe` has under WSL.
pub open spec fn cmd_exe() -> Seq<char> {
    "/mnt/c/Windows/System32/cmd.exe"@
}

/// Whether `p` names a Windows executable (ends with `.exe`).
pub open spec fn is_exe(p: Seq<char>) -> bool {
    p.len() >= 4 && p.skip(p.len() - 4) == seq!['.', 'e', 'x', 'e']
}

/// The program and arguments that run `adb` at `adb_path` with `args`: on
/// Linux a Windows `adb` runs through `cmd.exe /c`; otherwise directly.
pub open spec fn invocation(adb_path: Seq<char>, args: Seq<Seq<char>>, on_linux: bool) -> (
    Seq<char>,
    Seq<Seq<char>>,
) {
    if on_linux && is_exe(adb_path) {
        (cmd_exe(), seq!["/c"@, adb_path] + args)
    } else {
        (adb_path, args)
    }
}

/// The program and arguments that run `adb` (see [`invocation`]).
pub fn adb_invocation(adb_path: &str, args: &Vec<String>, on_linux: bool) -> (r: (String, Vec<String>))
    ensures
        (r.0@, r.1.deep_view()) == invocation(adb_path@, args.deep_view(), on_linux),
{
    let cs = chars_of(adb_path);
    let n = cs.len();
    let exe = n >= 4 && cs[n - 4] == '.' && cs[n - 3] == 'e' && cs[n - 2] == 'x' && cs[n - 1] == 'e';
    assert(exe == is_exe(adb_path@)) by {
        if n >= 4 {
            if exe {
                assert(cs@.skip(n - 4) =~= seq!['.', 'e', 'x', 'e']);
            } else {
                if cs@.skip(n - 4) == seq!['.', 'e', 'x', 'e'] {
                    assert(cs@.skip(n - 4)[0] == cs@[n - 4]);
                    assert(cs@.skip(n - 4)[1] == cs@[n - 3]);
                    assert(cs@.skip(n - 4)[2] == cs@[n - 2]);
                    assert(cs@.skip(n - 4)[3] == cs@[n - 1]);
                }
            }
        }
    }
    let mut out: Vec<String> = Vec::new();
    let ghost a = args.deep_view();
    if on_linux && exe {
        out.push(String::from_str("/c"));
        out.push(String::from_str(adb_path));
    }
    let ghost start = out.deep_view();
    let mut i: usize = 0;
    while i < args.len()
        invariant
            i <= args@.len(),
            a == args.deep_view(),
            out.deep_view() == start + a.take(i as int),
        decreases args@.len() - i,
    {
        let ghost before = out.deep_view();
        out.push(args[i].clone());
        assert(out.deep_view() =~= before.push(a[i as int]));
        assert(a.take(i + 1) =~= a.take(i as int).push(a[i as int]));
        i = i + 1;
    }
    assert(a.take(args@.len() as int) =~= a);
    if on_linux && exe {
        assert(start =~= seq!["/c"@, adb_path@]);
        (String::from_str("/mnt/c/Windows/System32/cmd.exe"), out)
    } else {
        assert(start =~= Seq::<Seq<char>>::empty());
        assert(out.deep_view() =~= a);
        (String::from_str(adb_path), out)
    }
}

/// The places `adb` is commonly installed, in the order they are tried.
/// `home` is the user's home (`USERPROFILE` on Windows, `HOME` elsewhere);
/// on Linux, `wsl_users` is none where `/mnt/c` does not exist, else the
/// user names found under `/mnt/c/Users` (none where it cannot be read).
pub open spec fn common_paths(
    platform: Platform,
    home: Option<Seq<char>>,
    wsl_users: Option<Seq<Seq<char>>>,
) -> Seq<Seq<char>> {
    match platform {
        Platform::Windows => (match home {
            Some(h) => seq![
                h + "\\AppData\\Local\\Android\\sdk\\platform-tools\\adb.exe"@,
                h + "\\Android\\sdk\\platform-tools\\adb.exe"@,
            ],
            None => Seq::empty(),
        }) + seq![
            "C:\\Android\\sdk\\platform-tools\\adb.exe"@,
            "C:\\Program Files\\Android\\platform-tools\\adb.exe"@,
            "C:\\Program Files (x86)\\Android\\platform-tools\\adb.exe"@,
        ],
        Platform::MacOs => (match home {
            Some(h) => seq![h + "/Library/Android/sdk/platform-tools/adb"@],
            None => Seq::empty(),
        }) + seq!["/usr/local/bin/adb"@, "/opt/homebrew/bin/adb"@],
        Platform::Linux => (match home {
            Some(h) => seq![h + "/Android/Sdk/platform-tools/adb"@],
            None => Seq::empty(),
        }) + seq!["/usr/bin/adb"@, "/usr/local/bin/adb"@] + (match wsl_users {
            Some(us) => wsl_user_paths(us) + seq![
                "/mnt/c/Android/sdk/platform-tools/adb.exe"@,
                "/mnt/c/Program Files/Android/platform-tools/adb.exe"@,
            ],
            None => Seq::empty(),
        }),
    }
}

/// The two places per Windows user that WSL sees.
pub open spec fn wsl_user_paths(users: Seq<Seq<char>>) -> Seq<Seq<char>>
    decreases users.len(),
{
    if users.len() == 0 {
        Seq::empty()
    } else {
        let u = users.last();
        wsl_user_paths(users.drop_last()) + seq![
            "/mnt/c/Users/"@ + u + "/AppData/Local/Android/sdk/platform-tools/adb.exe"@,
            "/mnt/c/Users/"@ + u + "/Android/sdk/platform-tools/adb.exe"@,
        ]
    }
}

fn path_of(prefix: &str, middle: &str, suffix: &str) -> (s: String)
    ensures
        s@ == prefix@ + middle@ + suffix@,
{
    let mut s = String::from_str(prefix);
    s.append(middle);
    s.append(suffix);
    s
}

fn home_path(home: &str, suffix: &str) -> (s: String)
    ensures
        s@ == home@ + suffix@,
{
    let mut s = String::from_str(home);
    s.append(suffix);
    s
}

fn push_path(v: &mut Vec<String>, s: String)
    ensures
        final(v).deep_view() == old(v).deep_view().push(s@),
{
    let ghost before = v.deep_view();
    v.push(s);
    assert(v.deep_view() =~= before.push(s@));
}

/// The places `adb` is commonly installed (see [`common_paths`]).
pub fn get_common_adb_paths(
    platform: Platform,
    home: Option<String>,
    wsl_users: Option<Vec<String>>,
) -> (paths: Vec<String>)
    ensures
        paths.deep_view() == common_paths(
            platform,
            crate::device::opt_text(home),
            match wsl_users {
                Some(us) => Some(us.deep_view()),
                None => None,
            },
        ),
{
    let mut paths: Vec<String> = Vec::new();
    match platform {
        Platform::Windows => {
            if let Some(h) = &home {
                push_path(
                    &mut paths,
                    home_path(h.as_str(), "\\AppData\\Local\\Android\\sdk\\platform-tools\\adb.exe"),
                );
                push_path(&mut paths, home_path(h.as_str(), "\\Android\\sdk\\platform-tools\\adb.exe"));
            }
            push_path(&mut paths, String::from_str("C:\\Android\\sdk\\platform-tools\\adb.exe"));
            push_path(
                &mut paths,
                String::from_str("C:\\Program Files\\Android\\platform-tools\\adb.exe"),
            );
            push_path(
                &mut paths,
                String::from_str("C:\\Program Files (x86)\\Android\\platform-tools\\adb.exe"),
            );
        },
        Platform::MacOs => {
            if let Some(h) = &home {
                push_path(&mut paths, home_path(h.as_str(), "/Library/Android/sdk/platform-tools/adb"));
            }
            push_path(&mut paths, String::from_str("/usr/local/bin/adb"));
            push_path(&mut paths, String::from_str("/opt/homebrew/bin/adb"));
        },
        Platform::Linux => {
            if let Some(h) = &home {
                push_path(&mut paths, home_path(h.as_str(), "/Android/Sdk/platform-tools/adb"));
            }
            push_path(&mut paths, String::from_str("/usr/bin/adb"));
            push_path(&mut paths, String::from_str("/usr/local/bin/adb"));
            if let Some(users) = &wsl_users {
                let ghost base = paths.deep_view();
                let ghost us = users.deep_view();
                let mut i: usize = 0;
                assert(us.take(0) =~= Seq::<Seq<char>>::empty());
                assert(base + wsl_user_paths(us.take(0)) =~= base);
                while i < users.len()
                    invariant
                        i <= users@.len(),
                        us == users.deep_view(),
                        paths.deep_view() == base + wsl_user_paths(us.take(i as int)),
                    decreases users@.len() - i,
                {
                    assert(us.take(i + 1).drop_last() =~= us.take(i as int));
                    let u = users[i].as_str();
                    push_path(
                        &mut paths,
                        path_of("/mnt/c/Users/", u, "/AppData/Local/Android/sdk/platform-tools/adb.exe"),
                    );
                    push_path(
                        &mut paths,
                        path_of("/mnt/c/Users/", u, "/Android/sdk/platform-tools/adb.exe"),
                    );
                    assert(paths.deep_view() =~= base + wsl_user_paths(us.take(i + 1)));
                    i = i + 1;
                }
                assert(us.take(users@.len() as int) =~= us);
                push_path(&mut paths, String::from_str("/mnt/c/Android/sdk/platform-tools/adb.exe"));
                push_path(
                    &mut paths,
                    String::from_str("/mnt/c/Program Files/Android/platform-tools/adb.exe"),
                );
            }
        },
    }
    assert(paths.deep_view() =~= common_paths(
        platform,
        crate::device::opt_text(home),
        match wsl_users {
            Some(us) => Some(us.deep_view()),
            None => None,
        },
    ));
    paths
}

} // verus!
