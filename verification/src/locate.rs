//! Finding the `adb` executable: ask the system's lookup tool, then (under
//! WSL) Windows' own lookup, then try the common installation places.
use vstd::prelude::*;
use crate::host::{
    cmd_exe, common_paths, first_line, first_line_of, get_common_adb_paths, windows_to_wsl_path,
    wsl_path, Platform,
};
use crate::error::{AdbError, AdbErrorView};
use crate::text::{decode_lossy, trim, trim_text, utf8_lossy};

verus! {

/// An outside step of the search.
#[derive(Debug)]
pub enum Probe {
    /// Run the program with the arguments; report whether it ran and succeeded, and its output.
    Run(String, Vec<String>),
    /// Report whether the path exists.
    Exists(String),
    /// Report the environment variable's value, where it is set to valid text.
    Var(String),
    /// Report the names of a directory's entries, where it can be read.
    ListDir(String),
    /// The search is over: `adb` is here, or was not found.
    Found(Result<String, AdbError>),
}

/// The abstract content of a [`Probe`].
pub enum ProbeView {
    Run(Seq<char>, Seq<Seq<char>>),
    Exists(Seq<char>),
    Var(Seq<char>),
    ListDir(Seq<char>),
    Found(Result<Seq<char>, AdbErrorView>),
}

impl DeepView for Probe {
    type V = ProbeView;

    open spec fn deep_view(&self) -> ProbeView {
        match self {
            Probe::Run(p, a) => ProbeView::Run(p@, a.deep_view()),
            Probe::Exists(p) => ProbeView::Exists(p@),
            Probe::Var(v) => ProbeView::Var(v@),
            Probe::ListDir(d) => ProbeView::ListDir(d@),
            Probe::Found(f) => ProbeView::Found(
                match f {
                    Ok(path) => Ok(path@),
                    Err(e) => Err(e@),
                },
            ),
        }
    }
}

/// How a probe went.
#[derive(Debug)]
pub enum Report {
    /// The program ran: whether it succeeded, and its standard output; none where it could not run.
    Ran(Option<(bool, Vec<u8>)>),
    /// Whether the path exists.
    Exists(bool),
    /// The variable's value, where set.
    Var(Option<String>),
    /// The entry names, where the directory could be read.
    Entries(Option<Vec<String>>),
}

/// The abstract content of a [`Report`].
pub enum ReportView {
    Ran(Option<(bool, Seq<u8>)>),
    Exists(bool),
    Var(Option<Seq<char>>),
    Entries(Option<Seq<Seq<char>>>),
}

impl DeepView for Report {
    type V = ReportView;

    open spec fn deep_view(&self) -> ReportView {
        match self {
            Report::Ran(r) => ReportView::Ran(
                match r {
                    Some(x) => Some((x.0, x.1@)),
                    None => None,
                },
            ),
            Report::Exists(b) => ReportView::Exists(*b),
            Report::Var(v) => ReportView::Var(crate::device::opt_text(*v)),
            Report::Entries(e) => ReportView::Entries(
                match e {
                    Some(v) => Some(v.deep_view()),
                    None => None,
                },
            ),
        }
    }
}

/// Where the search stands.
#[derive(Debug)]
pub enum Stage {
    /// Asking the system's lookup tool (`where adb` on Windows, `which adb` elsewhere).
    Lookup,
    /// Checking that the path Windows' `where` named exists.
    LookupExists(String),
    /// Checking for WSL's `cmd.exe`.
    WslShell,
    /// Asking `cmd.exe /c where adb`.
    WslLookup,
    /// Checking that the WSL form of the path Windows named exists.
    WslExists(String),
    /// Reading the home directory's variable.
    Home,
    /// Checking for `/mnt/c`, with the home directory read.
    WindowsDrive(Option<String>),
    /// Listing `/mnt/c/Users`, with the home directory read.
    WindowsUsers(Option<String>),
    /// Trying the candidate at this index.
    Trying(Vec<String>, usize),
    /// Over.
    Done,
}

/// The abstract content of a [`Stage`].
pub enum StageView {
    Lookup,
    LookupExists(Seq<char>),
    WslShell,
    WslLookup,
    WslExists(Seq<char>),
    Home,
    WindowsDrive(Option<Seq<char>>),
    WindowsUsers(Option<Seq<char>>),
    Trying(Seq<Seq<char>>, nat),
    Done,
}

impl DeepView for Stage {
    type V = StageView;

    open spec fn deep_view(&self) -> StageView {
        match self {
            Stage::Lookup => StageView::Lookup,
            Stage::LookupExists(p) => StageView::LookupExists(p@),
            Stage::WslShell => StageView::WslShell,
            Stage::WslLookup => StageView::WslLookup,
            Stage::WslExists(p) => StageView::WslExists(p@),
            Stage::Home => StageView::Home,
            Stage::WindowsDrive(h) => StageView::WindowsDrive(crate::device::opt_text(*h)),
            Stage::WindowsUsers(h) => StageView::WindowsUsers(crate::device::opt_text(*h)),
            Stage::Trying(c, i) => StageView::Trying(c.deep_view(), *i as nat),
            Stage::Done => StageView::Done,
        }
    }
}

/// The search for `adb` on a platform.
#[derive(Debug)]
pub struct Locator {
    /// The platform searched on.
    pub platform: Platform,
    /// Where the search stands.
    pub stage: Stage,
    /// The probe it waits on.
    pub next: Probe,
}

/// The abstract content of a [`Locator`].
pub struct LocatorView {
    pub platform: Platform,
    pub stage: StageView,
    pub next: ProbeView,
}

impl DeepView for Locator {
    type V = LocatorView;

    open spec fn deep_view(&self) -> LocatorView {
        LocatorView { platform: self.platform, stage: self.stage.deep_view(), next: self.next.deep_view() }
    }
}

/// The search at `stage` waiting on `next`.
pub open spec fn searching(p: Platform, stage: StageView, next: ProbeView) -> LocatorView {
    LocatorView { platform: p, stage, next }
}

/// The search over with `f`: the path of `adb`, or why it was not found.
pub open spec fn found(p: Platform, f: Result<Seq<char>, AdbErrorView>) -> LocatorView {
    searching(p, StageView::Done, ProbeView::Found(f))
}

/// The lookup tool: `where` on Windows, `which` elsewhere.
pub open spec fn lookup_tool(p: Platform) -> Seq<char> {
    if p == Platform::Windows {
        "where"@
    } else {
        "which"@
    }
}

/// The start of the search.
pub open spec fn locate_start(p: Platform) -> LocatorView {
    searching(p, StageView::Lookup, ProbeView::Run(lookup_tool(p), seq!["adb"@]))
}

/// Trying the candidates from index `i` on: the first that exists is `adb`.
pub open spec fn try_from(p: Platform, cands: Seq<Seq<char>>, i: nat) -> LocatorView {
    if i < cands.len() {
        searching(p, StageView::Trying(cands, i), ProbeView::Exists(cands[i as int]))
    } else {
        found(p, Err(AdbErrorView::AdbNotFound))
    }
}

/// Turning to the common places: read the home directory first.
pub open spec fn to_common(p: Platform) -> LocatorView {
    searching(
        p,
        StageView::Home,
        ProbeView::Var(
            if p == Platform::Windows {
                "USERPROFILE"@
            } else {
                "HOME"@
            },
        ),
    )
}

/// The output of a lookup that ran and succeeded.
pub open spec fn lookup_output(r: Option<(bool, Seq<u8>)>) -> Option<Seq<char>> {
    match r {
        Some((true, out)) => Some(utf8_lossy(out)),
        _ => None,
    }
}

/// What the search does on report `r`.
pub open spec fn locate_step(p: Platform, s: StageView, r: ReportView) -> LocatorView {
    match (s, r) {
        (StageView::Lookup, ReportView::Ran(ran)) => match lookup_output(ran) {
            Some(out) => if p == Platform::Windows {
                if first_line(out).len() > 0 {
                    searching(p, StageView::LookupExists(first_line(out)), ProbeView::Exists(first_line(out)))
                } else {
                    to_common(p)
                }
            } else if trim(out).len() > 0 {
                found(p, Ok(trim(out)))
            } else {
                searching(p, StageView::WslShell, ProbeView::Exists(cmd_exe()))
            },
            None => if p == Platform::Windows {
                to_common(p)
            } else {
                searching(p, StageView::WslShell, ProbeView::Exists(cmd_exe()))
            },
        },
        (StageView::LookupExists(path), ReportView::Exists(b)) => if b {
            found(p, Ok(path))
        } else {
            to_common(p)
        },
        (StageView::WslShell, ReportView::Exists(b)) => if b {
            searching(p, StageView::WslLookup, ProbeView::Run(cmd_exe(), seq!["/c"@, "where"@, "adb"@]))
        } else {
            to_common(p)
        },
        (StageView::WslLookup, ReportView::Ran(ran)) => match lookup_output(ran) {
            Some(out) => if first_line(out).len() > 0 {
                let w = wsl_path(first_line(out));
                searching(p, StageView::WslExists(w), ProbeView::Exists(w))
            } else {
                to_common(p)
            },
            None => to_common(p),
        },
        (StageView::WslExists(w), ReportView::Exists(b)) => if b {
            found(p, Ok(w))
        } else {
            to_common(p)
        },
        (StageView::Home, ReportView::Var(h)) => if p == Platform::Linux {
            searching(p, StageView::WindowsDrive(h), ProbeView::Exists("/mnt/c"@))
        } else {
            try_from(p, common_paths(p, h, None), 0)
        },
        (StageView::WindowsDrive(h), ReportView::Exists(b)) => if b {
            searching(p, StageView::WindowsUsers(h), ProbeView::ListDir("/mnt/c/Users"@))
        } else {
            try_from(p, common_paths(p, h, None), 0)
        },
        (StageView::WindowsUsers(h), ReportView::Entries(us)) => try_from(
            p,
            common_paths(
                p,
                h,
                Some(
                    match us {
                        Some(names) => names,
                        None => Seq::empty(),
                    },
                ),
            ),
            0,
        ),
        (StageView::Trying(cands, i), ReportView::Exists(b)) => if b {
            found(p, Ok(cands[i as int]))
        } else {
            try_from(p, cands, i + 1)
        },
        _ => found(p, Err(AdbErrorView::AdbNotFound)),
    }
}

/// Whether `r` reports on probe `q`.
pub open spec fn reports_on(q: ProbeView, r: ReportView) -> bool {
    match q {
        ProbeView::Run(_, _) => r is Ran,
        ProbeView::Exists(_) => r is Exists,
        ProbeView::Var(_) => r is Var,
        ProbeView::ListDir(_) => r is Entries,
        ProbeView::Found(_) => false,
    }
}

/// The probe a stage waits on (where it names the probe itself).
pub open spec fn locator_wf(l: LocatorView) -> bool {
    match l.stage {
        StageView::Lookup => l.next is Run,
        StageView::LookupExists(path) => l.next == ProbeView::Exists(path),
        StageView::WslShell => l.next is Exists,
        StageView::WslLookup => l.next is Run,
        StageView::WslExists(w) => l.next == ProbeView::Exists(w),
        StageView::Home => l.next is Var,
        StageView::WindowsDrive(_) => l.next is Exists,
        StageView::WindowsUsers(_) => l.next is ListDir,
        StageView::Trying(c, i) => i < c.len() && l.next == ProbeView::Exists(c[i as int]),
        StageView::Done => l.next is Found,
    }
}

fn strings(parts: &[&str]) -> (v: Vec<String>)
    ensures
        v.deep_view() == parts.deep_view(),
{
    let mut v: Vec<String> = Vec::new();
    let mut i: usize = 0;
    while i < parts.len()
        invariant
            i <= parts@.len(),
            v.deep_view() == parts.deep_view().take(i as int),
        decreases parts@.len() - i,
    {
        let ghost before = v.deep_view();
        v.push(String::from_str(parts[i]));
        assert(v.deep_view() =~= before.push(parts.deep_view()[i as int]));
        assert(parts.deep_view().take(i + 1) =~= parts.deep_view().take(i as int).push(
            parts.deep_view()[i as int],
        ));
        i = i + 1;
    }
    assert(parts.deep_view().take(parts@.len() as int) =~= parts.deep_view());
    v
}

/// Starts looking for `adb` on `platform`.
pub fn find_adb_path(platform: Platform) -> (l: Locator)
    ensures
        l.deep_view() == locate_start(platform),
        locator_wf(l.deep_view()),
{
    let tool = if platform == Platform::Windows {
        "where"
    } else {
        "which"
    };
    let args = strings(&["adb"]);
    assert(seq!["adb"@] =~= ["adb"].deep_view());
    Locator { platform, stage: Stage::Lookup, next: Probe::Run(String::from_str(tool), args) }
}

fn common(platform: Platform) -> (l: Locator)
    ensures
        l.deep_view() == to_common(platform),
        locator_wf(l.deep_view()),
{
    let var = if platform == Platform::Windows {
        "USERPROFILE"
    } else {
        "HOME"
    };
    Locator { platform, stage: Stage::Home, next: Probe::Var(String::from_str(var)) }
}

fn trying(platform: Platform, cands: Vec<String>, i: usize) -> (l: Locator)
    ensures
        l.deep_view() == try_from(platform, cands.deep_view(), i as nat),
        locator_wf(l.deep_view()),
{
    if i < cands.len() {
        let c = cands[i].clone();
        Locator { platform, stage: Stage::Trying(cands, i), next: Probe::Exists(c) }
    } else {
        Locator { platform, stage: Stage::Done, next: Probe::Found(Err(AdbError::AdbNotFound)) }
    }
}

fn finished(platform: Platform, f: Result<String, AdbError>) -> (l: Locator)
    ensures
        l.deep_view() == found(
            platform,
            match f {
                Ok(path) => Ok(path@),
                Err(e) => Err(e@),
            },
        ),
        locator_wf(l.deep_view()),
{
    Locator { platform, stage: Stage::Done, next: Probe::Found(f) }
}

fn lookup_text(ran: &Option<(bool, Vec<u8>)>) -> (t: Option<String>)
    ensures
        crate::device::opt_text(t) == lookup_output(
            match ran {
                Some(x) => Some((x.0, x.1@)),
                None => None,
            },
        ),
{
    match ran {
        Some((true, out)) => Some(decode_lossy(out.as_slice())),
        _ => None,
    }
}

impl Locator {
    /// The probe the search waits on.
    pub fn probe(&self) -> (q: &Probe)
        ensures
            q.deep_view() == self.deep_view().next,
    {
        &self.next
    }

    /// Whether `r` reports on the probe the search waits on.
    pub fn accepts(&self, r: &Report) -> (b: bool)
        ensures
            b == reports_on(self.deep_view().next, r.deep_view()),
    {
        match (&self.next, r) {
            (Probe::Run(_, _), Report::Ran(_)) => true,
            (Probe::Exists(_), Report::Exists(_)) => true,
            (Probe::Var(_), Report::Var(_)) => true,
            (Probe::ListDir(_), Report::Entries(_)) => true,
            _ => false,
        }
    }

    /// Takes the report on the probe the search waited on and moves on.
    pub fn advance(&mut self, r: Report)
        requires
            locator_wf(old(self).deep_view()),
            reports_on(old(self).deep_view().next, r.deep_view()),
        ensures
            final(self).deep_view() == locate_step(
                old(self).deep_view().platform,
                old(self).deep_view().stage,
                r.deep_view(),
            ),
            locator_wf(final(self).deep_view()),
    {
        let p = self.platform;
        let mut stage = Stage::Done;
        std::mem::swap(&mut stage, &mut self.stage);
        let next = match (stage, r) {
            (Stage::Lookup, Report::Ran(ran)) => match lookup_text(&ran) {
                Some(out) => {
                    if p == Platform::Windows {
                        let line = first_line_of(out.as_str());
                        if !line.as_str().is_empty() {
                            let q = Probe::Exists(line.clone());
                            Locator { platform: p, stage: Stage::LookupExists(line), next: q }
                        } else {
                            common(p)
                        }
                    } else {
                        let t = trim_text(out.as_str());
                        if !t.as_str().is_empty() {
                            finished(p, Ok(t))
                        } else {
                            Locator {
                                platform: p,
                                stage: Stage::WslShell,
                                next: Probe::Exists(String::from_str("/mnt/c/Windows/System32/cmd.exe")),
                            }
                        }
                    }
                },
                None => {
                    if p == Platform::Windows {
                        common(p)
                    } else {
                        Locator {
                            platform: p,
                            stage: Stage::WslShell,
                            next: Probe::Exists(String::from_str("/mnt/c/Windows/System32/cmd.exe")),
                        }
                    }
                },
            },
            (Stage::LookupExists(path), Report::Exists(b)) => {
                if b {
                    finished(p, Ok(path))
                } else {
                    common(p)
                }
            },
            (Stage::WslShell, Report::Exists(b)) => {
                if b {
                    let args = strings(&["/c", "where", "adb"]);
                    assert(seq!["/c"@, "where"@, "adb"@] =~= ["/c", "where", "adb"].deep_view());
                    Locator {
                        platform: p,
                        stage: Stage::WslLookup,
                        next: Probe::Run(String::from_str("/mnt/c/Windows/System32/cmd.exe"), args),
                    }
                } else {
                    common(p)
                }
            },
            (Stage::WslLookup, Report::Ran(ran)) => match lookup_text(&ran) {
                Some(out) => {
                    let line = first_line_of(out.as_str());
                    if !line.as_str().is_empty() {
                        let w = windows_to_wsl_path(line.as_str());
                        let q = Probe::Exists(w.clone());
                        Locator { platform: p, stage: Stage::WslExists(w), next: q }
                    } else {
                        common(p)
                    }
                },
                None => common(p),
            },
            (Stage::WslExists(w), Report::Exists(b)) => {
                if b {
                    finished(p, Ok(w))
                } else {
                    common(p)
                }
            },
            (Stage::Home, Report::Var(h)) => {
                if p == Platform::Linux {
                    Locator {
                        platform: p,
                        stage: Stage::WindowsDrive(h),
                        next: Probe::Exists(String::from_str("/mnt/c")),
                    }
                } else {
                    trying(p, get_common_adb_paths(p, h, None), 0)
                }
            },
            (Stage::WindowsDrive(h), Report::Exists(b)) => {
                if b {
                    Locator {
                        platform: p,
                        stage: Stage::WindowsUsers(h),
                        next: Probe::ListDir(String::from_str("/mnt/c/Users")),
                    }
                } else {
                    trying(p, get_common_adb_paths(p, h, None), 0)
                }
            },
            (Stage::WindowsUsers(h), Report::Entries(us)) => {
                let names = match us {
                    Some(v) => v,
                    None => Vec::new(),
                };
                trying(p, get_common_adb_paths(p, h, Some(names)), 0)
            },
            (Stage::Trying(cands, i), Report::Exists(b)) => {
                if b {
                    let c = cands[i].clone();
                    finished(p, Ok(c))
                } else {
                    let n = cands.len();
                    assert(i < n);
                    trying(p, cands, i + 1)
                }
            },
            _ => {
                proof {
                    assert(false);
                }
                finished(p, Err(AdbError::AdbNotFound))
            },
        };
        *self = next;
    }
}

} // verus!
