//! The operations of the ADB client, each as a conversation to be driven.
//!
//! Every operation is a [`Session`]: its [`Session::action`] names the next
//! outside step, and [`Session::advance`] takes the [`Event`] that reports
//! how that step went. The session ends on [`Action::Finish`].
use vstd::prelude::*;
use crate::exchange::{
    answers, check_pending, check_step, devices_request, job_accepts, job_pending, job_step,
    scan_pending, scan_step, scan_wf, shell_pending, shell_start, shell_step, startup_pending,
    startup_step, version_request, Action, ActionView, Check, CheckView, Event, EventView, Job,
    JobKind, JobKindView, JobView, Outcome, OutcomeView, Progress, ProgressView, Scan, ScanView,
    Shell, ShellView, Startup, StartupView,
};
use crate::files::join_words;

verus! {

/// What follows once the server is known to run.
#[derive(Debug)]
pub enum Goal {
    /// Nothing: the operation only makes sure the server runs.
    Ready,
    /// Asking the server's version after checking it answers.
    Check,
    /// Listing the devices with their models.
    Scan,
    /// Running a shell command (second) on a device (first).
    Shell(String, String),
}

/// The abstract content of a [`Goal`].
pub enum GoalView {
    Ready,
    Check,
    Scan,
    Shell(Seq<char>, Seq<char>),
}

impl DeepView for Goal {
    type V = GoalView;

    open spec fn deep_view(&self) -> GoalView {
        match self {
            Goal::Ready => GoalView::Ready,
            Goal::Check => GoalView::Check,
            Goal::Scan => GoalView::Scan,
            Goal::Shell(d, c) => GoalView::Shell(d@, c@),
        }
    }
}

/// The part of an operation under way.
#[derive(Debug)]
pub enum Stage {
    /// Making sure the server runs; the goal follows.
    Starting(Startup, Goal),
    /// Checking the server and asking its version.
    Checking(Check),
    /// Listing the devices.
    Scanning(Scan),
    /// Running a shell command.
    Running(Shell),
    /// Running `adb`.
    Working(Job),
    /// Over.
    Finished,
}

/// The abstract content of a [`Stage`].
pub enum StageView {
    Starting(StartupView, GoalView),
    Checking(CheckView),
    Scanning(ScanView),
    Running(ShellView),
    Working(JobView),
    Finished,
}

impl DeepView for Stage {
    type V = StageView;

    open spec fn deep_view(&self) -> StageView {
        match self {
            Stage::Starting(s, g) => StageView::Starting(s.deep_view(), g.deep_view()),
            Stage::Checking(c) => StageView::Checking(c.deep_view()),
            Stage::Scanning(s) => StageView::Scanning(s.deep_view()),
            Stage::Running(s) => StageView::Running(s.deep_view()),
            Stage::Working(j) => StageView::Working(j.deep_view()),
            Stage::Finished => StageView::Finished,
        }
    }
}

/// An operation of the ADB client under way.
#[derive(Debug)]
pub struct Session {
    /// The part under way.
    pub stage: Stage,
    /// The step it waits on.
    pub next: Action,
}

/// The abstract content of a [`Session`].
pub struct SessionView {
    pub stage: StageView,
    pub next: ActionView,
}

impl DeepView for Session {
    type V = SessionView;

    open spec fn deep_view(&self) -> SessionView {
        SessionView { stage: self.stage.deep_view(), next: self.next.deep_view() }
    }
}

/// The action a stage waits on.
pub open spec fn stage_pending(s: StageView) -> ActionView {
    match s {
        StageView::Starting(st, _) => startup_pending(st),
        StageView::Checking(c) => check_pending(c),
        StageView::Scanning(sc) => scan_pending(sc),
        StageView::Running(sh) => shell_pending(sh),
        StageView::Working(j) => job_pending(j),
        StageView::Finished => ActionView::Connect,
    }
}

/// A session waits on the action its stage waits on; a finished one names its result.
pub open spec fn session_wf(s: SessionView) -> bool {
    match s.stage {
        StageView::Finished => s.next is Finish,
        StageView::Scanning(sc) => scan_wf(sc) && s.next == stage_pending(s.stage),
        _ => s.next == stage_pending(s.stage),
    }
}

/// Whether a session can take `e`: it is not over, `e` reports on the step
/// it waits on, and a listing it reads can be read.
pub open spec fn session_accepts(s: SessionView, e: EventView) -> bool {
    match s.stage {
        StageView::Finished => false,
        StageView::Working(j) => job_accepts(j, e),
        _ => answers(s.next, e),
    }
}

/// The session a stage and its action make.
pub open spec fn at(stage: StageView, next: ActionView) -> SessionView {
    SessionView { stage, next }
}

/// A finished session with result `r`.
pub open spec fn finished(r: Result<OutcomeView, crate::error::AdbErrorView>) -> SessionView {
    at(StageView::Finished, ActionView::Finish(r))
}

/// Where a goal starts once the server is known to run.
pub open spec fn goal_start(g: GoalView) -> SessionView {
    match g {
        GoalView::Ready => finished(Ok(OutcomeView::Nothing)),
        GoalView::Check => at(StageView::Checking(CheckView::Probing), ActionView::Connect),
        GoalView::Scan => at(
            StageView::Scanning(ScanView::Listing(devices_request())),
            ActionView::Connect,
        ),
        GoalView::Shell(d, c) => at(StageView::Running(shell_start(d, c)), ActionView::Connect),
    }
}

/// What a session does when told `e`.
pub open spec fn session_step(s: StageView, e: EventView) -> SessionView {
    match s {
        StageView::Starting(st, g) => match startup_step(st, e) {
            ProgressView::Continue(st2, a) => at(StageView::Starting(st2, g), a),
            ProgressView::Done(Err(x)) => finished(Err(x)),
            ProgressView::Done(Ok(_)) => goal_start(g),
        },
        StageView::Checking(c) => match check_step(c, e) {
            ProgressView::Continue(c2, a) => at(StageView::Checking(c2), a),
            ProgressView::Done(Err(x)) => finished(Err(x)),
            ProgressView::Done(Ok(t)) => finished(Ok(OutcomeView::Text(t))),
        },
        StageView::Scanning(sc) => match scan_step(sc, e) {
            ProgressView::Continue(sc2, a) => at(StageView::Scanning(sc2), a),
            ProgressView::Done(Err(x)) => finished(Err(x)),
            ProgressView::Done(Ok(ds)) => finished(Ok(OutcomeView::Devices(ds))),
        },
        StageView::Running(sh) => match shell_step(sh, e) {
            ProgressView::Continue(sh2, a) => at(StageView::Running(sh2), a),
            ProgressView::Done(Err(x)) => finished(Err(x)),
            ProgressView::Done(Ok(out)) => finished(Ok(OutcomeView::Output(out.0, out.1))),
        },
        StageView::Working(j) => match job_step(j, e) {
            ProgressView::Continue(j2, a) => at(StageView::Working(j2), a),
            ProgressView::Done(r) => finished(r),
        },
        StageView::Finished => at(StageView::Finished, ActionView::Connect),
    }
}

impl Session {
    /// Whether the session waits on the action its stage waits on.
    pub open spec fn wf(&self) -> bool {
        session_wf(self.deep_view())
    }

    /// The step the session waits on.
    pub fn action(&self) -> (a: &Action)
        ensures
            a.deep_view() == self.deep_view().next,
    {
        &self.next
    }

    /// Whether the session can take `e` (see [`session_accepts`]).
    pub fn accepts(&self, e: &Event) -> (b: bool)
        requires
            self.wf(),
        ensures
            b == session_accepts(self.deep_view(), e.deep_view()),
    {
        match &self.stage {
            Stage::Finished => false,
            Stage::Working(j) => j.accepts(e),
            _ => match &self.next {
                Action::Connect => match e {
                    Event::Connected | Event::Failed(_) => true,
                    _ => false,
                },
                Action::Send(_) => match e {
                    Event::Sent | Event::Failed(_) => true,
                    _ => false,
                },
                Action::Receive(n) => match e {
                    Event::Received(b) => b.len() == *n,
                    Event::Failed(_) => true,
                    _ => false,
                },
                Action::ReceiveRest => match e {
                    Event::ReceivedText(_) | Event::Failed(_) => true,
                    _ => false,
                },
                Action::LocateAdb => match e {
                    Event::Located(_) | Event::Failed(_) => true,
                    _ => false,
                },
                Action::RunAdb(_, _) => match e {
                    Event::Ran(_, _) | Event::Failed(_) => true,
                    _ => false,
                },
                Action::Publish(_) | Action::Pause(_) => match e {
                    Event::Resumed => true,
                    _ => false,
                },
                Action::Finish(_) => false,
            },
        }
    }

    fn goal(g: Goal) -> (s: Session)
        ensures
            s.deep_view() == goal_start(g.deep_view()),
            s.wf(),
    {
        match g {
            Goal::Ready => Session { stage: Stage::Finished, next: Action::Finish(Ok(Outcome::Nothing)) },
            Goal::Check => {
                let (c, a) = Check::start();
                Session { stage: Stage::Checking(c), next: a }
            },
            Goal::Scan => {
                let (sc, a) = Scan::start();
                Session { stage: Stage::Scanning(sc), next: a }
            },
            Goal::Shell(d, c) => {
                let (sh, a) = Shell::start(d.as_str(), c.as_str());
                Session { stage: Stage::Running(sh), next: a }
            },
        }
    }

    /// Takes the report `e` on the step the session waited on and moves to
    /// the next step.
    pub fn advance(&mut self, e: Event)
        requires
            old(self).wf(),
            session_accepts(old(self).deep_view(), e.deep_view()),
        ensures
            final(self).deep_view() == session_step(old(self).deep_view().stage, e.deep_view()),
            final(self).wf(),
    {
        let mut stage = Stage::Finished;
        std::mem::swap(&mut stage, &mut self.stage);
        let next = match stage {
            Stage::Starting(st, g) => match st.step(e) {
                Progress::Continue(st2, a) => Session { stage: Stage::Starting(st2, g), next: a },
                Progress::Done(Err(x)) => Session { stage: Stage::Finished, next: Action::Finish(Err(x)) },
                Progress::Done(Ok(_)) => Session::goal(g),
            },
            Stage::Checking(c) => match c.step(e) {
                Progress::Continue(c2, a) => Session { stage: Stage::Checking(c2), next: a },
                Progress::Done(Err(x)) => Session { stage: Stage::Finished, next: Action::Finish(Err(x)) },
                Progress::Done(Ok(t)) => Session {
                    stage: Stage::Finished,
                    next: Action::Finish(Ok(Outcome::Text(t))),
                },
            },
            Stage::Scanning(sc) => match sc.step(e) {
                Progress::Continue(sc2, a) => Session { stage: Stage::Scanning(sc2), next: a },
                Progress::Done(Err(x)) => Session { stage: Stage::Finished, next: Action::Finish(Err(x)) },
                Progress::Done(Ok(ds)) => Session {
                    stage: Stage::Finished,
                    next: Action::Finish(Ok(Outcome::Devices(ds))),
                },
            },
            Stage::Running(sh) => match sh.step(e) {
                Progress::Continue(sh2, a) => Session { stage: Stage::Running(sh2), next: a },
                Progress::Done(Err(x)) => Session { stage: Stage::Finished, next: Action::Finish(Err(x)) },
                Progress::Done(Ok((o, er))) => Session {
                    stage: Stage::Finished,
                    next: Action::Finish(Ok(Outcome::Output(o, er))),
                },
            },
            Stage::Working(j) => match j.step(e) {
                Progress::Continue(j2, a) => Session { stage: Stage::Working(j2), next: a },
                Progress::Done(r) => Session { stage: Stage::Finished, next: Action::Finish(r) },
            },
            Stage::Finished => {
                proof {
                    assert(false);
                }
                Session { stage: Stage::Finished, next: Action::Connect }
            },
        };
        *self = next;
    }
}

// ---------------------------------------------------------------------------
// The operations.
// ---------------------------------------------------------------------------

/// The session that makes sure the server runs, then pursues `g`.
pub open spec fn started_for(g: GoalView) -> SessionView {
    at(StageView::Starting(StartupView::Probing, g), ActionView::Connect)
}

fn starting(g: Goal) -> (s: Session)
    ensures
        s.deep_view() == started_for(g.deep_view()),
        s.wf(),
{
    let (st, a) = Startup::start();
    Session { stage: Stage::Starting(st, g), next: a }
}

/// Makes sure the server runs: connects, and where that fails, finds `adb`
/// and runs `adb start-server`.
pub fn ensure_adb_server_running() -> (s: Session)
    ensures
        s.deep_view() == started_for(GoalView::Ready),
        s.wf(),
{
    starting(Goal::Ready)
}

/// Checks that the server answers, then reports its version
/// (`ADB server version: ...`); a server that does not answer is not running.
pub fn check_adb_server_running() -> (s: Session)
    ensures
        s.deep_view() == at(StageView::Checking(CheckView::Probing), ActionView::Connect),
        s.wf(),
{
    let (c, a) = Check::start();
    Session { stage: Stage::Checking(c), next: a }
}

/// Makes sure the server runs, then checks it and reports its version.
pub fn check_adb_available() -> (s: Session)
    ensures
        s.deep_view() == started_for(GoalView::Check),
        s.wf(),
{
    starting(Goal::Check)
}

/// Asks the server's version (`ADB server version: ...`).
pub fn get_adb_version_socket() -> (s: Session)
    ensures
        s.deep_view() == at(
            StageView::Checking(CheckView::Asking(version_request())),
            ActionView::Connect,
        ),
        s.wf(),
{
    let (c, a) = Check::version();
    Session { stage: Stage::Checking(c), next: a }
}

/// Lists the devices and asks each attached one for its model.
pub fn get_devices_socket() -> (s: Session)
    ensures
        s.deep_view() == at(
            StageView::Scanning(ScanView::Listing(devices_request())),
            ActionView::Connect,
        ),
        s.wf(),
{
    let (sc, a) = Scan::start();
    Session { stage: Stage::Scanning(sc), next: a }
}

/// Makes sure the server runs, then lists the devices with their models.
pub fn get_devices() -> (s: Session)
    ensures
        s.deep_view() == started_for(GoalView::Scan),
        s.wf(),
{
    starting(Goal::Scan)
}

/// Runs `command` in the shell of device `device_id` (of the only device,
/// where the serial is empty); the result is its output and an empty error text.
pub fn execute_command_socket(device_id: &str, command: &str) -> (s: Session)
    ensures
        s.deep_view() == at(
            StageView::Running(shell_start(device_id@, command@)),
            ActionView::Connect,
        ),
        s.wf(),
{
    let (sh, a) = Shell::start(device_id, command);
    Session { stage: Stage::Running(sh), next: a }
}

/// Makes sure the server runs, then runs `command` on device `device_id`.
pub fn execute_command(device_id: &str, command: &str) -> (s: Session)
    ensures
        s.deep_view() == started_for(GoalView::Shell(device_id@, command@)),
        s.wf(),
{
    starting(Goal::Shell(String::from_str(device_id), String::from_str(command)))
}

/// The command line that runs `binary` with `args`: the binary alone, or the
/// binary, a space and the arguments joined by spaces.
pub open spec fn command_line(binary: Seq<char>, args: Seq<Seq<char>>) -> Seq<char> {
    if args.len() == 0 {
        binary
    } else {
        binary + seq![' '] + join_words(args)
    }
}

fn join_args(args: &[&str]) -> (out: String)
    requires
        args@.len() > 0,
    ensures
        out@ == join_words(args.deep_view()),
{
    let ghost w = args.deep_view();
    let mut out = String::from_str(args[0]);
    assert(w.take(1) =~= seq![w[0]]);
    let mut i: usize = 1;
    while i < args.len()
        invariant
            1 <= i <= args@.len(),
            w == args.deep_view(),
            out@ == join_words(w.take(i as int)),
        decreases args@.len() - i,
    {
        assert(w.take(i + 1).drop_last() =~= w.take(i as int));
        let ghost before = out@;
        out.append(" ");
        out.append(args[i]);
        proof {
            reveal_strlit(" ");
        }
        assert(out@ =~= before + seq![' '] + w[i as int]);
        assert(out@ =~= join_words(w.take(i as int)) + seq![' '] + w[i as int]);
        i = i + 1;
    }
    assert(w.take(args@.len() as int) =~= w);
    out
}

/// The command line `binary_path` followed by `args`, joined by spaces.
pub fn binary_command_line(binary_path: &str, args: &[&str]) -> (out: String)
    ensures
        out@ == command_line(binary_path@, args.deep_view()),
{
    if args.len() == 0 {
        String::from_str(binary_path)
    } else {
        let joined_args = join_args(args);
        let mut out = String::from_str(binary_path);
        out.append(" ");
        out.append(joined_args.as_str());
        proof {
            reveal_strlit(" ");
        }
        assert(out@ =~= binary_path@ + seq![' '] + join_words(args.deep_view()));
        out
    }
}

/// Makes sure the server runs, then runs `binary_path` with `args` on device `device_id`.
pub fn run_binary(device_id: &str, binary_path: &str, args: &[&str]) -> (s: Session)
    ensures
        s.deep_view() == started_for(
            GoalView::Shell(device_id@, command_line(binary_path@, args.deep_view())),
        ),
        s.wf(),
{
    let line = binary_command_line(binary_path, args);
    starting(Goal::Shell(String::from_str(device_id), line))
}

/// The arguments `-s <device> <verb> <first> <second>`.
pub open spec fn device_args(
    device: Seq<char>,
    verb: Seq<char>,
    first: Seq<char>,
    second: Seq<char>,
) -> Seq<Seq<char>> {
    seq!["-s"@, device, verb, first, second]
}

/// The arguments `-s <device> shell ls -la <path>`.
pub open spec fn listing_args(device: Seq<char>, path: Seq<char>) -> Seq<Seq<char>> {
    seq!["-s"@, device, "shell"@, "ls"@, "-la"@, path]
}

fn args_of(parts: &[&str]) -> (v: Vec<String>)
    ensures
        v.deep_view() == parts.deep_view(),
{
    let mut v: Vec<String> = Vec::new();
    let mut i: usize = 0;
    while i < parts.len()
        invariant
            i <= parts@.len(),
            v.deep_view() == parts.deep_view().take(i as int),
        decreases parts@.len() - i,
    {
        let ghost before = v.deep_view();
        v.push(String::from_str(parts[i]));
        assert(v.deep_view() =~= before.push(parts.deep_view()[i as int]));
        assert(parts.deep_view().take(i + 1) =~= parts.deep_view().take(i as int).push(
            parts.deep_view()[i as int],
        ));
        i = i + 1;
    }
    assert(parts.deep_view().take(parts@.len() as int) =~= parts.deep_view());
    v
}

/// Copies `remote_path` from device `device_id` to `local_path` with `adb pull`.
pub fn pull_file(device_id: &str, remote_path: &str, local_path: &str) -> (s: Session)
    ensures
        s.deep_view() == at(
            StageView::Working(
                JobView::Locating(
                    JobKindView::Pull,
                    device_args(device_id@, "pull"@, remote_path@, local_path@),
                ),
            ),
            ActionView::LocateAdb,
        ),
        s.wf(),
{
    let parts = ["-s", device_id, "pull", remote_path, local_path];
    let args = args_of(&parts);
    assert(parts.deep_view() =~= device_args(device_id@, "pull"@, remote_path@, local_path@));
    let (j, a) = Job::start(JobKind::Pull, args);
    Session { stage: Stage::Working(j), next: a }
}

/// Copies `local_path` to `remote_path` on device `device_id` with `adb push`.
pub fn push_file(device_id: &str, local_path: &str, remote_path: &str) -> (s: Session)
    ensures
        s.deep_view() == at(
            StageView::Working(
                JobView::Locating(
                    JobKindView::Push,
                    device_args(device_id@, "push"@, local_path@, remote_path@),
                ),
            ),
            ActionView::LocateAdb,
        ),
        s.wf(),
{
    let parts = ["-s", device_id, "push", local_path, remote_path];
    let args = args_of(&parts);
    assert(parts.deep_view() =~= device_args(device_id@, "push"@, local_path@, remote_path@));
    let (j, a) = Job::start(JobKind::Push, args);
    Session { stage: Stage::Working(j), next: a }
}

/// Lists directory `path` on device `device_id` with `adb shell ls -la`.
pub fn list_files(device_id: &str, path: &str) -> (s: Session)
    ensures
        s.deep_view() == at(
            StageView::Working(
                JobView::Locating(JobKindView::List(path@), listing_args(device_id@, path@)),
            ),
            ActionView::LocateAdb,
        ),
        s.wf(),
{
    let parts = ["-s", device_id, "shell", "ls", "-la", path];
    let args = args_of(&parts);
    assert(parts.deep_view() =~= listing_args(device_id@, path@));
    let (j, a) = Job::start(JobKind::List(String::from_str(path)), args);
    Session { stage: Stage::Working(j), next: a }
}

/// One session per device, in order: `execute_command` of `command` on each.
pub fn batch_execute(devices: &[String], command: &str) -> (out: Vec<(String, Session)>)
    ensures
        out@.len() == devices@.len(),
        forall|i: int|
            0 <= i < devices@.len() ==> {
                &&& (#[trigger] out@[i]).0@ == devices@[i]@
                &&& out@[i].1.deep_view() == started_for(GoalView::Shell(devices@[i]@, command@))
                &&& out@[i].1.wf()
            },
{
    let mut out: Vec<(String, Session)> = Vec::new();
    let mut i: usize = 0;
    while i < devices.len()
        invariant
            i <= devices@.len(),
            out@.len() == i,
            forall|k: int|
                0 <= k < i ==> {
                    &&& (#[trigger] out@[k]).0@ == devices@[k]@
                    &&& out@[k].1.deep_view() == started_for(
                        GoalView::Shell(devices@[k]@, command@),
                    )
                    &&& out@[k].1.wf()
                },
        decreases devices@.len() - i,
    {
        let s = execute_command(devices[i].as_str(), command);
        out.push((devices[i].clone(), s));
        i = i + 1;
    }
    out
}

/// One session per device, in order: `push_file` of `local_path` to `remote_path` on each.
pub fn batch_push(devices: &[String], local_path: &str, remote_path: &str) -> (out: Vec<(String, Session)>)
    ensures
        out@.len() == devices@.len(),
        forall|i: int|
            0 <= i < devices@.len() ==> {
                &&& (#[trigger] out@[i]).0@ == devices@[i]@
                &&& out@[i].1.deep_view() == at(
                    StageView::Working(
                        JobView::Locating(
                            JobKindView::Push,
                            device_args(devices@[i]@, "push"@, local_path@, remote_path@),
                        ),
                    ),
                    ActionView::LocateAdb,
                )
                &&& out@[i].1.wf()
            },
{
    let mut out: Vec<(String, Session)> = Vec::new();
    let mut i: usize = 0;
    while i < devices.len()
        invariant
            i <= devices@.len(),
            out@.len() == i,
            forall|k: int|
                0 <= k < i ==> {
                    &&& (#[trigger] out@[k]).0@ == devices@[k]@
                    &&& out@[k].1.deep_view() == at(
                        StageView::Working(
                            JobView::Locating(
                                JobKindView::Push,
                                device_args(devices@[k]@, "push"@, local_path@, remote_path@),
                            ),
                        ),
                        ActionView::LocateAdb,
                    )
                    &&& out@[k].1.wf()
                },
        decreases devices@.len() - i,
    {
        let s = push_file(devices[i].as_str(), local_path, remote_path);
        out.push((devices[i].clone(), s));
        i = i + 1;
    }
    out
}

/// The directory `<local_dir>/<device>` that a batch pull fills for one device.
pub open spec fn device_dir(local_dir: Seq<char>, device: Seq<char>) -> Seq<char> {
    local_dir + "/"@ + device
}

/// Builds `<local_dir>/<device>`.
pub fn device_dir_of(local_dir: &str, device: &str) -> (out: String)
    ensures
        out@ == device_dir(local_dir@, device@),
{
    let mut out = String::from_str(local_dir);
    out.append("/");
    out.append(device);
    out
}

/// For each device, in order: its directory `<local_dir>/<device>` (made by
/// the caller before the pull runs) and a `pull_file` of `remote_path` into it.
pub fn batch_pull(devices: &[String], remote_path: &str, local_dir: &str) -> (out: Vec<
    (String, String, Session),
>)
    ensures
        out@.len() == devices@.len(),
        forall|i: int|
            0 <= i < devices@.len() ==> {
                &&& (#[trigger] out@[i]).0@ == devices@[i]@
                &&& out@[i].1@ == device_dir(local_dir@, devices@[i]@)
                &&& out@[i].2.deep_view() == at(
                    StageView::Working(
                        JobView::Locating(
                            JobKindView::Pull,
                            device_args(
                                devices@[i]@,
                                "pull"@,
                                remote_path@,
                                device_dir(local_dir@, devices@[i]@),
                            ),
                        ),
                    ),
                    ActionView::LocateAdb,
                )
                &&& out@[i].2.wf()
            },
{
    let mut out: Vec<(String, String, Session)> = Vec::new();
    let mut i: usize = 0;
    while i < devices.len()
        invariant
            i <= devices@.len(),
            out@.len() == i,
            forall|k: int|
                0 <= k < i ==> {
                    &&& (#[trigger] out@[k]).0@ == devices@[k]@
                    &&& out@[k].1@ == device_dir(local_dir@, devices@[k]@)
                    &&& out@[k].2.deep_view() == at(
                        StageView::Working(
                            JobView::Locating(
                                JobKindView::Pull,
                                device_args(
                                    devices@[k]@,
                                    "pull"@,
                                    remote_path@,
                                    device_dir(local_dir@, devices@[k]@),
                                ),
                            ),
                        ),
                        ActionView::LocateAdb,
                    )
                    &&& out@[k].2.wf()
                },
        decreases devices@.len() - i,
    {
        let dir = device_dir_of(local_dir, devices[i].as_str());
        let s = pull_file(devices[i].as_str(), remote_path, dir.as_str());
        out.push((devices[i].clone(), dir, s));
        i = i + 1;
    }
    out
}

} // verus!
