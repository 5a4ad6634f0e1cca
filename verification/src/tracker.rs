//! Following the device list as the server reports changes (`host:track-devices`).
use vstd::prelude::*;
use vstd::utf8::encode_utf8;
use crate::device::{listed_devices, parse_device_list};
use crate::exchange::{
    answers, okay_bytes, startup_pending, startup_step, Action, ActionView, Event, EventView,
    Progress, ProgressView, Startup, StartupView,
};
use crate::frame::{encode_request, framed, parse_length_field, reply_length};
use crate::text::{decode_lossy, utf8_lossy};

verus! {

/// How long to wait before starting over, in seconds.
pub const RETRY_SECONDS: u64 = 3;

/// Where the following of the device list stands.
#[derive(Debug)]
pub enum TrackStage {
    /// Making sure the server runs.
    Ensuring(Startup),
    /// Connecting for the subscription.
    Connecting,
    /// Sending this subscription request.
    Subscribing(Vec<u8>),
    /// Reading the answer to the subscription.
    AwaitingOkay,
    /// Reading the length of the next list (`true` for the first list).
    ReadingLength(bool),
    /// Reading a list of this length (`true` for the first list).
    ReadingList(bool, usize),
    /// Handing over a list.
    Publishing,
    /// Waiting before starting over.
    Waiting,
}

/// The abstract content of a [`TrackStage`].
pub enum TrackStageView {
    Ensuring(StartupView),
    Connecting,
    Subscribing(Seq<u8>),
    AwaitingOkay,
    ReadingLength(bool),
    ReadingList(bool, nat),
    Publishing,
    Waiting,
}

impl DeepView for TrackStage {
    type V = TrackStageView;

    open spec fn deep_view(&self) -> TrackStageView {
        match self {
            TrackStage::Ensuring(s) => TrackStageView::Ensuring(s.deep_view()),
            TrackStage::Connecting => TrackStageView::Connecting,
            TrackStage::Subscribing(f) => TrackStageView::Subscribing(f@),
            TrackStage::AwaitingOkay => TrackStageView::AwaitingOkay,
            TrackStage::ReadingLength(i) => TrackStageView::ReadingLength(*i),
            TrackStage::ReadingList(i, n) => TrackStageView::ReadingList(*i, *n as nat),
            TrackStage::Publishing => TrackStageView::Publishing,
            TrackStage::Waiting => TrackStageView::Waiting,
        }
    }
}

/// Following the device list: it never finishes; it hands over each list
/// the server reports and starts over after a pause when anything fails.
#[derive(Debug)]
pub struct Tracker {
    /// Where it stands.
    pub stage: TrackStage,
    /// The step it waits on.
    pub next: Action,
}

/// The abstract content of a [`Tracker`].
pub struct TrackerView {
    pub stage: TrackStageView,
    pub next: ActionView,
}

impl DeepView for Tracker {
    type V = TrackerView;

    open spec fn deep_view(&self) -> TrackerView {
        TrackerView { stage: self.stage.deep_view(), next: self.next.deep_view() }
    }
}

/// The subscription request.
pub open spec fn track_request() -> Seq<u8> {
    framed(encode_utf8("host:track-devices"@))
}

/// The tracker made of a stage and an action.
pub open spec fn tracking(stage: TrackStageView, next: ActionView) -> TrackerView {
    TrackerView { stage, next }
}

/// Pausing before starting over.
pub open spec fn retry() -> TrackerView {
    tracking(TrackStageView::Waiting, ActionView::Pause(RETRY_SECONDS as nat))
}

/// Reading the next list.
pub open spec fn read_next() -> TrackerView {
    tracking(TrackStageView::ReadingLength(false), ActionView::Receive(4))
}

/// A failure while reading: the first list may fail (the next is read
/// anyway); a later one means starting over.
pub open spec fn read_failed(initial: bool) -> TrackerView {
    if initial {
        read_next()
    } else {
        retry()
    }
}

/// The start: make sure the server runs.
pub open spec fn track_start() -> TrackerView {
    tracking(TrackStageView::Ensuring(StartupView::Probing), ActionView::Connect)
}

/// The action a stage waits on (a hand-over names its list itself).
pub open spec fn track_pending(s: TrackStageView) -> ActionView {
    match s {
        TrackStageView::Ensuring(st) => startup_pending(st),
        TrackStageView::Connecting => ActionView::Connect,
        TrackStageView::Subscribing(f) => ActionView::Send(f),
        TrackStageView::AwaitingOkay => ActionView::Receive(4),
        TrackStageView::ReadingLength(_) => ActionView::Receive(4),
        TrackStageView::ReadingList(_, n) => ActionView::Receive(n),
        TrackStageView::Publishing => ActionView::Publish(Seq::empty()),
        TrackStageView::Waiting => ActionView::Pause(RETRY_SECONDS as nat),
    }
}

/// A tracker waits on the action its stage waits on.
pub open spec fn tracker_wf(t: TrackerView) -> bool {
    match t.stage {
        TrackStageView::Publishing => t.next is Publish,
        _ => t.next == track_pending(t.stage),
    }
}

/// What the tracker does when told `e`.
pub open spec fn track_step(s: TrackStageView, e: EventView) -> TrackerView {
    match s {
        TrackStageView::Ensuring(st) => match startup_step(st, e) {
            ProgressView::Continue(st2, a) => tracking(TrackStageView::Ensuring(st2), a),
            ProgressView::Done(Err(_)) => retry(),
            ProgressView::Done(Ok(_)) => tracking(TrackStageView::Connecting, ActionView::Connect),
        },
        TrackStageView::Connecting => match e {
            EventView::Connected => tracking(
                TrackStageView::Subscribing(track_request()),
                ActionView::Send(track_request()),
            ),
            _ => retry(),
        },
        TrackStageView::Subscribing(_) => match e {
            EventView::Sent => tracking(TrackStageView::AwaitingOkay, ActionView::Receive(4)),
            _ => retry(),
        },
        TrackStageView::AwaitingOkay => match e {
            EventView::Received(h) => if h == okay_bytes() {
                tracking(TrackStageView::ReadingLength(true), ActionView::Receive(4))
            } else {
                retry()
            },
            _ => retry(),
        },
        TrackStageView::ReadingLength(initial) => match e {
            EventView::Received(f) => match reply_length(f) {
                Err(_) => read_failed(initial),
                Ok(n) => if n == 0 {
                    tracking(TrackStageView::Publishing, ActionView::Publish(Seq::empty()))
                } else {
                    tracking(TrackStageView::ReadingList(initial, n), ActionView::Receive(n))
                },
            },
            _ => read_failed(initial),
        },
        TrackStageView::ReadingList(initial, _) => match e {
            EventView::Received(d) => tracking(
                TrackStageView::Publishing,
                ActionView::Publish(listed_devices(utf8_lossy(d))),
            ),
            _ => read_failed(initial),
        },
        TrackStageView::Publishing => read_next(),
        TrackStageView::Waiting => track_start(),
    }
}

/// Follows the device list: makes sure the server runs, subscribes with
/// `host:track-devices`, then hands over every list the server sends.
pub fn track_devices() -> (t: Tracker)
    ensures
        t.deep_view() == track_start(),
        t.wf(),
{
    let (st, a) = Startup::start();
    Tracker { stage: TrackStage::Ensuring(st), next: a }
}

impl Tracker {
    /// Whether the tracker waits on the action its stage waits on.
    pub open spec fn wf(&self) -> bool {
        tracker_wf(self.deep_view())
    }

    /// The step the tracker waits on.
    pub fn action(&self) -> (a: &Action)
        ensures
            a.deep_view() == self.deep_view().next,
    {
        &self.next
    }

    /// Whether `e` reports on the step the tracker waits on.
    pub fn accepts(&self, e: &Event) -> (b: bool)
        requires
            self.wf(),
        ensures
            b == answers(self.deep_view().next, e.deep_view()),
    {
        match &self.next {
            Action::Connect => match e {
                Event::Connected | Event::Failed(_) => true,
                _ => false,
            },
            Action::Send(_) => match e {
                Event::Sent | Event::Failed(_) => true,
                _ => false,
            },
            Action::Receive(n) => match e {
                Event::Received(b) => b.len() == *n,
                Event::Failed(_) => true,
                _ => false,
            },
            Action::ReceiveRest => match e {
                Event::ReceivedText(_) | Event::Failed(_) => true,
                _ => false,
            },
            Action::LocateAdb => match e {
                Event::Located(_) | Event::Failed(_) => true,
                _ => false,
            },
            Action::RunAdb(_, _) => match e {
                Event::Ran(_, _) | Event::Failed(_) => true,
                _ => false,
            },
            Action::Publish(_) | Action::Pause(_) => match e {
                Event::Resumed => true,
                _ => false,
            },
            Action::Finish(_) => false,
        }
    }

    /// Takes the report `e` on the step the tracker waited on and moves on.
    pub fn advance(&mut self, e: Event)
        requires
            old(self).wf(),
            answers(old(self).deep_view().next, e.deep_view()),
        ensures
            final(self).deep_view() == track_step(old(self).deep_view().stage, e.deep_view()),
            final(self).wf(),
    {
        let mut stage = TrackStage::Waiting;
        std::mem::swap(&mut stage, &mut self.stage);
        let next = match stage {
            TrackStage::Ensuring(st) => match st.step(e) {
                Progress::Continue(st2, a) => Tracker { stage: TrackStage::Ensuring(st2), next: a },
                Progress::Done(Err(_)) => Tracker::retrying(),
                Progress::Done(Ok(_)) => Tracker { stage: TrackStage::Connecting, next: Action::Connect },
            },
            TrackStage::Connecting => match e {
                Event::Connected => {
                    let f = encode_request("host:track-devices");
                    let a = Action::Send(f.clone());
                    Tracker { stage: TrackStage::Subscribing(f), next: a }
                },
                _ => Tracker::retrying(),
            },
            TrackStage::Subscribing(_) => match e {
                Event::Sent => Tracker { stage: TrackStage::AwaitingOkay, next: Action::Receive(4) },
                _ => Tracker::retrying(),
            },
            TrackStage::AwaitingOkay => match e {
                Event::Received(h) => {
                    if h.len() == 4 && h[0] == 0x4f && h[1] == 0x4b && h[2] == 0x41 && h[3] == 0x59 {
                        assert(h@ =~= okay_bytes());
                        Tracker { stage: TrackStage::ReadingLength(true), next: Action::Receive(4) }
                    } else {
                        assert(h@ != okay_bytes());
                        Tracker::retrying()
                    }
                },
                _ => Tracker::retrying(),
            },
            TrackStage::ReadingLength(initial) => match e {
                Event::Received(f) => match parse_length_field(f.as_slice()) {
                    Err(_) => Tracker::after_failure(initial),
                    Ok(n) => {
                        if n == 0 {
                            let empty: Vec<crate::device::Device> = Vec::new();
                            assert(empty.deep_view() =~= Seq::<crate::device::DeviceView>::empty());
                            Tracker { stage: TrackStage::Publishing, next: Action::Publish(empty) }
                        } else {
                            Tracker {
                                stage: TrackStage::ReadingList(initial, n),
                                next: Action::Receive(n),
                            }
                        }
                    },
                },
                _ => Tracker::after_failure(initial),
            },
            TrackStage::ReadingList(initial, _) => match e {
                Event::Received(d) => {
                    let text = decode_lossy(d.as_slice());
                    let ds = parse_device_list(text.as_str());
                    Tracker { stage: TrackStage::Publishing, next: Action::Publish(ds) }
                },
                _ => Tracker::after_failure(initial),
            },
            TrackStage::Publishing => Tracker {
                stage: TrackStage::ReadingLength(false),
                next: Action::Receive(4),
            },
            TrackStage::Waiting => track_devices(),
        };
        *self = next;
    }

    fn retrying() -> (t: Tracker)
        ensures
            t.deep_view() == retry(),
            t.wf(),
    {
        Tracker { stage: TrackStage::Waiting, next: Action::Pause(RETRY_SECONDS) }
    }

    fn after_failure(initial: bool) -> (t: Tracker)
        ensures
            t.deep_view() == read_failed(initial),
            t.wf(),
    {
        if initial {
            Tracker { stage: TrackStage::ReadingLength(false), next: Action::Receive(4) }
        } else {
            Tracker::retrying()
        }
    }
}

} // verus!
