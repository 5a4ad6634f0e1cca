//! Devices as the ADB server lists them.
use vstd::prelude::*;
use crate::text::{lines, lines_of, same_chars, string_of, trim, trim_text, words, words_of};

verus! {

/// A device known to the ADB server.
#[derive(Debug, Clone)]
pub struct Device {
    /// The serial that identifies the device.
    pub id: String,
    /// The state the server reports: `device`, `unauthorized` or `offline`.
    pub status: String,
    /// The product model, where it could be read.
    pub model: Option<String>,
}

/// The abstract content of a [`Device`].
pub struct DeviceView {
    pub id: Seq<char>,
    pub status: Seq<char>,
    pub model: Option<Seq<char>>,
}

/// The abstract content of an optional text.
pub open spec fn opt_text(t: Option<String>) -> Option<Seq<char>> {
    match t {
        Some(s) => Some(s@),
        None => None,
    }
}

impl View for Device {
    type V = DeviceView;

    open spec fn view(&self) -> DeviceView {
        DeviceView { id: self.id@, status: self.status@, model: opt_text(self.model) }
    }
}

impl DeepView for Device {
    type V = DeviceView;

    open spec fn deep_view(&self) -> DeviceView {
        self@
    }
}

/// The word `device`: a device that is attached and usable.
pub open spec fn status_device() -> Seq<char> {
    seq!['d', 'e', 'v', 'i', 'c', 'e']
}

/// The word `unauthorized`.
pub open spec fn status_unauthorized() -> Seq<char> {
    seq!['u', 'n', 'a', 'u', 't', 'h', 'o', 'r', 'i', 'z', 'e', 'd']
}

/// The word `offline`.
pub open spec fn status_offline() -> Seq<char> {
    seq!['o', 'f', 'f', 'l', 'i', 'n', 'e']
}

/// The states under which a listed device is kept.
pub open spec fn is_listed_status(w: Seq<char>) -> bool {
    w == status_device() || w == status_unauthorized() || w == status_offline()
}

/// The device a line of a device list describes: its first word is the
/// serial and its second a listed state; any other line describes none.
pub open spec fn device_of_line(line: Seq<char>) -> Option<DeviceView> {
    let ws = words(line);
    if ws.len() >= 2 && is_listed_status(ws[1]) {
        Some(DeviceView { id: ws[0], status: ws[1], model: None })
    } else {
        None
    }
}

/// The devices that the given lines describe, in order.
pub open spec fn devices_of_lines(ls: Seq<Seq<char>>) -> Seq<DeviceView>
    decreases ls.len(),
{
    if ls.len() == 0 {
        Seq::empty()
    } else {
        let prev = devices_of_lines(ls.drop_last());
        match device_of_line(ls.last()) {
            Some(d) => prev.push(d),
            None => prev,
        }
    }
}

/// The devices a device-list reply names, in the order of its lines.
pub open spec fn listed_devices(text: Seq<char>) -> Seq<DeviceView> {
    devices_of_lines(lines(text))
}

/// The model that a `getprop ro.product.model` answer names: the answer
/// trimmed, or none where that leaves nothing.
pub open spec fn model_of_answer(answer: Seq<char>) -> Option<Seq<char>> {
    if trim(answer).len() == 0 {
        None
    } else {
        Some(trim(answer))
    }
}

fn is_listed_status_word(w: &[char]) -> (b: bool)
    ensures
        b == is_listed_status(w@),
{
    let d = ['d', 'e', 'v', 'i', 'c', 'e'];
    let u = ['u', 'n', 'a', 'u', 't', 'h', 'o', 'r', 'i', 'z', 'e', 'd'];
    let o = ['o', 'f', 'f', 'l', 'i', 'n', 'e'];
    assert(d@ =~= status_device());
    assert(u@ =~= status_unauthorized());
    assert(o@ =~= status_offline());
    same_chars(w, &d) || same_chars(w, &u) || same_chars(w, &o)
}

/// Whether the state is `device`, the one under which a model is asked for.
pub fn is_attached(status: &String) -> (b: bool)
    ensures
        b == (status@ == status_device()),
{
    let cs = crate::text::chars_of(status.as_str());
    let d = ['d', 'e', 'v', 'i', 'c', 'e'];
    assert(d@ =~= status_device());
    same_chars(cs.as_slice(), &d)
}

/// The device one line of a device list describes.
fn parse_device_line(line: &[char]) -> (d: Option<Device>)
    ensures
        match d {
            Some(dev) => device_of_line(line@) == Some(dev@),
            None => device_of_line(line@) is None,
        },
{
    let ws = words_of(line);
    if ws.len() >= 2 && is_listed_status_word(ws[1].as_slice()) {
        let id = string_of(ws[0].as_slice());
        let status = string_of(ws[1].as_slice());
        proof {
            assert(ws[0].deep_view() =~= ws[0]@);
            assert(ws[1].deep_view() =~= ws[1]@);
        }
        Some(Device { id, status, model: None })
    } else {
        proof {
            if ws@.len() >= 2 {
                assert(ws[1].deep_view() =~= ws[1]@);
            }
        }
        None
    }
}

/// Parses a device-list reply (`host:devices-l` or a `track-devices`
/// update): one device per line whose second word is `device`,
/// `unauthorized` or `offline`, with no model yet.
pub fn parse_device_list(response: &str) -> (out: Vec<Device>)
    ensures
        out.deep_view() == listed_devices(response@),
{
    let cs = crate::text::chars_of(response);
    let ls = lines_of(cs.as_slice());
    let ghost l = ls.deep_view();
    let mut out: Vec<Device> = Vec::new();
    let mut i: usize = 0;
    assert(l.take(0) =~= Seq::<Seq<char>>::empty());
    while i < ls.len()
        invariant
            i <= ls@.len(),
            l == ls.deep_view(),
            l == lines(cs@),
            out.deep_view() == devices_of_lines(l.take(i as int)),
        decreases ls@.len() - i,
    {
        assert(l.take(i + 1).drop_last() =~= l.take(i as int));
        assert(ls[i as int].deep_view() =~= ls[i as int]@);
        let ghost before = out.deep_view();
        match parse_device_line(ls[i].as_slice()) {
            Some(d) => {
                out.push(d);
                assert(out.deep_view() =~= before.push(out@[out@.len() - 1]@));
            },
            None => {},
        }
        i = i + 1;
    }
    assert(l.take(l.len() as int) =~= l);
    out
}

/// The model named by the answer to a model query; a failed query names none.
pub fn model_from_reply<E>(reply: Result<String, E>) -> (m: Option<String>)
    ensures
        match reply {
            Ok(answer) => opt_text(m) == model_of_answer(answer@),
            Err(_) => m is None,
        },
{
    match reply {
        Ok(answer) => device_model_from_output(&answer),
        Err(_) => None,
    }
}

/// The model in the output of `getprop ro.product.model`: the output trimmed,
/// or none where nothing is left.
pub fn device_model_from_output(output: &String) -> (m: Option<String>)
    ensures
        opt_text(m) == model_of_answer(output@),
{
    let t = trim_text(output.as_str());
    if t.as_str().is_empty() {
        None
    } else {
        Some(t)
    }
}

} // verus!
