//! The seam between the verified library and the MIDI transport.
//!
//! Device outputs queue the exact byte frames they want on the wire; the
//! transport code outside this crate drains the queue with
//! [`OutputDevice::take_frames`] and sends each frame, and feeds every
//! received frame to the owning device's pure decoder.

use vstd::prelude::*;

use crate::errors::MidiError;
use vstd::string::*;
use vstd::utf8::*;

verus! {

/// An ordered queue of raw MIDI frames waiting for the transport.
pub struct FrameQueue {
    queued: Vec<Vec<u8>>,
}

impl FrameQueue {
    /// The queued frames, oldest first.
    pub closed spec fn frames(&self) -> Seq<Seq<u8>> {
        self.queued.deep_view()
    }

    /// An empty queue.
    pub fn new() -> (q: FrameQueue)
        ensures
            q.frames() == Seq::<Seq<u8>>::empty(),
    {
        let q = FrameQueue { queued: Vec::new() };
        proof {
            assert(q.frames() =~= Seq::<Seq<u8>>::empty());
        }
        q
    }

    /// Append one frame to the queue.
    pub fn push(&mut self, frame: Vec<u8>)
        ensures
            final(self).frames() == old(self).frames().push(frame@),
    {
        let ghost prev = self.queued.deep_view();
        let ghost pushed = frame@;
        proof {
            assert(frame.deep_view() =~= pushed);
        }
        self.queued.push(frame);
        proof {
            assert forall|i: int| 0 <= i < self.queued.deep_view().len() implies self
                .queued
                .deep_view()[i] == prev.push(pushed)[i] by {
                if i < prev.len() {
                    assert(self.queued@[i] == old(self).queued@[i]);
                }
            }
            assert(self.queued.deep_view() =~= prev.push(pushed));
        }
    }

    /// Append one frame to the queue, copying it out of a borrowed slice.
    pub fn push_slice(&mut self, bytes: &[u8])
        ensures
            final(self).frames() == old(self).frames().push(bytes@),
    {
        let mut frame: Vec<u8> = Vec::new();
        let n: usize = bytes.len();
        let mut i: usize = 0;
        while i < n
            invariant
                n == bytes@.len(),
                0 <= i <= n,
                frame@.len() == i,
                forall|k: int| 0 <= k < i ==> frame@[k] == bytes@[k],
            decreases n - i,
        {
            frame.push(bytes[i]);
            i = i + 1;
        }
        proof {
            assert(frame@ =~= bytes@);
        }
        self.push(frame);
    }

    /// Hand every queued frame to the caller, leaving the queue empty.
    pub fn take(&mut self) -> (r: Vec<Vec<u8>>)
        ensures
            final(self).frames() == Seq::<Seq<u8>>::empty(),
            r.deep_view() == old(self).frames(),
    {
        let mut out: Vec<Vec<u8>> = Vec::new();
        std::mem::swap(&mut out, &mut self.queued);
        proof {
            assert(final(self).frames() =~= Seq::<Seq<u8>>::empty());
        }
        out
    }
}

/// The contract a device's output half offers: a connection name, a
/// discovery keyword, and a queue of encoded frames for the transport.
pub trait OutputDevice: Sized {
    /// The frames queued so far, oldest first.
    spec fn frames(&self) -> Seq<Seq<u8>>;

    /// The name under which the transport registers the output connection.
    fn midi_connection_name() -> &'static str;

    /// The substring by which the device's port is discovered.
    fn midi_device_keyword() -> &'static str;

    /// Queue one raw MIDI message, exactly as it should appear on the wire.
    fn send(&mut self, bytes: &[u8]) -> (r: Result<(), MidiError>)
        ensures
            r is Ok,
            final(self).frames() == old(self).frames().push(bytes@),
    ;

    /// Hand every queued frame to the transport, oldest first.
    fn take_frames(&mut self) -> (r: Vec<Vec<u8>>)
        ensures
            final(self).frames() == Seq::<Seq<u8>>::empty(),
            r.deep_view() == old(self).frames(),
    ;
}

/// The contract a device's input half offers: a connection name, a
/// discovery keyword, and a pure decoder from raw bytes to the device's
/// message type. Frames the decoder does not recognize decode to nothing.
pub trait InputDevice {
    type Message;

    /// The name under which the transport registers the input connection.
    fn midi_connection_name() -> &'static str;

    /// The substring by which the device's port is discovered.
    fn midi_device_keyword() -> &'static str;

    /// Decode one raw MIDI frame into a device message.
    fn decode_message(timestamp: u64, data: &[u8]) -> Option<Self::Message>;
}

/// Whether `needle` occurs as a contiguous run inside `haystack`,
/// starting at `start`.
pub open spec fn matches_at(haystack: Seq<u8>, needle: Seq<u8>, start: int) -> bool {
    0 <= start && start + needle.len() <= haystack.len() && haystack.subrange(
        start,
        start + needle.len() as int,
    ) == needle
}

/// Whether `needle` occurs as a contiguous run anywhere inside `haystack`.
pub open spec fn contains_bytes(haystack: Seq<u8>, needle: Seq<u8>) -> bool {
    exists|start: int| matches_at(haystack, needle, start)
}

/// Whether the byte run `needle` starts at `start` in `haystack`.
fn slice_matches_at(haystack: &[u8], needle: &[u8], start: usize) -> (r: bool)
    requires
        start + needle@.len() <= haystack@.len(),
    ensures
        r == matches_at(haystack@, needle@, start as int),
{
    let hlen: usize = haystack.len();
    let nlen: usize = needle.len();
    let mut i: usize = 0;
    while i < nlen
        invariant
            0 <= i <= nlen,
            nlen == needle@.len(),
            hlen == haystack@.len(),
            start + needle@.len() <= haystack@.len(),
            forall|k: int| 0 <= k < i ==> haystack@[start + k] == needle@[k],
        decreases nlen - i,
    {
        if haystack[start + i] != needle[i] {
            proof {
                assert(haystack@.subrange(start as int, start + needle@.len() as int)[i as int]
                    != needle@[i as int]);
            }
            return false;
        }
        i = i + 1;
    }
    proof {
        assert(haystack@.subrange(start as int, start + needle@.len() as int) =~= needle@);
    }
    true
}

/// Whether the byte run `needle` occurs anywhere in `haystack`.
pub fn slice_contains(haystack: &[u8], needle: &[u8]) -> (r: bool)
    ensures
        r == contains_bytes(haystack@, needle@),
{
    if needle.len() > haystack.len() {
        proof {
            assert(forall|start: int| !matches_at(haystack@, needle@, start));
        }
        return false;
    }
    let last: usize = haystack.len() - needle.len();
    let mut start: usize = 0;
    while start < last
        invariant
            last == haystack@.len() - needle@.len(),
            0 <= start <= last,
            forall|k: int| 0 <= k < start ==> !matches_at(haystack@, needle@, k),
        decreases last - start,
    {
        if slice_matches_at(haystack, needle, start) {
            return true;
        }
        start = start + 1;
    }
    if slice_matches_at(haystack, needle, last) {
        return true;
    }
    proof {
        assert(forall|k: int| matches_at(haystack@, needle@, k) ==> 0 <= k <= last);
    }
    false
}

/// Whether the keyword occurs inside the port name, compared byte for byte.
pub fn name_contains_keyword(name: &str, keyword: &str) -> (r: bool)
    ensures
        r == contains_bytes(encode_utf8(name@), encode_utf8(keyword@)),
{
    slice_contains(name.as_bytes(), keyword.as_bytes())
}

/// The index of the first port name that contains the keyword — the
/// port-discovery rule every `guess` operation uses. Scan order is the
/// transport's enumeration order.
pub fn find_matching_port(port_names: &Vec<String>, keyword: &str) -> (r: Option<usize>)
    ensures
        match r {
            Some(i) => 0 <= i < port_names@.len() && contains_bytes(
                encode_utf8(port_names@[i as int]@),
                encode_utf8(keyword@),
            ) && forall|j: int|
                0 <= j < i ==> !contains_bytes(
                    encode_utf8(port_names@[j]@),
                    encode_utf8(keyword@),
                ),
            None => forall|j: int|
                0 <= j < port_names@.len() ==> !contains_bytes(
                    encode_utf8(port_names@[j]@),
                    encode_utf8(keyword@),
                ),
        },
{
    let n = port_names.len();
    let mut i: usize = 0;
    while i < n
        invariant
            n == port_names@.len(),
            0 <= i <= n,
            forall|j: int|
                0 <= j < i ==> !contains_bytes(
                    encode_utf8(port_names@[j]@),
                    encode_utf8(keyword@),
                ),
        decreases n - i,
    {
        if name_contains_keyword(port_names[i].as_str(), keyword) {
            return Some(i);
        }
        i = i + 1;
    }
    None
}

} // verus!
