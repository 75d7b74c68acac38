//! The DMX interface: its serial settings, and the cache of frames that the
//! interface thread writes out, one frame per address, oldest address first.
use vstd::prelude::*;
use crate::types::{DmxAddress, DmxValue};

verus! {

broadcast use vstd::string::group_string_axioms;

/// Serial settings of the hardware interface.
#[derive(Debug)]
pub struct Interface {
    pub baudrate: usize,
    pub port: String,
}

/// An interface once connection was tried; `fake` where no hardware answered
/// and frames are only echoed.
#[derive(Debug)]
pub struct InterfaceHandle {
    pub interface: Interface,
    pub fake: bool,
}

impl Interface {
    /// 115200 baud on `/dev/ttyACM0`.
    pub fn new() -> (i: Interface)
        ensures
            i.baudrate == 115200,
            i.port@ == "/dev/ttyACM0"@,
    {
        Interface { baudrate: 115200, port: "/dev/ttyACM0".to_string() }
    }

    pub fn baudrate(self, baudrate: usize) -> (i: Interface)
        ensures
            i.baudrate == baudrate,
            i.port == self.port,
    {
        Interface { baudrate, ..self }
    }

    pub fn port(self, port: String) -> (i: Interface)
        ensures
            i.baudrate == self.baudrate,
            i.port == port,
    {
        Interface { port, ..self }
    }

    /// The handle after the port was opened (`Ok`) or could not be, in which
    /// case the interface runs fake (`Err`).
    pub fn connect_with(self, port_opened: bool) -> (r: Result<InterfaceHandle, InterfaceHandle>)
        ensures
            port_opened ==> (r matches Ok(h) && !h.fake && h.interface == self),
            !port_opened ==> (r matches Err(h) && h.fake && h.interface == self),
    {
        if port_opened {
            Ok(InterfaceHandle { interface: self, fake: false })
        } else {
            Err(InterfaceHandle { interface: self, fake: true })
        }
    }
}

impl InterfaceHandle {
    /// Gives the interface settings back once the port is closed.
    pub fn disconnect(self) -> (i: Interface)
        ensures
            i == self.interface,
    {
        self.interface
    }
}

/// A frame: an address and the level to write there.
pub type DmxTouple = (DmxAddress, DmxValue);

/// The cache after `elem` is recorded: the frame for the same address is
/// replaced in place, or `elem` queued at the end.
pub open spec fn spec_insert_frame(cache: Seq<DmxTouple>, elem: DmxTouple) -> Seq<DmxTouple> {
    if exists|i: int| 0 <= i < cache.len() && (#[trigger] cache[i]).0 == elem.0 {
        let i = choose|i: int| 0 <= i < cache.len() && (#[trigger] cache[i]).0 == elem.0 && forall|j: int|
            0 <= j < i ==> (#[trigger] cache[j]).0 != elem.0;
        cache.update(i, elem)
    } else {
        cache.push(elem)
    }
}

/// Whether no address occurs twice in the cache.
pub open spec fn distinct_addresses(cache: Seq<DmxTouple>) -> bool {
    forall|i: int, j: int| 0 <= i < j < cache.len() ==> (#[trigger] cache[i]).0 != (#[trigger] cache[j]).0
}

/// Records `elem` in the cache (see `spec_insert_frame`).
pub fn insert_to_vector(cache: &mut Vec<DmxTouple>, elem: DmxTouple)
    ensures
        final(cache)@ == spec_insert_frame(old(cache)@, elem),
{
    let mut i: usize = 0;
    while i < cache.len() && cache[i].0 != elem.0
        invariant
            i <= cache@.len(),
            cache@ == old(cache)@,
            forall|j: int| 0 <= j < i ==> (#[trigger] cache@[j]).0 != elem.0,
        decreases cache@.len() - i,
    {
        i = i + 1;
    }
    if i < cache.len() {
        proof {
            let s = old(cache)@;
            let k = choose|k: int| 0 <= k < s.len() && (#[trigger] s[k]).0 == elem.0 && forall|j: int|
                0 <= j < k ==> (#[trigger] s[j]).0 != elem.0;
            assert(0 <= k < s.len() && s[k].0 == elem.0 && forall|j: int| 0 <= j < k ==> (#[trigger] s[j]).0 != elem.0) by {
                assert(s[i as int].0 == elem.0);
            }
            if k < i {
                assert(s[k].0 != elem.0);
            }
            if k > i {
                assert(s[i as int].0 != elem.0);
            }
        }
        cache.set(i, elem);
    } else {
        cache.push(elem);
    }
}

/// Takes the oldest frame out of the cache.
pub fn next_frame(cache: &mut Vec<DmxTouple>) -> (f: Option<DmxTouple>)
    ensures
        old(cache)@.len() == 0 ==> f is None && final(cache)@ == old(cache)@,
        old(cache)@.len() > 0 ==> f == Some(old(cache)@[0]) && final(cache)@ == old(cache)@.drop_first(),
{
    if cache.len() == 0 {
        None
    } else {
        Some(cache.remove(0))
    }
}

/// Recording a frame keeps one frame per address; afterwards the frame for
/// its address holds its level, and the frames for other addresses are kept
/// in their order.
pub proof fn lemma_insert_frame(cache: Seq<DmxTouple>, elem: DmxTouple)
    requires
        distinct_addresses(cache),
    ensures
        distinct_addresses(spec_insert_frame(cache, elem)),
        spec_insert_frame(cache, elem).contains(elem),
        spec_insert_frame(cache, elem).len() <= cache.len() + 1,
        forall|i: int|
            0 <= i < cache.len() && cache[i].0 != elem.0 ==> #[trigger] spec_insert_frame(cache, elem)[i] == cache[i],
{
    let r = spec_insert_frame(cache, elem);
    if exists|i: int| 0 <= i < cache.len() && (#[trigger] cache[i]).0 == elem.0 {
        let i = choose|i: int| 0 <= i < cache.len() && (#[trigger] cache[i]).0 == elem.0 && forall|j: int|
            0 <= j < i ==> (#[trigger] cache[j]).0 != elem.0;
        let w = choose|w: int| 0 <= w < cache.len() && (#[trigger] cache[w]).0 == elem.0;
        assert(0 <= i < cache.len() && cache[i].0 == elem.0) by {
            assert forall|j: int| 0 <= j < w implies (#[trigger] cache[j]).0 != elem.0 by {
                assert(cache[j].0 != cache[w].0);
            }
        }
        assert(r[i] == elem);
    } else {
        assert(r[cache.len() as int] == elem);
    }
}

/// Each frame after recording `elem` is `elem`, or a frame of another
/// address that was there at the same place before.
proof fn lemma_insert_frame_shape(cache: Seq<DmxTouple>, elem: DmxTouple)
    requires
        distinct_addresses(cache),
    ensures
        forall|j: int|
            0 <= j < spec_insert_frame(cache, elem).len() ==> (#[trigger] spec_insert_frame(cache, elem)[j] == elem)
                || (j < cache.len() && spec_insert_frame(cache, elem)[j] == cache[j] && cache[j].0 != elem.0),
{
    let r = spec_insert_frame(cache, elem);
    if exists|i: int| 0 <= i < cache.len() && (#[trigger] cache[i]).0 == elem.0 {
        let i = choose|i: int| 0 <= i < cache.len() && (#[trigger] cache[i]).0 == elem.0 && forall|j: int|
            0 <= j < i ==> (#[trigger] cache[j]).0 != elem.0;
        let w = choose|w: int| 0 <= w < cache.len() && (#[trigger] cache[w]).0 == elem.0;
        assert(0 <= i < cache.len() && cache[i].0 == elem.0) by {
            assert forall|j: int| 0 <= j < w implies (#[trigger] cache[j]).0 != elem.0 by {
                assert(cache[j].0 != cache[w].0);
            }
        }
        assert forall|j: int| 0 <= j < r.len() && j != i implies #[trigger] r[j] == cache[j] && cache[j].0 != elem.0 by {
            if j < i {
                assert(cache[j].0 != cache[i].0);
            } else {
                assert(cache[i].0 != cache[j].0);
            }
        }
    }
}

/// What the interface thread does, one event at a time: a frame received
/// (`Some`), or a turn to write (`None`), which writes the oldest cached
/// frame where there is one.
pub open spec fn spec_interface_run(events: Seq<Option<DmxTouple>>) -> (Seq<DmxTouple>, Seq<DmxTouple>)
    decreases events.len(),
{
    if events.len() == 0 {
        (Seq::empty(), Seq::empty())
    } else {
        let (cache, written) = spec_interface_run(events.drop_last());
        match events.last() {
            Some(e) => (spec_insert_frame(cache, e), written),
            None => if cache.len() == 0 {
                (cache, written)
            } else {
                (cache.drop_first(), written.push(cache[0]))
            },
        }
    }
}

/// The level last received for `address`.
pub open spec fn spec_latest(events: Seq<Option<DmxTouple>>, address: DmxAddress) -> Option<DmxValue>
    decreases events.len(),
{
    if events.len() == 0 {
        None
    } else {
        match events.last() {
            Some(e) => if e.0 == address {
                Some(e.1)
            } else {
                spec_latest(events.drop_last(), address)
            },
            None => spec_latest(events.drop_last(), address),
        }
    }
}

/// How many frames were received.
pub open spec fn spec_received(events: Seq<Option<DmxTouple>>) -> nat
    decreases events.len(),
{
    if events.len() == 0 {
        0
    } else {
        spec_received(events.drop_last()) + if events.last() is Some { 1nat } else { 0nat }
    }
}

/// The interface thread keeps one frame per address, each holding the level
/// last received for its address; every frame it writes holds the level last
/// received for its address before the write; and it writes no more frames
/// than it received.
pub proof fn lemma_interface_run(events: Seq<Option<DmxTouple>>)
    ensures
        ({
            let (cache, written) = spec_interface_run(events);
            &&& distinct_addresses(cache)
            &&& forall|i: int| 0 <= i < cache.len() ==> spec_latest(events, (#[trigger] cache[i]).0) == Some(cache[i].1)
            &&& written.len() + cache.len() <= spec_received(events)
        }),
        events.len() > 0 && events.last() is None && spec_interface_run(events.drop_last()).0.len() > 0 ==> {
            let f = spec_interface_run(events).1.last();
            spec_latest(events.drop_last(), f.0) == Some(f.1)
        },
    decreases events.len(),
{
    if events.len() > 0 {
        let prev = events.drop_last();
        lemma_interface_run(prev);
        let (c, w) = spec_interface_run(prev);
        match events.last() {
            Some(e) => {
                lemma_insert_frame(c, e);
                lemma_insert_frame_shape(c, e);
                let nc = spec_insert_frame(c, e);
                assert forall|i: int| 0 <= i < nc.len() implies spec_latest(events, (#[trigger] nc[i]).0) == Some(nc[i].1) by {
                    if nc[i] != e {
                        assert(nc[i] == c[i]);
                    }
                }
            },
            None => {
                if c.len() > 0 {
                    let nc = c.drop_first();
                    assert forall|i: int, j: int| 0 <= i < j < nc.len() implies (#[trigger] nc[i]).0 != (#[trigger] nc[j]).0 by {
                        assert(c[i + 1].0 != c[j + 1].0);
                    }
                    assert forall|i: int| 0 <= i < nc.len() implies spec_latest(events, (#[trigger] nc[i]).0) == Some(nc[i].1) by {
                        assert(nc[i] == c[i + 1]);
                    }
                    assert(spec_latest(prev, c[0].0) == Some(c[0].1));
                }
            },
        }
    }
}

} // verus!
