//! Frame relay between the two interfaces.
//!
//! Each interface's receive handler hands every frame to the other one, its
//! peer, when the peer reports a live link, and drops the frame otherwise.
//! Frames are passed on byte for byte and never queued.

use vstd::prelude::*;
use vstd::slice::slice_to_vec;

verus! {

/// One of the bridge's two interfaces.
#[derive(Debug, Clone, Copy, PartialEq, Eq, Structural)]
pub enum Port {
    /// The wired side, facing the cloned client.
    Downstream,
    /// The wireless side, facing the wider network.
    Upstream,
}

/// The interface that frames received on `p` are handed to.
pub open spec fn peer_of(p: Port) -> Port {
    match p {
        Port::Downstream => Port::Upstream,
        Port::Upstream => Port::Downstream,
    }
}

/// The interface that frames received on `p` are handed to.
pub fn peer(p: Port) -> (r: Port)
    ensures
        r == peer_of(p),
{
    match p {
        Port::Downstream => Port::Upstream,
        Port::Upstream => Port::Downstream,
    }
}

/// What to do with one received frame.
#[derive(Debug, PartialEq, Eq)]
pub enum RelayAction {
    /// Send these bytes on this interface, once.
    Send(Port, Vec<u8>),
    /// Drop the frame: the peer has no link.
    Drop,
}

/// The sends that an action asks for, as (interface, bytes) pairs.
pub open spec fn action_sends(a: RelayAction) -> Seq<(Port, Seq<u8>)> {
    match a {
        RelayAction::Send(p, bytes) => seq![(p, bytes@)],
        RelayAction::Drop => Seq::empty(),
    }
}

/// The sends owed for a frame received on `from`: one send of the same bytes
/// to the peer when the peer's link is up, none when it is down.
pub open spec fn relay_sends(from: Port, peer_connected: bool, frame: Seq<u8>) -> Seq<(Port, Seq<u8>)> {
    if peer_connected {
        seq![(peer_of(from), frame)]
    } else {
        Seq::empty()
    }
}

/// Decides what happens to a frame received on `from`, given whether the peer
/// interface reports a live link at this moment.
pub fn relay_frame(from: Port, peer_connected: bool, frame: &[u8]) -> (r: RelayAction)
    ensures
        peer_connected ==> (r matches RelayAction::Send(to, bytes) && to == peer_of(from) && bytes@
            == frame@),
        !peer_connected ==> r is Drop,
        action_sends(r) == relay_sends(from, peer_connected, frame@),
{
    if peer_connected {
        let bytes = slice_to_vec(frame);
        RelayAction::Send(peer(from), bytes)
    } else {
        RelayAction::Drop
    }
}

/// One frame delivery: the interface it arrived on, whether the peer's link
/// was up at that moment, and the frame's bytes.
pub type Delivery = (Port, bool, Seq<u8>);

/// Every send made while relaying a run of deliveries, in order.
pub open spec fn relay_trace(ds: Seq<Delivery>) -> Seq<(Port, Seq<u8>)>
    decreases ds.len(),
{
    if ds.len() == 0 {
        Seq::empty()
    } else {
        let d = ds.last();
        relay_trace(ds.drop_last()) + relay_sends(d.0, d.1, d.2)
    }
}

/// Whether the peer's link was up for a delivery.
pub open spec fn delivered_while_connected() -> spec_fn(Delivery) -> bool {
    |d: Delivery| d.1
}

/// Over any run of deliveries, the relay sends exactly the frames that arrived
/// while the peer's link was up, each once, byte for byte, to the peer of the
/// interface it arrived on, and in arrival order; a frame that arrived while
/// the peer's link was down causes no send.
pub proof fn lemma_relay_forwards_exactly_connected(ds: Seq<Delivery>)
    ensures
        relay_trace(ds) == ds.filter(delivered_while_connected()).map_values(
            |d: Delivery| (peer_of(d.0), d.2),
        ),
    decreases ds.len(),
{
    reveal(Seq::filter);
    if ds.len() > 0 {
        lemma_relay_forwards_exactly_connected(ds.drop_last());
        let f = |d: Delivery| (peer_of(d.0), d.2);
        let kept = ds.drop_last().filter(delivered_while_connected());
        if ds.last().1 {
            assert(kept.push(ds.last()).map_values(f) =~= kept.map_values(f).push(f(ds.last())));
        }
        assert(relay_trace(ds) =~= ds.filter(delivered_while_connected()).map_values(f));
    }
}

} // verus!
