//! The bridge's bring-up, as a chain of phases.
//!
//! Each phase is its own type and each transition consumes the bridge in the
//! phase before, so no phase can be re-entered. Every phase lists the driver
//! steps that its caller performs, in order, when the bridge enters it:
//!
//! - `Idle`: listen on the wired port for the client's first frame.
//! - `EthReady`: the client's address is known; stop listening and accept
//!   every frame on the wired port.
//! - `WifiReady`: the wireless interface carries the client's address.
//! - `Running`: frames are relayed both ways while stored networks are
//!   tried in order until one links.

use crate::connect::{Connector, Credential, PollStep};
use crate::identity::{SniffError, Sniffer};
use vstd::prelude::*;

verus! {

/// A driver operation that the bridge asks its caller to perform.
#[derive(Debug, Clone, Copy, PartialEq, Eq)]
pub enum SetupStep {
    /// Register the address-capturing receive handler on the wired port.
    SniffDownstream,
    /// Start the wired interface.
    StartDownstream,
    /// Remove the wired port's receive handler.
    ClearDownstreamReceive,
    /// Let the wired port accept frames addressed to any hardware address.
    EnableDownstreamPromiscuous,
    /// Give the wireless interface this station address; done before it is
    /// first started.
    SetUpstreamIdentity([u8; 6]),
    /// Register on each interface the handler that relays its frames to the
    /// other.
    InstallRelay,
    /// Configure the wireless interface as a client of the stored network at
    /// this position of the list.
    ConfigureUpstream(usize),
    /// Start the wireless interface.
    StartUpstream,
    /// Ask the wireless interface to join the configured network.
    ConnectUpstream,
    /// Stop the wireless interface after an attempt that did not link.
    StopUpstream,
}

/// The bridge in phase `S`.
pub struct Bridge<S> {
    state: S,
}

/// Waiting for the wired client's first frame.
pub struct Idle {
    sniffer: Sniffer,
}

/// The client's address is captured and the wired port is promiscuous.
pub struct EthReady {
    client_mac: [u8; 6],
}

/// The wireless interface carries the client's address and is not started.
pub struct WifiReady {
    client_mac: [u8; 6],
}

/// Frames are relayed; the stored networks are tried in order.
pub struct Running {
    client_mac: [u8; 6],
    connector: Connector,
}

/// Steps on entering `Idle`.
pub open spec fn idle_steps() -> Seq<SetupStep> {
    seq![SetupStep::SniffDownstream, SetupStep::StartDownstream]
}

/// Steps on entering `EthReady`: the capturing handler goes before the port
/// becomes promiscuous.
pub open spec fn eth_ready_steps() -> Seq<SetupStep> {
    seq![SetupStep::ClearDownstreamReceive, SetupStep::EnableDownstreamPromiscuous]
}

/// Steps on entering `WifiReady`.
pub open spec fn wifi_ready_steps(mac: [u8; 6]) -> Seq<SetupStep> {
    seq![SetupStep::SetUpstreamIdentity(mac)]
}

/// Steps on entering `Running`, before the first network is tried.
pub open spec fn running_steps() -> Seq<SetupStep> {
    seq![SetupStep::InstallRelay, SetupStep::StartDownstream]
}

/// Steps of one attempt to join the stored network at position `i`; the
/// link is then awaited by polling.
pub open spec fn attempt_steps(i: usize) -> Seq<SetupStep> {
    seq![SetupStep::ConfigureUpstream(i), SetupStep::StartUpstream, SetupStep::ConnectUpstream]
}

/// Steps after an attempt that ran out of polls.
pub open spec fn abandon_steps() -> Seq<SetupStep> {
    seq![SetupStep::StopUpstream]
}

/// The steps from power-up to the first attempt to join a network, which is
/// made with the entry at position `i`.
pub open spec fn bring_up_steps(mac: [u8; 6], i: usize) -> Seq<SetupStep> {
    idle_steps() + eth_ready_steps() + wifi_ready_steps(mac) + running_steps() + attempt_steps(i)
}

/// Order of the bring-up: the wired port is not made promiscuous while the
/// address is being captured, only after the capturing handler is removed;
/// and the wireless interface takes the client's address before it is first
/// started.
pub proof fn lemma_bring_up_order(mac: [u8; 6], i: usize)
    ensures
        forall|k: int|
            0 <= k < idle_steps().len() ==> #[trigger] bring_up_steps(mac, i)[k]
                != SetupStep::EnableDownstreamPromiscuous,
        bring_up_steps(mac, i)[2] == SetupStep::ClearDownstreamReceive,
        bring_up_steps(mac, i)[3] == SetupStep::EnableDownstreamPromiscuous,
        forall|k: int|
            0 <= k < 3 ==> #[trigger] bring_up_steps(mac, i)[k]
                != SetupStep::EnableDownstreamPromiscuous,
        bring_up_steps(mac, i)[4] == SetupStep::SetUpstreamIdentity(mac),
        forall|k: int|
            0 <= k <= 4 ==> #[trigger] bring_up_steps(mac, i)[k] != SetupStep::StartUpstream,
        bring_up_steps(mac, i)[8] == SetupStep::StartUpstream,
{
    let steps = bring_up_steps(mac, i);
    assert(steps =~= seq![
        SetupStep::SniffDownstream,
        SetupStep::StartDownstream,
        SetupStep::ClearDownstreamReceive,
        SetupStep::EnableDownstreamPromiscuous,
        SetupStep::SetUpstreamIdentity(mac),
        SetupStep::InstallRelay,
        SetupStep::StartDownstream,
        SetupStep::ConfigureUpstream(i),
        SetupStep::StartUpstream,
        SetupStep::ConnectUpstream,
    ]);
}

impl Bridge<Idle> {
    /// The address captured so far.
    pub closed spec fn captured(&self) -> Option<Seq<u8>> {
        self.state.sniffer.captured()
    }

    /// A bridge that has seen no frame yet.
    pub fn new() -> (r: Self)
        ensures
            r.captured() is None,
    {
        Bridge { state: Idle { sniffer: Sniffer::new() } }
    }

    /// The steps that put the bridge in this phase.
    pub fn setup_steps(&self) -> (r: Vec<SetupStep>)
        ensures
            r@ == idle_steps(),
    {
        let r = vec![SetupStep::SniffDownstream, SetupStep::StartDownstream];
        assert(r@ =~= idle_steps());
        r
    }

    /// Offers a frame received on the wired port; see `Sniffer::offer`.
    pub fn sniff(&mut self, frame: &[u8]) -> (r: Result<bool, SniffError>)
        ensures
            final(self).captured() == crate::identity::after_offer(old(self).captured(), frame@),
            frame@.len() < crate::identity::MIN_FRAME_LEN ==> r == Err::<bool, SniffError>(
                SniffError::FrameTooShort,
            ),
            frame@.len() >= crate::identity::MIN_FRAME_LEN ==> r == Ok::<bool, SniffError>(
                old(self).captured() is None,
            ),
    {
        self.state.sniffer.offer(frame)
    }

    /// The captured address, if any.
    pub fn identity(&self) -> (r: Option<[u8; 6]>)
        ensures
            r is Some <==> self.captured() is Some,
            r matches Some(mac) ==> self.captured() == Some(mac@),
    {
        self.state.sniffer.identity()
    }

    /// Ends the capture. This succeeds exactly when an address is captured;
    /// otherwise the bridge comes back unchanged, still listening. Only this
    /// transition leads to the phase that makes the wired port promiscuous.
    pub fn into_eth_ready(self) -> (r: Result<Bridge<EthReady>, Bridge<Idle>>)
        ensures
            r is Ok <==> self.captured() is Some,
            r matches Ok(b) ==> self.captured() == Some(b.client_mac_spec()@),
            r matches Err(b) ==> b.captured() == self.captured(),
    {
        match self.state.sniffer.identity() {
            Some(mac) => Ok(Bridge { state: EthReady { client_mac: mac } }),
            None => Err(self),
        }
    }
}

impl Bridge<EthReady> {
    /// The captured client address.
    pub closed spec fn client_mac_spec(&self) -> [u8; 6] {
        self.state.client_mac
    }

    /// The captured client address.
    pub fn client_mac(&self) -> (r: [u8; 6])
        ensures
            r == self.client_mac_spec(),
    {
        self.state.client_mac
    }

    /// The steps that put the bridge in this phase.
    pub fn setup_steps(&self) -> (r: Vec<SetupStep>)
        ensures
            r@ == eth_ready_steps(),
    {
        let r = vec![SetupStep::ClearDownstreamReceive, SetupStep::EnableDownstreamPromiscuous];
        assert(r@ =~= eth_ready_steps());
        r
    }

    /// Moves on to preparing the wireless interface.
    pub fn into_wifi_ready(self) -> (r: Bridge<WifiReady>)
        ensures
            r.client_mac_spec() == self.client_mac_spec(),
    {
        Bridge { state: WifiReady { client_mac: self.state.client_mac } }
    }
}

impl Bridge<WifiReady> {
    /// The client address the wireless interface carries.
    pub closed spec fn client_mac_spec(&self) -> [u8; 6] {
        self.state.client_mac
    }

    /// The client address the wireless interface carries.
    pub fn client_mac(&self) -> (r: [u8; 6])
        ensures
            r == self.client_mac_spec(),
    {
        self.state.client_mac
    }

    /// The steps that put the bridge in this phase: the wireless interface
    /// takes the client's address before anything starts it.
    pub fn setup_steps(&self) -> (r: Vec<SetupStep>)
        ensures
            r@ == wifi_ready_steps(self.client_mac_spec()),
    {
        let r = vec![SetupStep::SetUpstreamIdentity(self.state.client_mac)];
        assert(r@ =~= wifi_ready_steps(self.client_mac_spec()));
        r
    }

    /// Starts relaying, with the stored networks to try, in order.
    pub fn into_running(self, credentials: Vec<Credential>) -> (r: Bridge<Running>)
        ensures
            r.wf(),
            r.client_mac_spec() == self.client_mac_spec(),
            r.connector().credentials() == credentials@,
            r.connector().cursor() == 0,
            r.connector().current() is None,
            r.connector().polls() == 0,
            !r.connector().linked(),
            r.connector().attempted() == Seq::<int>::empty(),
    {
        Bridge {
            state: Running { client_mac: self.state.client_mac, connector: Connector::new(credentials) },
        }
    }
}

impl Bridge<Running> {
    /// The client address the bridge stands for.
    pub closed spec fn client_mac_spec(&self) -> [u8; 6] {
        self.state.client_mac
    }

    /// The state of the search for a network.
    pub closed spec fn connector(&self) -> Connector {
        self.state.connector
    }

    pub open spec fn wf(&self) -> bool {
        self.connector().wf()
    }

    /// The client address the bridge stands for.
    pub fn client_mac(&self) -> (r: [u8; 6])
        ensures
            r == self.client_mac_spec(),
    {
        self.state.client_mac
    }

    /// The steps that put the bridge in this phase, before the first network
    /// is tried.
    pub fn setup_steps(&self) -> (r: Vec<SetupStep>)
        ensures
            r@ == running_steps(),
    {
        let r = vec![SetupStep::InstallRelay, SetupStep::StartDownstream];
        assert(r@ =~= running_steps());
        r
    }

    /// The stored entry at position `i`.
    pub fn credential(&self, i: usize) -> (r: &Credential)
        requires
            i < self.connector().credentials().len(),
        ensures
            *r == self.connector().credentials()[i as int],
    {
        self.state.connector.credential(i)
    }

    /// Starts the next attempt; see `Connector::next_attempt`. `None` means
    /// that every usable entry was tried and none linked.
    pub fn next_attempt(&mut self) -> (r: Option<usize>)
        requires
            old(self).wf(),
            !old(self).connector().linked(),
        ensures
            final(self).wf(),
            final(self).client_mac_spec() == old(self).client_mac_spec(),
            final(self).connector().credentials() == old(self).connector().credentials(),
            !final(self).connector().linked(),
            final(self).connector().polls() == 0,
            final(self).connector().current() == r,
            match r {
                Some(i) => {
                    &&& old(self).connector().cursor() <= i < old(
                        self,
                    ).connector().credentials().len()
                    &&& crate::connect::usable(old(self).connector().credentials()[i as int])
                    &&& forall|j: int|
                        old(self).connector().cursor() <= j < i ==> !crate::connect::usable(
                            #[trigger] old(self).connector().credentials()[j],
                        )
                    &&& final(self).connector().cursor() == i + 1
                    &&& final(self).connector().attempted() == old(
                        self,
                    ).connector().attempted().push(i as int)
                },
                None => {
                    &&& final(self).connector().cursor() == old(
                        self,
                    ).connector().credentials().len()
                    &&& final(self).connector().attempted() == old(
                        self,
                    ).connector().attempted()
                    &&& final(self).connector().attempted() == crate::connect::usable_indices(
                        old(self).connector().credentials(),
                    )
                },
            },
    {
        self.state.connector.next_attempt()
    }

    /// The steps of one attempt to join the stored network at position `i`.
    pub fn attempt_steps(&self, i: usize) -> (r: Vec<SetupStep>)
        ensures
            r@ == attempt_steps(i),
    {
        let r = vec![SetupStep::ConfigureUpstream(i), SetupStep::StartUpstream, SetupStep::ConnectUpstream];
        assert(r@ =~= attempt_steps(i));
        r
    }

    /// The steps after an attempt that ran out of polls.
    pub fn abandon_steps(&self) -> (r: Vec<SetupStep>)
        ensures
            r@ == abandon_steps(),
    {
        let r = vec![SetupStep::StopUpstream];
        assert(r@ =~= abandon_steps());
        r
    }

    /// Records one status poll of the current attempt; see `Connector::poll`.
    pub fn poll(&mut self, connected: bool) -> (r: PollStep)
        requires
            old(self).wf(),
            old(self).connector().current() is Some,
            !old(self).connector().linked(),
        ensures
            final(self).wf(),
            final(self).client_mac_spec() == old(self).client_mac_spec(),
            final(self).connector().credentials() == old(self).connector().credentials(),
            final(self).connector().cursor() == old(self).connector().cursor(),
            connected ==> {
                &&& r == PollStep::Connected
                &&& final(self).connector().linked()
                &&& final(self).connector().current() == old(self).connector().current()
            },
            !connected && old(self).connector().polls() + 1 < crate::connect::MAX_POLLS ==> {
                &&& r == PollStep::Wait
                &&& !final(self).connector().linked()
                &&& final(self).connector().current() == old(self).connector().current()
                &&& final(self).connector().polls() == old(self).connector().polls() + 1
            },
            !connected && old(self).connector().polls() + 1 == crate::connect::MAX_POLLS ==> {
                &&& r == PollStep::TimedOut
                &&& !final(self).connector().linked()
                &&& final(self).connector().current() is None
                &&& final(self).connector().polls() == 0
            },
    {
        self.state.connector.poll(connected)
    }

    /// Whether a network linked.
    pub fn is_linked(&self) -> (r: bool)
        ensures
            r == self.connector().linked(),
    {
        self.state.connector.is_linked()
    }
}

} // verus!
