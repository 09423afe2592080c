//! Transparent link-layer bridge between a wired downstream port and a
//! wireless upstream link.
//!
//! The library holds the bridge's decisions: which hardware address is
//! cloned from the wired client, in which order the two interfaces are set
//! up, which stored network is tried next, and whether a received frame is
//! forwarded to the peer interface. The driver calls themselves are made by
//! the program that embeds it.

pub mod bridge;
pub mod connect;
pub mod identity;
pub mod relay;

pub use bridge::{Bridge, EthReady, Idle, Running, SetupStep, WifiReady};
pub use connect::{Connector, Credential, PollStep, MAX_POLLS, POLL_INTERVAL_MS};
pub use identity::{mac2str, source_address, SniffError, Sniffer};
pub use relay::{peer, relay_frame, Port, RelayAction};
