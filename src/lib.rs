//! A discrete-event simulator of ARQ link-layer protocols (stop-and-wait and
//! sliding window with cumulative acknowledgment) over one point-to-point link.

pub mod address;
pub mod datacounter;
pub mod event;
pub mod link;
pub mod lossless;
pub mod network;
pub mod packet;
pub mod run;
pub mod simulator;
pub mod terminal;
pub mod time;

pub use address::{LinkAddress, TerminalAddress};
pub use datacounter::DataCounter;
pub use packet::Packet;
pub use time::{Time, PICOS_PER_SEC};
pub use event::{Event, EventKind, Target};
pub use link::{AttachedLink, Link};
pub use terminal::{AttachedNode, AttachedTerminal, Node, Terminal};
pub use network::Network;
pub use simulator::Simulator;
