//! The core of an ICE agent: the candidate model, candidate pairs and their
//! check states, role-conflict resolution, and the rules by which an agent
//! selects and keeps alive a single path between two endpoints.
//!
//! The library decides and never waits: sockets, timers and tasks belong to
//! its caller, who tells the agent what happened and is told what to send.
//!
//! Every function carries a contract over a mathematical model of its data.
//! The contracts are proved, but for those of the few calls into other
//! crates and into the wall clock, which are stated and believed: the
//! checksum of foundations, the decoding and the integrity of STUN messages,
//! and the time.

pub mod agent;
pub mod agent_laws;
pub mod agent_state;
pub mod candidate_base;
pub mod candidate_type;
pub mod checksum;
pub mod clock;
pub mod error;
pub mod gather;
pub mod inbound;
pub mod network_type;
pub mod pair;
pub mod receive;
pub mod role;
pub mod state;
pub mod stun_wire;
pub mod tcp_type;
pub mod text;
pub mod unmarshal;
