//! Verified core of a browser playground for ergot networks: the in-memory
//! byte pipe, the bounded event logs, frame-tap labelling, node status and
//! link validation rules, link impairment decisions, the membership of a
//! shared packet bus, and the lease-refresh state machines that keep bridge
//! and bus addresses alive.

pub mod bus;
pub mod counter;
pub mod impairment;
pub mod lease;
pub mod link;
pub mod node;
pub mod pipe;
pub mod registry;
pub mod ring;
pub mod seqs;
pub mod tap;
pub mod text;
pub mod transport;

pub use bus::BusState;
pub use counter::IdCounter;
pub use impairment::{should_drop, unit_fate, ImpairmentSettings, UnitFate, MAX_LATENCY_MS, MAX_LOSS_PCT};
pub use lease::{
    claim_candidates, BusClaimer, ClaimAction, ClaimEvent, ClaimPhase, Lease, SeedEvent, SeedLeaser, SeedPhase,
    CLAIM_RETRY_MS, MAX_REFRESH_FAILURES, REFRESH_RETRY_S, SEED_RETRY_MAX_MS, SEED_RETRY_START_MS,
};
pub use link::{check_attach_edge, check_attach_router, check_connect, child_uplink_state, LinkError};
pub use node::{
    node_status, ping_timeout_message, ping_timeout_ms, uplink_free, uplink_kind, IfaceState,
    LinkKind, NodeProfile, NodeStatus, DEFAULT_PING_TIMEOUT_MS,
};
pub use pipe::{pipe, PipeInner, PipeReader, PipeWriter, ReadPoll, WritePoll};
pub use registry::{LinkRegistry, LinkTeardown};
pub use ring::BoundedLog;
pub use tap::{owns_binding, record_frame, release_binding, FrameHeader, FrameRecord, TapBinding};
pub use text::{decimal_string, fmt_addr, kind_name, Address};
pub use transport::{accept_frame, settle_send, ChannelTx, Delivery, LinkClosed};
