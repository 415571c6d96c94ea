//! The rules of the node API: which nodes may be linked to which, what a
//! node reports as its status, and the defaults and limits of the knobs.

use vstd::prelude::*;
use crate::seqs::{lemma_without_contains, without};

verus! {

/// Which ergot profile a node runs.
#[derive(Clone, Copy, PartialEq, Eq, Debug, Structural)]
pub enum NodeProfile {
    /// Router profile: many downlinks, each assigned its own network id.
    Router,
    /// Router profile in bridge mode: one uplink, downlinks get network ids
    /// leased from the upstream seed router.
    Bridge,
    /// DirectEdge target: a single uplink to a router.
    Edge,
}

/// The transport flavor of a link.
#[derive(Clone, Copy, PartialEq, Eq, Debug, Structural)]
pub enum LinkKind {
    /// Byte stream with COBS framing in software (serial/TCP-like).
    Stream,
    /// Message channel where one message is one frame (UDP/USB-like).
    Packet,
}

/// The state of one interface, as plain values.
#[derive(Clone, Copy, PartialEq, Eq, Debug, Structural)]
pub enum IfaceState {
    Down,
    Inactive,
    Active { net_id: u16, node_id: u8 },
}

/// Current state of a node, for display on the canvas.
pub enum NodeStatus {
    /// Router: the network ids of its active downlinks.
    Router { nets: Vec<u16> },
    /// Bridge: uplink state plus the seed-leased downlink network ids.
    Bridge { upstream: String, upstream_net_id: Option<u16>, nets: Vec<u16> },
    /// Edge: the state of its single uplink.
    Edge { status: String, net_id: Option<u16>, node_id: Option<u8> },
}

/// The uplink kind of a new node: the one asked for, else a stream.
pub fn uplink_kind(requested: Option<LinkKind>) -> (k: LinkKind)
    ensures
        k == match requested {
            Some(r) => r,
            None => LinkKind::Stream,
        },
{
    match requested {
        Some(r) => r,
        None => LinkKind::Stream,
    }
}

/// Can a node accept a new uplink? Routers have none; a bridge or edge can
/// when its uplink interface is down or not registered.
pub open spec fn spec_uplink_free(profile: NodeProfile, uplink: Option<IfaceState>) -> bool {
    match profile {
        NodeProfile::Router => false,
        _ => match uplink {
            None => true,
            Some(IfaceState::Down) => true,
            Some(_) => false,
        },
    }
}

pub fn uplink_free(profile: NodeProfile, uplink: Option<IfaceState>) -> (free: bool)
    ensures
        free == spec_uplink_free(profile, uplink),
{
    match profile {
        NodeProfile::Router => false,
        _ => match uplink {
            None => true,
            Some(IfaceState::Down) => true,
            Some(_) => false,
        },
    }
}

/// The display word of an uplink state.
pub open spec fn state_word(state: Option<IfaceState>) -> Seq<char> {
    match state {
        Some(IfaceState::Active { .. }) => "active"@,
        Some(IfaceState::Inactive) => "inactive"@,
        _ => "down"@,
    }
}

fn state_string(state: Option<IfaceState>) -> (s: String)
    ensures
        s@ == state_word(state),
{
    match state {
        Some(IfaceState::Active { .. }) => String::from_str("active"),
        Some(IfaceState::Inactive) => String::from_str("inactive"),
        _ => String::from_str("down"),
    }
}

fn remove_net(nets: Vec<u16>, x: u16) -> (out: Vec<u16>)
    ensures
        out@ == without(nets@, x),
{
    let mut out: Vec<u16> = Vec::new();
    let mut i: usize = 0;
    while i < nets.len()
        invariant
            i <= nets@.len(),
            out@ == without(nets@.take(i as int), x),
        decreases nets@.len() - i,
    {
        proof {
            assert(nets@.take(i + 1).drop_last() =~= nets@.take(i as int));
        }
        if nets[i] != x {
            out.push(nets[i]);
        }
        i = i + 1;
    }
    proof {
        assert(nets@.take(nets@.len() as int) =~= nets@);
    }
    out
}

/// The uplink network id an uplink state reports.
pub open spec fn state_net(state: Option<IfaceState>) -> Option<u16> {
    match state {
        Some(IfaceState::Active { net_id, .. }) => Some(net_id),
        _ => None,
    }
}

/// The status a node reports, from its profile, its uplink state (bridge and
/// edge) and the network ids of its interfaces (router and bridge). A bridge
/// lists its downlink nets only: the uplink's own net is left out.
pub open spec fn status_matches(
    s: NodeStatus,
    profile: NodeProfile,
    uplink: Option<IfaceState>,
    nets: Seq<u16>,
) -> bool {
    match profile {
        NodeProfile::Router => s matches NodeStatus::Router { nets: n } && n@ == nets,
        NodeProfile::Bridge => s matches NodeStatus::Bridge { upstream, upstream_net_id, nets: n } && {
            &&& upstream@ == state_word(uplink)
            &&& upstream_net_id == state_net(uplink)
            &&& n@ == match state_net(uplink) {
                Some(up) => without(nets, up),
                None => nets,
            }
        },
        NodeProfile::Edge => s matches NodeStatus::Edge { status, net_id, node_id } && {
            &&& status@ == state_word(uplink)
            &&& net_id == state_net(uplink)
            &&& node_id == match uplink {
                Some(IfaceState::Active { node_id, .. }) => Some(node_id),
                _ => None,
            }
        },
    }
}

pub fn node_status(profile: NodeProfile, uplink: Option<IfaceState>, nets: Vec<u16>) -> (s: NodeStatus)
    ensures
        status_matches(s, profile, uplink, nets@),
{
    match profile {
        NodeProfile::Router => NodeStatus::Router { nets },
        NodeProfile::Bridge => {
            let upstream = state_string(uplink);
            match uplink {
                Some(IfaceState::Active { net_id, .. }) => NodeStatus::Bridge {
                    upstream,
                    upstream_net_id: Some(net_id),
                    nets: remove_net(nets, net_id),
                },
                _ => NodeStatus::Bridge { upstream, upstream_net_id: None, nets },
            }
        },
        NodeProfile::Edge => {
            let status = state_string(uplink);
            match uplink {
                Some(IfaceState::Active { net_id, node_id }) => NodeStatus::Edge {
                    status,
                    net_id: Some(net_id),
                    node_id: Some(node_id),
                },
                _ => NodeStatus::Edge { status, net_id: None, node_id: None },
            }
        },
    }
}

/// The default time a ping waits for its answer, in milliseconds.
pub const DEFAULT_PING_TIMEOUT_MS: u32 = 1_000;

/// The time a ping waits: the one asked for, else one second.
pub fn ping_timeout_ms(requested: Option<u32>) -> (ms: u32)
    ensures
        ms == match requested {
            Some(t) => t,
            None => DEFAULT_PING_TIMEOUT_MS,
        },
{
    match requested {
        Some(t) => t,
        None => DEFAULT_PING_TIMEOUT_MS,
    }
}

/// The text of a ping that got no answer in time.
pub open spec fn timeout_text(ms: u32) -> Seq<char> {
    "ping timed out after "@ + crate::text::decimal(ms as nat) + " ms"@
}

pub fn ping_timeout_message(ms: u32) -> (s: String)
    ensures
        s@ == timeout_text(ms),
{
    let mut s = String::from_str("ping timed out after ");
    crate::text::push_decimal(&mut s, ms as u64);
    s.append(" ms");
    s
}

/// A bridge never lists its uplink's net among its downlink nets, and it
/// keeps every other net.
pub proof fn law_bridge_status_hides_uplink_net(nets: Seq<u16>, up: u16, other: u16)
    requires
        other != up,
    ensures
        !without(nets, up).contains(up),
        nets.contains(other) <==> without(nets, up).contains(other),
{
    lemma_without_contains(nets, up, up);
    lemma_without_contains(nets, up, other);
}

/// Routers never offer a free uplink, whatever their interfaces report.
pub proof fn law_router_has_no_uplink(uplink: Option<IfaceState>)
    ensures
        !spec_uplink_free(NodeProfile::Router, uplink),
{
}

} // verus!
