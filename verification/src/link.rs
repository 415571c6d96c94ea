//! Linking rules: which nodes may be connected or attached to a shared
//! bus, the interface state a child's uplink starts in, the impairment
//! knobs of a link, and the per-node registry of live links.

use vstd::prelude::*;
use crate::node::{spec_uplink_free, IfaceState, LinkKind, NodeProfile};

verus! {

/// Why a link could not be made.
#[derive(Clone, Copy, PartialEq, Eq, Debug, Structural)]
pub enum LinkError {
    /// `connectTo` was called on an edge node.
    ParentIsEdge,
    /// The target of `connectTo` is a router, which has no uplink.
    TargetIsRouter,
    /// The target already has an uplink.
    TargetLinked,
    /// The parent has no free interface slot.
    NoFreeSlots,
    /// A shared bus must be controlled by a root router.
    BusNeedsRouter,
    /// The bus already has its router.
    BusHasRouter,
    /// No router has been attached to the bus yet.
    BusWithoutRouter,
    /// Only edge nodes can join a shared bus.
    BusTargetNotEdge,
    /// Bus devices must use the packet transport.
    BusNeedsPacket,
}

/// The text shown for each refusal.
pub open spec fn error_text(e: LinkError) -> Seq<char> {
    match e {
        LinkError::ParentIsEdge => "connectTo must be called on a router or bridge (the downlink side)"@,
        LinkError::TargetIsRouter => "connectTo target must be a bridge or edge node (routers have no uplink)"@,
        LinkError::TargetLinked => "target node is already linked upstream"@,
        LinkError::NoFreeSlots => "parent has no free interface slots"@,
        LinkError::BusNeedsRouter => "a shared bus must be controlled by a root Router"@,
        LinkError::BusHasRouter => "this bus already has a router"@,
        LinkError::BusWithoutRouter => "connect a root Router to the bus first"@,
        LinkError::BusTargetNotEdge => "only Edge nodes can join a shared bus"@,
        LinkError::BusNeedsPacket => "shared-bus devices must use the Packet transport"@,
    }
}

impl LinkError {
    pub fn message(&self) -> (s: String)
        ensures
            s@ == error_text(*self),
    {
        match self {
            LinkError::ParentIsEdge => String::from_str("connectTo must be called on a router or bridge (the downlink side)"),
            LinkError::TargetIsRouter => String::from_str("connectTo target must be a bridge or edge node (routers have no uplink)"),
            LinkError::TargetLinked => String::from_str("target node is already linked upstream"),
            LinkError::NoFreeSlots => String::from_str("parent has no free interface slots"),
            LinkError::BusNeedsRouter => String::from_str("a shared bus must be controlled by a root Router"),
            LinkError::BusHasRouter => String::from_str("this bus already has a router"),
            LinkError::BusWithoutRouter => String::from_str("connect a root Router to the bus first"),
            LinkError::BusTargetNotEdge => String::from_str("only Edge nodes can join a shared bus"),
            LinkError::BusNeedsPacket => String::from_str("shared-bus devices must use the Packet transport"),
        }
    }
}

/// May a node of profile `parent` take a node of profile `target` (whose
/// uplink is in state `target_uplink`) as a child? The parent must be a
/// router or bridge, the target a bridge or edge with a free uplink; the
/// checks are made in that order.
pub open spec fn connect_verdict(parent: NodeProfile, target: NodeProfile, target_uplink: Option<IfaceState>) -> Result<(), LinkError> {
    if parent == NodeProfile::Edge {
        Err(LinkError::ParentIsEdge)
    } else if target == NodeProfile::Router {
        Err(LinkError::TargetIsRouter)
    } else if !spec_uplink_free(target, target_uplink) {
        Err(LinkError::TargetLinked)
    } else {
        Ok(())
    }
}

pub fn check_connect(parent: NodeProfile, target: NodeProfile, target_uplink: Option<IfaceState>) -> (r: Result<(), LinkError>)
    ensures
        r == connect_verdict(parent, target, target_uplink),
{
    if parent == NodeProfile::Edge {
        Err(LinkError::ParentIsEdge)
    } else if target == NodeProfile::Router {
        Err(LinkError::TargetIsRouter)
    } else if !crate::node::uplink_free(target, target_uplink) {
        Err(LinkError::TargetLinked)
    } else {
        Ok(())
    }
}

/// The state a child's uplink is put in when it is linked: an edge comes up
/// active on net 0 with the edge node id; a bridge starts inactive and learns
/// its net from the first frame its parent sends.
pub open spec fn spec_child_uplink_state(target: NodeProfile, edge_node_id: u8) -> IfaceState {
    if target == NodeProfile::Edge {
        IfaceState::Active { net_id: 0, node_id: edge_node_id }
    } else {
        IfaceState::Inactive
    }
}

pub fn child_uplink_state(target: NodeProfile, edge_node_id: u8) -> (s: IfaceState)
    ensures
        s == spec_child_uplink_state(target, edge_node_id),
{
    if target == NodeProfile::Edge {
        IfaceState::Active { net_id: 0, node_id: edge_node_id }
    } else {
        IfaceState::Inactive
    }
}

/// May a node of profile `parent` become the router of a bus?
pub open spec fn attach_router_verdict(parent: NodeProfile, router_attached: bool) -> Result<(), LinkError> {
    if parent != NodeProfile::Router {
        Err(LinkError::BusNeedsRouter)
    } else if router_attached {
        Err(LinkError::BusHasRouter)
    } else {
        Ok(())
    }
}

pub fn check_attach_router(parent: NodeProfile, router_attached: bool) -> (r: Result<(), LinkError>)
    ensures
        r == attach_router_verdict(parent, router_attached),
{
    if parent != NodeProfile::Router {
        Err(LinkError::BusNeedsRouter)
    } else if router_attached {
        Err(LinkError::BusHasRouter)
    } else {
        Ok(())
    }
}

/// May a node join a bus as a device?
pub open spec fn attach_edge_verdict(
    router_attached: bool,
    target: NodeProfile,
    kind: LinkKind,
    target_uplink: Option<IfaceState>,
) -> Result<(), LinkError> {
    if !router_attached {
        Err(LinkError::BusWithoutRouter)
    } else if target != NodeProfile::Edge {
        Err(LinkError::BusTargetNotEdge)
    } else if kind != LinkKind::Packet {
        Err(LinkError::BusNeedsPacket)
    } else if !spec_uplink_free(target, target_uplink) {
        Err(LinkError::TargetLinked)
    } else {
        Ok(())
    }
}

pub fn check_attach_edge(
    router_attached: bool,
    target: NodeProfile,
    kind: LinkKind,
    target_uplink: Option<IfaceState>,
) -> (r: Result<(), LinkError>)
    ensures
        r == attach_edge_verdict(router_attached, target, kind, target_uplink),
{
    if !router_attached {
        Err(LinkError::BusWithoutRouter)
    } else if target != NodeProfile::Edge {
        Err(LinkError::BusTargetNotEdge)
    } else if kind != LinkKind::Packet {
        Err(LinkError::BusNeedsPacket)
    } else if !crate::node::uplink_free(target, target_uplink) {
        Err(LinkError::TargetLinked)
    } else {
        Ok(())
    }
}

/// An uplink that is up or coming up is taken: whatever the node's profile,
/// an uplink in the active or inactive state is not free, so linking that
/// node again as a child, or as a bus device, is refused with
/// `TargetLinked`. Only a bridge or edge whose uplink is missing or down
/// can be linked.
pub proof fn law_linked_uplink_is_taken(parent: NodeProfile, target: NodeProfile, net_id: u16, node_id: u8)
    ensures
        !spec_uplink_free(target, Some(IfaceState::Active { net_id, node_id })),
        !spec_uplink_free(target, Some(IfaceState::Inactive)),
        spec_uplink_free(target, None) <==> target != NodeProfile::Router,
        spec_uplink_free(target, Some(IfaceState::Down)) <==> target != NodeProfile::Router,
        parent != NodeProfile::Edge && target != NodeProfile::Router ==> {
            &&& connect_verdict(parent, target, Some(IfaceState::Active { net_id, node_id })) == Err::<(), LinkError>(LinkError::TargetLinked)
            &&& connect_verdict(parent, target, Some(IfaceState::Inactive)) == Err::<(), LinkError>(LinkError::TargetLinked)
            &&& connect_verdict(parent, target, None) == Ok::<(), LinkError>(())
            &&& connect_verdict(parent, target, Some(IfaceState::Down)) == Ok::<(), LinkError>(())
        },
        attach_edge_verdict(true, NodeProfile::Edge, LinkKind::Packet, Some(IfaceState::Active { net_id, node_id }))
            == Err::<(), LinkError>(LinkError::TargetLinked),
        attach_edge_verdict(true, NodeProfile::Edge, LinkKind::Packet, Some(IfaceState::Inactive))
            == Err::<(), LinkError>(LinkError::TargetLinked),
{
}

/// Only a root router may control a bus: any other profile is refused with
/// `BusNeedsRouter`, whether or not the bus has a router; a router is
/// accepted exactly when the bus has none yet.
pub proof fn law_only_a_router_controls_a_bus(parent: NodeProfile, router_attached: bool)
    ensures
        parent != NodeProfile::Router ==> attach_router_verdict(parent, router_attached) == Err::<(), LinkError>(LinkError::BusNeedsRouter),
        parent == NodeProfile::Router ==> (attach_router_verdict(parent, router_attached) is Ok <==> !router_attached),
        attach_router_verdict(parent, router_attached) is Ok ==> parent == NodeProfile::Router,
{
}

} // verus!
