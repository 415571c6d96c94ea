use ergot_demo::{
    check_attach_edge, check_attach_router, check_connect, child_uplink_state, node_status, ping_timeout_message,
    ping_timeout_ms, should_drop, unit_fate, uplink_free, uplink_kind, IfaceState,
    ImpairmentSettings, LinkError, LinkKind, NodeProfile, NodeStatus, UnitFate,
};

#[test]
fn routers_never_have_a_free_uplink() {
    assert!(!uplink_free(NodeProfile::Router, None));
    assert!(!uplink_free(NodeProfile::Router, Some(IfaceState::Down)));
    assert!(uplink_free(NodeProfile::Edge, None));
    assert!(uplink_free(NodeProfile::Edge, Some(IfaceState::Down)));
    assert!(!uplink_free(NodeProfile::Edge, Some(IfaceState::Inactive)));
    assert!(!uplink_free(NodeProfile::Bridge, Some(IfaceState::Active { net_id: 3, node_id: 2 })));
}

#[test]
fn new_nodes_default_to_a_stream_uplink() {
    assert_eq!(uplink_kind(None), LinkKind::Stream);
    assert_eq!(uplink_kind(Some(LinkKind::Packet)), LinkKind::Packet);
}

#[test]
fn router_status_lists_its_nets() {
    match node_status(NodeProfile::Router, None, vec![1, 2]) {
        NodeStatus::Router { nets } => assert_eq!(nets, vec![1, 2]),
        _ => panic!("wrong status"),
    }
}

#[test]
fn bridge_status_leaves_out_the_uplink_net() {
    let up = Some(IfaceState::Active { net_id: 7, node_id: 2 });
    match node_status(NodeProfile::Bridge, up, vec![1, 7, 3, 7]) {
        NodeStatus::Bridge { upstream, upstream_net_id, nets } => {
            assert_eq!(upstream, "active");
            assert_eq!(upstream_net_id, Some(7));
            assert_eq!(nets, vec![1, 3]);
        }
        _ => panic!("wrong status"),
    }
    match node_status(NodeProfile::Bridge, Some(IfaceState::Inactive), vec![4]) {
        NodeStatus::Bridge { upstream, upstream_net_id, nets } => {
            assert_eq!(upstream, "inactive");
            assert_eq!(upstream_net_id, None);
            assert_eq!(nets, vec![4]);
        }
        _ => panic!("wrong status"),
    }
}

#[test]
fn edge_status_reports_its_uplink() {
    match node_status(NodeProfile::Edge, Some(IfaceState::Active { net_id: 9, node_id: 2 }), vec![]) {
        NodeStatus::Edge { status, net_id, node_id } => {
            assert_eq!(status, "active");
            assert_eq!(net_id, Some(9));
            assert_eq!(node_id, Some(2));
        }
        _ => panic!("wrong status"),
    }
    match node_status(NodeProfile::Edge, None, vec![]) {
        NodeStatus::Edge { status, net_id, node_id } => {
            assert_eq!(status, "down");
            assert_eq!(net_id, None);
            assert_eq!(node_id, None);
        }
        _ => panic!("wrong status"),
    }
}

#[test]
fn connect_rules_refuse_each_wrong_pairing() {
    assert_eq!(check_connect(NodeProfile::Edge, NodeProfile::Edge, None), Err(LinkError::ParentIsEdge));
    assert_eq!(check_connect(NodeProfile::Router, NodeProfile::Router, None), Err(LinkError::TargetIsRouter));
    assert_eq!(
        check_connect(NodeProfile::Router, NodeProfile::Edge, Some(IfaceState::Inactive)),
        Err(LinkError::TargetLinked)
    );
    assert_eq!(check_connect(NodeProfile::Bridge, NodeProfile::Edge, Some(IfaceState::Down)), Ok(()));
    assert_eq!(check_connect(NodeProfile::Router, NodeProfile::Bridge, None), Ok(()));
}

#[test]
fn bus_rules_refuse_each_wrong_attachment() {
    assert_eq!(check_attach_router(NodeProfile::Bridge, false), Err(LinkError::BusNeedsRouter));
    assert_eq!(check_attach_router(NodeProfile::Router, true), Err(LinkError::BusHasRouter));
    assert_eq!(check_attach_router(NodeProfile::Router, false), Ok(()));
    assert_eq!(
        check_attach_edge(false, NodeProfile::Edge, LinkKind::Packet, None),
        Err(LinkError::BusWithoutRouter)
    );
    assert_eq!(
        check_attach_edge(true, NodeProfile::Bridge, LinkKind::Packet, None),
        Err(LinkError::BusTargetNotEdge)
    );
    assert_eq!(
        check_attach_edge(true, NodeProfile::Edge, LinkKind::Stream, None),
        Err(LinkError::BusNeedsPacket)
    );
    assert_eq!(
        check_attach_edge(true, NodeProfile::Edge, LinkKind::Packet, Some(IfaceState::Inactive)),
        Err(LinkError::TargetLinked)
    );
    assert_eq!(check_attach_edge(true, NodeProfile::Edge, LinkKind::Packet, None), Ok(()));
}

#[test]
fn error_messages_are_the_ones_shown() {
    assert_eq!(
        LinkError::ParentIsEdge.message(),
        "connectTo must be called on a router or bridge (the downlink side)"
    );
    assert_eq!(LinkError::TargetLinked.message(), "target node is already linked upstream");
    assert_eq!(LinkError::NoFreeSlots.message(), "parent has no free interface slots");
    assert_eq!(LinkError::BusHasRouter.message(), "this bus already has a router");
}

#[test]
fn child_uplinks_start_in_the_profile_state() {
    assert_eq!(child_uplink_state(NodeProfile::Edge, 2), IfaceState::Active { net_id: 0, node_id: 2 });
    assert_eq!(child_uplink_state(NodeProfile::Bridge, 2), IfaceState::Inactive);
}

#[test]
fn ping_defaults() {
    assert_eq!(ping_timeout_ms(None), 1000);
    assert_eq!(ping_timeout_ms(Some(250)), 250);
    assert_eq!(ping_timeout_message(1000), "ping timed out after 1000 ms");
}

#[test]
fn impairment_knobs_are_clamped() {
    let s = ImpairmentSettings::clamped(120_000, 250);
    assert_eq!(s, ImpairmentSettings { latency_ms: 60_000, loss_pct: 100 });
    let t = ImpairmentSettings::clamped(30, 5);
    assert_eq!(t, ImpairmentSettings { latency_ms: 30, loss_pct: 5 });
    assert_eq!(ImpairmentSettings::none(), ImpairmentSettings { latency_ms: 0, loss_pct: 0 });
}

#[test]
fn loss_percentage_counts_dropping_rolls() {
    let dropped = |loss: u8| (0..100u8).filter(|r| should_drop(loss, *r)).count();
    assert_eq!(dropped(0), 0);
    assert_eq!(dropped(37), 37);
    assert_eq!(dropped(100), 100);
}

#[test]
fn unit_fate_waits_then_rolls() {
    let s = ImpairmentSettings { latency_ms: 10, loss_pct: 50 };
    assert_eq!(unit_fate(&s, true, 99), UnitFate::Closed);
    assert_eq!(unit_fate(&s, false, 10), UnitFate::Dropped);
    assert_eq!(unit_fate(&s, false, 60), UnitFate::Forwarded);
    let no_delay = ImpairmentSettings { latency_ms: 0, loss_pct: 0 };
    assert_eq!(unit_fate(&no_delay, true, 0), UnitFate::Forwarded);
}
