use futures_channel::mpsc::channel;

use ergot_demo::{accept_frame, settle_send, BusState, ChannelTx, Delivery, LinkClosed};

#[test]
fn members_get_increasing_ids_and_leave_by_id() {
    let mut bus = BusState::new();
    let (a, _ra) = channel::<Vec<u8>>(4);
    let (b, _rb) = channel::<Vec<u8>>(4);
    let ida = bus.add_member(a);
    let idb = bus.add_member(b);
    assert_eq!((ida, idb), (1, 2));
    bus.set_router(ida, 7);
    assert!(bus.router_attached());
    assert_eq!(bus.net_id(), 7);
    bus.remove_member(idb);
    assert_eq!(bus.member_count(), 1);
    assert!(bus.router_attached());
    bus.remove_member(ida);
    assert_eq!(bus.member_count(), 0);
    assert!(!bus.router_attached());
    assert_eq!(bus.net_id(), 0);
}

#[test]
fn every_other_member_hears_a_frame() {
    let mut bus = BusState::new();
    let (a, mut ra) = channel::<Vec<u8>>(4);
    let (b, mut rb) = channel::<Vec<u8>>(4);
    let (c, mut rc) = channel::<Vec<u8>>(4);
    let ida = bus.add_member(a);
    bus.add_member(b);
    bus.add_member(c);
    let mut drops = 0u32;
    assert!(bus.deliver(ida, &[1, 2, 3], &mut drops));
    assert_eq!(drops, 0);
    assert_eq!(rb.try_next().unwrap(), Some(vec![1, 2, 3]));
    assert_eq!(rc.try_next().unwrap(), Some(vec![1, 2, 3]));
    assert!(ra.try_next().is_err());
}

#[test]
fn full_inboxes_count_drops_and_gone_inboxes_leave() {
    let mut bus = BusState::new();
    let (a, _ra) = channel::<Vec<u8>>(0);
    let (b, _rb) = channel::<Vec<u8>>(0);
    let (c, rc) = channel::<Vec<u8>>(0);
    let ida = bus.add_member(a);
    bus.add_member(b);
    bus.add_member(c);
    drop(rc);
    let mut drops = 0u32;
    assert!(bus.deliver(ida, &[1], &mut drops));
    assert_eq!(drops, 0);
    assert_eq!(bus.member_count(), 2);
    assert!(bus.deliver(ida, &[2], &mut drops));
    assert_eq!(drops, 1);
    assert_eq!(bus.member_count(), 2);
    let mut stuck = u32::MAX;
    assert!(bus.deliver(ida, &[3], &mut stuck));
    assert_eq!(stuck, u32::MAX);
    assert!(!bus.deliver(99, &[4], &mut drops));
}

#[test]
fn channel_send_counts_a_full_buffer_as_a_drop() {
    let (tx, mut rx) = channel::<Vec<u8>>(0);
    let mut link = ChannelTx::new(tx);
    let mut drops = 0u32;
    assert_eq!(link.send(&[5], &mut drops), Ok(()));
    assert_eq!(drops, 0);
    assert_eq!(link.send(&[6], &mut drops), Ok(()));
    assert_eq!(drops, 1);
    assert_eq!(rx.try_next().unwrap(), Some(vec![5]));
    drop(rx);
    assert_eq!(link.send(&[7], &mut drops), Err(LinkClosed));
    assert_eq!(drops, 1);
}

#[test]
fn send_outcomes_settle_as_stated() {
    let mut d = 3u32;
    assert_eq!(settle_send(Delivery::Sent, &mut d), Ok(()));
    assert_eq!(d, 3);
    assert_eq!(settle_send(Delivery::Full, &mut d), Ok(()));
    assert_eq!(d, 4);
    assert_eq!(settle_send(Delivery::Disconnected, &mut d), Err(LinkClosed));
    assert_eq!(d, 4);
}

#[test]
fn frames_must_fit_the_receive_buffer() {
    assert_eq!(accept_frame(Some(vec![1, 2]), 2), Ok(vec![1, 2]));
    assert_eq!(accept_frame(Some(vec![1, 2, 3]), 2), Err(LinkClosed));
    assert_eq!(accept_frame(None, 2), Err(LinkClosed));
}

#[test]
fn the_sender_never_hears_its_own_frame() {
    let mut bus = BusState::new();
    let (a, mut ra) = channel::<Vec<u8>>(4);
    let (b, mut rb) = channel::<Vec<u8>>(4);
    let ida = bus.add_member(a);
    let idb = bus.add_member(b);
    let mut drops = 0u32;
    assert!(bus.deliver(idb, &[9], &mut drops));
    assert_eq!(ra.try_next().unwrap(), Some(vec![9]));
    assert!(rb.try_next().is_err());
    assert!(bus.deliver(ida, &[8], &mut drops));
    assert_eq!(rb.try_next().unwrap(), Some(vec![8]));
    assert!(ra.try_next().is_err());
}

#[test]
fn a_member_leaving_lowers_the_count_by_one() {
    let mut bus = BusState::new();
    let (a, _ra) = channel::<Vec<u8>>(4);
    let (b, _rb) = channel::<Vec<u8>>(4);
    let (c, _rc) = channel::<Vec<u8>>(4);
    let ida = bus.add_member(a);
    let idb = bus.add_member(b);
    let idc = bus.add_member(c);
    assert_eq!(bus.member_count(), 3);
    bus.remove_member(idb);
    assert_eq!(bus.member_count(), 2);
    bus.remove_member(idb);
    assert_eq!(bus.member_count(), 2);
    bus.remove_member(ida);
    assert_eq!(bus.member_count(), 1);
    bus.remove_member(idc);
    assert_eq!(bus.member_count(), 0);
}
