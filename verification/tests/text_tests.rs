use ergot_demo::{
    decimal_string, fmt_addr, kind_name, owns_binding, record_frame, release_binding, Address, FrameHeader,
    TapBinding,
};

#[test]
fn addresses_format_as_net_node_port() {
    let a = Address { network_id: 1, node_id: 2, port_id: 5 };
    assert_eq!(fmt_addr(&a), "1.2:5");
    let b = Address { network_id: 65535, node_id: 255, port_id: 0 };
    assert_eq!(fmt_addr(&b), "65535.255:0");
}

#[test]
fn decimal_text_has_no_leading_zeros() {
    assert_eq!(decimal_string(0), "0");
    assert_eq!(decimal_string(10), "10");
    assert_eq!(decimal_string(18446744073709551615), "18446744073709551615");
}

#[test]
fn frame_kinds_have_names() {
    assert_eq!(kind_name(1), "req");
    assert_eq!(kind_name(2), "resp");
    assert_eq!(kind_name(3), "topic");
    assert_eq!(kind_name(255), "err");
    assert_eq!(kind_name(0), "0");
    assert_eq!(kind_name(42), "42");
}

#[test]
fn labelled_interface_records_frames() {
    let label = Some(TapBinding { generation: 3, label: "e1".to_string() });
    let hdr = FrameHeader {
        src: Address { network_id: 1, node_id: 1, port_id: 0 },
        dst: Address { network_id: 1, node_id: 2, port_id: 7 },
        kind: 2,
        seq_no: 99,
    };
    let rec = record_frame(&label, "down", &hdr).unwrap();
    assert_eq!(rec.link_id, "e1");
    assert_eq!(rec.dir, "down");
    assert_eq!(rec.src, "1.1:0");
    assert_eq!(rec.dst, "1.2:7");
    assert_eq!(rec.kind, "resp");
    assert_eq!(rec.seq, 99);
    assert!(record_frame(&None, "up", &hdr).is_none());
}

#[test]
fn only_the_owning_link_clears_a_label() {
    let mut label = Some(TapBinding { generation: 4, label: "e2".to_string() });
    assert!(owns_binding(&label, 4));
    assert!(!owns_binding(&label, 3));
    release_binding(&mut label, 3);
    assert!(label.is_some());
    release_binding(&mut label, 4);
    assert!(label.is_none());
    assert!(!owns_binding(&label, 4));
}
