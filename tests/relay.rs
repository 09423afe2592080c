use eth_wifi_bridge::{peer, relay_frame, Port, RelayAction};

#[test]
fn peers_are_each_other() {
    assert_eq!(peer(Port::Downstream), Port::Upstream);
    assert_eq!(peer(Port::Upstream), Port::Downstream);
}

#[test]
fn connected_peer_gets_exact_bytes() {
    let frame = vec![0xde, 0xad, 0xbe, 0xef, 0, 1, 2, 3, 4, 5, 6, 7, 8];
    assert_eq!(
        relay_frame(Port::Downstream, true, &frame),
        RelayAction::Send(Port::Upstream, frame.clone())
    );
}

#[test]
fn disconnected_peer_gets_nothing() {
    assert_eq!(relay_frame(Port::Upstream, false, &[1, 2, 3]), RelayAction::Drop);
    assert_eq!(relay_frame(Port::Downstream, false, &[1, 2, 3]), RelayAction::Drop);
}

#[test]
fn empty_frame_is_passed_on_unchanged() {
    assert_eq!(
        relay_frame(Port::Upstream, true, &[]),
        RelayAction::Send(Port::Downstream, Vec::new())
    );
}

#[test]
fn end_to_end_relay_both_ways_then_drop() {
    let f1: Vec<u8> = (0u8..64).collect();
    let f2: Vec<u8> = (100u8..160).rev().collect();
    let f3: Vec<u8> = vec![7; 30];
    // both links up
    assert_eq!(
        relay_frame(Port::Downstream, true, &f1),
        RelayAction::Send(Port::Upstream, f1.clone())
    );
    assert_eq!(
        relay_frame(Port::Upstream, true, &f2),
        RelayAction::Send(Port::Downstream, f2.clone())
    );
    // the wired side goes down: upstream frames are dropped, not errors
    assert_eq!(relay_frame(Port::Upstream, false, &f3), RelayAction::Drop);
}

#[test]
fn every_connected_frame_sent_once_in_order() {
    let deliveries: Vec<(Port, bool, Vec<u8>)> = vec![
        (Port::Downstream, true, vec![1]),
        (Port::Upstream, false, vec![2]),
        (Port::Upstream, true, vec![3, 3]),
        (Port::Downstream, false, vec![4]),
        (Port::Downstream, true, vec![5]),
    ];
    let mut sent = Vec::new();
    for (from, up, f) in &deliveries {
        if let RelayAction::Send(to, bytes) = relay_frame(*from, *up, f) {
            sent.push((to, bytes));
        }
    }
    assert_eq!(
        sent,
        vec![
            (Port::Upstream, vec![1]),
            (Port::Downstream, vec![3, 3]),
            (Port::Upstream, vec![5]),
        ]
    );
}
