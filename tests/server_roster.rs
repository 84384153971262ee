use netcode::server::{lower_tickrate, raise_tickrate, Ack, Origin, Roster, DEFAULT_TICKRATE};

fn origin(port: u16) -> Origin {
    Origin { v6: false, ip: 0x7f00_0001, port, flowinfo: 0, scope_id: 0 }
}

#[test]
fn new_origins_join_in_order() {
    let mut roster = Roster::new();
    assert_eq!(roster.receive(origin(1), 1), (0, true));
    assert_eq!(roster.receive(origin(2), 1), (1, true));
    assert_eq!(roster.receive(origin(1), 2), (0, false));
    assert_eq!(roster.len(), 2);
    assert_eq!(roster.slot_of(origin(2)), Some(1));
    assert_eq!(roster.slot_of(origin(3)), None);
}

#[test]
fn acks_follow_each_origin() {
    let mut roster = Roster::new();
    roster.receive(origin(1), 3);
    roster.receive(origin(2), 9);
    roster.receive(origin(1), 4);
    assert_eq!(
        roster.acks_to_send(),
        vec![
            Ack { origin: origin(1), ack_id: 4, player_idx: 0 },
            Ack { origin: origin(2), ack_id: 9, player_idx: 1 },
        ]
    );
}

#[test]
fn late_message_does_not_lower_ack() {
    let mut roster = Roster::new();
    roster.receive(origin(1), 5);
    roster.receive(origin(1), 3);
    assert_eq!(roster.acks_to_send()[0].ack_id, 5);
}

#[test]
fn same_port_other_address_is_other_client() {
    let mut roster = Roster::new();
    roster.receive(origin(7), 1);
    let other = Origin { v6: true, ip: 0x7f00_0001, port: 7, flowinfo: 0, scope_id: 0 };
    assert_eq!(roster.receive(other, 1), (1, true));
}

#[test]
fn empty_roster_sends_nothing() {
    assert!(Roster::new().acks_to_send().is_empty());
    assert_eq!(Roster::new().len(), 0);
}

#[test]
fn tickrate_changes() {
    assert_eq!(DEFAULT_TICKRATE, 4);
    assert_eq!(raise_tickrate(4), 5);
    assert_eq!(raise_tickrate(usize::MAX), usize::MAX);
    assert_eq!(lower_tickrate(4), 3);
    assert_eq!(lower_tickrate(1), 1);
    assert_eq!(lower_tickrate(0), 1);
}
