use netcode::netcode::{
    init, interpolation_factor, interpolation_targets, predict, reconcile, Factor, Netcode, Step,
    INITIAL_TICK_TIME,
};
use netcode::model::Movement;
use netcode::server::{Origin, Roster};

fn ids(n: &Netcode<u32>) -> Vec<usize> {
    n.movement_history().iter().map(|m| m.id).collect()
}

fn push(n: &mut Netcode<u32>, dir: (i8, i8)) -> usize {
    assert!(n.can_push());
    n.push_movement(dir)
}

#[test]
fn ids_start_at_one_and_increase() {
    let mut n: Netcode<u32> = init(0);
    assert_eq!(push(&mut n, (0, 0)), 1);
    assert_eq!(push(&mut n, (1, 0)), 2);
    assert_eq!(push(&mut n, (-1, -1)), 3);
    assert_eq!(
        n.movement_history().clone(),
        vec![
            Movement { id: 1, dir: (0, 0) },
            Movement { id: 2, dir: (1, 0) },
            Movement { id: 3, dir: (-1, -1) },
        ]
    );
}

#[test]
fn ids_continue_after_full_trim() {
    let mut n: Netcode<u32> = init(0);
    assert_eq!(push(&mut n, (0, 0)), 1);
    n.apply(Some(0), 1, 1, (0, 0), false, false, false, 0);
    assert!(n.movement_history().is_empty());
    assert_eq!(push(&mut n, (0, 0)), 2);
    push(&mut n, (0, 0));
    n.apply(Some(0), 1, 3, (0, 0), false, false, false, 0);
    assert!(n.movement_history().is_empty());
    assert_eq!(push(&mut n, (1, 0)), 4);
    assert_eq!(ids(&n), vec![4]);
}

#[test]
fn acknowledged_server_keeps_confirming_new_inputs() {
    // The server keeps the larger acknowledgment; new ids stay above it.
    let mut client: Netcode<u32> = init(0);
    let mut roster = Roster::new();
    let origin = Origin { v6: false, ip: 1, port: 9, flowinfo: 0, scope_id: 0 };
    let first = push(&mut client, (1, 0));
    roster.receive(origin, first);
    client.apply(Some(0), 1, roster.acks_to_send()[0].ack_id, (1, 0), false, true, false, 0);
    let second = push(&mut client, (0, -1));
    assert!(second > first);
    let frame = client.apply(Some(0), 1, roster.acks_to_send()[0].ack_id, (0, -1), false, true, false, 0);
    assert_eq!(frame.steps, vec![Step { player: 0, dir: (0, -1) }]);
}

#[test]
fn server_ack_trims_history() {
    // Client history holds ids 3..7; the server processes 3, 4, 5 and acks 5.
    let mut client: Netcode<u32> = init(0);
    for _ in 0..7 {
        push(&mut client, (1, 0));
    }
    client.apply(Some(0), 1, 2, (1, 0), false, false, false, 0);
    assert_eq!(ids(&client), vec![3, 4, 5, 6, 7]);

    let mut roster = Roster::new();
    let origin = Origin { v6: false, ip: 0x7f00_0001, port: 40000, flowinfo: 0, scope_id: 0 };
    for id in 3..=5 {
        roster.receive(origin, id);
    }
    let acks = roster.acks_to_send();
    assert_eq!(acks.len(), 1);
    assert_eq!(acks[0].ack_id, 5);
    assert_eq!(acks[0].player_idx, 0);

    client.apply(Some(0), 1, acks[0].ack_id, (1, 0), false, true, false, 0);
    assert_eq!(ids(&client), vec![6, 7]);
}

#[test]
fn stale_ack_does_not_rewind() {
    let mut n: Netcode<u32> = init(0);
    for _ in 0..5 {
        push(&mut n, (0, 0));
    }
    n.apply(None, 0, 4, (0, 0), false, false, false, 0);
    n.apply(None, 0, 2, (0, 0), false, false, false, 0);
    assert_eq!(ids(&n), vec![5]);
}

#[test]
fn reconciliation_replays_unacknowledged_in_order() {
    let mut n: Netcode<u32> = init(0);
    push(&mut n, (1, 0));
    push(&mut n, (-1, 0));
    push(&mut n, (0, -1));
    push(&mut n, (1, 1));
    let frame = n.apply(Some(2), 3, 2, (0, 1), false, true, false, 0);
    assert_eq!(
        frame.steps,
        vec![
            Step { player: 2, dir: (0, -1) },
            Step { player: 2, dir: (1, 1) },
        ]
    );
    assert!(frame.interpolation.is_none());
}

#[test]
fn reconciliation_waits_for_a_snapshot() {
    let mut n: Netcode<u32> = init(0);
    push(&mut n, (1, 0));
    let frame = n.apply(Some(0), 1, 0, (1, 0), false, true, false, 0);
    assert!(frame.steps.is_empty());
    assert_eq!(ids(&n), vec![1]);
}

#[test]
fn prediction_follows_reconciliation() {
    let mut n: Netcode<u32> = init(0);
    push(&mut n, (1, 0));
    push(&mut n, (0, -1));
    let frame = n.apply(Some(0), 1, 1, (-1, 0), true, true, false, 0);
    assert_eq!(
        frame.steps,
        vec![
            Step { player: 0, dir: (0, -1) },
            Step { player: 0, dir: (-1, 0) },
        ]
    );
}

#[test]
fn prediction_alone() {
    let mut n: Netcode<u32> = init(0);
    push(&mut n, (1, 0));
    let frame = n.apply(Some(1), 2, 0, (1, 0), true, false, false, 0);
    assert_eq!(frame.steps, vec![Step { player: 1, dir: (1, 0) }]);
}

#[test]
fn no_steps_for_unknown_local_player() {
    let mut n: Netcode<u32> = init(0);
    push(&mut n, (1, 0));
    push(&mut n, (1, 0));
    let frame = n.apply(Some(3), 2, 1, (1, 0), true, true, false, 0);
    assert!(frame.steps.is_empty());
    let frame = n.apply(None, 2, 1, (1, 0), true, true, false, 0);
    assert!(frame.steps.is_empty());
}

#[test]
fn reconcile_and_predict_directly() {
    let history = vec![Movement { id: 4, dir: (1, -1) }, Movement { id: 5, dir: (0, 1) }];
    assert_eq!(
        reconcile(Some(7), 8, &history),
        vec![Step { player: 7, dir: (1, -1) }, Step { player: 7, dir: (0, 1) }]
    );
    assert!(reconcile(None, 8, &history).is_empty());
    assert_eq!(predict(Some(2), 3, (-1, 0)), Some(Step { player: 2, dir: (-1, 0) }));
    assert_eq!(predict(None, 3, (-1, 0)), None);
}

#[test]
fn stale_index_plans_nothing() {
    let history = vec![Movement { id: 4, dir: (1, -1) }];
    assert!(reconcile(Some(2), 2, &history).is_empty());
    assert_eq!(predict(Some(2), 2, (1, 0)), None);
    assert_eq!(predict(Some(0), 0, (1, 0)), None);
}

#[test]
fn update_rotates_snapshots_and_measures_tick() {
    let mut n: Netcode<u32> = init(1_000);
    n.update(vec![1, 2], 51_000);
    assert!(n.players_prev().is_empty());
    assert_eq!(n.players_current().clone(), vec![1, 2]);
    n.update(vec![3, 4, 5], 81_000);
    assert_eq!(n.players_prev().clone(), vec![1, 2]);
    assert_eq!(n.players_current().clone(), vec![3, 4, 5]);
    // tick interval is now 30_000: halfway through it the factor is one half.
    let frame = n.apply(None, 3, 0, (0, 0), false, false, true, 96_000);
    let ip = frame.interpolation.unwrap();
    assert_eq!(ip.factor, Factor { num: 15_000, den: 30_000 });
}

#[test]
fn interpolation_uses_initial_tick_estimate() {
    let mut n: Netcode<u32> = init(0);
    let frame = n.apply(None, 0, 0, (0, 0), false, false, true, 25_000_000);
    let ip = frame.interpolation.unwrap();
    assert_eq!(ip.factor, Factor { num: 25_000_000, den: INITIAL_TICK_TIME });
    assert!(ip.targets.is_empty());
}

#[test]
fn interpolation_skips_local_player_and_bounds() {
    let mut n: Netcode<u32> = init(0);
    n.update(vec![0, 0, 0, 0], 10);
    n.update(vec![0, 0, 0], 20);
    // previous has 4, current 3, local game 5: indices 0..3, minus the local 1.
    let frame = n.apply(Some(1), 5, 0, (0, 0), false, false, true, 20);
    let ip = frame.interpolation.unwrap();
    assert_eq!(ip.targets, vec![0, 2]);
    assert_eq!(ip.factor, Factor { num: 0, den: 10 });
}

#[test]
fn factor_clamps_and_starts_at_zero() {
    assert_eq!(interpolation_factor(0, 100), Factor { num: 0, den: 100 });
    assert_eq!(interpolation_factor(40, 100), Factor { num: 40, den: 100 });
    assert_eq!(interpolation_factor(100, 100), Factor { num: 100, den: 100 });
    assert_eq!(interpolation_factor(250, 100), Factor { num: 100, den: 100 });
    assert_eq!(interpolation_factor(0, 0), Factor { num: 1, den: 1 });
}

#[test]
fn targets_exclude_local() {
    assert_eq!(interpolation_targets(Some(2), 4), vec![0, 1, 3]);
    assert_eq!(interpolation_targets(None, 3), vec![0, 1, 2]);
    assert_eq!(interpolation_targets(Some(9), 2), vec![0, 1]);
    assert!(interpolation_targets(Some(0), 0).is_empty());
}

#[test]
fn clock_going_back_counts_as_no_time() {
    let mut n: Netcode<u32> = init(500);
    n.update(vec![1], 100);
    let frame = n.apply(None, 1, 0, (0, 0), false, false, true, 50);
    assert_eq!(frame.interpolation.unwrap().factor, Factor { num: 1, den: 1 });
}
