use laminar::net::external_ack::ExternalAcks;

#[test]
fn acking_single_packet() {
    let mut acks = ExternalAcks::default();
    acks.ack(0);

    assert_eq!(acks.last_acked(), 0);
    assert_eq!(acks.ack_field(), 0);
}

#[test]
fn acking_several_packets() {
    let mut acks = ExternalAcks::default();
    acks.ack(0);
    acks.ack(1);
    acks.ack(2);

    assert_eq!(acks.last_acked(), 2);
    assert_eq!(acks.ack_field(), 1 | (1 << 1));
}

#[test]
fn acking_several_packets_out_of_order() {
    let mut acks = ExternalAcks::default();
    acks.ack(1);
    acks.ack(0);
    acks.ack(2);

    assert_eq!(acks.last_acked(), 2);
    assert_eq!(acks.ack_field(), 1 | (1 << 1));
}

#[test]
fn acking_a_nearly_full_set_of_packets() {
    let mut acks = ExternalAcks::default();

    for i in 0..32 {
        acks.ack(i);
    }

    assert_eq!(acks.last_acked(), 31);
    assert_eq!(acks.ack_field(), !0 >> 1);
}

#[test]
fn acking_a_full_set_of_packets() {
    let mut acks = ExternalAcks::default();

    for i in 0..=32 {
        acks.ack(i);
    }

    assert_eq!(acks.last_acked(), 32);
    assert_eq!(acks.ack_field(), !0);
}

#[test]
fn acking_to_the_edge_forward() {
    let mut acks = ExternalAcks::default();
    acks.ack(0);
    acks.ack(32);

    assert_eq!(acks.last_acked(), 32);
    assert_eq!(acks.ack_field(), 1 << 31);
}

#[test]
fn acking_too_far_forward() {
    let mut acks = ExternalAcks::default();
    acks.ack(0);
    acks.ack(1);
    acks.ack(34);

    assert_eq!(acks.last_acked(), 34);
    assert_eq!(acks.ack_field(), 0);
}

#[test]
fn acking_a_whole_buffer_too_far_forward() {
    let mut acks = ExternalAcks::default();
    acks.ack(0);
    acks.ack(60);

    assert_eq!(acks.last_acked(), 60);
    assert_eq!(acks.ack_field(), 0);
}

#[test]
fn acking_too_far_backward() {
    let mut acks = ExternalAcks::default();
    acks.ack(33);
    acks.ack(0);

    assert_eq!(acks.last_acked(), 33);
    assert_eq!(acks.ack_field(), 0);
}

#[test]
fn acking_around_zero() {
    let mut acks = ExternalAcks::default();

    for i in 0..33_u16 {
        acks.ack(i.wrapping_sub(16));
    }
    assert_eq!(acks.last_acked(), 16);
    assert_eq!(acks.ack_field(), !0);
}

#[test]
fn ignores_old_packets() {
    let mut acks = ExternalAcks::default();
    acks.ack(40);
    acks.ack(0);
    assert_eq!(acks.last_acked(), 40);
    assert_eq!(acks.ack_field(), 0);
}

#[test]
fn ignores_really_old_packets() {
    let mut acks = ExternalAcks::default();
    acks.ack(30000);
    acks.ack(0);
    assert_eq!(acks.last_acked(), 30000);
    assert_eq!(acks.ack_field(), 0);
}

#[test]
fn skips_missing_acks_correctly() {
    let mut acks = ExternalAcks::default();
    acks.ack(0);
    acks.ack(1);
    acks.ack(6);
    acks.ack(4);
    assert_eq!(acks.last_acked(), 6);
    assert_eq!(
        acks.ack_field(),
        0        | // 5 (missing)
            (1 << 1) | // 4 (present)
            (0 << 2) | // 3 (missing)
            (0 << 3) | // 2 (missing)
            (1 << 4) | // 1 (present)
            (1 << 5) // 0 (present)
    );
}

#[test]
fn acking_the_last_sequence_again_changes_nothing() {
    let mut acks = ExternalAcks::new();
    acks.ack(3);
    acks.ack(1);
    let field = acks.ack_field();
    acks.ack(3);
    assert_eq!(acks.last_acked(), 3);
    assert_eq!(acks.ack_field(), field);
}

#[test]
fn newest_sequence_wins_and_recent_ones_are_marked() {
    let mut acks = ExternalAcks::new();
    let inputs: [u16; 6] = [65530, 2, 65535, 10, 7, 65534];
    for s in inputs {
        acks.ack(s);
    }
    assert_eq!(acks.last_acked(), 10);
    for s in inputs {
        let behind = 10u16.wrapping_sub(s);
        if behind > 0 && behind <= 32 {
            assert!(acks.ack_field() & (1 << (behind - 1)) != 0);
        }
    }
}
