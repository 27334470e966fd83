use crossbeam::channel::{bounded, unbounded, Receiver, Sender};
use mcrs::net::play::clientbound::{JoinGame, KeepAlive, Packet as CPacket};
use mcrs::net::play::serverbound::Packet as SPacket;
use mcrs::net::proto::varint::Varint;
use mcrs::server::{
    after_send, due_packet, sleep_millis, Server, LEVEL_TYPE, TARGET_MSPT, VIEW_DISTANCE,
};

struct Client {
    to_server: Sender<SPacket>,
    from_server: Receiver<CPacket>,
}

fn register(server: &mut Server, uuid: u128) -> Client {
    let (to_server, inbound) = unbounded();
    let (outbound, from_server) = unbounded();
    server.add_player(uuid, inbound, outbound);
    Client { to_server, from_server }
}

fn join_game() -> CPacket {
    CPacket::JoinGame(JoinGame {
        entity_id: 0,
        gamemode: 1,
        dimension: 0,
        hashed_seed: 0,
        max_players: 0,
        level_type: "default".to_string(),
        view_dist: Varint(8),
        reduced_debug: false,
        respawn_screen: true,
    })
}

#[test]
fn a_fresh_player_is_sent_join_game_on_its_first_tick_and_nothing_after() {
    let mut server = Server::new();
    let client = register(&mut server, 1);
    assert_eq!(server.ticks_of(1), Some(0));
    assert!(client.from_server.try_recv().is_err());

    assert_eq!(server.tick(), Ok(false));
    assert_eq!(client.from_server.try_recv(), Ok(join_game()));
    assert!(client.from_server.try_recv().is_err());
    assert_eq!(server.ticks_of(1), Some(1));

    for n in 2..50u32 {
        assert_eq!(server.tick(), Ok(false));
        assert!(client.from_server.try_recv().is_err());
        assert_eq!(server.ticks_of(1), Some(n));
    }
    drop(client.to_server);
}

#[test]
fn join_game_names_the_fixed_world() {
    assert_eq!(LEVEL_TYPE, "default");
    assert_eq!(VIEW_DISTANCE, 8);
    let mut server = Server::new();
    let client = register(&mut server, 9);
    server.tick().unwrap();
    match client.from_server.try_recv().unwrap() {
        CPacket::JoinGame(join) => {
            assert_eq!(join.entity_id, 0);
            assert_eq!(join.gamemode, 1);
            assert_eq!(join.dimension, 0);
            assert_eq!(join.hashed_seed, 0);
            assert_eq!(join.max_players, 0);
            assert_eq!(join.level_type, "default");
            assert_eq!(join.view_dist, Varint(8));
            assert!(!join.reduced_debug);
            assert!(join.respawn_screen);
        },
        other => panic!("unexpected packet {:?}", other),
    }
}

#[test]
fn a_tick_of_an_empty_table_does_nothing() {
    let mut server = Server::new();
    assert_eq!(server.player_count(), 0);
    assert_eq!(server.tick(), Ok(false));
    assert_eq!(server.ticks_of(1), None);
}

#[test]
fn players_that_join_later_are_sent_join_game_on_their_own_first_tick() {
    let mut server = Server::new();
    let first = register(&mut server, 1);
    server.tick().unwrap();
    server.tick().unwrap();
    let second = register(&mut server, 2);
    assert_eq!(server.player_count(), 2);
    server.tick().unwrap();
    assert_eq!(first.from_server.try_iter().count(), 1);
    assert_eq!(second.from_server.try_recv(), Ok(join_game()));
    assert_eq!(server.ticks_of(1), Some(3));
    assert_eq!(server.ticks_of(2), Some(1));
    server.tick().unwrap();
    assert!(second.from_server.try_recv().is_err());
}

#[test]
fn registering_under_a_known_identifier_replaces_the_player() {
    let mut server = Server::new();
    let old = register(&mut server, 5);
    let other = register(&mut server, 6);
    server.tick().unwrap();
    assert_eq!(old.from_server.try_iter().count(), 1);
    let new = register(&mut server, 5);
    assert_eq!(server.player_count(), 2);
    assert_eq!(server.ticks_of(5), Some(0));
    assert_eq!(server.ticks_of(6), Some(1));
    server.tick().unwrap();
    assert_eq!(new.from_server.try_recv(), Ok(join_game()));
    assert!(old.from_server.try_recv().is_err());
    assert_eq!(other.from_server.try_iter().count(), 1);
}

#[test]
fn a_closed_queue_does_not_fail_the_tick_and_does_not_touch_the_other_players() {
    let mut server = Server::new();
    let first = register(&mut server, 1);
    let second = register(&mut server, 2);
    let third = register(&mut server, 3);
    drop(second.from_server);
    assert_eq!(server.tick(), Ok(false));
    // no player is dropped; the one whose queue is closed is as it was
    assert_eq!(server.player_count(), 3);
    assert_eq!(server.ticks_of(1), Some(1));
    assert_eq!(server.ticks_of(2), Some(0));
    assert_eq!(server.ticks_of(3), Some(1));
    assert_eq!(first.from_server.try_recv(), Ok(join_game()));
    assert_eq!(third.from_server.try_recv(), Ok(join_game()));
    // and the ticks go on
    assert_eq!(server.tick(), Ok(false));
    assert_eq!(server.ticks_of(1), Some(2));
    assert_eq!(server.ticks_of(2), Some(0));
    assert_eq!(server.ticks_of(3), Some(2));
    assert!(first.from_server.try_recv().is_err());
    assert!(third.from_server.try_recv().is_err());
}

#[test]
fn a_disconnected_first_player_does_not_keep_the_second_from_joining() {
    let mut server = Server::new();
    let a = register(&mut server, 10);
    let b = register(&mut server, 11);
    drop(a.from_server);
    assert_eq!(server.tick(), Ok(false));
    assert_eq!(b.from_server.try_recv(), Ok(join_game()));
    assert_eq!(server.ticks_of(11), Some(1));
    assert_eq!(server.ticks_of(10), Some(0));
}

#[test]
fn a_disconnected_player_is_taken_out_of_the_table() {
    let mut server = Server::new();
    let a = register(&mut server, 10);
    let b = register(&mut server, 11);
    drop(a.from_server);
    server.tick().unwrap();
    server.remove_player(10);
    assert_eq!(server.player_count(), 1);
    assert_eq!(server.ticks_of(10), None);
    assert_eq!(server.ticks_of(11), Some(1));
    // taking out a player that is not there changes nothing
    server.remove_player(10);
    server.remove_player(99);
    assert_eq!(server.player_count(), 1);
    server.tick().unwrap();
    assert_eq!(server.ticks_of(11), Some(2));
    assert_eq!(b.from_server.try_iter().count(), 1);
    server.remove_player(11);
    assert_eq!(server.player_count(), 0);
    assert_eq!(server.tick(), Ok(false));
}

#[test]
fn a_table_of_closed_queues_is_ticked_without_failing() {
    let mut server = Server::new();
    for uuid in 0..20u128 {
        let client = register(&mut server, uuid);
        drop(client.from_server);
    }
    for _ in 0..3 {
        assert_eq!(server.tick(), Ok(false));
        assert_eq!(server.player_count(), 20);
    }
    for uuid in 0..20u128 {
        assert_eq!(server.ticks_of(uuid), Some(0));
    }
}

#[test]
fn a_full_queue_is_offered_the_packet_again_on_the_next_tick() {
    let mut server = Server::new();
    let (_to_server, inbound) = unbounded::<SPacket>();
    let (outbound, from_server) = bounded::<CPacket>(1);
    let filler = CPacket::KeepAlive(KeepAlive { value: 7 });
    outbound.send(filler.clone()).unwrap();
    server.add_player(4, inbound, outbound);
    // the queue is full: the tick neither waits nor fails, and the player has seen no tick
    assert_eq!(server.tick(), Ok(false));
    assert_eq!(server.ticks_of(4), Some(0));
    assert_eq!(from_server.try_recv(), Ok(filler));
    assert!(from_server.try_recv().is_err());
    // now there is room
    assert_eq!(server.tick(), Ok(false));
    assert_eq!(server.ticks_of(4), Some(1));
    assert_eq!(from_server.try_recv(), Ok(join_game()));
    assert_eq!(server.tick(), Ok(false));
    assert_eq!(server.ticks_of(4), Some(2));
    assert!(from_server.try_recv().is_err());
}

#[test]
fn every_player_of_a_large_table_is_ticked_once_per_tick() {
    let mut server = Server::new();
    let clients: Vec<Client> = (0..100u128).map(|uuid| register(&mut server, uuid)).collect();
    for round in 1..4u32 {
        assert_eq!(server.tick(), Ok(false));
        assert_eq!(server.player_count(), 100);
        for uuid in 0..100u128 {
            assert_eq!(server.ticks_of(uuid), Some(round));
        }
    }
    for client in &clients {
        assert_eq!(client.from_server.try_iter().count(), 1);
    }
}

#[test]
fn the_count_goes_up_where_the_queue_took_the_packet() {
    assert_eq!(after_send(0, true), Some(1));
    assert_eq!(after_send(0, false), None);
    assert_eq!(after_send(1, true), Some(2));
    assert_eq!(after_send(41, true), Some(42));
    assert_eq!(after_send(41, false), None);
    // the count stops at the largest number and never comes back to zero
    assert_eq!(after_send(u32::MAX - 1, true), Some(u32::MAX));
    assert_eq!(after_send(u32::MAX, true), Some(u32::MAX));
    assert_eq!(after_send(u32::MAX, false), None);
}

#[test]
fn the_packet_due_is_join_game_before_the_first_tick_and_nothing_after() {
    assert_eq!(due_packet(0), Some(join_game()));
    assert_eq!(due_packet(1), None);
    assert_eq!(due_packet(2), None);
    assert_eq!(due_packet(u32::MAX), None);
}

#[test]
fn a_queue_that_closes_after_the_first_tick_changes_nothing() {
    let mut server = Server::new();
    let client = register(&mut server, 1);
    server.tick().unwrap();
    drop(client.from_server);
    assert_eq!(server.tick(), Ok(false));
    assert_eq!(server.ticks_of(1), Some(2));
}

#[test]
fn a_bounded_queue_with_room_takes_the_packet() {
    let mut server = Server::new();
    let (_to_server, inbound) = unbounded::<SPacket>();
    let (outbound, from_server) = bounded::<CPacket>(1);
    server.add_player(4, inbound, outbound);
    assert_eq!(server.tick(), Ok(false));
    assert_eq!(from_server.try_recv(), Ok(join_game()));
}

#[test]
fn sleep_is_the_rest_of_the_tick() {
    assert_eq!(TARGET_MSPT, 50);
    assert_eq!(sleep_millis(0), Some(50));
    assert_eq!(sleep_millis(1), Some(49));
    assert_eq!(sleep_millis(49), Some(1));
    assert_eq!(sleep_millis(50), None);
    assert_eq!(sleep_millis(51), None);
    assert_eq!(sleep_millis(u128::MAX), None);
}
