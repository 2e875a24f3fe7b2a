use catan::client::{ClientNotice, ClientState};
use catan::geometry::Point;
use catan::map::{setup, Board, Connection, ManaPoint, MapInitData};
use catan::protocol::{self, ClientEvents, ClientMessage, ServerMessage};
use catan::server::{MoveRejection, ServerState};
use catan::session::ServerSession;
use catan::sync::SNAPSHOT_INTERVAL_US;
use catan::sync::handle_init_map_send;

fn p(x: i64, y: i64) -> Point {
    Point { x, y }
}

// Junction 1 sits between junctions 0 and 2; junction 3 hangs off junction 1.
fn board() -> Board {
    let l = MapInitData {
        map_start_vertexes: vec![0, 2],
        vertex_positions: vec![p(0, 0), p(1000, 0), p(2000, 0), p(1000, 1000)],
        vertex_connections: vec![
            Connection { a: 0, b: 1 },
            Connection { a: 1, b: 2 },
            Connection { a: 1, b: 3 },
        ],
        mana_points: vec![ManaPoint { pos: p(500, 500), color: "red".to_string() }],
        mana_connections: vec![Connection { a: 0, b: 0 }],
    };
    setup(&l).unwrap()
}

fn server_with_two_players() -> ServerState {
    let mut s = ServerState::new(board());
    assert_eq!(s.server_spawn_players(100), Some(0));
    assert_eq!(s.server_spawn_players(200), Some(1));
    s
}

#[test]
fn players_spawn_on_free_start_junctions() {
    let mut s = server_with_two_players();
    assert_eq!(s.players[0].current_vertex, 0);
    assert_eq!(s.players[1].current_vertex, 2);
    assert_eq!(s.players[1].pos, p(2000, 0));
    assert_eq!(s.occupancy.filled, vec![true, false, true, false]);
    // no start junction is left
    assert_eq!(s.server_spawn_players(300), None);
    // a session spawns one player only
    assert_eq!(s.server_spawn_players(100), None);
    assert_eq!(s.total_players, 2);
}

#[test]
fn move_to_non_adjacent_junction_is_rejected() {
    let mut s = server_with_two_players();
    assert_eq!(s.handle_client_move_player(100, 3), Err(MoveRejection::NotAdjacent));
    assert!(s.players[0].is_idle());
    assert_eq!(s.occupancy.filled, vec![true, false, true, false]);
}

#[test]
fn move_to_occupied_adjacent_junction_is_rejected() {
    let mut s = ServerState::new(board());
    s.server_spawn_players(100);
    // junction 1 is taken by hand for this test
    s.occupancy.filled[1] = true;
    let mut fake = catan::players::Player::new(9, 1, p(1000, 0), 900);
    fake.roation_index = 0;
    s.players.push(fake);
    s.total_players = 10;
    assert_eq!(s.handle_client_move_player(100, 1), Err(MoveRejection::AlreadyOccupied));
    assert!(s.players[0].is_idle());
}

#[test]
fn unknown_target_or_session_is_discarded() {
    let mut s = server_with_two_players();
    assert_eq!(s.handle_client_move_player(100, 42), Err(MoveRejection::UnknownNodeReference));
    assert_eq!(s.handle_client_move_player(555, 1), Err(MoveRejection::UnknownPlayerForSession));
}

#[test]
fn two_intents_for_one_junction_only_first_wins() {
    let mut s = server_with_two_players();
    assert_eq!(s.handle_client_move_player(100, 1), Ok(()));
    assert_eq!(s.handle_client_move_player(200, 1), Err(MoveRejection::AlreadyOccupied));
    assert_eq!(s.players[0].next_vertex(), Some(1));
    assert_eq!(s.players[1].next_vertex(), None);
    assert_eq!(s.occupancy.filled, vec![true, true, true, false]);
    // a moving player is not re-routed
    assert_eq!(s.handle_client_move_player(100, 3), Err(MoveRejection::NotIdle));
}

#[test]
fn move_runs_to_arrival_and_releases_origin() {
    let mut s = server_with_two_players();
    assert!(s.players[0].is_idle());
    assert_eq!(s.handle_client_move_player(100, 1), Ok(()));
    assert!(!s.players[0].is_idle());
    // 5 ms at 60 units per second is 300 thousandths of a unit
    s.move_players(5_000);
    assert_eq!(s.players[0].pos, p(300, 0));
    assert_eq!(s.players[0].current_vertex, 0);
    assert_eq!(s.players[0].roation_index, 0);
    s.move_players(5_000);
    s.move_players(5_000);
    assert_eq!(s.players[0].pos, p(900, 0));
    assert!(!s.players[0].is_idle());
    s.move_players(5_000);
    assert_eq!(s.players[0].pos, p(1000, 0));
    assert_eq!(s.players[0].current_vertex, 1);
    assert!(s.players[0].is_idle());
    assert_eq!(s.occupancy.filled, vec![false, true, true, false]);
    // the other player never moved
    assert_eq!(s.players[1].pos, p(2000, 0));
}

#[test]
fn disconnect_removes_player_and_frees_its_junctions() {
    let mut s = server_with_two_players();
    assert_eq!(s.handle_client_move_player(200, 1), Ok(()));
    assert!(s.remove_player(200));
    assert!(!s.remove_player(200));
    assert_eq!(s.players.len(), 1);
    assert_eq!(s.occupancy.filled, vec![true, false, false, false]);
}

#[test]
fn snapshot_lists_players_and_fill_flags() {
    let mut session = ServerSession::new(server_with_two_players());
    session.users.insert(100, "ann".to_string());
    let out = session.snapshot_messages();
    assert_eq!(out.len(), 2);
    assert_eq!(out[0].to, vec![100]);
    match &out[0].message {
        ServerMessage::UpdatePlayers { players } => {
            assert_eq!(players.len(), 2);
            assert_eq!(
                players[1],
                protocol::Player {
                    id: 1,
                    x: 2000,
                    y: 0,
                    rotation: 0,
                    current_vertex: 2,
                    next_vertex: None,
                    client_owner_id: 200,
                }
            );
        }
        _ => panic!("expected a player snapshot"),
    }
    match &out[1].message {
        ServerMessage::UpdateMap { vertexes, .. } => {
            assert_eq!(vertexes.len(), 4);
            assert_eq!(vertexes[2], protocol::VertexUpdate { id: 2, filled: true });
            assert_eq!(vertexes[3], protocol::VertexUpdate { id: 3, filled: false });
        }
        _ => panic!("expected a board delta"),
    }
}

#[test]
fn join_chat_and_disconnect_messages() {
    let mut session = ServerSession::new(ServerState::new(board()));
    let out = session.handle_client_messages(7, ClientMessage::Join { name: "ann".to_string() });
    assert_eq!(out.len(), 3);
    assert_eq!(out[0].to, vec![7]);
    assert!(matches!(out[0].message, ServerMessage::InitClient { client_id: 7, .. }));
    assert!(matches!(out[1].message, ServerMessage::ClientConnected { client_id: 7, .. }));
    assert!(matches!(out[2].message, ServerMessage::InitMap { .. }));
    assert_eq!(session.state.players.len(), 1);
    let again = session.handle_client_messages(7, ClientMessage::Join { name: "ann".to_string() });
    assert_eq!(again.len(), 0);
    session.handle_client_messages(8, ClientMessage::Join { name: "bob".to_string() });
    let chat = session.handle_client_messages(8, ClientMessage::ChatMessage { message: "hi".to_string() });
    assert_eq!(chat[0].to, vec![7, 8]);
    let moved = session.handle_client_messages(
        7,
        ClientMessage::SendEvent { name: ClientEvents::MOVE, map_type: 1, type_id: 1 },
    );
    assert_eq!(moved.len(), 0);
    assert_eq!(session.state.players[0].next_vertex(), Some(1));
    let gone = session.handle_client_messages(8, ClientMessage::Disconnect {});
    assert_eq!(gone.len(), 1);
    assert_eq!(gone[0].to, vec![7]);
    assert!(matches!(gone[0].message, ServerMessage::ClientDisconnected { client_id: 8 }));
    assert_eq!(session.state.players.len(), 1);
    assert_eq!(session.handle_client_messages(8, ClientMessage::Disconnect {}).len(), 0);
}

fn joined_client(self_id: u64) -> ClientState {
    let mut c = ClientState::new(self_id);
    let (vs, es, ms) = handle_init_map_send(&board());
    assert!(c.init_map(&vs, &es, &ms));
    c
}

fn entry(id: u32, x: i64, y: i64, current: u32, next: Option<u32>, owner: u64) -> protocol::Player {
    protocol::Player { id, x, y, rotation: 0, current_vertex: current, next_vertex: next, client_owner_id: owner }
}

#[test]
fn snapshot_spawns_and_updates_players() {
    let mut c = joined_client(100);
    c.update_players(&vec![entry(0, 0, 0, 0, None, 100), entry(1, 2000, 0, 2, None, 200)]);
    assert_eq!(c.players.len(), 2);
    // fill flags come from the server's board deltas only
    assert_eq!(c.occupancy.filled, vec![false, false, false, false]);
    assert_eq!(c.controlled_player(), Some(0));
    c.update_players(&vec![entry(0, 400, 0, 0, Some(1), 100), entry(1, 2000, 0, 2, None, 200)]);
    assert_eq!(c.players[0].next_vertex(), Some(1));
    assert!(!c.players[0].is_idle());
    c.update_players(&vec![entry(0, 1000, 0, 1, None, 100), entry(1, 2000, 0, 2, None, 200)]);
    assert!(c.players[0].is_idle());
    assert_eq!(c.players[0].current_vertex, 1);
    assert_eq!(c.players[0].pos, p(1000, 0));
}

#[test]
fn snapshot_omitting_player_removes_it() {
    let mut c = joined_client(100);
    c.update_players(&vec![entry(0, 0, 0, 0, None, 100), entry(1, 2000, 0, 2, None, 200)]);
    assert_eq!(c.players.len(), 2);
    c.update_players(&vec![entry(0, 0, 0, 0, None, 100)]);
    assert_eq!(c.players.len(), 1);
    assert_eq!(c.players[0].id, 0);
    c.update_players(&vec![]);
    assert_eq!(c.players.len(), 0);
}

#[test]
fn snapshot_before_board_is_ignored() {
    let mut c = ClientState::new(100);
    c.update_players(&vec![entry(0, 0, 0, 0, None, 100)]);
    assert_eq!(c.players.len(), 0);
}

#[test]
fn snapshot_entry_on_unknown_junction_is_skipped() {
    let mut c = joined_client(100);
    c.update_players(&vec![entry(0, 0, 0, 77, None, 100)]);
    assert_eq!(c.players.len(), 0);
}

#[test]
fn map_delta_sets_flags_verbatim() {
    let mut c = joined_client(100);
    c.update_map(&vec![
        protocol::VertexUpdate { id: 1, filled: true },
        protocol::VertexUpdate { id: 9, filled: true },
        protocol::VertexUpdate { id: 3, filled: true },
        protocol::VertexUpdate { id: 3, filled: false },
    ]);
    assert_eq!(c.occupancy.filled, vec![false, true, false, false]);
}

#[test]
fn selection_produces_move_requests_only_when_idle() {
    let mut c = joined_client(100);
    c.update_players(&vec![entry(0, 1000, 0, 1, None, 100), entry(1, 2000, 0, 2, None, 200)]);
    c.update_map(&vec![
        protocol::VertexUpdate { id: 1, filled: true },
        protocol::VertexUpdate { id: 2, filled: true },
    ]);
    // 2 is occupied, 0 and 3 are free; 0 is not selected
    assert_eq!(c.move_my_player(&vec![2, 3, 5]), vec![3]);
    assert_eq!(c.move_my_player(&vec![0, 3]), vec![0, 3]);
    c.update_players(&vec![entry(0, 1000, 100, 1, Some(3), 100), entry(1, 2000, 0, 2, None, 200)]);
    assert_eq!(c.move_my_player(&vec![0, 3]), Vec::<u32>::new());
    let other = joined_client(300);
    assert_eq!(other.move_my_player(&vec![0]), Vec::<u32>::new());
}

#[test]
fn client_moves_players_toward_their_target() {
    let mut c = joined_client(100);
    c.update_players(&vec![entry(0, 0, 0, 0, Some(1), 100)]);
    c.move_players(10_000);
    assert_eq!(c.players[0].pos, p(600, 0));
    c.move_players(10_000);
    assert_eq!(c.players[0].pos, p(1000, 0));
    assert_eq!(c.players[0].current_vertex, 1);
    assert!(c.players[0].is_idle());
}

#[test]
fn client_messages_update_registry() {
    let mut c = ClientState::new(0);
    let n = c.handle_server_messages(ServerMessage::InitClient {
        client_id: 5,
        usernames: vec![(5, "me".to_string()), (6, "you".to_string())],
    });
    assert!(matches!(n, ClientNotice::Nothing));
    assert_eq!(c.users.self_id, 5);
    assert!(c.users.contains_key(6));
    match c.handle_server_messages(ServerMessage::ChatMessage { client_id: 6, message: "hey".to_string() }) {
        ClientNotice::Chat { username, message } => {
            assert_eq!(username, "you");
            assert_eq!(message, "hey");
        }
        _ => panic!("expected a chat line"),
    }
    assert!(matches!(
        c.handle_server_messages(ServerMessage::ChatMessage { client_id: 5, message: "me".to_string() }),
        ClientNotice::Nothing
    ));
    assert!(matches!(
        c.handle_server_messages(ServerMessage::ClientConnected { client_id: 7, username: "new".to_string() }),
        ClientNotice::Joined { .. }
    ));
    match c.handle_server_messages(ServerMessage::ClientDisconnected { client_id: 6 }) {
        ClientNotice::Left { username } => assert_eq!(username, "you"),
        _ => panic!("expected a departure"),
    }
    assert!(matches!(
        c.handle_server_messages(ServerMessage::ClientDisconnected { client_id: 6 }),
        ClientNotice::UnknownClient { client_id: 6 }
    ));
}

#[test]
fn despawn_waits_for_the_configured_interval() {
    let mut c = joined_client(100);
    c.set_despawn_interval(3);
    c.update_players(&vec![entry(0, 0, 0, 0, None, 100), entry(1, 2000, 0, 2, None, 200)]);
    c.update_players(&vec![entry(0, 0, 0, 0, None, 100)]);
    assert_eq!(c.players.len(), 2);
    c.update_players(&vec![entry(0, 0, 0, 0, None, 100)]);
    assert_eq!(c.players.len(), 1);
    assert_eq!(c.snapshots_since_despawn, 0);
}

#[test]
fn init_client_keeps_first_name_of_each_session() {
    let mut c = ClientState::new(0);
    c.handle_server_messages(ServerMessage::InitClient {
        client_id: 5,
        usernames: vec![(5, "me".to_string()), (6, "you".to_string()), (5, "again".to_string())],
    });
    assert_eq!(c.users.names, vec![(5, "me".to_string()), (6, "you".to_string())]);
}

#[test]
fn reconnect_moves_name_to_the_end() {
    let mut c = ClientState::new(0);
    c.handle_server_messages(ServerMessage::InitClient {
        client_id: 5,
        usernames: vec![(5, "me".to_string()), (6, "you".to_string()), (7, "they".to_string())],
    });
    c.handle_server_messages(ServerMessage::ClientConnected { client_id: 6, username: "new".to_string() });
    assert_eq!(
        c.users.names,
        vec![(5, "me".to_string()), (7, "they".to_string()), (6, "new".to_string())]
    );
    c.handle_server_messages(ServerMessage::ClientDisconnected { client_id: 7 });
    assert_eq!(c.users.names, vec![(5, "me".to_string()), (6, "new".to_string())]);
}

#[test]
fn server_tick_processes_inbox_then_moves_then_snapshots() {
    let mut session = ServerSession::new(ServerState::new(board()));
    let inbox = vec![
        (7u64, ClientMessage::Join { name: "ann".to_string() }),
        (7u64, ClientMessage::SendEvent { name: ClientEvents::MOVE, map_type: 1, type_id: 1 }),
    ];
    let out = session.tick(inbox, SNAPSHOT_INTERVAL_US as u32);
    // three join messages, then the two snapshot messages
    assert_eq!(out.len(), 5);
    assert!(matches!(out[2].message, ServerMessage::InitMap { .. }));
    match &out[3].message {
        ServerMessage::UpdatePlayers { players } => {
            // 50 ms at 60 units per second covers the whole 1000-thousandths edge
            assert_eq!(players[0].current_vertex, 1);
            assert_eq!(players[0].x, 1000);
            assert_eq!(players[0].next_vertex, None);
        }
        _ => panic!("expected a player snapshot"),
    }
    match &out[4].message {
        ServerMessage::UpdateMap { vertexes, .. } => {
            assert_eq!(vertexes[0].filled, false);
            assert_eq!(vertexes[1].filled, true);
        }
        _ => panic!("expected a board delta"),
    }
    let quiet = session.tick(vec![], 10_000);
    assert_eq!(quiet.len(), 0);
    assert_eq!(session.timer.accumulated_us, 10_000);
}

#[test]
fn snapshot_cadence_subtracts_the_interval() {
    let mut session = ServerSession::new(server_with_two_players());
    session.users.insert(100, "ann".to_string());
    assert_eq!(session.send_game_state(30_000).len(), 0);
    assert_eq!(session.timer.accumulated_us, 30_000);
    let out = session.send_game_state(30_000);
    assert_eq!(out.len(), 2);
    assert!(matches!(out[0].message, ServerMessage::UpdatePlayers { .. }));
    assert_eq!(session.timer.accumulated_us, 10_000);
}

#[test]
fn snapshot_next_junction_replaces_stale_targets() {
    let mut c = joined_client(100);
    c.update_players(&vec![entry(0, 1000, 0, 1, Some(3), 100)]);
    assert_eq!(c.players[0].next_vertex(), Some(3));
    c.update_players(&vec![entry(0, 1000, 0, 1, Some(0), 100)]);
    assert_eq!(c.players[0].next_vertex(), Some(0));
    assert!(!c.players[0].has_target(3));
    // an entry naming an unknown next junction is a stale reference and changes nothing
    c.update_players(&vec![entry(0, 1000, 0, 1, Some(42), 100)]);
    assert_eq!(c.players[0].next_vertex(), Some(0));
    assert_eq!(c.players.len(), 1);
}
