//! Behavior of the player lifecycle: joining, anti-cheat movement, stat
//! updates, and zone changes.

use mmo_core::errors::GameError;
use mmo_core::geometry::{calculate_distance, isqrt, validate_movement, validate_world_position};
use mmo_core::ids::Identity;
use mmo_core::player::{
    change_zone, get_players_in_zone, join_game, leave_game, update_player_position,
    update_player_stats,
};
use mmo_core::session::{login_user, register_user};
use mmo_core::state::WorldState;

fn logged_in(state: &mut WorldState, id: u128, name: &str) -> Identity {
    let caller = Identity::new(id);
    register_user(state, &caller, name.to_string(), "longpassword".to_string(), None, 0).unwrap();
    login_user(
        state,
        &caller,
        name.to_string(),
        "longpassword".to_string(),
        "1.0".to_string(),
        None,
        0,
    )
    .unwrap();
    caller
}

#[test]
fn join_requires_session_and_creates_the_player() {
    let mut state = WorldState::new();
    let stranger = Identity::new(7);
    assert_eq!(
        join_game(&mut state, &stranger, "plains".to_string(), 0),
        Err(GameError::Permission)
    );
    let caller = logged_in(&mut state, 1, "newbie12");
    assert_eq!(
        join_game(&mut state, &caller, "".to_string(), 1),
        Err(GameError::Validation)
    );
    join_game(&mut state, &caller, "plains".to_string(), 1).unwrap();
    let p = &state.players[0];
    assert_eq!((p.position_x, p.position_y, p.position_z), (0, 0, 0));
    assert_eq!(p.level, 1);
    assert_eq!(p.health, 100);
    assert_eq!(p.max_health, 100);
    assert!(p.is_online);
    assert_eq!(p.current_zone, "plains");
    assert_eq!(p.username, "newbie12");

    // Rejoining after leaving keeps the character but marks it online in
    // the new zone.
    leave_game(&mut state, &caller, 2).unwrap();
    assert!(!state.players[0].is_online);
    join_game(&mut state, &caller, "desert".to_string(), 3).unwrap();
    assert_eq!(state.players.len(), 1);
    assert!(state.players[0].is_online);
    assert_eq!(state.players[0].current_zone, "desert");
}

#[test]
fn movement_respects_the_anti_teleport_ceiling() {
    let mut state = WorldState::new();
    let caller = logged_in(&mut state, 1, "runner12");
    join_game(&mut state, &caller, "plains".to_string(), 0).unwrap();

    // Distance 51 from the origin: rejected, position unchanged.
    assert_eq!(
        update_player_position(&mut state, &caller, 51, 0, 0, 0, 1),
        Err(GameError::Validation)
    );
    assert_eq!(state.players[0].position_x, 0);

    // Distance 49: accepted, position committed.
    update_player_position(&mut state, &caller, 49, 0, 0, 90, 2).unwrap();
    assert_eq!(state.players[0].position_x, 49);
    assert_eq!(state.players[0].rotation_yaw, 90);
    assert_eq!(state.players[0].last_seen, 2);

    // Distance exactly 50 from the previous point: accepted.
    update_player_position(&mut state, &caller, 99, 0, 0, 90, 3).unwrap();
    assert_eq!(state.players[0].position_x, 99);

    // Moves measure from the last position, not the origin: a diagonal
    // of 30-40-50 from (99,0,0) is exactly at the ceiling.
    update_player_position(&mut state, &caller, 99 + 30, 40, 0, 0, 4).unwrap();
    assert_eq!(
        (state.players[0].position_x, state.players[0].position_y),
        (129, 40)
    );
}

#[test]
fn movement_checks_apply_to_unknown_players_too() {
    let mut state = WorldState::new();
    let nobody = Identity::new(3);
    assert_eq!(
        update_player_position(&mut state, &nobody, 1, 0, 0, 0, 1),
        Err(GameError::NotFound)
    );
}

#[test]
fn stat_updates_clamp_health_and_keep_rows_valid() {
    let mut state = WorldState::new();
    let caller = logged_in(&mut state, 1, "veteran1");
    join_game(&mut state, &caller, "plains".to_string(), 0).unwrap();

    update_player_stats(&mut state, &caller, Some(5), Some(1234), None, None, 1).unwrap();
    assert_eq!(state.players[0].level, 5);
    assert_eq!(state.players[0].experience, 1234);

    // Health above the maximum clamps to it.
    update_player_stats(&mut state, &caller, None, None, Some(250), None, 2).unwrap();
    assert_eq!(state.players[0].health, 100);

    // Lowering the maximum drags health down with it.
    update_player_stats(&mut state, &caller, None, None, None, Some(60), 3).unwrap();
    assert_eq!(state.players[0].max_health, 60);
    assert_eq!(state.players[0].health, 60);

    // A zero level or zero maximum would break the row; both refused.
    assert_eq!(
        update_player_stats(&mut state, &caller, Some(0), None, None, None, 4),
        Err(GameError::Validation)
    );
    assert_eq!(
        update_player_stats(&mut state, &caller, None, None, None, Some(0), 4),
        Err(GameError::Validation)
    );
}

#[test]
fn zone_changes_move_and_relocate() {
    let mut state = WorldState::new();
    let caller = logged_in(&mut state, 1, "traveler");
    join_game(&mut state, &caller, "plains".to_string(), 0).unwrap();
    change_zone(&mut state, &caller, "caves".to_string(), 5000, -2000, 30, 1).unwrap();
    let p = &state.players[0];
    assert_eq!(p.current_zone, "caves");
    assert_eq!((p.position_x, p.position_y, p.position_z), (5000, -2000, 30));
    assert_eq!(
        change_zone(&mut state, &caller, "".to_string(), 0, 0, 0, 2),
        Err(GameError::Validation)
    );
}

#[test]
fn zone_listing_returns_online_players_there() {
    let mut state = WorldState::new();
    let a = logged_in(&mut state, 1, "alice123");
    let b = logged_in(&mut state, 2, "bob12345");
    let c = logged_in(&mut state, 3, "carol123");
    join_game(&mut state, &a, "plains".to_string(), 1).unwrap();
    join_game(&mut state, &b, "plains".to_string(), 1).unwrap();
    join_game(&mut state, &c, "desert".to_string(), 1).unwrap();
    leave_game(&mut state, &b, 2).unwrap();

    let plains = get_players_in_zone(&state, &a, "plains".to_string()).unwrap();
    assert_eq!(plains.len(), 1);
    assert_eq!(plains[0].username, "alice123");
    let desert = get_players_in_zone(&state, &a, "desert".to_string()).unwrap();
    assert_eq!(desert.len(), 1);
}

#[test]
fn geometry_primitives_behave() {
    assert_eq!(isqrt(0), 0);
    assert_eq!(isqrt(1), 1);
    assert_eq!(isqrt(24), 4);
    assert_eq!(isqrt(25), 5);
    assert_eq!(isqrt(2600), 50);
    assert_eq!(isqrt(2601), 51);
    assert_eq!(calculate_distance(0, 0, 0, 3, 4, 0), 5);
    assert_eq!(calculate_distance(1, 1, 1, 1, 1, 1), 0);
    assert!(validate_movement(0, 0, 0, 30, 40, 0, 50).is_ok());
    assert_eq!(
        validate_movement(0, 0, 0, 30, 40, 1, 50),
        Err(GameError::Validation)
    );
    assert!(validate_world_position(10_000, -10_000, 0).is_ok());
    assert_eq!(
        validate_world_position(10_001, 0, 0),
        Err(GameError::Validation)
    );
}
