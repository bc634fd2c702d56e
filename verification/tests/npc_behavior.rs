//! Behavior of the NPC engine: damage, death, respawn, aggression, and
//! tick idempotence.

use mmo_core::errors::GameError;
use mmo_core::ids::Identity;
use mmo_core::npc::{attack_npc, is_aggressive_npc, spawn_npc, update_npc_ai, AIState};
use mmo_core::player::join_game;
use mmo_core::session::{login_user, register_user};
use mmo_core::state::WorldState;

fn world_with_player(id: u128, name: &str) -> (WorldState, Identity) {
    let mut state = WorldState::new();
    let caller = Identity::new(id);
    register_user(
        &mut state,
        &caller,
        name.to_string(),
        "longpassword".to_string(),
        None,
        0,
    )
    .unwrap();
    login_user(
        &mut state,
        &caller,
        name.to_string(),
        "longpassword".to_string(),
        "1.0".to_string(),
        None,
        0,
    )
    .unwrap();
    join_game(&mut state, &caller, "plains".to_string(), 0).unwrap();
    (state, caller)
}

#[test]
fn npc_damage_death_and_respawn() {
    let (mut state, caller) = world_with_player(1, "warrior");
    let npc_id = spawn_npc(
        &mut state,
        &caller,
        "Grik".to_string(),
        "goblin".to_string(),
        0,
        0,
        0,
        1,
        10,
    )
    .unwrap();
    assert_eq!(state.npcs[0].health, 50);
    assert_eq!(state.npcs[0].max_health, 50);

    attack_npc(&mut state, &caller, npc_id, 60, 100).unwrap();
    assert_eq!(state.npcs[0].health, 0);
    assert!(matches!(state.npcs[0].ai_state, AIState::Dead));
    assert_eq!(state.npcs[0].respawn_time, 100);

    // One second early: still dead.
    update_npc_ai(&mut state, npc_id, 129).unwrap();
    assert!(matches!(state.npcs[0].ai_state, AIState::Dead));
    assert_eq!(state.npcs[0].health, 0);

    // Exactly the respawn duration later: back to idle at full health.
    update_npc_ai(&mut state, npc_id, 130).unwrap();
    assert!(matches!(state.npcs[0].ai_state, AIState::Idle));
    assert_eq!(state.npcs[0].health, 50);
}

#[test]
fn npc_damage_provokes_idle_into_chasing() {
    let (mut state, caller) = world_with_player(2, "rogue");
    let npc_id = spawn_npc(
        &mut state,
        &caller,
        "Grok".to_string(),
        "goblin".to_string(),
        3,
        0,
        0,
        1,
        0,
    )
    .unwrap();
    assert!(matches!(state.npcs[0].ai_state, AIState::Idle));
    attack_npc(&mut state, &caller, npc_id, 10, 5).unwrap();
    assert_eq!(state.npcs[0].health, 40);
    assert!(matches!(state.npcs[0].ai_state, AIState::Chasing));
}

#[test]
fn npc_tick_without_change_is_a_no_op() {
    let (mut state, caller) = world_with_player(3, "wizard");
    // Spawn far from the player so nobody is nearby.
    let npc_id = spawn_npc(
        &mut state,
        &caller,
        "Wanderer".to_string(),
        "goblin".to_string(),
        500,
        500,
        0,
        1,
        0,
    )
    .unwrap();

    // First tick: idle NPCs with nobody nearby start patrolling and take
    // one patrol step.
    update_npc_ai(&mut state, npc_id, 1).unwrap();
    assert!(matches!(state.npcs[0].ai_state, AIState::Patrolling));
    let x1 = state.npcs[0].position_x;
    let y1 = state.npcs[0].position_y;
    assert!((x1, y1) != (500, 500));

    // Second tick under the same conditions: state unchanged, and no
    // movement beyond the already-applied step.
    update_npc_ai(&mut state, npc_id, 2).unwrap();
    assert!(matches!(state.npcs[0].ai_state, AIState::Patrolling));
    assert_eq!(state.npcs[0].position_x, x1);
    assert_eq!(state.npcs[0].position_y, y1);
}

#[test]
fn aggressive_npc_chases_nearby_player() {
    let (mut state, caller) = world_with_player(4, "paladin");
    let npc_id = spawn_npc(
        &mut state,
        &caller,
        "Hunter".to_string(),
        "orc".to_string(),
        8,
        0,
        0,
        1,
        0,
    )
    .unwrap();
    // The player at the origin is within the perception radius of 10.
    update_npc_ai(&mut state, npc_id, 1).unwrap();
    assert!(matches!(state.npcs[0].ai_state, AIState::Chasing));
    // The chase stepped toward the player by the chase speed.
    assert_eq!(state.npcs[0].position_x, 6);
    assert_eq!(state.npcs[0].position_y, 0);
}

#[test]
fn merchant_stays_idle_near_players() {
    let (mut state, caller) = world_with_player(5, "trader");
    let npc_id = spawn_npc(
        &mut state,
        &caller,
        "Shopkeep".to_string(),
        "merchant".to_string(),
        2,
        0,
        0,
        1,
        0,
    )
    .unwrap();
    assert_eq!(state.npcs[0].health, 100);
    update_npc_ai(&mut state, npc_id, 1).unwrap();
    assert!(matches!(state.npcs[0].ai_state, AIState::Idle));
    assert_eq!(state.npcs[0].position_x, 2);
}

#[test]
fn low_health_npc_flees_from_players() {
    let (mut state, caller) = world_with_player(6, "archer");
    let npc_id = spawn_npc(
        &mut state,
        &caller,
        "Coward".to_string(),
        "goblin".to_string(),
        4,
        0,
        0,
        1,
        0,
    )
    .unwrap();
    // Bring the goblin below a fifth of its health: 9 < 50 / 5.
    attack_npc(&mut state, &caller, npc_id, 41, 1).unwrap();
    assert_eq!(state.npcs[0].health, 9);
    assert!(matches!(state.npcs[0].ai_state, AIState::Chasing));
    // Chasing with low health turns into fleeing, stepping away.
    update_npc_ai(&mut state, npc_id, 2).unwrap();
    assert!(matches!(state.npcs[0].ai_state, AIState::Fleeing));
    assert!(state.npcs[0].position_x > 4);
}

#[test]
fn spawn_rejects_out_of_bounds_position() {
    let mut state = WorldState::new();
    let caller = Identity::new(7);
    let r = spawn_npc(
        &mut state,
        &caller,
        "Ghost".to_string(),
        "goblin".to_string(),
        10_001,
        0,
        0,
        1,
        0,
    );
    assert_eq!(r, Err(GameError::Validation));
    assert_eq!(state.npcs.len(), 0);
}

#[test]
fn attack_requires_online_player_in_range() {
    let (mut state, caller) = world_with_player(8, "slacker");
    let npc_id = spawn_npc(
        &mut state,
        &caller,
        "Target".to_string(),
        "orc".to_string(),
        0,
        0,
        0,
        1,
        0,
    )
    .unwrap();

    // A stranger with no player row cannot attack.
    let stranger = Identity::new(99);
    assert_eq!(
        attack_npc(&mut state, &stranger, npc_id, 5, 1),
        Err(GameError::NotFound)
    );

    // Too far away: move the NPC out of the attack range of 5.
    let far_id = spawn_npc(
        &mut state,
        &caller,
        "Faraway".to_string(),
        "orc".to_string(),
        9_000,
        0,
        0,
        1,
        0,
    )
    .unwrap();
    assert_eq!(
        attack_npc(&mut state, &caller, far_id, 5, 1),
        Err(GameError::Validation)
    );

    // An offline player may not attack.
    mmo_core::player::leave_game(&mut state, &caller, 2).unwrap();
    assert_eq!(
        attack_npc(&mut state, &caller, npc_id, 5, 3),
        Err(GameError::Permission)
    );

    // A missing NPC is reported as such.
    let (mut other, other_id) = world_with_player(9, "hunterx");
    assert_eq!(
        attack_npc(&mut other, &other_id, 424242, 5, 1),
        Err(GameError::NotFound)
    );
}

#[test]
fn npc_type_aggression_table() {
    assert!(is_aggressive_npc("goblin"));
    assert!(is_aggressive_npc("orc"));
    assert!(is_aggressive_npc("dragon"));
    assert!(!is_aggressive_npc("merchant"));
    assert!(!is_aggressive_npc("sheep"));
}

#[test]
fn ai_state_text_round_trip() {
    let states = vec![
        AIState::Idle,
        AIState::Patrolling,
        AIState::Chasing,
        AIState::Attacking,
        AIState::Fleeing,
        AIState::Dead,
    ];
    for st in states {
        let text = st.to_string();
        let back = AIState::from_string(text).unwrap();
        assert_eq!(back, st);
    }
    // Unknown values are a hard decode error, never a silent default.
    assert_eq!(AIState::from_string("sleeping"), Err(GameError::Validation));
    assert_eq!(AIState::from_string(""), Err(GameError::Validation));
}

#[test]
fn dragon_has_dragon_stats() {
    let (mut state, caller) = world_with_player(10, "knight");
    spawn_npc(
        &mut state,
        &caller,
        "Smaug".to_string(),
        "dragon".to_string(),
        100,
        100,
        0,
        1,
        0,
    )
    .unwrap();
    assert_eq!(state.npcs[0].health, 1000);
    // Unknown types fall back to the baseline pair.
    spawn_npc(
        &mut state,
        &caller,
        "Mystery".to_string(),
        "slime".to_string(),
        100,
        100,
        0,
        1,
        0,
    )
    .unwrap();
    assert_eq!(state.npcs[1].health, 50);
    assert_eq!(state.npcs[1].max_health, 50);
}
