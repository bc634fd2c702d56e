//! Behavior of sessions, authentication, and skill progression.

use mmo_core::auth::{hash_password, verify_password};
use mmo_core::errors::GameError;
use mmo_core::ids::Identity;
use mmo_core::player::join_game;
use mmo_core::session::{
    cleanup_inactive_sessions, force_disconnect_user, get_online_players_count, get_session_info,
    heartbeat, is_user_online, login_user, logout_user, register_user, update_client_version,
    validate_authenticated_user, validate_player_in_game,
};
use mmo_core::skills::{calculate_required_experience, gain_skill_experience};
use mmo_core::state::WorldState;

fn registered(state: &mut WorldState, id: u128, name: &str) -> Identity {
    let caller = Identity::new(id);
    register_user(state, &caller, name.to_string(), "longpassword".to_string(), None, 0).unwrap();
    caller
}

fn logged_in(state: &mut WorldState, id: u128, name: &str, now: u64) -> Identity {
    let caller = registered(state, id, name);
    login_user(
        state,
        &caller,
        name.to_string(),
        "longpassword".to_string(),
        "1.0".to_string(),
        None,
        now,
    )
    .unwrap();
    caller
}

#[test]
fn registration_validates_inputs() {
    let mut state = WorldState::new();
    let caller = Identity::new(1);
    // Username too short after trimming.
    assert_eq!(
        register_user(&mut state, &caller, " ab ".to_string(), "longpassword".to_string(), None, 0),
        Err(GameError::Validation)
    );
    // Password too short.
    assert_eq!(
        register_user(&mut state, &caller, "goodname".to_string(), "short".to_string(), None, 0),
        Err(GameError::Validation)
    );
    // Email must carry both an at sign and a dot.
    assert_eq!(
        register_user(
            &mut state,
            &caller,
            "goodname".to_string(),
            "longpassword".to_string(),
            Some("not-an-email".to_string()),
            0,
        ),
        Err(GameError::Validation)
    );
    register_user(
        &mut state,
        &caller,
        "goodname".to_string(),
        "longpassword".to_string(),
        Some("user@example.com".to_string()),
        0,
    )
    .unwrap();
    // The username is now taken.
    let other = Identity::new(2);
    assert_eq!(
        register_user(&mut state, &other, "goodname".to_string(), "longpassword".to_string(), None, 1),
        Err(GameError::State)
    );
    // One identity registers once.
    assert_eq!(
        register_user(&mut state, &caller, "othername".to_string(), "longpassword".to_string(), None, 1),
        Err(GameError::State)
    );
}

#[test]
fn login_checks_credentials_and_opens_a_session() {
    let mut state = WorldState::new();
    let caller = registered(&mut state, 1, "gamer123");
    assert_eq!(
        login_user(
            &mut state,
            &caller,
            "gamer123".to_string(),
            "wrongpassword".to_string(),
            "1.0".to_string(),
            None,
            5,
        ),
        Err(GameError::Permission)
    );
    assert_eq!(
        login_user(
            &mut state,
            &caller,
            "whoisthis".to_string(),
            "longpassword".to_string(),
            "1.0".to_string(),
            None,
            5,
        ),
        Err(GameError::Permission)
    );
    login_user(
        &mut state,
        &caller,
        "gamer123".to_string(),
        "longpassword".to_string(),
        "1.0".to_string(),
        Some(7),
        5,
    )
    .unwrap();
    let session = get_session_info(&state, &caller).unwrap().unwrap();
    assert_eq!(session.login_time, 5);
    assert_eq!(session.connection_id, Some(7));
    assert_eq!(session.client_version, "1.0");
}

#[test]
fn password_hashing_is_salted_and_verifiable() {
    let hash = hash_password("password123", "somesalt");
    assert_eq!(hash.len(), 64);
    // The digest of the password, the salt, and the server pepper.
    assert_eq!(
        hash,
        "5e0f47159d78fea26787360ea4ffe10580315f66794cd9a5564d45c80c2add76"
    );
    assert!(verify_password("password123", &hash, "somesalt"));
    assert!(!verify_password("password124", &hash, "somesalt"));
    assert!(!verify_password("password123", &hash, "othersalt"));
    // A different salt yields a different stored hash.
    assert_ne!(hash, hash_password("password123", "othersalt"));
}

#[test]
fn inactive_sessions_are_reaped_and_players_marked_offline() {
    let mut state = WorldState::new();
    let idle = logged_in(&mut state, 1, "idleuser", 0);
    join_game(&mut state, &idle, "plains".to_string(), 0).unwrap();
    let busy = logged_in(&mut state, 2, "busyuser", 0);
    join_game(&mut state, &busy, "plains".to_string(), 0).unwrap();

    // The busy user stays active; the idle one does not.
    heartbeat(&mut state, &busy, 200).unwrap();

    assert!(is_user_online(&state, &idle));
    let removed = cleanup_inactive_sessions(&mut state, 400);
    assert_eq!(removed, 1);
    assert!(!is_user_online(&state, &idle));
    assert!(is_user_online(&state, &busy));
    assert!(get_session_info(&state, &idle).unwrap().is_none());
    assert!(get_session_info(&state, &busy).unwrap().is_some());
    assert_eq!(get_online_players_count(&state).unwrap(), 1);
}

#[test]
fn cleanup_spares_recent_sessions() {
    let mut state = WorldState::new();
    let fresh = logged_in(&mut state, 1, "freshuser", 350);
    let removed = cleanup_inactive_sessions(&mut state, 400);
    assert_eq!(removed, 0);
    assert!(get_session_info(&state, &fresh).unwrap().is_some());
}

#[test]
fn logout_ends_session_and_marks_offline() {
    let mut state = WorldState::new();
    let caller = logged_in(&mut state, 1, "leaver12", 0);
    join_game(&mut state, &caller, "plains".to_string(), 1).unwrap();
    assert!(is_user_online(&state, &caller));
    logout_user(&mut state, &caller, 2).unwrap();
    assert!(!is_user_online(&state, &caller));
    assert!(get_session_info(&state, &caller).unwrap().is_none());
    // The player row survives, marked offline.
    assert_eq!(state.players.len(), 1);
    assert!(!state.players[0].is_online);
}

#[test]
fn force_disconnect_works_by_username() {
    let mut state = WorldState::new();
    let caller = logged_in(&mut state, 1, "victim99", 0);
    join_game(&mut state, &caller, "plains".to_string(), 0).unwrap();
    assert_eq!(
        force_disconnect_user(&mut state, "whoisthis".to_string(), 1),
        Err(GameError::NotFound)
    );
    force_disconnect_user(&mut state, "victim99".to_string(), 1).unwrap();
    assert!(!is_user_online(&state, &caller));
    assert!(get_session_info(&state, &caller).unwrap().is_none());
}

#[test]
fn client_version_updates_ride_on_the_session() {
    let mut state = WorldState::new();
    let caller = logged_in(&mut state, 1, "updater1", 0);
    update_client_version(&mut state, &caller, "2.5".to_string(), 9).unwrap();
    let session = get_session_info(&state, &caller).unwrap().unwrap();
    assert_eq!(session.client_version, "2.5");
    assert_eq!(session.last_activity, 9);
}

#[test]
fn validation_helpers_check_account_and_presence() {
    let mut state = WorldState::new();
    let nobody = Identity::new(5);
    assert_eq!(
        validate_authenticated_user(&state, &nobody).map(|u| u.username),
        Err(GameError::NotFound)
    );
    let caller = logged_in(&mut state, 1, "checkme1", 0);
    let user = validate_authenticated_user(&state, &caller).unwrap();
    assert_eq!(user.username, "checkme1");
    assert_eq!(
        validate_player_in_game(&state, &caller).map(|p| p.username),
        Err(GameError::NotFound)
    );
    join_game(&mut state, &caller, "plains".to_string(), 1).unwrap();
    let p = validate_player_in_game(&state, &caller).unwrap();
    assert!(p.is_online);
}

#[test]
fn skill_experience_levels_up_at_the_threshold() {
    let mut state = WorldState::new();
    let caller = logged_in(&mut state, 1, "learner1", 0);
    join_game(&mut state, &caller, "plains".to_string(), 0).unwrap();

    // A first gain creates the record at level one.
    gain_skill_experience(&mut state, &caller, "mining".to_string(), 0, 1).unwrap();
    assert_eq!(state.skills.len(), 1);
    assert_eq!(state.skills[0].skill_level, 1);
    assert_eq!(state.skills[0].experience, 0);

    // Gaining 125 crosses the level-one threshold of 120 and carries 5.
    gain_skill_experience(&mut state, &caller, "mining".to_string(), 125, 2).unwrap();
    assert_eq!(state.skills[0].skill_level, 2);
    assert_eq!(state.skills[0].experience, 5);
    assert_eq!(state.skills[0].last_updated, 2);

    // A gain below the next threshold only accumulates.
    gain_skill_experience(&mut state, &caller, "mining".to_string(), 10, 3).unwrap();
    assert_eq!(state.skills[0].skill_level, 2);
    assert_eq!(state.skills[0].experience, 15);

    // Distinct skills get distinct records.
    gain_skill_experience(&mut state, &caller, "smithing".to_string(), 7, 4).unwrap();
    assert_eq!(state.skills.len(), 2);

    // A caller without a player cannot gain experience.
    let stranger = Identity::new(9);
    assert_eq!(
        gain_skill_experience(&mut state, &stranger, "mining".to_string(), 1, 5),
        Err(GameError::NotFound)
    );
}

#[test]
fn required_experience_follows_the_curve() {
    // floor(level * 100 * (6/5)^level)
    assert_eq!(calculate_required_experience(1), 120);
    assert_eq!(calculate_required_experience(2), 288);
    assert_eq!(calculate_required_experience(3), 518);
    assert_eq!(calculate_required_experience(5), 1244);
    assert_eq!(calculate_required_experience(10), 6191);
    // Beyond the exactly-evaluated range the threshold saturates.
    assert_eq!(calculate_required_experience(45), u64::MAX);
    assert_eq!(calculate_required_experience(100), u64::MAX);
}

#[test]
fn single_gain_levels_at_most_once() {
    let mut state = WorldState::new();
    let caller = logged_in(&mut state, 1, "grinder1", 0);
    join_game(&mut state, &caller, "plains".to_string(), 0).unwrap();
    gain_skill_experience(&mut state, &caller, "mining".to_string(), 0, 1).unwrap();
    // Enough experience for several levels still advances only one.
    gain_skill_experience(&mut state, &caller, "mining".to_string(), 10_000, 2).unwrap();
    assert_eq!(state.skills[0].skill_level, 2);
    assert_eq!(state.skills[0].experience, 10_000 - 120);
}

#[test]
fn database_stats_count_the_tables() {
    let mut state = WorldState::new();
    let a = logged_in(&mut state, 1, "statsone", 0);
    join_game(&mut state, &a, "plains".to_string(), 0).unwrap();
    let _b = registered(&mut state, 2, "statstwo");
    let stats = mmo_core::admin::get_database_stats(&state);
    assert_eq!(stats.total_users, 2);
    assert_eq!(stats.active_users, 2);
    assert_eq!(stats.online_players, 1);
    assert_eq!(stats.total_sessions, 1);
    assert_eq!(stats.total_messages, 0);
}

#[test]
fn maintenance_prunes_chat_and_reaps_sessions() {
    let mut state = WorldState::new();
    let idle = logged_in(&mut state, 1, "idlebird", 0);
    join_game(&mut state, &idle, "plains".to_string(), 0).unwrap();
    let mut t: u64 = 1;
    for k in 0..103 {
        let text = format!("note {}", k);
        mmo_core::chat::send_chat_message(&mut state, &idle, text, "global".to_string(), t)
            .unwrap();
        t += 1;
    }
    // The last send refreshed activity at t=103; sweep well past the
    // timeout of 300 seconds.
    mmo_core::admin::perform_database_maintenance(&mut state, 500);
    assert_eq!(state.messages.len(), 100);
    assert!(!is_user_online(&state, &idle));
    assert!(get_session_info(&state, &idle).unwrap().is_none());
}

#[test]
fn channel_access_admits_known_and_whisper_channels() {
    let mut state = WorldState::new();
    let caller = logged_in(&mut state, 1, "channler", 0);
    join_game(&mut state, &caller, "plains".to_string(), 0).unwrap();
    assert!(mmo_core::admin::validate_chat_channel_access(&state, &caller, "global").is_ok());
    assert!(mmo_core::admin::validate_chat_channel_access(&state, &caller, "party").is_ok());
    assert!(
        mmo_core::admin::validate_chat_channel_access(&state, &caller, "whisper:a:b").is_ok()
    );
    assert_eq!(
        mmo_core::admin::validate_chat_channel_access(&state, &caller, "shouting"),
        Err(GameError::Validation)
    );
    assert!(mmo_core::admin::validate_rate_limit("anything").is_ok());
}

#[test]
fn mechanics_initialization_seeds_the_catalog() {
    let mut state = WorldState::new();
    mmo_core::inventory::initialize_game_mechanics(&mut state).unwrap();
    assert_eq!(state.items.len(), 5);
}
