//! Behavior of chat and of the shared input validators.

use mmo_core::chat::{
    cleanup_old_chat_messages, get_recent_messages, get_whisper_conversation, send_chat_message,
    send_whisper,
};
use mmo_core::errors::GameError;
use mmo_core::ids::Identity;
use mmo_core::player::join_game;
use mmo_core::session::{login_user, register_user};
use mmo_core::state::WorldState;
use mmo_core::strutil::trim;
use mmo_core::validation::{
    sanitize_chat_message, validate_email, validate_password, validate_username,
};

fn player(state: &mut WorldState, id: u128, name: &str) -> Identity {
    let caller = Identity::new(id);
    register_user(state, &caller, name.to_string(), "longpassword".to_string(), None, 0).unwrap();
    login_user(
        state,
        &caller,
        name.to_string(),
        "longpassword".to_string(),
        "1.0".to_string(),
        None,
        0,
    )
    .unwrap();
    join_game(state, &caller, "plains".to_string(), 0).unwrap();
    caller
}

#[test]
fn username_rules() {
    assert!(validate_username("abc").is_ok());
    assert!(validate_username("player_One9").is_ok());
    assert!(validate_username("  spaced  ").is_ok());
    assert_eq!(validate_username(""), Err(GameError::Validation));
    assert_eq!(validate_username("ab"), Err(GameError::Validation));
    assert_eq!(
        validate_username("thisnameisfartoolongtouse"),
        Err(GameError::Validation)
    );
    assert_eq!(validate_username("bad name"), Err(GameError::Validation));
    assert_eq!(validate_username("bad!name"), Err(GameError::Validation));
}

#[test]
fn password_and_email_rules() {
    assert!(validate_password("12345678").is_ok());
    assert_eq!(validate_password("1234567"), Err(GameError::Validation));
    assert!(validate_email("user@example.com").is_ok());
    assert_eq!(validate_email("userexample.com"), Err(GameError::Validation));
    assert_eq!(validate_email("user@examplecom"), Err(GameError::Validation));
}

#[test]
fn chat_sanitization_trims_and_filters() {
    assert_eq!(sanitize_chat_message("  hello  ").unwrap(), "hello");
    assert_eq!(sanitize_chat_message("a\u{1}b").unwrap(), "ab");
    assert_eq!(sanitize_chat_message("keep spaces\tok").unwrap(), "keep spaces\tok");
    assert_eq!(sanitize_chat_message("   "), Err(GameError::Validation));
    let long = "x".repeat(501);
    assert_eq!(sanitize_chat_message(&long), Err(GameError::Validation));
    let exactly = "x".repeat(500);
    assert!(sanitize_chat_message(&exactly).is_ok());
}

#[test]
fn trim_removes_edge_whitespace_only() {
    assert_eq!(trim("  middle stays  "), "middle stays");
    assert_eq!(trim("\t\nboth\r "), "both");
    assert_eq!(trim(""), "");
    assert_eq!(trim("   "), "");
}

#[test]
fn chat_messages_flow_through_channels() {
    let mut state = WorldState::new();
    let caller = player(&mut state, 1, "talker12");
    send_chat_message(&mut state, &caller, "hello world".to_string(), "global".to_string(), 1)
        .unwrap();
    send_chat_message(&mut state, &caller, "zone only".to_string(), "zone".to_string(), 2)
        .unwrap();
    send_chat_message(&mut state, &caller, "  padded  ".to_string(), "global".to_string(), 3)
        .unwrap();

    let recent = get_recent_messages(&state, &caller, "global".to_string(), 10).unwrap();
    assert_eq!(recent.len(), 2);
    // Newest first, sanitized text stored.
    assert_eq!(recent[0].message, "padded");
    assert_eq!(recent[0].timestamp, 3);
    assert_eq!(recent[1].message, "hello world");
    assert_eq!(recent[0].sender_username, "talker12");

    // The limit caps the result, keeping the newest.
    let capped = get_recent_messages(&state, &caller, "global".to_string(), 1).unwrap();
    assert_eq!(capped.len(), 1);
    assert_eq!(capped[0].message, "padded");

    // Unknown channels are refused, and the bad send changed nothing.
    assert_eq!(
        send_chat_message(&mut state, &caller, "psst".to_string(), "secret".to_string(), 4),
        Err(GameError::Validation)
    );
    assert_eq!(state.messages.len(), 3);
}

#[test]
fn chat_requires_an_online_player() {
    let mut state = WorldState::new();
    let caller = player(&mut state, 1, "quieter1");
    mmo_core::player::leave_game(&mut state, &caller, 1).unwrap();
    assert_eq!(
        send_chat_message(&mut state, &caller, "hi".to_string(), "global".to_string(), 2),
        Err(GameError::Permission)
    );
    let nobody = Identity::new(9);
    assert_eq!(
        send_chat_message(&mut state, &nobody, "hi".to_string(), "global".to_string(), 2),
        Err(GameError::NotFound)
    );
}

#[test]
fn whispers_are_scoped_to_the_pair() {
    let mut state = WorldState::new();
    let alice = player(&mut state, 1, "alice123");
    let bob = player(&mut state, 2, "bob12345");
    let carol = player(&mut state, 3, "carol123");

    send_whisper(&mut state, &alice, "bob12345".to_string(), "secret hi".to_string(), 1).unwrap();
    send_whisper(&mut state, &bob, "alice123".to_string(), "secret reply".to_string(), 2)
        .unwrap();
    send_whisper(&mut state, &carol, "bob12345".to_string(), "other chat".to_string(), 3)
        .unwrap();

    let convo = get_whisper_conversation(&state, &alice, "bob12345".to_string(), 10).unwrap();
    assert_eq!(convo.len(), 2);
    assert_eq!(convo[0].message, "secret reply");
    assert_eq!(convo[1].message, "secret hi");

    // Whispering to an offline or unknown target fails.
    mmo_core::player::leave_game(&mut state, &bob, 4).unwrap();
    assert_eq!(
        send_whisper(&mut state, &alice, "bob12345".to_string(), "gone".to_string(), 5),
        Err(GameError::NotFound)
    );
}

#[test]
fn chat_history_is_pruned_to_the_cap() {
    let mut state = WorldState::new();
    let caller = player(&mut state, 1, "spammer1");
    let mut t: u64 = 1;
    for k in 0..105 {
        let text = format!("message number {}", k);
        send_chat_message(&mut state, &caller, text, "global".to_string(), t).unwrap();
        t += 1;
    }
    assert_eq!(state.messages.len(), 105);
    cleanup_old_chat_messages(&mut state);
    assert_eq!(state.messages.len(), 100);
    // The oldest five are gone; the newest survive.
    assert_eq!(state.messages[0].message, "message number 5");
    assert_eq!(state.messages[99].message, "message number 104");
}
