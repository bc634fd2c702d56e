//! Behavior of the shared object, RPC, and client-state types, and of
//! the hashing utilities.

use mmo_core::auth::generate_salt;
use mmo_core::client::{get_client_version, ClientState, ConnectionManager};
use mmo_core::ids::{generate_unique_id, Identity};
use mmo_core::state::ChatMessage;
use mmo_core::strutil::{hex_encode, str_eq};
use mmo_core::types::{
    ConnectionState, ObjectId, PropertyType, PropertyValue, ReplicationMode, RpcCall, RpcType,
};

#[test]
fn object_ids_carry_their_class() {
    let p = ObjectId::player(7);
    assert_eq!(p.id, 7);
    assert_eq!(p.class_name, "PlayerCharacter");
    assert!(p.is_valid());
    let n = ObjectId::npc(8);
    assert_eq!(n.class_name, "NPC");
    let i = ObjectId::item(9);
    assert_eq!(i.class_name, "Item");
    assert!(!ObjectId::new(0, "Thing".to_string()).is_valid());
    assert!(!ObjectId::new(3, "".to_string()).is_valid());
}

#[test]
fn rpc_calls_build_up_their_arguments() {
    let call = RpcCall::client_to_server("move_player".to_string())
        .with_arg("x".to_string(), "1.5".to_string())
        .with_arg("y".to_string(), "2.5".to_string())
        .targeting(ObjectId::player(42));
    assert_eq!(call.function_name, "move_player");
    assert_eq!(call.call_type, RpcType::ClientToServer);
    assert_eq!(call.arguments.len(), 2);
    assert_eq!(call.arguments[0].name, "x");
    assert_eq!(call.arguments[1].value_json, "2.5");
    assert_eq!(call.arguments[0].arg_type, "json");
    assert_eq!(call.target_object.as_ref().unwrap().id, 42);
}

#[test]
fn property_values_pick_replication_defaults() {
    let open = PropertyValue::new_simple("Position".to_string(), "[0,0,0]".to_string());
    assert_eq!(open.property_type, PropertyType::Json);
    assert_eq!(open.replication_mode, ReplicationMode::Always);
    assert!(!open.owner_only);
    let private = PropertyValue::new_owner_only("Gold".to_string(), "25".to_string());
    assert_eq!(private.replication_mode, ReplicationMode::OwnerOnly);
    assert!(private.owner_only);
}

#[test]
fn connection_manager_tracks_its_lifecycle() {
    let mut conn = ConnectionManager::new();
    assert!(!conn.is_connected());
    conn.connect("localhost".to_string(), 3000, "world".to_string()).unwrap();
    assert!(conn.is_connected());
    assert!(matches!(conn.get_state(), ConnectionState::Connected));
    assert_eq!(conn.host.as_deref(), Some("localhost"));
    assert_eq!(conn.port, Some(3000));
    conn.set_error("boom".to_string());
    assert!(!conn.is_connected());
    assert_eq!(conn.get_last_error().map(|s| s.as_str()), Some("boom"));
    conn.disconnect();
    assert!(matches!(conn.get_state(), ConnectionState::Disconnected));
    assert!(conn.get_last_error().is_none());
}

fn message(id: u64, text: &str) -> ChatMessage {
    ChatMessage {
        message_id: id,
        sender_identity: Identity::new(1),
        sender_username: "someone1".to_string(),
        message: text.to_string(),
        channel: "global".to_string(),
        timestamp: id,
    }
}

#[test]
fn client_state_caches_and_caps_chat() {
    let mut client = ClientState::new();
    assert!(!client.is_logged_in());
    client.set_current_user(Some("someone1".to_string()));
    assert!(client.is_logged_in());
    assert_eq!(client.get_current_user().map(|s| s.as_str()), Some("someone1"));
    assert!(!client.is_in_game());

    for k in 0..105 {
        client.add_chat_message(message(k, "chatter"));
    }
    assert_eq!(client.get_chat_messages().len(), 100);
    // The oldest messages fell out of the cache.
    assert_eq!(client.get_chat_messages()[0].message_id, 5);

    client.clear_state();
    assert!(!client.is_logged_in());
    assert_eq!(client.get_chat_messages().len(), 0);
}

#[test]
fn client_version_is_reported() {
    assert_eq!(get_client_version(), "1.0.0");
}

#[test]
fn unique_ids_are_deterministic_in_their_inputs() {
    let a = Identity::new(12345);
    let b = Identity::new(54321);
    assert_eq!(generate_unique_id(&a, 10), generate_unique_id(&a, 10));
    assert_ne!(generate_unique_id(&a, 10), generate_unique_id(&a, 11));
    assert_ne!(generate_unique_id(&a, 10), generate_unique_id(&b, 10));
}

#[test]
fn salts_are_deterministic_and_sized() {
    let id = Identity::new(777);
    let s1 = generate_salt(&id, 5);
    let s2 = generate_salt(&id, 5);
    assert_eq!(s1, s2);
    assert_eq!(s1.len(), 16);
    assert_ne!(s1, generate_salt(&id, 6));
    assert!(s1.chars().all(|c| c.is_ascii_hexdigit()));
}

#[test]
fn hex_encoding_is_lowercase_two_digits_per_byte() {
    assert_eq!(hex_encode(&vec![]), "");
    assert_eq!(hex_encode(&vec![0x00, 0xff, 0x1a]), "00ff1a");
}

#[test]
fn string_comparison_matches_equality() {
    assert!(str_eq("same", "same"));
    assert!(!str_eq("same", "Same"));
    assert!(!str_eq("same", "sam"));
    assert!(str_eq("", ""));
}
