//! Behavior of the inventory engine: stacking, splitting, removal,
//! consumption, and capacity.

use mmo_core::errors::GameError;
use mmo_core::ids::Identity;
use mmo_core::inventory::{
    add_item_definition, add_item_to_inventory, create_default_items, get_player_inventory,
    give_item_to_player, remove_item_from_inventory, use_item,
};
use mmo_core::player::join_game;
use mmo_core::session::{login_user, register_user};
use mmo_core::state::{GameItem, WorldState};

fn item(id: &str, item_type: &str, max_stack: u32, heal: Option<u32>) -> GameItem {
    GameItem {
        item_id: id.to_string(),
        item_name: id.to_string(),
        item_type: item_type.to_string(),
        description: "test item".to_string(),
        max_stack_size: max_stack,
        value: 1,
        heal_amount: heal,
    }
}

fn world_with_player(id: u128, name: &str) -> (WorldState, Identity) {
    let mut state = WorldState::new();
    let caller = Identity::new(id);
    register_user(&mut state, &caller, name.to_string(), "longpassword".to_string(), None, 0)
        .unwrap();
    login_user(
        &mut state,
        &caller,
        name.to_string(),
        "longpassword".to_string(),
        "1.0".to_string(),
        None,
        0,
    )
    .unwrap();
    join_game(&mut state, &caller, "plains".to_string(), 0).unwrap();
    (state, caller)
}

#[test]
fn add_item_overflow_splits_into_new_slot() {
    let mut state = WorldState::new();
    let owner = Identity::new(1);
    add_item_definition(&mut state, item("pebble", "material", 5, None)).unwrap();
    add_item_to_inventory(&mut state, &owner, "pebble", 7).unwrap();
    assert_eq!(state.inventory.len(), 2);
    assert_eq!(state.inventory[0].quantity, 5);
    assert_eq!(state.inventory[0].slot_index, 0);
    assert_eq!(state.inventory[1].quantity, 2);
    assert_eq!(state.inventory[1].slot_index, 1);
}

#[test]
fn add_item_merges_into_existing_stack() {
    let mut state = WorldState::new();
    let owner = Identity::new(2);
    add_item_definition(&mut state, item("brick", "material", 10, None)).unwrap();
    add_item_to_inventory(&mut state, &owner, "brick", 4).unwrap();
    assert_eq!(state.inventory.len(), 1);
    add_item_to_inventory(&mut state, &owner, "brick", 3).unwrap();
    assert_eq!(state.inventory.len(), 1);
    assert_eq!(state.inventory[0].quantity, 7);
}

#[test]
fn add_item_spills_repeatedly_when_needed() {
    let mut state = WorldState::new();
    let owner = Identity::new(3);
    add_item_definition(&mut state, item("coin", "material", 5, None)).unwrap();
    add_item_to_inventory(&mut state, &owner, "coin", 12).unwrap();
    assert_eq!(state.inventory.len(), 3);
    assert_eq!(state.inventory[0].quantity, 5);
    assert_eq!(state.inventory[1].quantity, 5);
    assert_eq!(state.inventory[2].quantity, 2);
    // Every stack respects the bound.
    for slot in &state.inventory {
        assert!(slot.quantity >= 1 && slot.quantity <= 5);
    }
}

#[test]
fn add_unknown_item_is_not_found() {
    let mut state = WorldState::new();
    let owner = Identity::new(4);
    assert_eq!(
        add_item_to_inventory(&mut state, &owner, "nonsense", 1),
        Err(GameError::NotFound)
    );
}

#[test]
fn inventory_fills_up_at_the_slot_bound() {
    let mut state = WorldState::new();
    let owner = Identity::new(5);
    add_item_definition(&mut state, item("boulder", "material", 1, None)).unwrap();
    // 101 slot indices exist; one stack is merged into, the rest spill.
    add_item_to_inventory(&mut state, &owner, "boulder", 101).unwrap();
    assert_eq!(state.inventory.len(), 101);
    let r = add_item_to_inventory(&mut state, &owner, "boulder", 2);
    assert_eq!(r, Err(GameError::Capacity));
    // The refused add changed nothing.
    assert_eq!(state.inventory.len(), 101);
}

#[test]
fn remove_item_decrements_or_deletes() {
    let mut state = WorldState::new();
    let (mut world, caller) = world_with_player(6, "miner");
    std::mem::swap(&mut state, &mut world);
    add_item_definition(&mut state, item("ore", "material", 50, None)).unwrap();
    add_item_to_inventory(&mut state, &caller, "ore", 10).unwrap();

    remove_item_from_inventory(&mut state, &caller, "ore".to_string(), 4).unwrap();
    assert_eq!(state.inventory[0].quantity, 6);

    // Asking for more than held is refused, and changes nothing.
    assert_eq!(
        remove_item_from_inventory(&mut state, &caller, "ore".to_string(), 7),
        Err(GameError::Validation)
    );
    assert_eq!(state.inventory[0].quantity, 6);

    // Removing the exact quantity deletes the slot record.
    remove_item_from_inventory(&mut state, &caller, "ore".to_string(), 6).unwrap();
    assert_eq!(state.inventory.len(), 0);

    assert_eq!(
        remove_item_from_inventory(&mut state, &caller, "ore".to_string(), 1),
        Err(GameError::NotFound)
    );
}

#[test]
fn use_item_heals_and_consumes_one_unit() {
    let (mut state, caller) = world_with_player(7, "healer");
    create_default_items(&mut state);
    add_item_to_inventory(&mut state, &caller, "potion_health", 3).unwrap();

    // Bring health down, then drink one potion: heals 50, capped at 100.
    mmo_core::player::update_player_stats(
        &mut state,
        &caller,
        None,
        None,
        Some(20),
        None,
        1,
    )
    .unwrap();
    use_item(&mut state, &caller, "potion_health".to_string()).unwrap();
    assert_eq!(state.players[0].health, 70);
    assert_eq!(state.inventory[0].quantity, 2);

    // A second potion would overshoot; health clamps at the maximum.
    use_item(&mut state, &caller, "potion_health".to_string()).unwrap();
    assert_eq!(state.players[0].health, 100);
    assert_eq!(state.inventory[0].quantity, 1);
}

#[test]
fn use_item_refuses_non_consumables() {
    let (mut state, caller) = world_with_player(8, "fighter");
    create_default_items(&mut state);
    add_item_to_inventory(&mut state, &caller, "sword_iron", 1).unwrap();
    assert_eq!(
        use_item(&mut state, &caller, "sword_iron".to_string()),
        Err(GameError::State)
    );
    // Nothing was consumed.
    assert_eq!(state.inventory[0].quantity, 1);
}

#[test]
fn give_item_targets_player_by_username() {
    let (mut state, _caller) = world_with_player(9, "receiver");
    add_item_definition(&mut state, item("gift", "material", 10, None)).unwrap();
    give_item_to_player(&mut state, "receiver".to_string(), "gift".to_string(), 2).unwrap();
    assert_eq!(state.inventory.len(), 1);
    assert_eq!(state.inventory[0].quantity, 2);
    assert_eq!(state.inventory[0].player_identity, Identity::new(9));

    assert_eq!(
        give_item_to_player(&mut state, "nobody".to_string(), "gift".to_string(), 1),
        Err(GameError::NotFound)
    );
}

#[test]
fn listing_inventory_returns_the_owned_slots() {
    let (mut state, caller) = world_with_player(10, "collector");
    add_item_definition(&mut state, item("shell", "material", 3, None)).unwrap();
    add_item_to_inventory(&mut state, &caller, "shell", 5).unwrap();
    let listed = get_player_inventory(&state, &caller).unwrap();
    assert_eq!(listed.len(), 2);
    assert_eq!(listed[0].quantity, 3);
    assert_eq!(listed[1].quantity, 2);

    let stranger = Identity::new(12345);
    assert_eq!(
        get_player_inventory(&state, &stranger).map(|v| v.len()),
        Err(GameError::NotFound)
    );
}

#[test]
fn default_catalog_holds_the_five_items() {
    let mut state = WorldState::new();
    create_default_items(&mut state);
    assert_eq!(state.items.len(), 5);
    let potion = state
        .items
        .iter()
        .find(|i| i.item_id == "potion_health")
        .unwrap();
    assert_eq!(potion.max_stack_size, 10);
    assert_eq!(potion.heal_amount, Some(50));
    let bread = state.items.iter().find(|i| i.item_id == "food_bread").unwrap();
    assert_eq!(bread.heal_amount, Some(20));
    // Seeding twice adds nothing new.
    create_default_items(&mut state);
    assert_eq!(state.items.len(), 5);
}

#[test]
fn item_definitions_are_validated() {
    let mut state = WorldState::new();
    assert_eq!(
        add_item_definition(&mut state, item("zero", "material", 0, None)),
        Err(GameError::Validation)
    );
    add_item_definition(&mut state, item("dup", "material", 2, None)).unwrap();
    assert_eq!(
        add_item_definition(&mut state, item("dup", "material", 2, None)),
        Err(GameError::State)
    );
}
