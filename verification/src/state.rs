//! The world state: every table the simulation owns, its invariants, and
//! the lookups the operations build on.
//!
//! The storage substrate that persists this state and serializes
//! conflicting writers is an outside collaborator; the core models the
//! state as plain tables and every operation as one atomic mutation of
//! them. `WorldState::wf` is the well-formedness invariant that every
//! operation preserves.

use vstd::prelude::*;
use crate::geometry::point_ok;
use crate::ids::{GameTime, Identity};
use crate::npc::NPC;

verus! {

/// A user account; survives across sessions.
#[derive(Clone, Debug)]
pub struct User {
    /// The permanent, unique identity of the account.
    pub identity: Identity,
    /// Display name chosen at registration; unique across accounts.
    pub username: String,
    /// Hex-encoded salted digest of the password.
    pub password_hash: String,
    /// Salt the hash was derived with.
    pub password_salt: String,
    /// Optional address for account recovery.
    pub email: Option<String>,
    /// When the account was created.
    pub created_at: GameTime,
    /// When the user last logged in.
    pub last_login: GameTime,
    /// Whether the account may log in.
    pub is_active: bool,
}

/// A live connection; exists between login and logout, disconnect, or
/// inactivity cleanup.
#[derive(Clone, Debug)]
pub struct GameSession {
    /// The identity the session belongs to; unique across sessions.
    pub identity: Identity,
    /// Connection handle, when the transport supplies one.
    pub connection_id: Option<u64>,
    /// When the session was created.
    pub login_time: GameTime,
    /// Last time the session showed activity; drives timeout cleanup.
    pub last_activity: GameTime,
    /// Client build reported at login.
    pub client_version: String,
    /// Remote address reported at login.
    pub ip_address: String,
}

/// A player character in the world.
#[derive(Clone, Debug)]
pub struct Player {
    /// Same identity as the owning `User`; unique across players.
    pub identity: Identity,
    /// Display name copied from the account.
    pub username: String,
    /// Position in space.
    pub position_x: i64,
    /// Position in space.
    pub position_y: i64,
    /// Position in space.
    pub position_z: i64,
    /// Facing, in degrees.
    pub rotation_yaw: i64,
    /// Character level; at least one.
    pub level: u32,
    /// Accumulated character experience.
    pub experience: u64,
    /// Current health; never exceeds `max_health`.
    pub health: u32,
    /// Health ceiling; at least one.
    pub max_health: u32,
    /// Whether the player is in the game right now.
    pub is_online: bool,
    /// Last time the player acted.
    pub last_seen: GameTime,
    /// The zone the player stands in; never empty.
    pub current_zone: String,
}

impl Player {
    /// Well-formedness of one player row.
    pub open spec fn wf(self) -> bool {
        &&& point_ok(self.position_x, self.position_y, self.position_z)
        &&& self.health <= self.max_health
        &&& self.max_health >= 1
        &&& self.level >= 1
        &&& self.current_zone@.len() >= 1
    }
}

/// A read-only item definition from the catalog.
#[derive(Clone, Debug)]
pub struct GameItem {
    /// Catalog key; unique across items.
    pub item_id: String,
    /// Display name.
    pub item_name: String,
    /// Category tag; `consumable` items can be used.
    pub item_type: String,
    /// Flavor text.
    pub description: String,
    /// Largest quantity one inventory slot may hold; at least one.
    pub max_stack_size: u32,
    /// Trade value.
    pub value: u32,
    /// How much health using one unit restores, for items that heal.
    pub heal_amount: Option<u32>,
}

/// One stack of identical items held by an owner.
#[derive(Clone, Debug)]
pub struct PlayerInventory {
    /// Unique key of the slot record.
    pub inventory_id: u64,
    /// Who holds the stack.
    pub player_identity: Identity,
    /// Category tag recorded at creation.
    pub item_type: String,
    /// Which catalog item the stack holds.
    pub item_id: String,
    /// How many units the stack holds; between one and the item's
    /// maximum stack size.
    pub quantity: u32,
    /// Position in the owner's inventory; unique per owner and bounded.
    pub slot_index: u32,
}

/// One skill an owner is training.
#[derive(Clone, Debug)]
pub struct PlayerSkill {
    /// Unique key of the skill record.
    pub skill_id: u64,
    /// Who is training the skill.
    pub player_identity: Identity,
    /// Which skill; unique per owner.
    pub skill_name: String,
    /// Skill level; at least one.
    pub skill_level: u32,
    /// Experience accumulated toward the next level.
    pub experience: u64,
    /// Last time the skill gained experience.
    pub last_updated: GameTime,
}

/// One chat message.
#[derive(Clone, Debug)]
pub struct ChatMessage {
    /// Unique key of the message.
    pub message_id: u64,
    /// Who sent it.
    pub sender_identity: Identity,
    /// Sender's display name at the time of sending.
    pub sender_username: String,
    /// Sanitized message text.
    pub message: String,
    /// Channel the message was sent on.
    pub channel: String,
    /// When it was sent.
    pub timestamp: GameTime,
}

/// The whole shared world state, as one value. The substrate hands each
/// operation exclusive access to it for the duration of the call.
#[derive(Debug)]
pub struct WorldState {
    /// User accounts, keyed by identity.
    pub users: Vec<User>,
    /// Live sessions, keyed by identity.
    pub sessions: Vec<GameSession>,
    /// Player characters, keyed by identity.
    pub players: Vec<Player>,
    /// Non-player characters, keyed by id.
    pub npcs: Vec<NPC>,
    /// The item catalog, keyed by item id.
    pub items: Vec<GameItem>,
    /// Inventory stacks.
    pub inventory: Vec<PlayerInventory>,
    /// Skill records.
    pub skills: Vec<PlayerSkill>,
    /// Chat history, oldest first.
    pub messages: Vec<ChatMessage>,
    /// Source of fresh record ids: every allocated id is below it.
    pub next_id: u64,
}

/// Whether any user row carries this identity.
pub open spec fn has_user(users: Seq<User>, id: Identity) -> bool {
    exists|i: int| 0 <= i < users.len() && users[i].identity == id
}

/// Whether any user row carries this username.
pub open spec fn has_username(users: Seq<User>, name: Seq<char>) -> bool {
    exists|i: int| 0 <= i < users.len() && users[i].username@ == name
}

/// Whether any session row carries this identity.
pub open spec fn has_session(sessions: Seq<GameSession>, id: Identity) -> bool {
    exists|i: int| 0 <= i < sessions.len() && sessions[i].identity == id
}

/// Whether any player row carries this identity.
pub open spec fn has_player(players: Seq<Player>, id: Identity) -> bool {
    exists|i: int| 0 <= i < players.len() && players[i].identity == id
}

/// Whether any NPC row carries this id.
pub open spec fn has_npc(npcs: Seq<NPC>, id: u64) -> bool {
    exists|i: int| 0 <= i < npcs.len() && npcs[i].npc_id == id
}

/// Whether the catalog holds an item with this id.
pub open spec fn has_item(items: Seq<GameItem>, id: Seq<char>) -> bool {
    exists|i: int| 0 <= i < items.len() && items[i].item_id@ == id
}

/// Whether the owner holds any stack of the item.
pub open spec fn slot_match(slot: PlayerInventory, owner: Identity, item_id: Seq<char>) -> bool {
    slot.player_identity == owner && slot.item_id@ == item_id
}

/// Whether any stack of the item belongs to the owner.
pub open spec fn has_slot(inv: Seq<PlayerInventory>, owner: Identity, item_id: Seq<char>) -> bool {
    exists|i: int| 0 <= i < inv.len() && slot_match(inv[i], owner, item_id)
}

/// Whether the owner trains a skill of this name.
pub open spec fn skill_match(skill: PlayerSkill, owner: Identity, name: Seq<char>) -> bool {
    skill.player_identity == owner && skill.skill_name@ == name
}

/// Whether any skill record of this name belongs to the owner.
pub open spec fn has_skill(skills: Seq<PlayerSkill>, owner: Identity, name: Seq<char>) -> bool {
    exists|i: int| 0 <= i < skills.len() && skill_match(skills[i], owner, name)
}

/// Whether this slot index is taken for the owner.
pub open spec fn slot_index_used(inv: Seq<PlayerInventory>, owner: Identity, idx: u32) -> bool {
    exists|i: int|
        0 <= i < inv.len() && inv[i].player_identity == owner && inv[i].slot_index == idx
}

impl WorldState {
    /// User identities and usernames are unique.
    pub open spec fn users_wf(self) -> bool {
        forall|i: int, j: int|
            0 <= i < j < self.users@.len() ==> #[trigger] self.users@[i].identity
                != #[trigger] self.users@[j].identity && self.users@[i].username@
                != self.users@[j].username@
    }

    /// Session identities are unique.
    pub open spec fn sessions_wf(self) -> bool {
        forall|i: int, j: int|
            0 <= i < j < self.sessions@.len() ==> #[trigger] self.sessions@[i].identity
                != #[trigger] self.sessions@[j].identity
    }

    /// Player identities are unique and every row is well-formed.
    pub open spec fn players_wf(self) -> bool {
        &&& forall|i: int, j: int|
            0 <= i < j < self.players@.len() ==> #[trigger] self.players@[i].identity
                != #[trigger] self.players@[j].identity
        &&& forall|i: int| 0 <= i < self.players@.len() ==> (#[trigger] self.players@[i]).wf()
    }

    /// NPC ids are unique, below the allocation counter, and every row is
    /// well-formed.
    pub open spec fn npcs_wf(self) -> bool {
        &&& forall|i: int, j: int|
            0 <= i < j < self.npcs@.len() ==> #[trigger] self.npcs@[i].npc_id
                != #[trigger] self.npcs@[j].npc_id
        &&& forall|i: int|
            0 <= i < self.npcs@.len() ==> (#[trigger] self.npcs@[i]).wf() && self.npcs@[i].npc_id
                < self.next_id
    }

    /// Catalog item ids are unique and stack sizes are positive.
    pub open spec fn items_wf(self) -> bool {
        &&& forall|i: int, j: int|
            0 <= i < j < self.items@.len() ==> (#[trigger] self.items@[i]).item_id@
                != (#[trigger] self.items@[j]).item_id@
        &&& forall|i: int| 0 <= i < self.items@.len() ==> (#[trigger] self.items@[i]).max_stack_size >= 1
    }

    /// The quantity bound the catalog imposes on a stack.
    pub open spec fn slot_quantity_ok(self, slot: PlayerInventory) -> bool {
        exists|k: int|
            0 <= k < self.items@.len() && (#[trigger] self.items@[k]).item_id@ == slot.item_id@
                && slot.quantity <= self.items@[k].max_stack_size
    }

    /// Inventory rows are well-formed: quantities are positive and within
    /// the referenced item's stack bound, slot indices are bounded and
    /// unique per owner, and record ids are unique and below the counter.
    pub open spec fn inventory_wf(self) -> bool {
        &&& forall|i: int|
            0 <= i < self.inventory@.len() ==> 1 <= (#[trigger] self.inventory@[i]).quantity
                && self.inventory@[i].slot_index <= 100 && self.inventory@[i].inventory_id
                < self.next_id && self.slot_quantity_ok(self.inventory@[i])
        &&& forall|i: int, j: int|
            0 <= i < j < self.inventory@.len() ==> (#[trigger] self.inventory@[i]).inventory_id
                != (#[trigger] self.inventory@[j]).inventory_id
        &&& forall|i: int, j: int|
            0 <= i < j < self.inventory@.len() && (#[trigger] self.inventory@[i]).player_identity
                == (#[trigger] self.inventory@[j]).player_identity ==> self.inventory@[i].slot_index
                != self.inventory@[j].slot_index
    }

    /// Skill records are well-formed: levels are positive, an owner
    /// trains each skill name at most once, and record ids are unique and
    /// below the counter.
    pub open spec fn skills_wf(self) -> bool {
        &&& forall|i: int|
            0 <= i < self.skills@.len() ==> (#[trigger] self.skills@[i]).skill_level >= 1
                && self.skills@[i].skill_id < self.next_id
        &&& forall|i: int, j: int|
            0 <= i < j < self.skills@.len() ==> !((#[trigger] self.skills@[i]).player_identity
                == (#[trigger] self.skills@[j]).player_identity && self.skills@[i].skill_name@
                == self.skills@[j].skill_name@)
    }

    /// Chat messages carry unique ids below the counter and stand in
    /// timestamp order, oldest first.
    pub open spec fn messages_wf(self) -> bool {
        &&& forall|i: int|
            0 <= i < self.messages@.len() ==> (#[trigger] self.messages@[i]).message_id
                < self.next_id
        &&& forall|i: int, j: int|
            0 <= i < j < self.messages@.len() ==> (#[trigger] self.messages@[i]).message_id
                != (#[trigger] self.messages@[j]).message_id && self.messages@[i].timestamp
                <= self.messages@[j].timestamp
    }

    /// A player is online only while a session exists for its identity.
    pub open spec fn online_implies_session(self) -> bool {
        forall|i: int|
            0 <= i < self.players@.len() && (#[trigger] self.players@[i]).is_online
                ==> has_session(self.sessions@, self.players@[i].identity)
    }

    /// The well-formedness invariant of the whole world: established at
    /// creation and preserved by every operation.
    pub open spec fn wf(self) -> bool {
        &&& self.users_wf()
        &&& self.sessions_wf()
        &&& self.players_wf()
        &&& self.npcs_wf()
        &&& self.items_wf()
        &&& self.inventory_wf()
        &&& self.skills_wf()
        &&& self.messages_wf()
        &&& self.online_implies_session()
    }

    /// Creates an empty world.
    pub fn new() -> (r: WorldState)
        ensures
            r.wf(),
            r.users@.len() == 0,
            r.sessions@.len() == 0,
            r.players@.len() == 0,
            r.npcs@.len() == 0,
            r.items@.len() == 0,
            r.inventory@.len() == 0,
            r.skills@.len() == 0,
            r.messages@.len() == 0,
            r.next_id == 0,
    {
        WorldState {
            users: Vec::new(),
            sessions: Vec::new(),
            players: Vec::new(),
            npcs: Vec::new(),
            items: Vec::new(),
            inventory: Vec::new(),
            skills: Vec::new(),
            messages: Vec::new(),
            next_id: 0,
        }
    }

    /// Finds the user row for an identity.
    pub fn find_user_index(&self, id: &Identity) -> (r: Option<usize>)
        ensures
            match r {
                Some(i) => i < self.users@.len() && self.users@[i as int].identity == *id,
                None => !has_user(self.users@, *id),
            },
    {
        let mut i: usize = 0;
        while i < self.users.len()
            invariant
                0 <= i <= self.users@.len(),
                forall|j: int| 0 <= j < i ==> self.users@[j].identity != *id,
            decreases self.users@.len() - i,
        {
            if self.users[i].identity.bits == id.bits {
                return Some(i);
            }
            i = i + 1;
        }
        None
    }

    /// Finds the user row for a username.
    pub fn find_user_by_username(&self, name: &str) -> (r: Option<usize>)
        ensures
            match r {
                Some(i) => i < self.users@.len() && self.users@[i as int].username@ == name@,
                None => !has_username(self.users@, name@),
            },
    {
        let mut i: usize = 0;
        while i < self.users.len()
            invariant
                0 <= i <= self.users@.len(),
                forall|j: int| 0 <= j < i ==> self.users@[j].username@ != name@,
            decreases self.users@.len() - i,
        {
            if crate::strutil::str_eq(self.users[i].username.as_str(), name) {
                return Some(i);
            }
            i = i + 1;
        }
        None
    }

    /// Finds the session row for an identity.
    pub fn find_session_index(&self, id: &Identity) -> (r: Option<usize>)
        ensures
            match r {
                Some(i) => i < self.sessions@.len() && self.sessions@[i as int].identity == *id,
                None => !has_session(self.sessions@, *id),
            },
    {
        let mut i: usize = 0;
        while i < self.sessions.len()
            invariant
                0 <= i <= self.sessions@.len(),
                forall|j: int| 0 <= j < i ==> self.sessions@[j].identity != *id,
            decreases self.sessions@.len() - i,
        {
            if self.sessions[i].identity.bits == id.bits {
                return Some(i);
            }
            i = i + 1;
        }
        None
    }

    /// Finds the player row for an identity.
    pub fn find_player_index(&self, id: &Identity) -> (r: Option<usize>)
        ensures
            match r {
                Some(i) => i < self.players@.len() && self.players@[i as int].identity == *id,
                None => !has_player(self.players@, *id),
            },
    {
        let mut i: usize = 0;
        while i < self.players.len()
            invariant
                0 <= i <= self.players@.len(),
                forall|j: int| 0 <= j < i ==> self.players@[j].identity != *id,
            decreases self.players@.len() - i,
        {
            if self.players[i].identity.bits == id.bits {
                return Some(i);
            }
            i = i + 1;
        }
        None
    }

    /// Finds the player row for a username.
    pub fn find_player_by_username(&self, name: &str) -> (r: Option<usize>)
        ensures
            match r {
                Some(i) => i < self.players@.len() && self.players@[i as int].username@ == name@
                    && forall|j: int| 0 <= j < i ==> self.players@[j].username@ != name@,
                None => forall|j: int|
                    0 <= j < self.players@.len() ==> (#[trigger] self.players@[j]).username@
                        != name@,
            },
    {
        let mut i: usize = 0;
        while i < self.players.len()
            invariant
                0 <= i <= self.players@.len(),
                forall|j: int| 0 <= j < i ==> self.players@[j].username@ != name@,
            decreases self.players@.len() - i,
        {
            if crate::strutil::str_eq(self.players[i].username.as_str(), name) {
                return Some(i);
            }
            i = i + 1;
        }
        None
    }

    /// Finds the NPC row for an id.
    pub fn find_npc_index(&self, id: u64) -> (r: Option<usize>)
        ensures
            match r {
                Some(i) => i < self.npcs@.len() && self.npcs@[i as int].npc_id == id,
                None => !has_npc(self.npcs@, id),
            },
    {
        let mut i: usize = 0;
        while i < self.npcs.len()
            invariant
                0 <= i <= self.npcs@.len(),
                forall|j: int| 0 <= j < i ==> self.npcs@[j].npc_id != id,
            decreases self.npcs@.len() - i,
        {
            if self.npcs[i].npc_id == id {
                return Some(i);
            }
            i = i + 1;
        }
        None
    }

    /// Finds the catalog row for an item id.
    pub fn find_item_index(&self, item_id: &str) -> (r: Option<usize>)
        ensures
            match r {
                Some(i) => i < self.items@.len() && self.items@[i as int].item_id@ == item_id@,
                None => !has_item(self.items@, item_id@),
            },
    {
        let mut i: usize = 0;
        while i < self.items.len()
            invariant
                0 <= i <= self.items@.len(),
                forall|j: int| 0 <= j < i ==> self.items@[j].item_id@ != item_id@,
            decreases self.items@.len() - i,
        {
            if crate::strutil::str_eq(self.items[i].item_id.as_str(), item_id) {
                return Some(i);
            }
            i = i + 1;
        }
        None
    }

    /// Finds the first stack of an item held by an owner.
    pub fn find_inventory_index(&self, owner: &Identity, item_id: &str) -> (r: Option<usize>)
        ensures
            match r {
                Some(i) => i < self.inventory@.len() && slot_match(
                    self.inventory@[i as int],
                    *owner,
                    item_id@,
                ) && forall|j: int|
                    0 <= j < i ==> !slot_match(#[trigger] self.inventory@[j], *owner, item_id@),
                None => !has_slot(self.inventory@, *owner, item_id@),
            },
    {
        let mut i: usize = 0;
        while i < self.inventory.len()
            invariant
                0 <= i <= self.inventory@.len(),
                forall|j: int|
                    0 <= j < i ==> !slot_match(#[trigger] self.inventory@[j], *owner, item_id@),
            decreases self.inventory@.len() - i,
        {
            if self.inventory[i].player_identity.bits == owner.bits && crate::strutil::str_eq(
                self.inventory[i].item_id.as_str(),
                item_id,
            ) {
                return Some(i);
            }
            i = i + 1;
        }
        None
    }

    /// Finds the skill record of a name held by an owner.
    pub fn find_skill_index(&self, owner: &Identity, name: &str) -> (r: Option<usize>)
        ensures
            match r {
                Some(i) => i < self.skills@.len() && skill_match(
                    self.skills@[i as int],
                    *owner,
                    name@,
                ),
                None => !has_skill(self.skills@, *owner, name@),
            },
    {
        let mut i: usize = 0;
        while i < self.skills.len()
            invariant
                0 <= i <= self.skills@.len(),
                forall|j: int|
                    0 <= j < i ==> !skill_match(#[trigger] self.skills@[j], *owner, name@),
            decreases self.skills@.len() - i,
        {
            if self.skills[i].player_identity.bits == owner.bits && crate::strutil::str_eq(
                self.skills[i].skill_name.as_str(),
                name,
            ) {
                return Some(i);
            }
            i = i + 1;
        }
        None
    }
}


/// Whether the identity has an online player row.
pub open spec fn player_online(players: Seq<Player>, id: Identity) -> bool {
    exists|i: int| 0 <= i < players.len() && players[i].identity == id && players[i].is_online
}

/// Whether two user rows carry the same values.
pub open spec fn user_like(a: User, b: User) -> bool {
    &&& a.identity == b.identity
    &&& a.username@ == b.username@
    &&& a.password_hash@ == b.password_hash@
    &&& a.password_salt@ == b.password_salt@
    &&& match (a.email, b.email) {
        (Some(x), Some(y)) => x@ == y@,
        (None, None) => true,
        _ => false,
    }
    &&& a.created_at == b.created_at
    &&& a.last_login == b.last_login
    &&& a.is_active == b.is_active
}

/// Whether two player rows carry the same values.
pub open spec fn player_like(a: Player, b: Player) -> bool {
    &&& a.identity == b.identity
    &&& a.username@ == b.username@
    &&& a.position_x == b.position_x
    &&& a.position_y == b.position_y
    &&& a.position_z == b.position_z
    &&& a.rotation_yaw == b.rotation_yaw
    &&& a.level == b.level
    &&& a.experience == b.experience
    &&& a.health == b.health
    &&& a.max_health == b.max_health
    &&& a.is_online == b.is_online
    &&& a.last_seen == b.last_seen
    &&& a.current_zone@ == b.current_zone@
}

/// Whether two session rows carry the same values.
pub open spec fn session_like(a: GameSession, b: GameSession) -> bool {
    &&& a.identity == b.identity
    &&& a.connection_id == b.connection_id
    &&& a.login_time == b.login_time
    &&& a.last_activity == b.last_activity
    &&& a.client_version@ == b.client_version@
    &&& a.ip_address@ == b.ip_address@
}

/// Copies a player row, field by field.
pub fn copy_player(p: &Player) -> (r: Player)
    ensures
        player_like(r, *p),
{
    Player {
        identity: p.identity,
        username: p.username.clone(),
        position_x: p.position_x,
        position_y: p.position_y,
        position_z: p.position_z,
        rotation_yaw: p.rotation_yaw,
        level: p.level,
        experience: p.experience,
        health: p.health,
        max_health: p.max_health,
        is_online: p.is_online,
        last_seen: p.last_seen,
        current_zone: p.current_zone.clone(),
    }
}

/// Copies a user row, field by field.
pub fn copy_user(u: &User) -> (r: User)
    ensures
        user_like(r, *u),
{
    User {
        identity: u.identity,
        username: u.username.clone(),
        password_hash: u.password_hash.clone(),
        password_salt: u.password_salt.clone(),
        email: match &u.email {
            Some(e) => Some(e.clone()),
            None => None,
        },
        created_at: u.created_at,
        last_login: u.last_login,
        is_active: u.is_active,
    }
}

/// Copies a session row, field by field.
pub fn copy_session(s: &GameSession) -> (r: GameSession)
    ensures
        session_like(r, *s),
{
    GameSession {
        identity: s.identity,
        connection_id: s.connection_id,
        login_time: s.login_time,
        last_activity: s.last_activity,
        client_version: s.client_version.clone(),
        ip_address: s.ip_address.clone(),
    }
}

} // verus!
