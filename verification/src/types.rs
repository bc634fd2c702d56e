//! Shared object, property, relevancy, and RPC types used across the
//! server and client sides of the system.

use vstd::prelude::*;

verus! {

/// Identifies one object in the world: a numeric id plus the class it
/// belongs to.
#[derive(Clone, Debug, PartialEq, Eq, Hash)]
pub struct ObjectId {
    pub id: u64,
    pub class_name: String,
}

impl ObjectId {
    /// Builds an object id from its parts.
    pub fn new(id: u64, class_name: String) -> (r: ObjectId)
        ensures
            r.id == id,
            r.class_name@ == class_name@,
    {
        ObjectId { id, class_name }
    }

    /// Whether the id denotes a real object: a nonzero id with a named
    /// class.
    pub fn is_valid(&self) -> (r: bool)
        ensures
            r == (self.id != 0 && self.class_name@.len() > 0),
    {
        self.id != 0 && !self.class_name.as_str().is_empty()
    }

    /// Builds the id of a player character.
    pub fn player(id: u64) -> (r: ObjectId)
        ensures
            r.id == id,
            r.class_name@ == "PlayerCharacter"@,
    {
        ObjectId { id, class_name: "PlayerCharacter".to_owned() }
    }

    /// Builds the id of an NPC.
    pub fn npc(id: u64) -> (r: ObjectId)
        ensures
            r.id == id,
            r.class_name@ == "NPC"@,
    {
        ObjectId { id, class_name: "NPC".to_owned() }
    }

    /// Builds the id of an item.
    pub fn item(id: u64) -> (r: ObjectId)
        ensures
            r.id == id,
            r.class_name@ == "Item"@,
    {
        ObjectId { id, class_name: "Item".to_owned() }
    }
}

/// The kinds of data a replicated property may hold.
#[derive(Clone, Copy, Debug, PartialEq, Eq, Structural)]
pub enum PropertyType {
    Bool,
    Int32,
    Int64,
    Float,
    Double,
    Text,
    Vector3,
    Rotator,
    Transform,
    Json,
}

/// How widely a property is replicated.
#[derive(Clone, Copy, Debug, PartialEq, Eq, Structural)]
pub enum ReplicationMode {
    Never,
    Always,
    OwnerOnly,
    Conditional,
}

/// Who should learn about an object at all.
#[derive(Clone, Copy, Debug, PartialEq, Eq, Structural)]
pub enum RelevancyType {
    Global,
    Zone,
    Distance,
    Owner,
    Party,
    Guild,
    Custom,
}

/// One replicated property of an object: a named value with its type and
/// replication rules.
#[derive(Clone, Debug)]
pub struct PropertyValue {
    pub name: String,
    pub property_type: PropertyType,
    pub value_json: String,
    pub replication_mode: ReplicationMode,
    pub owner_only: bool,
}

impl PropertyValue {
    /// Builds a property with the common defaults: JSON-typed and
    /// replicated to everyone.
    pub fn new_simple(name: String, value_json: String) -> (r: PropertyValue)
        ensures
            r.name@ == name@,
            r.property_type == PropertyType::Json,
            r.value_json@ == value_json@,
            r.replication_mode == ReplicationMode::Always,
            !r.owner_only,
    {
        PropertyValue {
            name,
            property_type: PropertyType::Json,
            value_json,
            replication_mode: ReplicationMode::Always,
            owner_only: false,
        }
    }

    /// Builds a property replicated only to the object's owner, for
    /// private data.
    pub fn new_owner_only(name: String, value_json: String) -> (r: PropertyValue)
        ensures
            r.name@ == name@,
            r.property_type == PropertyType::Json,
            r.value_json@ == value_json@,
            r.replication_mode == ReplicationMode::OwnerOnly,
            r.owner_only,
    {
        PropertyValue {
            name,
            property_type: PropertyType::Json,
            value_json,
            replication_mode: ReplicationMode::OwnerOnly,
            owner_only: true,
        }
    }
}

/// Which objects an observer cares about, and by what rule.
#[derive(Clone, Debug)]
pub struct RelevancyInfo {
    pub object_id: ObjectId,
    pub relevancy_type: RelevancyType,
    pub zone_id: Option<u32>,
    pub max_distance: Option<i64>,
    pub custom_rules: Vec<String>,
}

/// The connection lifecycle of a client.
#[derive(Clone, Debug)]
pub enum ConnectionState {
    Disconnected,
    Connecting,
    Connected,
    Authenticated,
    InGame,
    Error(String),
}

/// The delivery guarantees an RPC may ask for.
#[derive(Clone, Copy, Debug, PartialEq, Eq, Structural)]
pub enum RpcType {
    ClientToServer,
    ServerToClient,
    Multicast,
    Reliable,
    Unreliable,
}

/// One argument of an RPC call.
#[derive(Clone, Debug)]
pub struct RpcArgument {
    pub name: String,
    pub value_json: String,
    pub arg_type: String,
}

/// A function call routed between parts of the system.
#[derive(Clone, Debug)]
pub struct RpcCall {
    pub function_name: String,
    pub target_object: Option<ObjectId>,
    pub arguments: Vec<RpcArgument>,
    pub call_type: RpcType,
}

impl RpcCall {
    /// Builds a plain client-to-server call with no target and no
    /// arguments yet.
    pub fn client_to_server(function_name: String) -> (r: RpcCall)
        ensures
            r.function_name@ == function_name@,
            r.target_object is None,
            r.arguments@.len() == 0,
            r.call_type == RpcType::ClientToServer,
    {
        RpcCall {
            function_name,
            target_object: None,
            arguments: Vec::new(),
            call_type: RpcType::ClientToServer,
        }
    }

    /// Appends one JSON-typed argument to the call.
    pub fn with_arg(self, name: String, value_json: String) -> (r: RpcCall)
        ensures
            r.function_name == self.function_name,
            r.target_object == self.target_object,
            r.call_type == self.call_type,
            r.arguments@.len() == self.arguments@.len() + 1,
            r.arguments@.drop_last() == self.arguments@,
            r.arguments@.last().name@ == name@,
            r.arguments@.last().value_json@ == value_json@,
            r.arguments@.last().arg_type@ == "json"@,
    {
        let mut call = self;
        call.arguments.push(RpcArgument { name, value_json, arg_type: "json".to_owned() });
        proof {
            assert(call.arguments@.drop_last() =~= self.arguments@);
        }
        call
    }

    /// Points the call at a target object.
    pub fn targeting(self, object_id: ObjectId) -> (r: RpcCall)
        ensures
            r.function_name == self.function_name,
            r.arguments == self.arguments,
            r.call_type == self.call_type,
            r.target_object matches Some(o) && o.id == object_id.id && o.class_name@
                == object_id.class_name@,
    {
        let mut call = self;
        call.target_object = Some(object_id);
        call
    }
}

} // verus!
