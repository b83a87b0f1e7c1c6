//! The error kinds the catalog store surfaces. Every operation reports
//! failures through this one type; nothing is retried internally.

use vstd::prelude::*;

verus! {

/// An error while opening or operating the catalog store.
#[derive(Clone, Debug, PartialEq, Eq)]
pub enum Error {
    /// The store identity header did not match the application magic.
    Corruption { detail: String },
    /// An allocator counter reached the signed 64-bit maximum.
    IdExhaustion,
    /// The store was initialized with experimental mode on, but this open
    /// did not ask for it.
    ExperimentalModeRequired,
    /// The store was initialized with experimental mode off, but this open
    /// asked for it.
    ExperimentalModeUnavailable,
    /// A database with this name already exists.
    DatabaseAlreadyExists(String),
    /// A schema with this name already exists in the same database.
    SchemaAlreadyExists(String),
    /// A role with this name already exists.
    RoleAlreadyExists(String),
    /// A compute instance with this name already exists.
    ClusterAlreadyExists(String),
    /// An item with this name already exists in the same schema, or an item
    /// with the same global identifier already exists.
    ItemAlreadyExists(String),
    /// An update or removal targeted a database that does not exist.
    UnknownDatabase(String),
    /// An update or removal targeted a schema that does not exist.
    UnknownSchema(String),
    /// An update or removal targeted a role that does not exist.
    UnknownRole(String),
    /// An update or removal targeted a compute instance that does not exist.
    UnknownComputeInstance(String),
    /// An update or removal targeted an item that does not exist.
    UnknownItem(String),
    /// An uncategorized failure of the embedded relational engine,
    /// propagated as-is.
    Storage(String),
    /// A stored column blob could not be encoded or decoded.
    Codec(String),
}

} // verus!
