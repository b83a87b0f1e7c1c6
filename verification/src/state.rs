//! The relational model of the catalog: every table the store holds, its
//! reserved headers, and the well-formedness invariant that all operations
//! preserve — uniqueness of every key in its stated scope, primary-key
//! ordering of the id-keyed tables, and allocator counters within signed
//! 64-bit range.

use vstd::prelude::*;

use crate::ids::GlobalId;

verus! {

/// A row of the `databases` table.
pub struct DatabaseRow {
    pub id: i64,
    pub name: String,
}

/// A row of the `schemas` table. `database_id` is absent for the well-known
/// catalog schemas.
pub struct SchemaRow {
    pub id: i64,
    pub database_id: Option<i64>,
    pub name: String,
}

/// A row of the `roles` table.
pub struct RoleRow {
    pub id: i64,
    pub name: String,
}

/// A row of the `compute_instances` table. `config` mirrors the nullable
/// `config` column: the JSON text of the instance configuration, absent for
/// rows created before the column existed (read as the local default).
pub struct ComputeInstanceRow {
    pub id: i64,
    pub name: String,
    pub config: Option<String>,
}

/// A row of the `items` table. The global identifier is stored decoded; it
/// crosses the persistence boundary as its codec blob.
pub struct ItemRow {
    pub gid: GlobalId,
    pub schema_id: i64,
    pub name: String,
    pub definition: Vec<u8>,
}

/// A row of the `system_gid_mapping` table: the stable identifier pinned to
/// one built-in object, plus the fingerprint upstream code uses to detect
/// drift across releases.
pub struct SystemMappingRow {
    pub schema_name: String,
    pub object_name: String,
    pub id: u64,
    pub fingerprint: u64,
}

/// A row of the `compute_introspection_source_indexes` table.
pub struct IntrospectionRow {
    pub compute_id: i64,
    pub name: String,
    pub index_id: u64,
}

/// A row of the `settings` table.
pub struct SettingRow {
    pub name: String,
    pub value: String,
}

/// A row of the historical `timestamps` table, in the shape it has from the
/// fifth migration on: the encoded source identifier, the partition in text
/// form, a timestamp and an offset. The table only ever exists between the
/// baseline migration and the one that replays it into the external stash.
pub struct TimestampRow {
    pub sid: Vec<u8>,
    pub pid: String,
    pub timestamp: i64,
    pub offset: i64,
}

/// The entire durable state of one catalog store: reserved headers, the two
/// allocator counters, and every table.
#[verifier::ext_equal]
pub struct CatalogState {
    /// The store-identity header: zero on a virgin store, the application
    /// magic after first open.
    pub app_id: i32,
    /// The schema-version header: the index of the last applied migration.
    pub version: u32,
    /// The next unassigned user-namespace identifier.
    pub user_next_gid: u64,
    /// The next unassigned system-namespace identifier (meaningful once the
    /// final migration has created the system allocator).
    pub system_next_gid: u64,
    pub databases: Vec<DatabaseRow>,
    pub schemas: Vec<SchemaRow>,
    pub roles: Vec<RoleRow>,
    pub compute_instances: Vec<ComputeInstanceRow>,
    pub items: Vec<ItemRow>,
    pub system_gid_mapping: Vec<SystemMappingRow>,
    pub introspection_sources: Vec<IntrospectionRow>,
    pub settings: Vec<SettingRow>,
    pub timestamps: Vec<TimestampRow>,
}

/// The 32-bit application magic written into the store-identity header.
pub const APPLICATION_ID: i32 = 0x1854_47dc;

impl CatalogState {
    // -----------------------------------------------------------------------
    // Lookups.
    // -----------------------------------------------------------------------

    /// Whether some database row carries this id.
    pub open spec fn has_database_id(self, id: int) -> bool {
        exists|i: int| 0 <= i < self.databases@.len() && #[trigger] self.databases@[i].id == id
    }

    /// Whether some database row carries this name.
    pub open spec fn has_database_name(self, name: Seq<char>) -> bool {
        exists|i: int|
            0 <= i < self.databases@.len() && #[trigger] self.databases@[i].name@ == name
    }

    /// Whether some schema row carries this id.
    pub open spec fn has_schema_id(self, id: int) -> bool {
        exists|i: int| 0 <= i < self.schemas@.len() && #[trigger] self.schemas@[i].id == id
    }

    /// Whether some schema row pairs this database with this name.
    pub open spec fn has_schema_name(self, database_id: int, name: Seq<char>) -> bool {
        exists|i: int|
            0 <= i < self.schemas@.len() && (#[trigger] self.schemas@[i]).database_id == Some(
                database_id as i64,
            ) && self.schemas@[i].name@ == name
    }

    /// Whether some role row carries this id.
    pub open spec fn has_role_id(self, id: int) -> bool {
        exists|i: int| 0 <= i < self.roles@.len() && #[trigger] self.roles@[i].id == id
    }

    /// Whether some role row carries this name.
    pub open spec fn has_role_name(self, name: Seq<char>) -> bool {
        exists|i: int| 0 <= i < self.roles@.len() && #[trigger] self.roles@[i].name@ == name
    }

    /// Whether some compute-instance row carries this id.
    pub open spec fn has_compute_instance_id(self, id: int) -> bool {
        exists|i: int|
            0 <= i < self.compute_instances@.len() && #[trigger] self.compute_instances@[i].id
                == id
    }

    /// Whether some compute-instance row carries this name.
    pub open spec fn has_compute_instance_name(self, name: Seq<char>) -> bool {
        exists|i: int|
            0 <= i < self.compute_instances@.len() && #[trigger] self.compute_instances@[i].name@
                == name
    }

    /// Whether some item row carries this global identifier.
    pub open spec fn has_item_gid(self, gid: GlobalId) -> bool {
        exists|i: int| 0 <= i < self.items@.len() && #[trigger] self.items@[i].gid == gid
    }

    /// Whether some item row pairs this schema with this name.
    pub open spec fn has_item_name(self, schema_id: int, name: Seq<char>) -> bool {
        exists|i: int|
            0 <= i < self.items@.len() && (#[trigger] self.items@[i]).schema_id == schema_id
                as i64 && self.items@[i].name@ == name
    }

    /// Whether some system mapping row carries this composite key.
    pub open spec fn has_system_mapping(self, schema_name: Seq<char>, object_name: Seq<char>)
        -> bool {
        exists|i: int|
            0 <= i < self.system_gid_mapping@.len()
                && (#[trigger] self.system_gid_mapping@[i]).schema_name@ == schema_name
                && self.system_gid_mapping@[i].object_name@ == object_name
    }

    /// Whether some introspection row carries this composite key.
    pub open spec fn has_introspection(self, compute_id: int, name: Seq<char>) -> bool {
        exists|i: int|
            0 <= i < self.introspection_sources@.len()
                && (#[trigger] self.introspection_sources@[i]).compute_id == compute_id as i64
                && self.introspection_sources@[i].name@ == name
    }

    /// The value of a named setting, if present: the first (and, under
    /// well-formedness, only) row with this name.
    pub open spec fn setting(self, name: Seq<char>) -> Option<Seq<char>> {
        setting_lookup(self.settings@, name)
    }

    // -----------------------------------------------------------------------
    // Well-formedness.
    // -----------------------------------------------------------------------

    /// Databases are ordered strictly by primary key and names are unique.
    pub open spec fn databases_wf(self) -> bool {
        forall|i: int, j: int|
            #![trigger self.databases@[i], self.databases@[j]]
            0 <= i < j < self.databases@.len() ==> self.databases@[i].id < self.databases@[j].id
                && self.databases@[i].name@ != self.databases@[j].name@
    }

    /// Schemas are ordered strictly by primary key, and the
    /// (database, name) pair is unique where the database is present (the
    /// store never constrains pairs with an absent database against each
    /// other).
    pub open spec fn schemas_wf(self) -> bool {
        forall|i: int, j: int|
            #![trigger self.schemas@[i], self.schemas@[j]]
            0 <= i < j < self.schemas@.len() ==> self.schemas@[i].id < self.schemas@[j].id && !(
            self.schemas@[i].database_id is Some && self.schemas@[i].database_id
                == self.schemas@[j].database_id && self.schemas@[i].name@
                == self.schemas@[j].name@)
    }

    /// Roles are ordered strictly by primary key and names are unique.
    pub open spec fn roles_wf(self) -> bool {
        forall|i: int, j: int|
            #![trigger self.roles@[i], self.roles@[j]]
            0 <= i < j < self.roles@.len() ==> self.roles@[i].id < self.roles@[j].id
                && self.roles@[i].name@ != self.roles@[j].name@
    }

    /// Compute instances are ordered strictly by primary key and names are
    /// unique.
    pub open spec fn compute_instances_wf(self) -> bool {
        forall|i: int, j: int|
            #![trigger self.compute_instances@[i], self.compute_instances@[j]]
            0 <= i < j < self.compute_instances@.len() ==> self.compute_instances@[i].id
                < self.compute_instances@[j].id && self.compute_instances@[i].name@
                != self.compute_instances@[j].name@
    }

    /// Item identifiers are unique, and so is the (schema, name) pair.
    pub open spec fn items_wf(self) -> bool {
        forall|i: int, j: int|
            #![trigger self.items@[i], self.items@[j]]
            0 <= i < j < self.items@.len() ==> self.items@[i].gid != self.items@[j].gid && !(
            self.items@[i].schema_id == self.items@[j].schema_id && self.items@[i].name@
                == self.items@[j].name@)
    }

    /// The (schema-name, object-name) composite key is unique.
    pub open spec fn system_gid_mapping_wf(self) -> bool {
        forall|i: int, j: int|
            #![trigger self.system_gid_mapping@[i], self.system_gid_mapping@[j]]
            0 <= i < j < self.system_gid_mapping@.len() ==> !(
            self.system_gid_mapping@[i].schema_name@ == self.system_gid_mapping@[j].schema_name@
                && self.system_gid_mapping@[i].object_name@
                == self.system_gid_mapping@[j].object_name@)
    }

    /// The (compute-instance, name) composite key is unique.
    pub open spec fn introspection_wf(self) -> bool {
        forall|i: int, j: int|
            #![trigger self.introspection_sources@[i], self.introspection_sources@[j]]
            0 <= i < j < self.introspection_sources@.len() ==> !(
            self.introspection_sources@[i].compute_id
                == self.introspection_sources@[j].compute_id
                && self.introspection_sources@[i].name@
                == self.introspection_sources@[j].name@)
    }

    /// Setting names are unique.
    pub open spec fn settings_wf(self) -> bool {
        forall|i: int, j: int|
            #![trigger self.settings@[i], self.settings@[j]]
            0 <= i < j < self.settings@.len() ==> self.settings@[i].name@
                != self.settings@[j].name@
    }

    /// The allocator counters use signed 64-bit storage.
    pub open spec fn allocators_wf(self) -> bool {
        self.user_next_gid <= i64::MAX && self.system_next_gid <= i64::MAX
    }

    /// The well-formedness invariant of the whole store: every key unique in
    /// its stated scope, id-keyed tables in primary-key order, counters in
    /// range. Every operation of the store preserves it.
    pub open spec fn wf(self) -> bool {
        &&& self.databases_wf()
        &&& self.schemas_wf()
        &&& self.roles_wf()
        &&& self.compute_instances_wf()
        &&& self.items_wf()
        &&& self.system_gid_mapping_wf()
        &&& self.introspection_wf()
        &&& self.settings_wf()
        &&& self.allocators_wf()
    }

    /// Referential integrity: every schema with a present database reference
    /// points to an existing database, every item to an existing schema, and
    /// every introspection row to an existing compute instance. The store
    /// does not enforce this against its callers (the embedded engine does
    /// not either), but a freshly initialized store satisfies it.
    pub open spec fn ref_integral(self) -> bool {
        &&& forall|i: int|
            0 <= i < self.schemas@.len() && (#[trigger] self.schemas@[i]).database_id is Some
                ==> self.has_database_id(self.schemas@[i].database_id->0 as int)
        &&& forall|i: int|
            0 <= i < self.items@.len() ==> self.has_schema_id(
                (#[trigger] self.items@[i]).schema_id as int,
            )
        &&& forall|i: int|
            0 <= i < self.introspection_sources@.len() ==> self.has_compute_instance_id(
                (#[trigger] self.introspection_sources@[i]).compute_id as int,
            )
    }

    /// A virgin store: both headers zero, nothing in any table. This is what
    /// opening a path with no catalog file behind it presents.
    pub open spec fn is_empty_store(self) -> bool {
        &&& self.app_id == 0
        &&& self.version == 0
        &&& self.user_next_gid == 0
        &&& self.system_next_gid == 0
        &&& self.databases@.len() == 0
        &&& self.schemas@.len() == 0
        &&& self.roles@.len() == 0
        &&& self.compute_instances@.len() == 0
        &&& self.items@.len() == 0
        &&& self.system_gid_mapping@.len() == 0
        &&& self.introspection_sources@.len() == 0
        &&& self.settings@.len() == 0
        &&& self.timestamps@.len() == 0
    }

    /// Builds the virgin store.
    pub fn empty() -> (r: CatalogState)
        ensures
            r.is_empty_store(),
            r.wf(),
    {
        CatalogState {
            app_id: 0,
            version: 0,
            user_next_gid: 0,
            system_next_gid: 0,
            databases: Vec::new(),
            schemas: Vec::new(),
            roles: Vec::new(),
            compute_instances: Vec::new(),
            items: Vec::new(),
            system_gid_mapping: Vec::new(),
            introspection_sources: Vec::new(),
            settings: Vec::new(),
            timestamps: Vec::new(),
        }
    }
}

/// The value of the first setting row with this name, if any.
pub open spec fn setting_lookup(rows: Seq<SettingRow>, name: Seq<char>) -> Option<Seq<char>>
    decreases rows.len(),
{
    if rows.len() == 0 {
        None
    } else if rows[0].name@ == name {
        Some(rows[0].value@)
    } else {
        setting_lookup(rows.drop_first(), name)
    }
}

} // verus!
