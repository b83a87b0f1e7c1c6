//! The mathematical model of the store's content: every header, counter and
//! table as a sequence of plain values. The migration engine's effects are
//! defined as functions on this model, which makes them deterministic by
//! construction and lets prefix-composition be stated and proved as a law.

use vstd::prelude::*;

use crate::ids::GlobalId;
use crate::state::{
    CatalogState, ComputeInstanceRow, DatabaseRow, IntrospectionRow, ItemRow, RoleRow, SchemaRow,
    SettingRow, SystemMappingRow, TimestampRow,
};

verus! {

/// The content of one catalog store, in mathematical form.
#[verifier::ext_equal]
pub struct StoreModel {
    pub app_id: int,
    pub version: int,
    pub user_next: int,
    pub system_next: int,
    pub databases: Seq<(int, Seq<char>)>,
    pub schemas: Seq<(int, Option<int>, Seq<char>)>,
    pub roles: Seq<(int, Seq<char>)>,
    pub compute_instances: Seq<(int, Seq<char>, Option<Seq<char>>)>,
    pub items: Seq<(GlobalId, int, Seq<char>, Seq<u8>)>,
    pub system_gid_mapping: Seq<(Seq<char>, Seq<char>, int, int)>,
    pub introspection: Seq<(int, Seq<char>, int)>,
    pub settings: Seq<(Seq<char>, Seq<char>)>,
    pub timestamps: Seq<(Seq<u8>, Seq<char>, int, int)>,
}

/// The view of the databases table.
pub open spec fn databases_view(rows: Seq<DatabaseRow>) -> Seq<(int, Seq<char>)> {
    rows.map_values(|r: DatabaseRow| (r.id as int, r.name@))
}

/// The view of the schemas table.
pub open spec fn schemas_view(rows: Seq<SchemaRow>) -> Seq<(int, Option<int>, Seq<char>)> {
    rows.map_values(
        |r: SchemaRow|
            (
                r.id as int,
                match r.database_id {
                    Some(d) => Some(d as int),
                    None => None,
                },
                r.name@,
            ),
    )
}

/// The view of the roles table.
pub open spec fn roles_view(rows: Seq<RoleRow>) -> Seq<(int, Seq<char>)> {
    rows.map_values(|r: RoleRow| (r.id as int, r.name@))
}

/// The view of the compute-instances table.
pub open spec fn compute_instances_view(rows: Seq<ComputeInstanceRow>) -> Seq<
    (int, Seq<char>, Option<Seq<char>>),
> {
    rows.map_values(
        |r: ComputeInstanceRow|
            (
                r.id as int,
                r.name@,
                match r.config {
                    Some(c) => Some(c@),
                    None => None,
                },
            ),
    )
}

/// The view of the items table.
pub open spec fn items_view(rows: Seq<ItemRow>) -> Seq<(GlobalId, int, Seq<char>, Seq<u8>)> {
    rows.map_values(|r: ItemRow| (r.gid, r.schema_id as int, r.name@, r.definition@))
}

/// The view of the system-object mapping table.
pub open spec fn mapping_view(rows: Seq<SystemMappingRow>) -> Seq<
    (Seq<char>, Seq<char>, int, int),
> {
    rows.map_values(
        |r: SystemMappingRow| (r.schema_name@, r.object_name@, r.id as int, r.fingerprint as int),
    )
}

/// The view of the introspection-source-index table.
pub open spec fn introspection_view(rows: Seq<IntrospectionRow>) -> Seq<(int, Seq<char>, int)> {
    rows.map_values(|r: IntrospectionRow| (r.compute_id as int, r.name@, r.index_id as int))
}

/// The view of the settings table.
pub open spec fn settings_view(rows: Seq<SettingRow>) -> Seq<(Seq<char>, Seq<char>)> {
    rows.map_values(|r: SettingRow| (r.name@, r.value@))
}

/// The view of the historical timestamps table.
pub open spec fn timestamps_view(rows: Seq<TimestampRow>) -> Seq<(Seq<u8>, Seq<char>, int, int)> {
    rows.map_values(|r: TimestampRow| (r.sid@, r.pid@, r.timestamp as int, r.offset as int))
}

impl CatalogState {
    /// The content this state holds, in mathematical form.
    pub open spec fn model(self) -> StoreModel {
        StoreModel {
            app_id: self.app_id as int,
            version: self.version as int,
            user_next: self.user_next_gid as int,
            system_next: self.system_next_gid as int,
            databases: databases_view(self.databases@),
            schemas: schemas_view(self.schemas@),
            roles: roles_view(self.roles@),
            compute_instances: compute_instances_view(self.compute_instances@),
            items: items_view(self.items@),
            system_gid_mapping: mapping_view(self.system_gid_mapping@),
            introspection: introspection_view(self.introspection_sources@),
            settings: settings_view(self.settings@),
            timestamps: timestamps_view(self.timestamps@),
        }
    }
}

/// The primary key the next schema insert assigns in the model.
pub open spec fn model_next_schema_id(rows: Seq<(int, Option<int>, Seq<char>)>) -> int {
    if rows.len() == 0 {
        1
    } else {
        rows.last().0 + 1
    }
}

} // verus!
