//! The store handle: opens or creates the file-backed store, validates its
//! identity, migrates it, and exposes the settings store, the allocators and
//! the repository. All content decisions are made by the verified in-memory
//! operations; the embedded engine's file is kept as a durability mirror,
//! written through the trusted statement wrappers. Multi-object mutations go
//! through the transaction facade, whose work is only made durable — and
//! only published into the handle — by an explicit commit; a facade dropped
//! without committing has no effect.

use vstd::prelude::*;

use crate::boot::experimental_name;
use crate::config::ComputeInstanceConfig;
use crate::error::Error;
use crate::ids::{DatabaseId, GlobalId, SchemaId};
use crate::loads::QualifiedObjectName;
use crate::migrations::{migration_sql, run_model, LAST_MIGRATION};
use crate::sqlite::{
    sqlite_exec, sqlite_exec_batch, sqlite_open, sqlite_open_in_memory, sqlite_query_i64,
    sqlite_query_rows, SqlData, SqliteFailure,
};
use crate::stash::TimestampBindingExport;
use crate::state::{
    CatalogState, ComputeInstanceRow, DatabaseRow, IntrospectionRow, ItemRow, RoleRow, SchemaRow,
    SettingRow, SystemMappingRow, APPLICATION_ID,
};
use crate::text::u64_to_string;
use crate::uuid_val::Uuid;

verus! {

/// Maps an engine failure into the domain's uncategorized storage error.
fn storage_error(f: SqliteFailure) -> (r: Error)
    ensures
        r is Storage,
{
    Error::Storage(f.message)
}

/// The numeric value a system identifier carries (zero for the variants a
/// system-only surface never accepts).
pub open spec fn sys_id_int(g: GlobalId) -> int {
    match g {
        GlobalId::System(v) => v as int,
        _ => 0,
    }
}

/// The view of a run of system-mapping entries, in the order given.
pub open spec fn system_entries_view(ms: Seq<(String, String, GlobalId, u64)>) -> Seq<
    (Seq<char>, Seq<char>, int, int),
> {
    ms.map_values(
        |m: (String, String, GlobalId, u64)| (m.0@, m.1@, sys_id_int(m.2), m.3 as int),
    )
}

/// Whether a run of introspection entries can be inserted as a whole: no
/// entry collides with an existing row or with another entry.
pub open spec fn introspection_entries_ok(
    s: CatalogState,
    ms: Seq<(i64, String, GlobalId)>,
) -> bool {
    &&& forall|k: int|
        0 <= k < ms.len() ==> !s.has_introspection((#[trigger] ms[k]).0 as int, ms[k].1@)
    &&& forall|k: int, l: int|
        0 <= k < l < ms.len() ==> !((#[trigger] ms[k]).0 == (#[trigger] ms[l]).0 && ms[k].1@
            == ms[l].1@)
}

/// The handle to the catalog store: the verified content, the resolved
/// experimental flag and cluster identity, and the durable mirror.
pub struct CatalogConnection {
    db: rusqlite::Connection,
    state: CatalogState,
    experimental_mode: bool,
    cluster_id: Uuid,
}

/// A transaction facade: a working copy of the content plus the mirror
/// statements to replay on commit. Dropping it without committing discards
/// both.
pub struct Transaction {
    state: CatalogState,
    ops: Vec<(&'static str, Vec<SqlData>)>,
}

impl CatalogState {
    /// A deep copy of the content: equal row for row (byte columns equal by
    /// content), hence with the same model and the same well-formedness.
    pub fn clone_state(&self) -> (r: CatalogState)
        ensures
            r.model() == self.model(),
            r.wf() <==> self.wf(),
            r.app_id == self.app_id,
            r.version == self.version,
            r.user_next_gid == self.user_next_gid,
            r.system_next_gid == self.system_next_gid,
            r.databases@ == self.databases@,
            r.schemas@ == self.schemas@,
            r.roles@ == self.roles@,
            r.compute_instances@ == self.compute_instances@,
            r.system_gid_mapping@ == self.system_gid_mapping@,
            r.introspection_sources@ == self.introspection_sources@,
            r.settings@ == self.settings@,
            crate::model::items_view(r.items@) == crate::model::items_view(self.items@),
            crate::model::timestamps_view(r.timestamps@) == crate::model::timestamps_view(
                self.timestamps@,
            ),
    {
        let mut databases: Vec<DatabaseRow> = Vec::new();
        let mut i: usize = 0;
        while i < self.databases.len()
            invariant
                i <= self.databases@.len(),
                databases@ == self.databases@.subrange(0, i as int),
            decreases self.databases@.len() - i,
        {
            let row = &self.databases[i];
            databases.push(DatabaseRow { id: row.id, name: row.name.clone() });
            proof {
                assert(databases@ =~= self.databases@.subrange(0, i + 1 as int));
            }
            i = i + 1;
        }
        let mut schemas: Vec<SchemaRow> = Vec::new();
        let mut i: usize = 0;
        while i < self.schemas.len()
            invariant
                i <= self.schemas@.len(),
                schemas@ == self.schemas@.subrange(0, i as int),
            decreases self.schemas@.len() - i,
        {
            let row = &self.schemas[i];
            schemas.push(
                SchemaRow { id: row.id, database_id: row.database_id, name: row.name.clone() },
            );
            proof {
                assert(schemas@ =~= self.schemas@.subrange(0, i + 1 as int));
            }
            i = i + 1;
        }
        let mut roles: Vec<RoleRow> = Vec::new();
        let mut i: usize = 0;
        while i < self.roles.len()
            invariant
                i <= self.roles@.len(),
                roles@ == self.roles@.subrange(0, i as int),
            decreases self.roles@.len() - i,
        {
            let row = &self.roles[i];
            roles.push(RoleRow { id: row.id, name: row.name.clone() });
            proof {
                assert(roles@ =~= self.roles@.subrange(0, i + 1 as int));
            }
            i = i + 1;
        }
        let mut compute_instances: Vec<ComputeInstanceRow> = Vec::new();
        let mut i: usize = 0;
        while i < self.compute_instances.len()
            invariant
                i <= self.compute_instances@.len(),
                compute_instances@ == self.compute_instances@.subrange(0, i as int),
            decreases self.compute_instances@.len() - i,
        {
            let row = &self.compute_instances[i];
            let config = match &row.config {
                Some(c) => Some(c.clone()),
                None => None,
            };
            compute_instances.push(
                ComputeInstanceRow { id: row.id, name: row.name.clone(), config },
            );
            proof {
                assert(compute_instances@ =~= self.compute_instances@.subrange(0, i + 1 as int));
            }
            i = i + 1;
        }
        let mut items: Vec<ItemRow> = Vec::new();
        let mut i: usize = 0;
        while i < self.items.len()
            invariant
                i <= self.items@.len(),
                items@.len() == i,
                forall|k: int|
                    0 <= k < i ==> (#[trigger] items@[k]).gid == self.items@[k].gid
                        && items@[k].schema_id == self.items@[k].schema_id && items@[k].name
                        == self.items@[k].name && items@[k].definition@
                        == self.items@[k].definition@,
            decreases self.items@.len() - i,
        {
            let row = &self.items[i];
            items.push(
                ItemRow {
                    gid: row.gid,
                    schema_id: row.schema_id,
                    name: row.name.clone(),
                    definition: crate::loads::clone_bytes(&row.definition),
                },
            );
            i = i + 1;
        }
        let mut system_gid_mapping: Vec<SystemMappingRow> = Vec::new();
        let mut i: usize = 0;
        while i < self.system_gid_mapping.len()
            invariant
                i <= self.system_gid_mapping@.len(),
                system_gid_mapping@ == self.system_gid_mapping@.subrange(0, i as int),
            decreases self.system_gid_mapping@.len() - i,
        {
            let row = &self.system_gid_mapping[i];
            system_gid_mapping.push(
                SystemMappingRow {
                    schema_name: row.schema_name.clone(),
                    object_name: row.object_name.clone(),
                    id: row.id,
                    fingerprint: row.fingerprint,
                },
            );
            proof {
                assert(system_gid_mapping@ =~= self.system_gid_mapping@.subrange(
                    0,
                    i + 1 as int,
                ));
            }
            i = i + 1;
        }
        let mut introspection_sources: Vec<IntrospectionRow> = Vec::new();
        let mut i: usize = 0;
        while i < self.introspection_sources.len()
            invariant
                i <= self.introspection_sources@.len(),
                introspection_sources@ == self.introspection_sources@.subrange(0, i as int),
            decreases self.introspection_sources@.len() - i,
        {
            let row = &self.introspection_sources[i];
            introspection_sources.push(
                IntrospectionRow {
                    compute_id: row.compute_id,
                    name: row.name.clone(),
                    index_id: row.index_id,
                },
            );
            proof {
                assert(introspection_sources@ =~= self.introspection_sources@.subrange(
                    0,
                    i + 1 as int,
                ));
            }
            i = i + 1;
        }
        let mut settings: Vec<SettingRow> = Vec::new();
        let mut i: usize = 0;
        while i < self.settings.len()
            invariant
                i <= self.settings@.len(),
                settings@ == self.settings@.subrange(0, i as int),
            decreases self.settings@.len() - i,
        {
            let row = &self.settings[i];
            settings.push(SettingRow { name: row.name.clone(), value: row.value.clone() });
            proof {
                assert(settings@ =~= self.settings@.subrange(0, i + 1 as int));
            }
            i = i + 1;
        }
        let mut timestamps: Vec<crate::state::TimestampRow> = Vec::new();
        let mut i: usize = 0;
        while i < self.timestamps.len()
            invariant
                i <= self.timestamps@.len(),
                timestamps@.len() == i,
                forall|k: int|
                    0 <= k < i ==> (#[trigger] timestamps@[k]).sid@ == self.timestamps@[k].sid@
                        && timestamps@[k].pid == self.timestamps@[k].pid
                        && timestamps@[k].timestamp == self.timestamps@[k].timestamp
                        && timestamps@[k].offset == self.timestamps@[k].offset,
            decreases self.timestamps@.len() - i,
        {
            let row = &self.timestamps[i];
            timestamps.push(
                crate::state::TimestampRow {
                    sid: crate::loads::clone_bytes(&row.sid),
                    pid: row.pid.clone(),
                    timestamp: row.timestamp,
                    offset: row.offset,
                },
            );
            i = i + 1;
        }
        let r = CatalogState {
            app_id: self.app_id,
            version: self.version,
            user_next_gid: self.user_next_gid,
            system_next_gid: self.system_next_gid,
            databases,
            schemas,
            roles,
            compute_instances,
            items,
            system_gid_mapping,
            introspection_sources,
            settings,
            timestamps,
        };
        proof {
            assert(r.databases@ =~= self.databases@);
            assert(r.schemas@ =~= self.schemas@);
            assert(r.roles@ =~= self.roles@);
            assert(r.compute_instances@ =~= self.compute_instances@);
            assert(r.system_gid_mapping@ =~= self.system_gid_mapping@);
            assert(r.introspection_sources@ =~= self.introspection_sources@);
            assert(r.settings@ =~= self.settings@);
            assert(crate::model::items_view(r.items@) =~= crate::model::items_view(self.items@));
            assert(crate::model::timestamps_view(r.timestamps@) =~= crate::model::timestamps_view(
                self.timestamps@,
            ));
            assert(r.model() =~= self.model());
            assert(r.items_wf() <==> self.items_wf()) by {
                if self.items_wf() {
                    assert forall|a: int, b: int|
                        0 <= a < b < r.items@.len() implies (#[trigger] r.items@[a]).gid
                        != (#[trigger] r.items@[b]).gid && !(r.items@[a].schema_id
                        == r.items@[b].schema_id && r.items@[a].name@
                        == r.items@[b].name@) by {
                        assert(self.items@[a].gid != self.items@[b].gid && !(
                        self.items@[a].schema_id == self.items@[b].schema_id
                            && self.items@[a].name@ == self.items@[b].name@));
                    }
                }
                if r.items_wf() {
                    assert forall|a: int, b: int|
                        0 <= a < b < self.items@.len() implies (#[trigger] self.items@[a]).gid
                        != (#[trigger] self.items@[b]).gid && !(self.items@[a].schema_id
                        == self.items@[b].schema_id && self.items@[a].name@
                        == self.items@[b].name@) by {
                        assert(r.items@[a].gid != r.items@[b].gid && !(r.items@[a].schema_id
                            == r.items@[b].schema_id && r.items@[a].name@
                            == r.items@[b].name@));
                    }
                }
            }
        }
        r
    }
}

} // verus!

verus! {

/// Maps a mirror failure message into the domain's storage error.
fn mirror_error(message: String) -> (r: Error)
    ensures
        r is Storage,
{
    Error::Storage(message)
}

/// Reads an integer column.
fn data_int(d: &SqlData) -> (r: Option<i64>)
    ensures
        r matches Some(v) ==> *d == SqlData::Int(v),
{
    match d {
        SqlData::Int(v) => Some(*v),
        _ => None,
    }
}

/// Reads a text column (owned).
fn data_text(d: &SqlData) -> (r: Option<String>)
    ensures
        r matches Some(v) ==> d matches SqlData::Text(t) && v@ == t@,
{
    match d {
        SqlData::Text(t) => Some(t.clone()),
        _ => None,
    }
}

/// Reads a text column that may also arrive as a byte column (the engine
/// stores text written as bytes verbatim); bytes must be ASCII.
fn data_text_or_blob(d: &SqlData) -> (r: Option<String>)
{
    match d {
        SqlData::Text(t) => Some(t.clone()),
        SqlData::Blob(b) => crate::text::utf8_string(crate::loads::clone_bytes(b)),
        _ => None,
    }
}

/// Reads a byte column (owned).
fn data_blob(d: &SqlData) -> (r: Option<Vec<u8>>)
    ensures
        r matches Some(v) ==> d matches SqlData::Blob(b) && v@ == b@,
{
    match d {
        SqlData::Blob(b) => Some(crate::loads::clone_bytes(b)),
        _ => None,
    }
}

/// Reads a nullable integer column.
fn data_opt_int(d: &SqlData) -> (r: Option<Option<i64>>)
{
    match d {
        SqlData::Int(v) => Some(Some(*v)),
        SqlData::Null => Some(None),
        _ => None,
    }
}

/// Reads a nullable text column.
fn data_opt_text(d: &SqlData) -> (r: Option<Option<String>>)
{
    match d {
        SqlData::Text(t) => Some(Some(t.clone())),
        SqlData::Null => Some(None),
        _ => None,
    }
}

/// The shape error for a row that does not match its table.
fn shape_error() -> (r: Error)
    ensures
        r is Storage,
{
    Error::Storage(String::from_str("unexpected row shape in store file"))
}

/// Reads one single-row counter table.
fn read_counter(db: &rusqlite::Connection, sql: &str) -> (r: Result<u64, Error>)
{
    match sqlite_query_i64(db, sql) {
        Ok(v) => {
            if v < 0 {
                Err(Error::Storage(String::from_str("negative allocator counter")))
            } else {
                Ok(v as u64)
            }
        }
        Err(m) => Err(mirror_error(m)),
    }
}

/// Reads the whole durable content of an already-identified store back into
/// the in-memory form, table by table according to the recorded schema
/// version. A virgin store (identity zero) holds no tables at all.
fn read_state(db: &rusqlite::Connection, app_id: i32, version: u32) -> (r: Result<
    CatalogState,
    Error,
>)
    ensures
        r matches Ok(s) ==> s.app_id == app_id && s.version == version,
{
    let mut s = CatalogState::empty();
    s.app_id = app_id;
    s.version = version;
    if app_id == 0 {
        return Ok(s);
    }
    if version >= 11 {
        s.user_next_gid = read_counter(db, "SELECT next_gid FROM user_gid_alloc")?;
        s.system_next_gid = read_counter(db, "SELECT next_gid FROM system_gid_alloc")?;
    } else {
        s.user_next_gid = read_counter(db, "SELECT next_gid FROM gid_alloc")?;
    }
    let rows = match sqlite_query_rows(db, "SELECT id, name FROM databases ORDER BY id") {
        Ok(rows) => rows,
        Err(m) => {
            return Err(mirror_error(m));
        }
    };
    let mut i: usize = 0;
    while i < rows.len()
        decreases rows.len() - i,
    {
        let row = &rows[i];
        if row.len() != 2 {
            return Err(shape_error());
        }
        let id = match data_int(&row[0]) {
            Some(v) => v,
            None => {
                return Err(shape_error());
            }
        };
        let name = match data_text(&row[1]) {
            Some(v) => v,
            None => {
                return Err(shape_error());
            }
        };
        s.databases.push(DatabaseRow { id, name });
        i = i + 1;
    }
    let rows = match sqlite_query_rows(db, "SELECT id, database_id, name FROM schemas ORDER BY id")
        {
        Ok(rows) => rows,
        Err(m) => {
            return Err(mirror_error(m));
        }
    };
    let mut i: usize = 0;
    while i < rows.len()
        decreases rows.len() - i,
    {
        let row = &rows[i];
        if row.len() != 3 {
            return Err(shape_error());
        }
        let id = match data_int(&row[0]) {
            Some(v) => v,
            None => {
                return Err(shape_error());
            }
        };
        let database_id = match data_opt_int(&row[1]) {
            Some(v) => v,
            None => {
                return Err(shape_error());
            }
        };
        let name = match data_text(&row[2]) {
            Some(v) => v,
            None => {
                return Err(shape_error());
            }
        };
        s.schemas.push(SchemaRow { id, database_id, name });
        i = i + 1;
    }
    let rows = match sqlite_query_rows(
        db,
        "SELECT gid, schema_id, name, definition FROM items",
    ) {
        Ok(rows) => rows,
        Err(m) => {
            return Err(mirror_error(m));
        }
    };
    let mut i: usize = 0;
    while i < rows.len()
        decreases rows.len() - i,
    {
        let row = &rows[i];
        if row.len() != 4 {
            return Err(shape_error());
        }
        let blob = match data_blob(&row[0]) {
            Some(v) => v,
            None => {
                return Err(shape_error());
            }
        };
        let gid = crate::codec::decode_global_id(blob.as_slice())?;
        let schema_id = match data_int(&row[1]) {
            Some(v) => v,
            None => {
                return Err(shape_error());
            }
        };
        let name = match data_text(&row[2]) {
            Some(v) => v,
            None => {
                return Err(shape_error());
            }
        };
        let definition = match data_blob(&row[3]) {
            Some(v) => v,
            None => {
                return Err(shape_error());
            }
        };
        s.items.push(ItemRow { gid, schema_id, name, definition });
        i = i + 1;
    }
    if version >= 2 {
        let rows = match sqlite_query_rows(db, "SELECT name, value FROM settings") {
            Ok(rows) => rows,
            Err(m) => {
                return Err(mirror_error(m));
            }
        };
        let mut i: usize = 0;
        while i < rows.len()
            decreases rows.len() - i,
        {
            let row = &rows[i];
            if row.len() != 2 {
                return Err(shape_error());
            }
            let name = match data_text(&row[0]) {
                Some(v) => v,
                None => {
                    return Err(shape_error());
                }
            };
            let value = match data_text_or_blob(&row[1]) {
                Some(v) => v,
                None => {
                    return Err(shape_error());
                }
            };
            s.settings.push(SettingRow { name, value });
            i = i + 1;
        }
    }
    if version >= 3 {
        let rows = match sqlite_query_rows(db, "SELECT id, name FROM roles ORDER BY id") {
            Ok(rows) => rows,
            Err(m) => {
                return Err(mirror_error(m));
            }
        };
        let mut i: usize = 0;
        while i < rows.len()
            decreases rows.len() - i,
        {
            let row = &rows[i];
            if row.len() != 2 {
                return Err(shape_error());
            }
            let id = match data_int(&row[0]) {
                Some(v) => v,
                None => {
                    return Err(shape_error());
                }
            };
            let name = match data_text(&row[1]) {
                Some(v) => v,
                None => {
                    return Err(shape_error());
                }
            };
            s.roles.push(RoleRow { id, name });
            i = i + 1;
        }
    }
    if version >= 8 {
        let sql = if version >= 9 {
            "SELECT id, name, config FROM compute_instances ORDER BY id"
        } else {
            "SELECT id, name, NULL FROM compute_instances ORDER BY id"
        };
        let rows = match sqlite_query_rows(db, sql) {
            Ok(rows) => rows,
            Err(m) => {
                return Err(mirror_error(m));
            }
        };
        let mut i: usize = 0;
        while i < rows.len()
            decreases rows.len() - i,
        {
            let row = &rows[i];
            if row.len() != 3 {
                return Err(shape_error());
            }
            let id = match data_int(&row[0]) {
                Some(v) => v,
                None => {
                    return Err(shape_error());
                }
            };
            let name = match data_text(&row[1]) {
                Some(v) => v,
                None => {
                    return Err(shape_error());
                }
            };
            let config = match data_opt_text(&row[2]) {
                Some(v) => v,
                None => {
                    return Err(shape_error());
                }
            };
            s.compute_instances.push(ComputeInstanceRow { id, name, config });
            i = i + 1;
        }
    }
    if version >= 5 && version <= 9 {
        let rows = match sqlite_query_rows(
            db,
            "SELECT sid, pid, timestamp, offset FROM timestamps",
        ) {
            Ok(rows) => rows,
            Err(m) => {
                return Err(mirror_error(m));
            }
        };
        let mut i: usize = 0;
        while i < rows.len()
            decreases rows.len() - i,
        {
            let row = &rows[i];
            if row.len() != 4 {
                return Err(shape_error());
            }
            let sid = match data_blob(&row[0]) {
                Some(v) => v,
                None => {
                    return Err(shape_error());
                }
            };
            let pid = match data_text_or_blob(&row[1]) {
                Some(v) => v,
                None => {
                    return Err(shape_error());
                }
            };
            let timestamp = match data_int(&row[2]) {
                Some(v) => v,
                None => {
                    return Err(shape_error());
                }
            };
            let offset = match data_int(&row[3]) {
                Some(v) => v,
                None => {
                    return Err(shape_error());
                }
            };
            s.timestamps.push(crate::state::TimestampRow { sid, pid, timestamp, offset });
            i = i + 1;
        }
    }
    if version >= 11 {
        let rows = match sqlite_query_rows(
            db,
            "SELECT schema_name, object_name, id, fingerprint FROM system_gid_mapping",
        ) {
            Ok(rows) => rows,
            Err(m) => {
                return Err(mirror_error(m));
            }
        };
        let mut i: usize = 0;
        while i < rows.len()
            decreases rows.len() - i,
        {
            let row = &rows[i];
            if row.len() != 4 {
                return Err(shape_error());
            }
            let schema_name = match data_text(&row[0]) {
                Some(v) => v,
                None => {
                    return Err(shape_error());
                }
            };
            let object_name = match data_text(&row[1]) {
                Some(v) => v,
                None => {
                    return Err(shape_error());
                }
            };
            let id = match data_int(&row[2]) {
                Some(v) => v,
                None => {
                    return Err(shape_error());
                }
            };
            let fingerprint = match data_int(&row[3]) {
                Some(v) => v,
                None => {
                    return Err(shape_error());
                }
            };
            if id < 0 || fingerprint < 0 {
                return Err(shape_error());
            }
            s.system_gid_mapping.push(
                SystemMappingRow {
                    schema_name,
                    object_name,
                    id: id as u64,
                    fingerprint: fingerprint as u64,
                },
            );
            i = i + 1;
        }
        let rows = match sqlite_query_rows(
            db,
            "SELECT compute_id, name, index_id FROM compute_introspection_source_indexes",
        ) {
            Ok(rows) => rows,
            Err(m) => {
                return Err(mirror_error(m));
            }
        };
        let mut i: usize = 0;
        while i < rows.len()
            decreases rows.len() - i,
        {
            let row = &rows[i];
            if row.len() != 3 {
                return Err(shape_error());
            }
            let compute_id = match data_int(&row[0]) {
                Some(v) => v,
                None => {
                    return Err(shape_error());
                }
            };
            let name = match data_text(&row[1]) {
                Some(v) => v,
                None => {
                    return Err(shape_error());
                }
            };
            let index_id = match data_int(&row[2]) {
                Some(v) => v,
                None => {
                    return Err(shape_error());
                }
            };
            if index_id < 0 {
                return Err(shape_error());
            }
            s.introspection_sources.push(
                IntrospectionRow { compute_id, name, index_id: index_id as u64 },
            );
            i = i + 1;
        }
    }
    let final_app = s.app_id;
    let final_version = s.version;
    if final_app == app_id && final_version == version {
        Ok(s)
    } else {
        Err(shape_error())
    }
}

} // verus!

verus! {

impl CatalogConnection {
    /// The content this handle holds.
    pub closed spec fn state_spec(&self) -> CatalogState {
        self.state
    }

    /// A sound handle: its content is well-formed.
    pub open spec fn wf(&self) -> bool {
        self.state_spec().wf()
    }

    /// The resolved experimental flag.
    pub closed spec fn experimental_spec(&self) -> bool {
        self.experimental_mode
    }

    /// The resolved cluster identity.
    pub closed spec fn cluster_spec(&self) -> Seq<u8> {
        self.cluster_id.bytes_spec()
    }

    /// Opens or creates the store under this data directory and boots it:
    /// identity validation, migration to the latest version, latch and
    /// identity resolution. Returns the handle and any replay exports the
    /// migration run produced for the external stash.
    pub fn open(data_dir_path: &str, experimental_mode: Option<bool>) -> (r: Result<
        (CatalogConnection, Vec<TimestampBindingExport>),
        Error,
    >)
        ensures
            r matches Ok(p) ==> p.0.wf() && (experimental_mode matches Some(h)
                ==> p.0.experimental_spec() == h),
    {
        let db = match sqlite_open(data_dir_path) {
            Ok(db) => db,
            Err(m) => {
                return Err(mirror_error(m));
            }
        };
        CatalogConnection::open_db(db, experimental_mode)
    }

    /// Opens a fresh private store with no file behind it, and boots it.
    pub fn open_in_memory(experimental_mode: Option<bool>) -> (r: Result<
        (CatalogConnection, Vec<TimestampBindingExport>),
        Error,
    >)
        ensures
            r matches Ok(p) ==> p.0.wf() && (experimental_mode matches Some(h)
                ==> p.0.experimental_spec() == h),
    {
        let db = match sqlite_open_in_memory() {
            Ok(db) => db,
            Err(m) => {
                return Err(mirror_error(m));
            }
        };
        CatalogConnection::open_db(db, experimental_mode)
    }

    /// Boots an opened store: reads its content back, validates it, runs the
    /// verified boot, and replays what the boot did into the durable mirror.
    fn open_db(db: rusqlite::Connection, experimental_mode: Option<bool>) -> (r: Result<
        (CatalogConnection, Vec<TimestampBindingExport>),
        Error,
    >)
        ensures
            r matches Ok(p) ==> p.0.wf() && (experimental_mode matches Some(h)
                ==> p.0.experimental_spec() == h),
    {
        // The store's inter-table references are advisory: removals may
        // leave dangling references behind, and the engine must not veto
        // them.
        if let Err(m) = sqlite_exec_batch(&db, "PRAGMA foreign_keys = OFF") {
            return Err(mirror_error(m));
        }
        let app_id64 = match sqlite_query_i64(&db, "PRAGMA application_id") {
            Ok(v) => v,
            Err(m) => {
                return Err(mirror_error(m));
            }
        };
        if app_id64 < -0x8000_0000 || app_id64 > 0x7fff_ffff {
            return Err(Error::Storage(String::from_str("application id out of range")));
        }
        let app_id: i32 = app_id64 as i32;
        let version64 = match sqlite_query_i64(&db, "PRAGMA user_version") {
            Ok(v) => v,
            Err(m) => {
                return Err(mirror_error(m));
            }
        };
        if version64 < 0 || version64 > 0xffff_ffff {
            return Err(Error::Storage(String::from_str("schema version out of range")));
        }
        let version: u32 = version64 as u32;
        let prior = read_state(&db, app_id, version)?;
        if !prior.wf_check() {
            return Err(Error::Storage(String::from_str("store content violates catalog invariants")));
        }
        // The latch can only read a numeric stored flag; check before
        // booting, on the value the boot will consult.
        let pre_exp: Option<String> = if app_id != 0 && version >= 2 {
            match prior.get_setting("experimental_mode") {
                Some(v) => Some(v.clone()),
                None => None,
            }
        } else {
            None
        };
        match &pre_exp {
            Some(v) => {
                if crate::text::parse_u64_bounded(v.as_str(), u64::MAX).is_none() {
                    return Err(Error::Storage(String::from_str("unreadable experimental_mode")));
                }
            }
            None => {}
        }
        let pre_cluster_present: bool = if app_id != 0 && version >= 2 {
            match prior.get_setting("cluster_id") {
                Some(_) => true,
                None => false,
            }
        } else {
            false
        };
        let ghost m0 = prior.model();
        let ghost old_settings_rows = prior.settings@;
        let fresh_id = Uuid::new_v4();
        let mut s = prior;
        let ghost m_base: crate::model::StoreModel;
        let ghost start0: int;
        // Identity phase: a virgin store takes the magic and, in the same
        // engine transaction, the baseline step; any other identity than the
        // magic is corruption.
        if app_id == 0 {
            s.app_id = APPLICATION_ID;
            proof {
                m_base = s.model();
                start0 = 0;
                assert(m_base =~= (crate::model::StoreModel {
                    app_id: APPLICATION_ID as int,
                    ..m0
                }));
            }
            if let Err(m) = sqlite_exec_batch(&db, "BEGIN") {
                return Err(mirror_error(m));
            }
            let mut pragma = String::from_str("PRAGMA application_id = ");
            let magic = u64_to_string(APPLICATION_ID as u64);
            pragma.append(magic.as_str());
            if let Err(m) = sqlite_exec_batch(&db, pragma.as_str()) {
                return Err(mirror_error(m));
            }
            if let Err(m) = sqlite_exec_batch(&db, migration_sql(0)) {
                return Err(mirror_error(m));
            }
            if let Err(m) = sqlite_exec_batch(&db, "COMMIT") {
                return Err(mirror_error(m));
            }
            // The baseline step is unconditionally applicable.
            match s.apply_migration(0) {
                Ok(_) => {}
                Err(_) => {
                    return vstd::pervasive::unreached();
                }
            }
            proof {
                assert(run_model(m_base, 0, 0) == run_model(
                    crate::migrations::migration_model(m_base, 0),
                    1,
                    0,
                ));
            }
        } else if app_id != APPLICATION_ID {
            return Err(
                Error::Corruption {
                    detail: String::from_str("catalog file has incorrect application_id"),
                },
            );
        } else {
            proof {
                m_base = s.model();
                start0 = version + 1;
            }
        }
        // Migration phase: each unapplied step commits its content and its
        // index durably before the next runs, so a failing step leaves the
        // store — in memory and on disk — at the last successfully applied
        // version.
        let mut exports: Vec<TimestampBindingExport> = Vec::new();
        if s.version < LAST_MIGRATION {
            let mut i: u32 = s.version + 1;
            while i <= LAST_MIGRATION
                invariant
                    1 <= i <= LAST_MIGRATION + 1,
                    start0 <= i,
                    s.wf(),
                    s.model() == run_model(m_base, start0, i - 1),
                decreases LAST_MIGRATION + 1 - i,
            {
                let step = match s.apply_migration(i) {
                    Ok(ex) => ex,
                    Err(e) => {
                        return Err(e);
                    }
                };
                proof {
                    let mid = run_model(m_base, start0, i - 1);
                    assert(run_model(crate::migrations::migration_model(mid, i as int), i + 1, i as int)
                        == crate::migrations::migration_model(mid, i as int));
                    assert(run_model(mid, i as int, i as int)
                        == crate::migrations::migration_model(mid, i as int));
                    if start0 < i {
                        crate::migrations::lemma_run_split(m_base, start0, i - 1, i as int);
                    } else {
                        assert(run_model(m_base, start0, i - 1) == m_base);
                        assert(run_model(m_base, start0, i as int) == run_model(
                            crate::migrations::migration_model(m_base, i as int),
                            i + 1,
                            i as int,
                        ));
                    }
                    assert(s.model() == run_model(m_base, start0, i as int));
                }
                if let Err(m) = sqlite_exec_batch(&db, "BEGIN") {
                    return Err(mirror_error(m));
                }
                if let Err(m) = sqlite_exec_batch(&db, migration_sql(i)) {
                    return Err(mirror_error(m));
                }
                let mut pragma = String::from_str("PRAGMA user_version = ");
                let num = u64_to_string(i as u64);
                pragma.append(num.as_str());
                if let Err(m) = sqlite_exec_batch(&db, pragma.as_str()) {
                    return Err(mirror_error(m));
                }
                if let Err(m) = sqlite_exec_batch(&db, "COMMIT") {
                    return Err(mirror_error(m));
                }
                if i == 10 {
                    let ghost stepv = step@;
                    let mut step_exports = step;
                    exports.append(&mut step_exports);
                }
                i = i + 1;
            }
        }
        proof {
            assert(s.model() == run_model(m_base, start0, LAST_MIGRATION as int)) by {
                if s.version >= LAST_MIGRATION && start0 > LAST_MIGRATION as int {
                    assert(run_model(m_base, start0, LAST_MIGRATION as int) == m_base);
                }
            }
            assert(s.model() == crate::boot::boot_run(m0)) by {
                if m0.app_id == 0 {
                    assert(m_base =~= (crate::model::StoreModel {
                        app_id: APPLICATION_ID as int,
                        ..m0
                    }));
                }
            }
            // The latch's stored value survived (or was cleared by) the
            // migration run, so the parse check made above still covers it.
            if app_id != 0 && version >= 2 {
                crate::boot::lemma_settings_survive_run(m0);
            } else {
                crate::boot::lemma_settings_cleared_run(m0);
            }
            crate::boot::lemma_setting_model(s.settings@, experimental_name());
            crate::boot::lemma_setting_model(old_settings_rows, experimental_name());
        }
        let resolved = match s.resolve_experimental(experimental_mode) {
            Ok(b) => b,
            Err(e) => {
                return Err(e);
            }
        };
        if pre_exp.is_none() && experimental_mode.is_some() {
            let flag = if resolved {
                "1"
            } else {
                "0"
            };
            let mut params: Vec<SqlData> = Vec::new();
            params.push(SqlData::Text(String::from_str(flag)));
            if let Err(f) = sqlite_exec(
                &db,
                "INSERT INTO settings VALUES ('experimental_mode', ?)",
                params,
            ) {
                return Err(storage_error(f));
            }
        }
        let cluster_id = match s.resolve_cluster_id(fresh_id) {
            Ok(u) => u,
            Err(e) => {
                return Err(e);
            }
        };
        if !pre_cluster_present {
            let mut value = String::from_str("\"");
            let text = cluster_id.to_text();
            value.append(text.as_str());
            value.append("\"");
            let mut params: Vec<SqlData> = Vec::new();
            params.push(SqlData::Text(value));
            if let Err(f) = sqlite_exec(
                &db,
                "INSERT INTO settings VALUES ('cluster_id', ?)",
                params,
            ) {
                return Err(storage_error(f));
            }
        }
        let conn = CatalogConnection {
            db,
            state: s,
            experimental_mode: resolved,
            cluster_id,
        };
        Ok((conn, exports))
    }

    /// The cluster identity resolved at open.
    pub fn cluster_id(&self) -> (r: Uuid)
        ensures
            r.bytes_spec() == self.cluster_spec(),
    {
        self.cluster_id.clone_id()
    }

    /// The experimental flag resolved at open.
    pub fn experimental_mode(&self) -> (r: bool)
        ensures
            r == self.experimental_spec(),
    {
        self.experimental_mode
    }

    /// Reads the content version: the stored value, the sentinel for a
    /// legacy 32-bit numeral, or `new` when nothing is stored.
    pub fn get_catalog_content_version(&mut self) -> (r: Result<String, Error>)
        ensures
            *final(self) == *old(self),
            r is Ok,
            r matches Ok(v) ==> (match old(self).state_spec().setting(
                crate::boot::content_version_name(),
            ) {
                None => v@ == "new"@,
                Some(stored) => if crate::text::is_numeral(stored) && crate::text::dec_val(stored)
                    <= u32::MAX {
                    v@ == "pre-v0.8.4"@
                } else {
                    v@ == stored
                },
            }),
    {
        Ok(self.state.get_catalog_content_version())
    }

    /// Writes the content version: the handle's content is updated whatever
    /// the durable mirror answers, and a mirror failure is reported as a
    /// storage error.
    pub fn set_catalog_content_version(&mut self, new_version: &str) -> (r: Result<(), Error>)
        requires
            old(self).wf(),
        ensures
            final(self).wf(),
            final(self).state_spec() == (CatalogState {
                settings: final(self).state_spec().settings,
                ..old(self).state_spec()
            }),
            final(self).state_spec().setting(crate::boot::content_version_name()) == Some(
                new_version@,
            ),
            forall|other: Seq<char>|
                other != crate::boot::content_version_name() ==> final(self).state_spec().setting(
                    other,
                ) == old(self).state_spec().setting(other),
            r matches Err(e) ==> e is Storage,
    {
        self.state.set_catalog_content_version(new_version);
        let mut params: Vec<SqlData> = Vec::new();
        params.push(SqlData::Text(new_version.to_owned()));
        match sqlite_exec(
            &self.db,
            "INSERT INTO settings (name, value) VALUES ('catalog_content_version', ?)\n                    ON CONFLICT (name) DO UPDATE SET value=excluded.value;",
            params,
        ) {
            Ok(_) => Ok(()),
            Err(f) => Err(storage_error(f)),
        }
    }

    /// Returns all databases in primary-key order.
    pub fn load_databases(&self) -> (r: Result<Vec<(DatabaseId, String)>, Error>)
        ensures
            r is Ok,
            r matches Ok(v) ==> v@.len() == self.state_spec().databases@.len() && forall|i: int|
                0 <= i < v@.len() ==> (#[trigger] v@[i]).0.0 == self.state_spec().databases@[i].id
                    && v@[i].1@ == self.state_spec().databases@[i].name@,
    {
        Ok(self.state.load_databases())
    }

    /// Returns all schemas in primary-key order with their databases.
    pub fn load_schemas(&self) -> (r: Result<Vec<(SchemaId, String, Option<DatabaseId>)>, Error>)
        ensures
            r is Ok,
            r matches Ok(v) ==> v@.len() == self.state_spec().schemas@.len() && forall|i: int|
                0 <= i < v@.len() ==> (#[trigger] v@[i]).0.0 == self.state_spec().schemas@[i].id
                    && v@[i].1@ == self.state_spec().schemas@[i].name@ && (match v@[i].2 {
                    Some(d) => self.state_spec().schema_database_view(i) == Some(d.0),
                    None => self.state_spec().schema_database_view(i) is None,
                }),
    {
        Ok(self.state.load_schemas())
    }

    /// Returns all roles in primary-key order.
    pub fn load_roles(&self) -> (r: Result<Vec<(i64, String)>, Error>)
        ensures
            r is Ok,
            r matches Ok(v) ==> v@.len() == self.state_spec().roles@.len() && forall|i: int|
                0 <= i < v@.len() ==> (#[trigger] v@[i]).0 == self.state_spec().roles@[i].id
                    && v@[i].1@ == self.state_spec().roles@[i].name@,
    {
        Ok(self.state.load_roles())
    }

    /// Returns all compute instances in primary-key order with their decoded
    /// configurations.
    pub fn load_compute_instances(&self) -> (r: Result<
        Vec<(i64, String, ComputeInstanceConfig)>,
        Error,
    >)
        ensures
            r is Ok,
            r matches Ok(v) ==> v@.len() == self.state_spec().compute_instances@.len() && forall|
                i: int,
            |
                0 <= i < v@.len() ==> (#[trigger] v@[i]).0
                    == self.state_spec().compute_instances@[i].id && v@[i].1@
                    == self.state_spec().compute_instances@[i].name@ && (match self.state_spec().compute_instances@[i].config {
                    None => v@[i].2 is Local,
                    Some(s) => if s@ == crate::config::local_config_text() {
                        v@[i].2 is Local
                    } else {
                        v@[i].2 matches ComputeInstanceConfig::Custom(cc) && cc@ == s@
                    },
                }),
    {
        Ok(self.state.load_compute_instances())
    }

    /// Returns the persisted mapping of built-in objects to identifiers.
    pub fn load_system_gids(&self) -> (r: Result<Vec<(String, String, GlobalId, u64)>, Error>)
        ensures
            r is Ok,
            r matches Ok(v) ==> v@.len() == self.state_spec().system_gid_mapping@.len() && forall|
                i: int,
            |
                0 <= i < v@.len() ==> (#[trigger] v@[i]).0@
                    == self.state_spec().system_gid_mapping@[i].schema_name@ && v@[i].1@
                    == self.state_spec().system_gid_mapping@[i].object_name@ && v@[i].2
                    == GlobalId::System(self.state_spec().system_gid_mapping@[i].id) && v@[i].3
                    == self.state_spec().system_gid_mapping@[i].fingerprint,
    {
        Ok(self.state.load_system_gids())
    }

    /// Returns the introspection-source indexes of one compute instance, in
    /// stored order.
    pub fn load_introspection_source_index_gids(&self, compute_id: i64) -> (r: Result<
        Vec<(String, GlobalId)>,
        Error,
    >)
        ensures
            r is Ok,
            r matches Ok(v) ==> ({
                let rows = self.state_spec().introspection_sources@.filter(
                    |row: IntrospectionRow| row.compute_id == compute_id,
                );
                &&& v@.len() == rows.len()
                &&& forall|i: int|
                    0 <= i < v@.len() ==> (#[trigger] v@[i]).0@ == rows[i].name@ && v@[i].1
                        == GlobalId::System(rows[i].index_id)
            }),
    {
        Ok(self.state.load_introspection_source_index_gids(compute_id))
    }

    /// Pins identifiers and fingerprints for built-in objects, durably:
    /// insert-or-replace on the composite (schema-name, object-name) key,
    /// entries applied in order so a later duplicate wins. Every identifier
    /// must be a system one: handing anything else to this system-only
    /// surface is a programmer error the interface contract excludes. The
    /// whole batch is one unit: on any mirror failure nothing changes.
    pub fn set_system_gids(&mut self, mappings: &Vec<(String, String, GlobalId, u64)>) -> (r:
        Result<(), Error>)
        requires
            old(self).wf(),
            forall|k: int| 0 <= k < mappings@.len() ==> (#[trigger] mappings@[k]).2 is System,
        ensures
            final(self).wf(),
            r matches Err(e) ==> *final(self) == *old(self) && e is Storage,
            r is Ok ==> {
                &&& final(self).state_spec() == (CatalogState {
                    system_gid_mapping: final(self).state_spec().system_gid_mapping,
                    ..old(self).state_spec()
                })
                &&& crate::model::mapping_view(final(self).state_spec().system_gid_mapping@)
                    == crate::migrations::seed_fold(
                    crate::model::mapping_view(old(self).state_spec().system_gid_mapping@),
                    system_entries_view(mappings@),
                )
            },
    {
        let n = mappings.len();
        if n == 0 {
            proof {
                assert(system_entries_view(mappings@) =~= Seq::<
                    (Seq<char>, Seq<char>, int, int),
                >::empty());
                assert(crate::migrations::seed_fold(
                    crate::model::mapping_view(self.state.system_gid_mapping@),
                    system_entries_view(mappings@),
                ) == crate::model::mapping_view(self.state.system_gid_mapping@));
            }
            return Ok(());
        }
        // Mirror the whole batch first, inside one engine transaction, so a
        // failure leaves both the file and the handle untouched.
        if let Err(m) = sqlite_exec_batch(&self.db, "BEGIN") {
            return Err(mirror_error(m));
        }
        let mut k: usize = 0;
        while k < n
            invariant
                0 <= k <= n,
                n == mappings@.len(),
                *self == *old(self),
                self.state.wf(),
                forall|j: int| 0 <= j < n ==> (#[trigger] mappings@[j]).2 is System,
            decreases n - k,
        {
            let entry = &mappings[k];
            let id: u64 = match entry.2 {
                GlobalId::System(v) => v,
                _ => vstd::pervasive::unreached(),
            };
            let mut params: Vec<SqlData> = Vec::new();
            params.push(SqlData::Text(entry.0.clone()));
            params.push(SqlData::Text(entry.1.clone()));
            params.push(SqlData::Int(#[verifier::truncate] (id as i64)));
            params.push(SqlData::Int(#[verifier::truncate] (entry.3 as i64)));
            if let Err(f) = sqlite_exec(
                &self.db,
                "INSERT INTO system_gid_mapping (schema_name, object_name, id, fingerprint) VALUES (?, ?, ?, ?)\n                        ON CONFLICT (schema_name, object_name) DO UPDATE SET id=excluded.id, fingerprint=excluded.fingerprint;",
                params,
            ) {
                let _ = sqlite_exec_batch(&self.db, "ROLLBACK");
                return Err(storage_error(f));
            }
            k = k + 1;
        }
        if let Err(m) = sqlite_exec_batch(&self.db, "COMMIT") {
            let _ = sqlite_exec_batch(&self.db, "ROLLBACK");
            return Err(mirror_error(m));
        }
        // Apply the batch to the content; upserts cannot fail.
        let ghost pre = self.state;
        let ghost entries = system_entries_view(mappings@);
        proof {
            assert(entries.take(0) =~= Seq::<(Seq<char>, Seq<char>, int, int)>::empty());
            assert(crate::migrations::seed_fold(
                crate::model::mapping_view(pre.system_gid_mapping@),
                entries.take(0),
            ) == crate::model::mapping_view(pre.system_gid_mapping@));
        }
        let mut k: usize = 0;
        while k < n
            invariant
                0 <= k <= n,
                n == mappings@.len(),
                pre == old(self).state,
                entries == system_entries_view(mappings@),
                self.state.wf(),
                *self == (CatalogConnection { state: self.state, ..*old(self) }),
                self.state == (CatalogState {
                    system_gid_mapping: self.state.system_gid_mapping,
                    ..pre
                }),
                forall|j: int| 0 <= j < n ==> (#[trigger] mappings@[j]).2 is System,
                crate::model::mapping_view(self.state.system_gid_mapping@)
                    == crate::migrations::seed_fold(
                    crate::model::mapping_view(pre.system_gid_mapping@),
                    entries.take(k as int),
                ),
            decreases n - k,
        {
            let entry = &mappings[k];
            let id: u64 = match entry.2 {
                GlobalId::System(v) => v,
                _ => vstd::pervasive::unreached(),
            };
            let ghost eview = (entry.0@, entry.1@, id as int, entry.3 as int);
            proof {
                assert(entries[k as int] == eview);
            }
            let ghost before = crate::model::mapping_view(self.state.system_gid_mapping@);
            let ghost braw = self.state.system_gid_mapping@;
            let ghost prestate = self.state;
            self.state.upsert_system_mapping(
                entry.0.as_str(),
                entry.1.as_str(),
                id,
                entry.3,
            );
            proof {
                let after = crate::model::mapping_view(self.state.system_gid_mapping@);
                assert(entries.take(k + 1 as int) =~= entries.take(k as int).push(eview));
                crate::migrations::lemma_seed_fold_snoc(
                    crate::model::mapping_view(pre.system_gid_mapping@),
                    entries.take(k as int),
                    eview,
                );
                if prestate.has_system_mapping(entry.0@, entry.1@) {
                    let idx0 = prestate.system_mapping_index_of(entry.0@, entry.1@);
                    assert(0 <= idx0 < braw.len() && braw[idx0].schema_name@ == entry.0@
                        && braw[idx0].object_name@ == entry.1@);
                    assert(after =~= before.update(idx0, eview));
                    assert forall|j: int| 0 <= j < idx0 implies !((#[trigger] before[j]).0
                        == eview.0 && before[j].1 == eview.1) by {
                        assert(before[j].0 == braw[j].schema_name@ && before[j].1
                            == braw[j].object_name@);
                    }
                    crate::migrations::lemma_model_upsert_at(before, eview, idx0);
                } else {
                    assert(after =~= before.push(eview));
                    assert forall|j: int| 0 <= j < before.len() implies !((
                    #[trigger] before[j]).0 == eview.0 && before[j].1 == eview.1) by {
                        assert(before[j].0 == braw[j].schema_name@ && before[j].1
                            == braw[j].object_name@);
                    }
                    crate::migrations::lemma_model_upsert_fresh(before, eview);
                }
            }
            k = k + 1;
        }
        proof {
            assert(entries.take(n as int) =~= entries);
        }
        Ok(())
    }

    /// Persists introspection-source index identifiers, durably: each entry
    /// appends one row under its (compute-instance, name) composite key.
    /// Every identifier must be a system one. A key collision — with an
    /// existing row or within the batch — surfaces as the store's raw
    /// constraint error, and the whole batch is one unit: on any failure
    /// nothing changes.
    pub fn set_introspection_source_index_gids(
        &mut self,
        mappings: &Vec<(i64, String, GlobalId)>,
    ) -> (r: Result<(), Error>)
        requires
            old(self).wf(),
            forall|k: int| 0 <= k < mappings@.len() ==> (#[trigger] mappings@[k]).2 is System,
        ensures
            final(self).wf(),
            r is Ok ==> introspection_entries_ok(old(self).state_spec(), mappings@),
            !introspection_entries_ok(old(self).state_spec(), mappings@) ==> r is Err,
            r matches Err(e) ==> *final(self) == *old(self) && e is Storage,
            r is Ok ==> {
                let pre_rows = old(self).state_spec().introspection_sources@;
                let post_rows = final(self).state_spec().introspection_sources@;
                &&& final(self).state_spec() == (CatalogState {
                    introspection_sources: final(self).state_spec().introspection_sources,
                    ..old(self).state_spec()
                })
                &&& post_rows.len() == pre_rows.len() + mappings@.len()
                &&& post_rows.subrange(0, pre_rows.len() as int) == pre_rows
                &&& forall|j: int|
                    0 <= j < mappings@.len() ==> {
                        &&& (#[trigger] post_rows[pre_rows.len() + j]).compute_id
                            == mappings@[j].0
                        &&& post_rows[pre_rows.len() + j].name@ == mappings@[j].1@
                        &&& GlobalId::System(post_rows[pre_rows.len() + j].index_id)
                            == mappings@[j].2
                    }
            },
    {
        let n = mappings.len();
        if n == 0 {
            proof {
                assert(self.state.introspection_sources@.subrange(
                    0,
                    self.state.introspection_sources@.len() as int,
                ) =~= self.state.introspection_sources@);
            }
            return Ok(());
        }
        // Validate the whole batch before touching anything.
        let mut k: usize = 0;
        while k < n
            invariant
                0 <= k <= n,
                n == mappings@.len(),
                *self == *old(self),
                self.state.wf(),
                forall|j: int|
                    0 <= j < k ==> !self.state.has_introspection(
                        (#[trigger] mappings@[j]).0 as int,
                        mappings@[j].1@,
                    ),
                forall|a: int, b: int|
                    0 <= a < b < k ==> !((#[trigger] mappings@[a]).0 == (#[trigger] mappings@[b]).0
                        && mappings@[a].1@ == mappings@[b].1@),
            decreases n - k,
        {
            let entry = &mappings[k];
            if self.state.introspection_exists(entry.0, entry.1.as_str()) {
                return Err(Error::Storage(String::from_str("constraint violation")));
            }
            let mut j: usize = 0;
            while j < k
                invariant
                    0 <= j <= k < n,
                    n == mappings@.len(),
                    *self == *old(self),
                    self.state.wf(),
                    *entry == mappings@[k as int],
                    forall|a: int|
                        0 <= a < j ==> !((#[trigger] mappings@[a]).0 == mappings@[k as int].0
                            && mappings@[a].1@ == mappings@[k as int].1@),
                decreases k - j,
            {
                let other = &mappings[j];
                if other.0 == entry.0 && crate::text::str_eq(
                    other.1.as_str(),
                    entry.1.as_str(),
                ) {
                    return Err(Error::Storage(String::from_str("constraint violation")));
                }
                j = j + 1;
            }
            k = k + 1;
        }
        // Mirror the whole batch inside one engine transaction.
        if let Err(m) = sqlite_exec_batch(&self.db, "BEGIN") {
            return Err(mirror_error(m));
        }
        let mut k: usize = 0;
        while k < n
            invariant
                0 <= k <= n,
                n == mappings@.len(),
                *self == *old(self),
                self.state.wf(),
                forall|j: int| 0 <= j < n ==> (#[trigger] mappings@[j]).2 is System,
            decreases n - k,
        {
            let entry = &mappings[k];
            let id: u64 = match entry.2 {
                GlobalId::System(v) => v,
                _ => vstd::pervasive::unreached(),
            };
            let mut params: Vec<SqlData> = Vec::new();
            params.push(SqlData::Int(entry.0));
            params.push(SqlData::Text(entry.1.clone()));
            params.push(SqlData::Int(#[verifier::truncate] (id as i64)));
            if let Err(f) = sqlite_exec(
                &self.db,
                "INSERT INTO compute_introspection_source_indexes (compute_id, name, index_id) VALUES (?, ?, ?)",
                params,
            ) {
                let _ = sqlite_exec_batch(&self.db, "ROLLBACK");
                return Err(storage_error(f));
            }
            k = k + 1;
        }
        if let Err(m) = sqlite_exec_batch(&self.db, "COMMIT") {
            let _ = sqlite_exec_batch(&self.db, "ROLLBACK");
            return Err(mirror_error(m));
        }
        // Apply the batch to the content; the inserts cannot fail.
        let ghost pre = self.state;
        let mut k: usize = 0;
        while k < n
            invariant
                0 <= k <= n,
                n == mappings@.len(),
                pre == old(self).state,
                introspection_entries_ok(pre, mappings@),
                self.state.wf(),
                *self == (CatalogConnection { state: self.state, ..*old(self) }),
                self.state == (CatalogState {
                    introspection_sources: self.state.introspection_sources,
                    ..pre
                }),
                forall|j: int| 0 <= j < n ==> (#[trigger] mappings@[j]).2 is System,
                self.state.introspection_sources@.len() == pre.introspection_sources@.len() + k,
                self.state.introspection_sources@.subrange(
                    0,
                    pre.introspection_sources@.len() as int,
                ) == pre.introspection_sources@,
                forall|j: int|
                    0 <= j < k ==> {
                        &&& (#[trigger] self.state.introspection_sources@[
                            pre.introspection_sources@.len() + j
                        ]).compute_id == mappings@[j].0
                        &&& self.state.introspection_sources@[
                            pre.introspection_sources@.len() + j
                        ].name@ == mappings@[j].1@
                        &&& GlobalId::System(self.state.introspection_sources@[
                            pre.introspection_sources@.len() + j
                        ].index_id) == mappings@[j].2
                    },
                forall|a: int|
                    k <= a < n ==> !self.state.has_introspection(
                        (#[trigger] mappings@[a]).0 as int,
                        mappings@[a].1@,
                    ),
            decreases n - k,
        {
            let entry = &mappings[k];
            let id: u64 = match entry.2 {
                GlobalId::System(v) => v,
                _ => vstd::pervasive::unreached(),
            };
            let ghost before = self.state;
            // The validation pass established that this key is free, so the
            // insert cannot fail.
            match self.state.insert_introspection(entry.0, entry.1.as_str(), id) {
                Ok(_) => {}
                Err(_) => {
                    return vstd::pervasive::unreached();
                }
            }
            proof {
                assert(self.state.introspection_sources@.subrange(
                    0,
                    pre.introspection_sources@.len() as int,
                ) =~= pre.introspection_sources@);
                let base = pre.introspection_sources@.len() as int;
                assert forall|j: int| 0 <= j < k + 1 implies {
                    &&& (#[trigger] self.state.introspection_sources@[base + j]).compute_id
                        == mappings@[j].0
                    &&& self.state.introspection_sources@[base + j].name@ == mappings@[j].1@
                    &&& GlobalId::System(self.state.introspection_sources@[base + j].index_id)
                        == mappings@[j].2
                } by {
                    if j < k {
                        assert(self.state.introspection_sources@.drop_last()[base + j]
                            == before.introspection_sources@[base + j]);
                        assert(self.state.introspection_sources@[base + j]
                            == before.introspection_sources@[base + j]);
                    } else {
                        assert(self.state.introspection_sources@[base + j]
                            == self.state.introspection_sources@.last());
                    }
                }
                assert forall|a: int|
                    k + 1 <= a < n implies !self.state.has_introspection(
                    (#[trigger] mappings@[a]).0 as int,
                    mappings@[a].1@,
                ) by {
                    if self.state.has_introspection(mappings@[a].0 as int, mappings@[a].1@) {
                        let w = choose|i: int|
                            0 <= i < self.state.introspection_sources@.len() && (
                            #[trigger] self.state.introspection_sources@[i]).compute_id
                                == mappings@[a].0 && self.state.introspection_sources@[i].name@
                                == mappings@[a].1@;
                        if w < before.introspection_sources@.len() {
                            assert(self.state.introspection_sources@[w]
                                == before.introspection_sources@[w]);
                            assert(before.has_introspection(
                                mappings@[a].0 as int,
                                mappings@[a].1@,
                            ));
                        } else {
                            assert(self.state.introspection_sources@.last().compute_id
                                == mappings@[k as int].0
                                && self.state.introspection_sources@.last().name@
                                == mappings@[k as int].1@);
                        }
                    }
                }
            }
            k = k + 1;
        }
        Ok(())
    }

    /// Serves a batch of fresh system-namespace identifiers, durably
    /// advancing the counter once. The batch must fit in the counter's
    /// signed 64-bit storage, or nothing changes and the allocator reports
    /// exhaustion; a mirror failure also leaves the handle untouched.
    pub fn allocate_system_ids(&mut self, amount: u64) -> (r: Result<Vec<GlobalId>, Error>)
        requires
            old(self).wf(),
            amount >= 1,
        ensures
            final(self).wf(),
            r is Ok ==> old(self).state_spec().system_next_gid + amount <= i64::MAX,
            r matches Ok(ids) ==> {
                &&& ids@.len() == amount
                &&& forall|k: int|
                    0 <= k < amount ==> ids@[k] == GlobalId::System(
                        (old(self).state_spec().system_next_gid + k) as u64,
                    )
                &&& final(self).state_spec() == (CatalogState {
                    system_next_gid: (old(self).state_spec().system_next_gid + amount) as u64,
                    ..old(self).state_spec()
                })
            },
            r matches Err(e) ==> {
                &&& *final(self) == *old(self)
                &&& (e is IdExhaustion <==> old(self).state_spec().system_next_gid + amount
                    > i64::MAX)
                &&& e is IdExhaustion || e is Storage
            },
    {
        let next = self.state.system_next_gid;
        if next == i64::MAX as u64 || amount > i64::MAX as u64 - next {
            return Err(Error::IdExhaustion);
        }
        let mut params: Vec<SqlData> = Vec::new();
        params.push(SqlData::Int((next + amount) as i64));
        if let Err(f) = sqlite_exec(&self.db, "UPDATE system_gid_alloc SET next_gid = ?", params) {
            return Err(storage_error(f));
        }
        let raw = match self.state.allocate_gids(true, amount) {
            Ok(v) => v,
            Err(_) => {
                return vstd::pervasive::unreached();
            }
        };
        let mut ids: Vec<GlobalId> = Vec::new();
        let n = raw.len();
        let mut k: usize = 0;
        while k < n
            invariant
                0 <= k <= n,
                n == raw@.len(),
                ids@.len() == k,
                forall|j: int| 0 <= j < k ==> ids@[j] == GlobalId::System(raw@[j]),
            decreases n - k,
        {
            ids.push(GlobalId::System(raw[k]));
            k = k + 1;
        }
        Ok(ids)
    }

    /// Serves one fresh user-namespace identifier, durably advancing the
    /// counter once. A counter at the signed 64-bit maximum yields
    /// exhaustion and nothing changes; a mirror failure also leaves the
    /// handle untouched.
    pub fn allocate_user_id(&mut self) -> (r: Result<GlobalId, Error>)
        requires
            old(self).wf(),
        ensures
            final(self).wf(),
            r is Ok ==> old(self).state_spec().user_next_gid + 1 <= i64::MAX,
            r matches Ok(id) ==> id == GlobalId::User(old(self).state_spec().user_next_gid)
                && final(self).state_spec() == (CatalogState {
                user_next_gid: (old(self).state_spec().user_next_gid + 1) as u64,
                ..old(self).state_spec()
            }),
            r matches Err(e) ==> {
                &&& *final(self) == *old(self)
                &&& (e is IdExhaustion <==> old(self).state_spec().user_next_gid + 1 > i64::MAX)
                &&& e is IdExhaustion || e is Storage
            },
    {
        let next = self.state.user_next_gid;
        if next == i64::MAX as u64 {
            return Err(Error::IdExhaustion);
        }
        let sql = if self.state.version >= 11 {
            "UPDATE user_gid_alloc SET next_gid = ?"
        } else {
            "UPDATE gid_alloc SET next_gid = ?"
        };
        let mut params: Vec<SqlData> = Vec::new();
        params.push(SqlData::Int((next + 1) as i64));
        if let Err(f) = sqlite_exec(&self.db, sql, params) {
            return Err(storage_error(f));
        }
        let raw = match self.state.allocate_gids(false, 1) {
            Ok(v) => v,
            Err(_) => {
                return vstd::pervasive::unreached();
            }
        };
        Ok(GlobalId::User(raw[0]))
    }

    /// Starts a transaction facade over a working copy of the content.
    pub fn transaction(&self) -> (r: Result<Transaction, Error>)
        ensures
            r is Ok,
            r matches Ok(tx) ==> tx.state_spec().model() == self.state_spec().model() && (
            tx.state_spec().wf() <==> self.state_spec().wf()),
    {
        Ok(Transaction { state: self.state.clone_state(), ops: Vec::new() })
    }
}

} // verus!

verus! {

impl Transaction {
    /// The working content of this facade.
    pub closed spec fn state_spec(&self) -> CatalogState {
        self.state
    }

    /// A sound facade: its working content is well-formed.
    pub open spec fn wf(&self) -> bool {
        self.state_spec().wf()
    }

    /// Returns every item that resolves through an existing schema to an
    /// existing database, with user items in ascending identifier order.
    #[verifier::rlimit(60)]
    pub fn load_items(&self) -> (r: Result<
        Vec<(GlobalId, QualifiedObjectName, Vec<u8>)>,
        Error,
    >)
        requires
            self.wf(),
        ensures
            r is Ok,
            r matches Ok(v) ==> forall|k: int|
                0 <= k < v@.len() ==> self.state_spec().loaded_matches(#[trigger] v@[k]),
            r matches Ok(v) ==> self.state_spec().listing_complete(v@),
            r matches Ok(v) ==> forall|k: int, l: int|
                0 <= k < l < v@.len() ==> (#[trigger] v@[k]).0 != (#[trigger] v@[l]).0,
            r matches Ok(v) ==> forall|k: int, l: int|
                0 <= k < l < v@.len() ==> crate::loads::item_key((#[trigger] v@[k]).0)
                    <= crate::loads::item_key((#[trigger] v@[l]).0),
    {
        let v = self.state.load_items();
        Ok(v)
    }

    /// Creates a database with this name, assigning the next primary key;
    /// fails when the name is taken.
    pub fn insert_database(&mut self, database_name: &str) -> (r: Result<DatabaseId, Error>)
        requires
            old(self).wf(),
        ensures
            final(self).wf(),
            r is Ok <==> !old(self).state_spec().has_database_name(database_name@) && old(
                self,
            ).state_spec().can_assign_database_id(),
            r matches Ok(id) ==> {
                &&& id.0 == old(self).state_spec().next_database_id()
                &&& !old(self).state_spec().has_database_id(id.0 as int)
                &&& final(self).state_spec() == (CatalogState {
                    databases: final(self).state_spec().databases,
                    ..old(self).state_spec()
                })
                &&& final(self).state_spec().databases@.len() == old(
                    self,
                ).state_spec().databases@.len() + 1
                &&& final(self).state_spec().databases@.drop_last() == old(
                    self,
                ).state_spec().databases@
                &&& final(self).state_spec().databases@.last().id == id.0
                &&& final(self).state_spec().databases@.last().name@ == database_name@
            },
            r is Err ==> final(self).state_spec() == old(self).state_spec(),
            r matches Err(e) ==> if old(self).state_spec().has_database_name(database_name@) {
                e matches Error::DatabaseAlreadyExists(n) && n@ == database_name@
            } else {
                e is Storage
            },
    {
        proof {
            if old(self).state.can_assign_database_id() {
                crate::repo::lemma_next_database_id_fresh(old(self).state);
            }
        }
        let id = match self.state.insert_database(database_name) {
            Ok(id) => id,
            Err(e) => {
                return Err(e);
            }
        };
        let mut params: Vec<SqlData> = Vec::new();
        params.push(SqlData::Int(id));
        params.push(SqlData::Text(database_name.to_owned()));
        self.ops.push(("INSERT INTO databases (id, name) VALUES (?, ?)", params));
        Ok(DatabaseId(id))
    }

    /// Creates a schema in this database, assigning the next primary key;
    /// fails when the database already has a schema with this name.
    pub fn insert_schema(&mut self, database_id: DatabaseId, schema_name: &str) -> (r: Result<
        SchemaId,
        Error,
    >)
        requires
            old(self).wf(),
        ensures
            final(self).wf(),
            r is Ok <==> !old(self).state_spec().has_schema_name(
                database_id.0 as int,
                schema_name@,
            ) && old(self).state_spec().can_assign_schema_id(),
            r matches Ok(id) ==> {
                &&& id.0 == old(self).state_spec().next_schema_id()
                &&& !old(self).state_spec().has_schema_id(id.0 as int)
                &&& final(self).state_spec() == (CatalogState {
                    schemas: final(self).state_spec().schemas,
                    ..old(self).state_spec()
                })
                &&& final(self).state_spec().schemas@.len() == old(
                    self,
                ).state_spec().schemas@.len() + 1
                &&& final(self).state_spec().schemas@.drop_last() == old(
                    self,
                ).state_spec().schemas@
                &&& final(self).state_spec().schemas@.last().id == id.0
                &&& final(self).state_spec().schemas@.last().database_id == Some(database_id.0)
                &&& final(self).state_spec().schemas@.last().name@ == schema_name@
            },
            r is Err ==> final(self).state_spec() == old(self).state_spec(),
            r matches Err(e) ==> if old(self).state_spec().has_schema_name(
                database_id.0 as int,
                schema_name@,
            ) {
                e matches Error::SchemaAlreadyExists(n) && n@ == schema_name@
            } else {
                e is Storage
            },
    {
        proof {
            if old(self).state.can_assign_schema_id() {
                crate::repo::lemma_next_schema_id_fresh(old(self).state);
            }
        }
        let id = match self.state.insert_schema(database_id.0, schema_name) {
            Ok(id) => id,
            Err(e) => {
                return Err(e);
            }
        };
        let mut params: Vec<SqlData> = Vec::new();
        params.push(SqlData::Int(id));
        params.push(SqlData::Int(database_id.0));
        params.push(SqlData::Text(schema_name.to_owned()));
        self.ops.push(("INSERT INTO schemas (id, database_id, name) VALUES (?, ?, ?)", params));
        Ok(SchemaId(id))
    }

    /// Creates a role with this name, assigning the next primary key; fails
    /// when the name is taken.
    pub fn insert_role(&mut self, role_name: &str) -> (r: Result<i64, Error>)
        requires
            old(self).wf(),
        ensures
            final(self).wf(),
            r is Ok <==> !old(self).state_spec().has_role_name(role_name@) && old(
                self,
            ).state_spec().can_assign_role_id(),
            r matches Ok(id) ==> {
                &&& id == old(self).state_spec().next_role_id()
                &&& !old(self).state_spec().has_role_id(id as int)
                &&& final(self).state_spec() == (CatalogState {
                    roles: final(self).state_spec().roles,
                    ..old(self).state_spec()
                })
                &&& final(self).state_spec().roles@.len() == old(self).state_spec().roles@.len()
                    + 1
                &&& final(self).state_spec().roles@.drop_last() == old(self).state_spec().roles@
                &&& final(self).state_spec().roles@.last().id == id
                &&& final(self).state_spec().roles@.last().name@ == role_name@
            },
            r is Err ==> final(self).state_spec() == old(self).state_spec(),
            r matches Err(e) ==> if old(self).state_spec().has_role_name(role_name@) {
                e matches Error::RoleAlreadyExists(n) && n@ == role_name@
            } else {
                e is Storage
            },
    {
        proof {
            if old(self).state.can_assign_role_id() {
                crate::repo::lemma_next_role_id_fresh(old(self).state);
            }
        }
        let id = match self.state.insert_role(role_name) {
            Ok(id) => id,
            Err(e) => {
                return Err(e);
            }
        };
        let mut params: Vec<SqlData> = Vec::new();
        params.push(SqlData::Int(id));
        params.push(SqlData::Text(role_name.to_owned()));
        self.ops.push(("INSERT INTO roles (id, name) VALUES (?, ?)", params));
        Ok(id)
    }

    /// Creates a compute instance with this name and configuration, and
    /// persists its introspection-source descriptors (name and pre-allocated
    /// system identifier) in the same unit. Fails when the instance name is
    /// taken; no partial state is written. Every descriptor identifier must
    /// be a system one.
    pub fn insert_compute_instance(
        &mut self,
        cluster_name: &str,
        config: &ComputeInstanceConfig,
        introspection_sources: &Vec<(String, GlobalId)>,
    ) -> (r: Result<i64, Error>)
        requires
            old(self).wf(),
            forall|k: int|
                0 <= k < introspection_sources@.len() ==> (
                #[trigger] introspection_sources@[k]).1 is System,
        ensures
            final(self).wf(),
            ({
                let pre = old(self).state_spec();
                let next = pre.next_compute_instance_id();
                r is Ok <==> {
                    &&& !pre.has_compute_instance_name(cluster_name@)
                    &&& pre.can_assign_compute_instance_id()
                    &&& forall|a: int, b: int|
                        0 <= a < b < introspection_sources@.len() ==> (
                        #[trigger] introspection_sources@[a]).0@ != (
                        #[trigger] introspection_sources@[b]).0@
                    &&& forall|a: int|
                        0 <= a < introspection_sources@.len() ==> !pre.has_introspection(
                            next,
                            (#[trigger] introspection_sources@[a]).0@,
                        )
                    &&& forall|a: int|
                        0 <= a < introspection_sources@.len() ==> sys_id_int(
                            (#[trigger] introspection_sources@[a]).1,
                        ) <= i64::MAX
                }
            }),
            r matches Ok(id) ==> {
                let pre = old(self).state_spec();
                let post = final(self).state_spec();
                &&& id == pre.next_compute_instance_id()
                &&& !pre.has_compute_instance_id(id as int)
                &&& post == (CatalogState {
                    compute_instances: post.compute_instances,
                    introspection_sources: post.introspection_sources,
                    ..pre
                })
                &&& post.compute_instances@.len() == pre.compute_instances@.len() + 1
                &&& post.compute_instances@.drop_last() == pre.compute_instances@
                &&& post.compute_instances@.last().id == id
                &&& post.compute_instances@.last().name@ == cluster_name@
                &&& post.compute_instances@.last().config matches Some(cc) && cc@ == config.text()
                &&& post.introspection_sources@.len() == pre.introspection_sources@.len()
                    + introspection_sources@.len()
                &&& post.introspection_sources@.subrange(
                    0,
                    pre.introspection_sources@.len() as int,
                ) == pre.introspection_sources@
                &&& forall|j: int|
                    0 <= j < introspection_sources@.len() ==> {
                        &&& (#[trigger] post.introspection_sources@[
                            pre.introspection_sources@.len() + j
                        ]).compute_id == id
                        &&& post.introspection_sources@[
                            pre.introspection_sources@.len() + j
                        ].name@ == introspection_sources@[j].0@
                        &&& GlobalId::System(post.introspection_sources@[
                            pre.introspection_sources@.len() + j
                        ].index_id) == introspection_sources@[j].1
                    }
            },
            r is Err ==> final(self).state_spec() == old(self).state_spec(),
            r matches Err(e) ==> if old(self).state_spec().has_compute_instance_name(
                cluster_name@,
            ) {
                e matches Error::ClusterAlreadyExists(n) && n@ == cluster_name@
            } else {
                e is Storage
            },
    {
        proof {
            if old(self).state.can_assign_compute_instance_id() {
                crate::repo::lemma_next_compute_instance_id_fresh(old(self).state);
            }
        }
        let ghost pre = self.state;
        let encoded = config.encode();
        // Validate the descriptor list before touching anything, so the
        // whole operation is all-or-nothing.
        let next_id = match self.state.find_compute_instance_by_name(cluster_name) {
            Some(_) => {
                return Err(Error::ClusterAlreadyExists(cluster_name.to_owned()));
            }
            None => {
                let n = self.state.compute_instances.len();
                if n == 0 {
                    1i64
                } else {
                    let last = self.state.compute_instances[n - 1].id;
                    if last == i64::MAX {
                        return Err(
                            Error::Storage(
                                String::from_str("compute instance key space exhausted"),
                            ),
                        );
                    }
                    last + 1
                }
            }
        };
        let m = introspection_sources.len();
        let mut k: usize = 0;
        while k < m
            invariant
                0 <= k <= m,
                m == introspection_sources@.len(),
                pre == old(self).state,
                self.state == pre,
                self.state.wf(),
                !pre.has_compute_instance_name(cluster_name@),
                pre.can_assign_compute_instance_id(),
                next_id as int == pre.next_compute_instance_id(),
                forall|j: int| 0 <= j < m ==> (#[trigger] introspection_sources@[j]).1 is System,
                forall|a: int, b: int|
                    0 <= a < b < k ==> (#[trigger] introspection_sources@[a]).0@ != (
                    #[trigger] introspection_sources@[b]).0@,
                forall|a: int|
                    0 <= a < k ==> !self.state.has_introspection(
                        next_id as int,
                        (#[trigger] introspection_sources@[a]).0@,
                    ),
                forall|a: int|
                    0 <= a < k ==> ((#[trigger] introspection_sources@[a]).1 matches
                        GlobalId::System(v) && v <= 0x7fff_ffff_ffff_ffff),
            decreases m - k,
        {
            let name = &introspection_sources[k].0;
            if self.state.introspection_exists(next_id, name.as_str()) {
                return Err(Error::Storage(String::from_str("constraint violation")));
            }
            match introspection_sources[k].1 {
                GlobalId::System(v) => {
                    if v > 0x7fff_ffff_ffff_ffff {
                        return Err(Error::Storage(String::from_str("system id out of range")));
                    }
                }
                _ => {
                    return vstd::pervasive::unreached();
                }
            }
            let mut j: usize = 0;
            while j < k
                invariant
                    0 <= j <= k < m,
                    m == introspection_sources@.len(),
                    pre == old(self).state,
                    self.state == pre,
                    self.state.wf(),
                    !pre.has_compute_instance_name(cluster_name@),
                    forall|a: int|
                        0 <= a < j ==> (#[trigger] introspection_sources@[a]).0@ != name@,
                    name == introspection_sources@[k as int].0,
                decreases k - j,
            {
                if crate::text::str_eq(
                    introspection_sources[j].0.as_str(),
                    name.as_str(),
                ) {
                    return Err(Error::Storage(String::from_str("constraint violation")));
                }
                j = j + 1;
            }
            k = k + 1;
        }
        // The name and the key space were checked above, so the row insert
        // cannot fail.
        let id = match self.state.insert_compute_instance_row(
            cluster_name,
            Some(encoded),
        ) {
            Ok(id) => id,
            Err(_) => {
                return vstd::pervasive::unreached();
            }
        };
        let mut params: Vec<SqlData> = Vec::new();
        params.push(SqlData::Int(id));
        params.push(SqlData::Text(cluster_name.to_owned()));
        params.push(SqlData::Text(config.encode()));
        self.ops.push(
            ("INSERT INTO compute_instances (id, name, config) VALUES (?, ?, ?)", params),
        );
        let mut k: usize = 0;
        while k < m
            invariant
                0 <= k <= m,
                m == introspection_sources@.len(),
                id == next_id,
                pre == old(self).state,
                self.state.wf(),
                self.state == (CatalogState {
                    introspection_sources: self.state.introspection_sources,
                    compute_instances: self.state.compute_instances,
                    ..pre
                }),
                self.state.compute_instances@.len() == pre.compute_instances@.len() + 1,
                self.state.compute_instances@.drop_last() == pre.compute_instances@,
                self.state.compute_instances@.last().id == id,
                self.state.compute_instances@.last().name@ == cluster_name@,
                (self.state.compute_instances@.last().config matches Some(cc) && cc@
                    == config.text()),
                self.state.introspection_sources@.len() == pre.introspection_sources@.len() + k,
                self.state.introspection_sources@.subrange(
                    0,
                    pre.introspection_sources@.len() as int,
                ) == pre.introspection_sources@,
                forall|j: int|
                    0 <= j < k ==> {
                        &&& (#[trigger] self.state.introspection_sources@[
                            pre.introspection_sources@.len() + j
                        ]).compute_id == id
                        &&& self.state.introspection_sources@[
                            pre.introspection_sources@.len() + j
                        ].name@ == introspection_sources@[j].0@
                        &&& GlobalId::System(self.state.introspection_sources@[
                            pre.introspection_sources@.len() + j
                        ].index_id) == introspection_sources@[j].1
                    },
                id == pre.next_compute_instance_id(),
                forall|j: int|
                    0 <= j < m ==> ((#[trigger] introspection_sources@[j]).1 matches
                        GlobalId::System(v) && v <= 0x7fff_ffff_ffff_ffff),
                forall|a: int, b: int|
                    0 <= a < b < m ==> (#[trigger] introspection_sources@[a]).0@ != (
                    #[trigger] introspection_sources@[b]).0@,
                forall|a: int|
                    k <= a < m ==> !self.state.has_introspection(
                        next_id as int,
                        (#[trigger] introspection_sources@[a]).0@,
                    ),
            decreases m - k,
        {
            let entry = &introspection_sources[k];
            let index_id: u64 = match entry.1 {
                GlobalId::System(v) => v,
                _ => vstd::pervasive::unreached(),
            };
            let ghost before = self.state;
            // The validation pass established that this key is free, so the
            // insert cannot fail.
            match self.state.insert_introspection(id, entry.0.as_str(), index_id) {
                Ok(_) => {}
                Err(_) => {
                    return vstd::pervasive::unreached();
                }
            }
            proof {
                assert(self.state.introspection_sources@.subrange(
                    0,
                    pre.introspection_sources@.len() as int,
                ) =~= pre.introspection_sources@);
                let base = pre.introspection_sources@.len() as int;
                assert forall|j: int| 0 <= j < k + 1 implies {
                    &&& (#[trigger] self.state.introspection_sources@[base + j]).compute_id == id
                    &&& self.state.introspection_sources@[base + j].name@
                        == introspection_sources@[j].0@
                    &&& GlobalId::System(self.state.introspection_sources@[base + j].index_id)
                        == introspection_sources@[j].1
                } by {
                    if j < k {
                        assert(self.state.introspection_sources@.drop_last()[base + j]
                            == before.introspection_sources@[base + j]);
                        assert(self.state.introspection_sources@[base + j]
                            == before.introspection_sources@[base + j]);
                    } else {
                        assert(self.state.introspection_sources@[base + j]
                            == self.state.introspection_sources@.last());
                    }
                }
                assert forall|a: int|
                    k + 1 <= a < m implies !self.state.has_introspection(
                    next_id as int,
                    (#[trigger] introspection_sources@[a]).0@,
                ) by {
                    if self.state.has_introspection(
                        next_id as int,
                        introspection_sources@[a].0@,
                    ) {
                        let w = choose|i: int|
                            0 <= i < self.state.introspection_sources@.len() && (
                            #[trigger] self.state.introspection_sources@[i]).compute_id == next_id
                                && self.state.introspection_sources@[i].name@
                                == introspection_sources@[a].0@;
                        if w < before.introspection_sources@.len() {
                            assert(self.state.introspection_sources@[w]
                                == before.introspection_sources@[w]);
                            assert(before.has_introspection(
                                next_id as int,
                                introspection_sources@[a].0@,
                            ));
                        } else {
                            assert(self.state.introspection_sources@.last().name@
                                == introspection_sources@[k as int].0@);
                        }
                    }
                }
            }
            let mut params: Vec<SqlData> = Vec::new();
            params.push(SqlData::Int(id));
            params.push(SqlData::Text(entry.0.clone()));
            params.push(SqlData::Int(index_id as i64));
            self.ops.push(
                (
                    "INSERT INTO compute_introspection_source_indexes (compute_id, name, index_id) VALUES (?, ?, ?)",
                    params,
                ),
            );
            k = k + 1;
        }
        Ok(id)
    }

    /// Replaces the configuration of the compute instance with this id;
    /// fails when no instance carries the id.
    pub fn update_compute_instance_config(&mut self, id: i64, config: &ComputeInstanceConfig)
        -> (r: Result<(), Error>)
        requires
            old(self).wf(),
        ensures
            final(self).wf(),
            r is Ok <==> old(self).state_spec().has_compute_instance_id(id as int),
            r is Ok ==> {
                let pre = old(self).state_spec();
                let idx = pre.compute_instance_index_of_id(id as int);
                &&& final(self).state_spec() == (CatalogState {
                    compute_instances: final(self).state_spec().compute_instances,
                    ..pre
                })
                &&& final(self).state_spec().compute_instances@.len()
                    == pre.compute_instances@.len()
                &&& forall|k: int|
                    0 <= k < pre.compute_instances@.len() && k != idx
                        ==> final(self).state_spec().compute_instances@[k]
                        == pre.compute_instances@[k]
                &&& final(self).state_spec().compute_instances@[idx].id == id
                &&& final(self).state_spec().compute_instances@[idx].name
                    == pre.compute_instances@[idx].name
                &&& final(self).state_spec().compute_instances@[idx].config matches Some(cc)
                    && cc@ == config.text()
            },
            r is Err ==> final(self).state_spec() == old(self).state_spec(),
            r matches Err(e) ==> (e matches Error::UnknownComputeInstance(s) && s@
                == crate::text::dec_seq_signed(id as int)),
    {
        let encoded = config.encode();
        match self.state.update_compute_instance_config_row(id, encoded) {
            Ok(_) => {}
            Err(e) => {
                return Err(e);
            }
        }
        let mut params: Vec<SqlData> = Vec::new();
        params.push(SqlData::Text(config.encode()));
        params.push(SqlData::Int(id));
        self.ops.push(("UPDATE compute_instances SET config = ? WHERE id = ?", params));
        Ok(())
    }

    /// Creates an item under this schema; fails when the identifier or the
    /// (schema, name) pair is taken.
    pub fn insert_item(
        &mut self,
        id: GlobalId,
        schema_id: SchemaId,
        item_name: &str,
        item: &[u8],
    ) -> (r: Result<(), Error>)
        requires
            old(self).wf(),
        ensures
            final(self).wf(),
            r is Ok <==> !old(self).state_spec().has_item_gid(id) && !old(
                self,
            ).state_spec().has_item_name(schema_id.0 as int, item_name@),
            r is Ok ==> {
                &&& final(self).state_spec() == (CatalogState {
                    items: final(self).state_spec().items,
                    ..old(self).state_spec()
                })
                &&& final(self).state_spec().items@.len() == old(self).state_spec().items@.len()
                    + 1
                &&& final(self).state_spec().items@.drop_last() == old(self).state_spec().items@
                &&& final(self).state_spec().items@.last().gid == id
                &&& final(self).state_spec().items@.last().schema_id == schema_id.0
                &&& final(self).state_spec().items@.last().name@ == item_name@
                &&& final(self).state_spec().items@.last().definition@ == item@
            },
            r is Err ==> final(self).state_spec() == old(self).state_spec(),
            r matches Err(e) ==> (e matches Error::ItemAlreadyExists(n) && n@ == item_name@),
    {
        match self.state.insert_item_row(id, schema_id.0, item_name, item) {
            Ok(_) => {}
            Err(e) => {
                return Err(e);
            }
        }
        let mut params: Vec<SqlData> = Vec::new();
        params.push(SqlData::Blob(crate::codec::encode_global_id(&id)));
        params.push(SqlData::Int(schema_id.0));
        params.push(SqlData::Text(item_name.to_owned()));
        params.push(SqlData::Blob(vstd::slice::slice_to_vec(item)));
        self.ops.push(
            ("INSERT INTO items (gid, schema_id, name, definition) VALUES (?, ?, ?, ?)", params),
        );
        Ok(())
    }

    /// Renames and redefines the item with this identifier; fails when no
    /// item carries it, or (as a raw storage error) when the new name is
    /// taken in the item's schema.
    pub fn update_item(&mut self, id: GlobalId, item_name: &str, item: &[u8]) -> (r: Result<
        (),
        Error,
    >)
        requires
            old(self).wf(),
        ensures
            final(self).wf(),
            ({
                let pre = old(self).state_spec();
                let idx = pre.item_index_of(id);
                &&& (r is Ok <==> pre.has_item_gid(id) && !(exists|k: int|
                    0 <= k < pre.items@.len() && k != idx && (#[trigger] pre.items@[k]).schema_id
                        == pre.items@[idx].schema_id && pre.items@[k].name@ == item_name@))
                &&& r is Ok ==> {
                    &&& final(self).state_spec() == (CatalogState {
                        items: final(self).state_spec().items,
                        ..pre
                    })
                    &&& final(self).state_spec().items@.len() == pre.items@.len()
                    &&& forall|k: int|
                        0 <= k < pre.items@.len() && k != idx
                            ==> final(self).state_spec().items@[k] == pre.items@[k]
                    &&& final(self).state_spec().items@[idx].gid == id
                    &&& final(self).state_spec().items@[idx].schema_id == pre.items@[idx].schema_id
                    &&& final(self).state_spec().items@[idx].name@ == item_name@
                    &&& final(self).state_spec().items@[idx].definition@ == item@
                }
            }),
            r is Err ==> final(self).state_spec() == old(self).state_spec(),
            r matches Err(e) ==> if old(self).state_spec().has_item_gid(id) {
                e is Storage
            } else {
                e matches Error::UnknownItem(s) && s@ == id.text()
            },
    {
        match self.state.update_item_row(id, item_name, item) {
            Ok(_) => {}
            Err(e) => {
                return Err(e);
            }
        }
        let mut params: Vec<SqlData> = Vec::new();
        params.push(SqlData::Text(item_name.to_owned()));
        params.push(SqlData::Blob(vstd::slice::slice_to_vec(item)));
        params.push(SqlData::Blob(crate::codec::encode_global_id(&id)));
        self.ops.push(("UPDATE items SET name = ?, definition = ? WHERE gid = ?", params));
        Ok(())
    }

    /// Deletes the database with this id; at most one row can match, and
    /// the operation fails when none does.
    pub fn remove_database(&mut self, id: &DatabaseId) -> (r: Result<(), Error>)
        requires
            old(self).wf(),
        ensures
            final(self).wf(),
            r is Ok <==> old(self).state_spec().has_database_id(id.0 as int),
            r is Ok ==> final(self).state_spec() == (CatalogState {
                databases: final(self).state_spec().databases,
                ..old(self).state_spec()
            }) && final(self).state_spec().databases@ == old(
                self,
            ).state_spec().databases@.remove(
                old(self).state_spec().database_index_of(id.0 as int),
            ),
            r is Err ==> final(self).state_spec() == old(self).state_spec(),
            r matches Err(e) ==> (e matches Error::UnknownDatabase(s) && s@
                == crate::text::dec_seq_signed(id.0 as int)),
    {
        match self.state.remove_database(id) {
            Ok(_) => {}
            Err(e) => {
                return Err(e);
            }
        }
        let mut params: Vec<SqlData> = Vec::new();
        params.push(SqlData::Int(id.0));
        self.ops.push(("DELETE FROM databases WHERE id = ?", params));
        Ok(())
    }

    /// Deletes the schema with this database and id pair; at most one row
    /// can match, and the operation fails when none does.
    pub fn remove_schema(&mut self, database_id: &DatabaseId, schema_id: &SchemaId) -> (r: Result<
        (),
        Error,
    >)
        requires
            old(self).wf(),
        ensures
            final(self).wf(),
            r is Ok <==> old(self).state_spec().has_schema(
                database_id.0 as int,
                schema_id.0 as int,
            ),
            r is Ok ==> final(self).state_spec() == (CatalogState {
                schemas: final(self).state_spec().schemas,
                ..old(self).state_spec()
            }) && final(self).state_spec().schemas@ == old(self).state_spec().schemas@.remove(
                old(self).state_spec().schema_index_of(database_id.0 as int, schema_id.0 as int),
            ),
            r is Err ==> final(self).state_spec() == old(self).state_spec(),
            r matches Err(e) ==> (e matches Error::UnknownSchema(s) && s@
                == crate::text::dec_seq_signed(database_id.0 as int) + seq!['.']
                + crate::text::dec_seq_signed(schema_id.0 as int)),
    {
        match self.state.remove_schema(database_id, schema_id) {
            Ok(_) => {}
            Err(e) => {
                return Err(e);
            }
        }
        let mut params: Vec<SqlData> = Vec::new();
        params.push(SqlData::Int(database_id.0));
        params.push(SqlData::Int(schema_id.0));
        self.ops.push(("DELETE FROM schemas WHERE database_id = ? AND id = ?", params));
        Ok(())
    }

    /// Deletes the role with this name; at most one row can match, and the
    /// operation fails when none does.
    pub fn remove_role(&mut self, name: &str) -> (r: Result<(), Error>)
        requires
            old(self).wf(),
        ensures
            final(self).wf(),
            r is Ok <==> old(self).state_spec().has_role_name(name@),
            r is Ok ==> final(self).state_spec() == (CatalogState {
                roles: final(self).state_spec().roles,
                ..old(self).state_spec()
            }) && final(self).state_spec().roles@ == old(self).state_spec().roles@.remove(
                old(self).state_spec().role_index_of(name@),
            ),
            r is Err ==> final(self).state_spec() == old(self).state_spec(),
            r matches Err(e) ==> (e matches Error::UnknownRole(s) && s@ == name@),
    {
        match self.state.remove_role(name) {
            Ok(_) => {}
            Err(e) => {
                return Err(e);
            }
        }
        let mut params: Vec<SqlData> = Vec::new();
        params.push(SqlData::Text(name.to_owned()));
        self.ops.push(("DELETE FROM roles WHERE name = ?", params));
        Ok(())
    }

    /// Deletes the compute instance with this name; at most one row can
    /// match, and the operation fails when none does.
    pub fn remove_compute_instance(&mut self, name: &str) -> (r: Result<(), Error>)
        requires
            old(self).wf(),
        ensures
            final(self).wf(),
            r is Ok <==> old(self).state_spec().has_compute_instance_name(name@),
            r is Ok ==> final(self).state_spec() == (CatalogState {
                compute_instances: final(self).state_spec().compute_instances,
                ..old(self).state_spec()
            }) && final(self).state_spec().compute_instances@ == old(
                self,
            ).state_spec().compute_instances@.remove(
                old(self).state_spec().compute_instance_index_of_name(name@),
            ),
            r is Err ==> final(self).state_spec() == old(self).state_spec(),
            r matches Err(e) ==> (e matches Error::UnknownComputeInstance(s) && s@ == name@),
    {
        match self.state.remove_compute_instance(name) {
            Ok(_) => {}
            Err(e) => {
                return Err(e);
            }
        }
        let mut params: Vec<SqlData> = Vec::new();
        params.push(SqlData::Text(name.to_owned()));
        self.ops.push(("DELETE FROM compute_instances WHERE name = ?", params));
        Ok(())
    }

    /// Deletes the item with this identifier; at most one row can match,
    /// and the operation fails when none does.
    pub fn remove_item(&mut self, id: GlobalId) -> (r: Result<(), Error>)
        requires
            old(self).wf(),
        ensures
            final(self).wf(),
            r is Ok <==> old(self).state_spec().has_item_gid(id),
            r is Ok ==> final(self).state_spec() == (CatalogState {
                items: final(self).state_spec().items,
                ..old(self).state_spec()
            }) && final(self).state_spec().items@ == old(self).state_spec().items@.remove(
                old(self).state_spec().item_index_of(id),
            ),
            r is Err ==> final(self).state_spec() == old(self).state_spec(),
            r matches Err(e) ==> (e matches Error::UnknownItem(s) && s@ == id.text()),
    {
        match self.state.remove_item_row(id) {
            Ok(_) => {}
            Err(e) => {
                return Err(e);
            }
        }
        let mut params: Vec<SqlData> = Vec::new();
        params.push(SqlData::Blob(crate::codec::encode_global_id(&id)));
        self.ops.push(("DELETE FROM items WHERE gid = ?", params));
        Ok(())
    }

    /// Commits this facade into the handle: replays every recorded mirror
    /// statement inside one engine transaction and, on success, publishes
    /// the working content as the handle's content. On a mirror failure the
    /// engine transaction is rolled back and the handle keeps its old
    /// content — nothing of the facade survives.
    pub fn commit(self, conn: &mut CatalogConnection) -> (r: Result<(), Error>)
        requires
            self.wf(),
        ensures
            r is Ok ==> final(conn).wf() && final(conn).state_spec() == self.state_spec(),
            r is Err ==> final(conn).state_spec() == old(conn).state_spec(),
    {
        let Transaction { state, ops } = self;
        if let Err(m) = sqlite_exec_batch(&conn.db, "BEGIN") {
            return Err(mirror_error(m));
        }
        let n = ops.len();
        let mut i: usize = 0;
        while i < n
            invariant
                0 <= i <= n,
                n == ops@.len(),
            decreases n - i,
        {
            let (sql, params) = &ops[i];
            let mut copied: Vec<SqlData> = Vec::new();
            let m = params.len();
            let mut j: usize = 0;
            while j < m
                invariant
                    0 <= j <= m,
                    m == params@.len(),
                decreases m - j,
            {
                let p = match &params[j] {
                    SqlData::Null => SqlData::Null,
                    SqlData::Int(v) => SqlData::Int(*v),
                    SqlData::Text(t) => SqlData::Text(t.clone()),
                    SqlData::Blob(b) => SqlData::Blob(crate::loads::clone_bytes(b)),
                };
                copied.push(p);
                j = j + 1;
            }
            if let Err(f) = sqlite_exec(&conn.db, sql, copied) {
                let _ = sqlite_exec_batch(&conn.db, "ROLLBACK");
                return Err(storage_error(f));
            }
            i = i + 1;
        }
        if let Err(m) = sqlite_exec_batch(&conn.db, "COMMIT") {
            let _ = sqlite_exec_batch(&conn.db, "ROLLBACK");
            return Err(mirror_error(m));
        }
        conn.state = state;
        Ok(())
    }
}

} // verus!
