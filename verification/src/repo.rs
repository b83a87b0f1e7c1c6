//! The mutating repository operations on the catalog state: inserts that
//! assign the next primary key and fail on unique-constraint violations,
//! updates and removals that touch exactly one row and fail when the target
//! is absent, the allocator's read-modify-write, and the settings upsert.
//! Each operation either performs its whole effect or leaves the state
//! untouched.

use vstd::prelude::*;

use crate::error::Error;
use crate::ids::GlobalId;
use crate::state::{
    CatalogState, ComputeInstanceRow, DatabaseRow, IntrospectionRow, ItemRow, RoleRow, SchemaRow,
    SettingRow, SystemMappingRow,
};
use crate::text::{i64_to_string, str_eq_string};

verus! {

impl CatalogState {
    // -----------------------------------------------------------------------
    // Primary-key assignment.
    // -----------------------------------------------------------------------

    /// Whether the databases table can assign one more primary key.
    pub open spec fn can_assign_database_id(self) -> bool {
        self.databases@.len() == 0 || self.databases@.last().id < i64::MAX
    }

    /// The primary key the next database insert assigns: one past the
    /// largest existing key, starting from 1.
    pub open spec fn next_database_id(self) -> int {
        if self.databases@.len() == 0 {
            1
        } else {
            self.databases@.last().id + 1
        }
    }

    /// Whether the schemas table can assign one more primary key.
    pub open spec fn can_assign_schema_id(self) -> bool {
        self.schemas@.len() == 0 || self.schemas@.last().id < i64::MAX
    }

    /// The primary key the next schema insert assigns.
    pub open spec fn next_schema_id(self) -> int {
        if self.schemas@.len() == 0 {
            1
        } else {
            self.schemas@.last().id + 1
        }
    }

    /// Whether the roles table can assign one more primary key.
    pub open spec fn can_assign_role_id(self) -> bool {
        self.roles@.len() == 0 || self.roles@.last().id < i64::MAX
    }

    /// The primary key the next role insert assigns.
    pub open spec fn next_role_id(self) -> int {
        if self.roles@.len() == 0 {
            1
        } else {
            self.roles@.last().id + 1
        }
    }

    // -----------------------------------------------------------------------
    // Databases.
    // -----------------------------------------------------------------------

    /// Whether some database row carries this name (runtime check).
    pub fn database_name_exists(&self, name: &str) -> (r: bool)
        ensures
            r == self.has_database_name(name@),
    {
        let n = self.databases.len();
        let mut i: usize = 0;
        while i < n
            invariant
                0 <= i <= n,
                n == self.databases@.len(),
                forall|k: int| 0 <= k < i ==> (#[trigger] self.databases@[k]).name@ != name@,
            decreases n - i,
        {
            if str_eq_string(name, &self.databases[i].name) {
                return true;
            }
            i = i + 1;
        }
        false
    }

    /// Creates a database with this name, assigning the next primary key.
    /// Fails when a database with this name already exists, leaving the
    /// state untouched; no partial effect is ever visible.
    pub fn insert_database(&mut self, database_name: &str) -> (r: Result<i64, Error>)
        requires
            old(self).wf(),
        ensures
            final(self).wf(),
            *final(self) == (CatalogState { databases: final(self).databases, ..*old(self) }),
            r is Ok <==> !old(self).has_database_name(database_name@) && old(
                self,
            ).can_assign_database_id(),
            r matches Ok(id) ==> {
                &&& id == old(self).next_database_id()
                &&& final(self).databases@.len() == old(self).databases@.len() + 1
                &&& final(self).databases@.drop_last() == old(self).databases@
                &&& final(self).databases@.last().id == id
                &&& final(self).databases@.last().name@ == database_name@
            },
            r is Err ==> *final(self) == *old(self),
            r matches Err(e) ==> if old(self).has_database_name(database_name@) {
                e matches Error::DatabaseAlreadyExists(n) && n@ == database_name@
            } else {
                e is Storage
            },
    {
        if self.database_name_exists(database_name) {
            return Err(Error::DatabaseAlreadyExists(database_name.to_owned()));
        }
        let n = self.databases.len();
        let id: i64 = if n == 0 {
            1
        } else {
            let last = self.databases[n - 1].id;
            if last == i64::MAX {
                return Err(Error::Storage(String::from_str("database key space exhausted")));
            }
            last + 1
        };
        self.databases.push(DatabaseRow { id, name: database_name.to_owned() });
        proof {
            assert(final(self).databases@.drop_last() =~= old(self).databases@);
        }
        Ok(id)
    }

    /// Whether some database row carries this id (runtime check), and at
    /// which index.
    pub fn find_database_index(&self, id: i64) -> (r: Option<usize>)
        ensures
            r matches Some(i) ==> i < self.databases@.len() && self.databases@[i as int].id == id,
            r is None ==> !self.has_database_id(id as int),
    {
        let n = self.databases.len();
        let mut i: usize = 0;
        while i < n
            invariant
                0 <= i <= n,
                n == self.databases@.len(),
                forall|k: int| 0 <= k < i ==> (#[trigger] self.databases@[k]).id != id,
            decreases n - i,
        {
            if self.databases[i].id == id {
                return Some(i);
            }
            i = i + 1;
        }
        None
    }

    /// The index of the database row with this id (meaningful when one
    /// exists; unique under well-formedness).
    pub open spec fn database_index_of(self, id: int) -> int {
        choose|i: int| 0 <= i < self.databases@.len() && #[trigger] self.databases@[i].id == id
    }

    /// Deletes the database row with this id. At most one row can match;
    /// fails when none does, leaving the table unchanged.
    pub fn remove_database(&mut self, id: &crate::ids::DatabaseId) -> (r: Result<(), Error>)
        requires
            old(self).wf(),
        ensures
            final(self).wf(),
            *final(self) == (CatalogState { databases: final(self).databases, ..*old(self) }),
            r is Ok <==> old(self).has_database_id(id.0 as int),
            r is Ok ==> final(self).databases@ == old(self).databases@.remove(
                old(self).database_index_of(id.0 as int),
            ),
            r is Err ==> *final(self) == *old(self),
            r matches Err(e) ==> (e matches Error::UnknownDatabase(s) && s@
                == crate::text::dec_seq_signed(id.0 as int)),
    {
        match self.find_database_index(id.0) {
            Some(i) => {
                self.databases.remove(i);
                proof {
                    let j = old(self).database_index_of(id.0 as int);
                    assert(0 <= j < old(self).databases@.len() && old(self).databases@[j].id
                        == id.0);
                    assert(j == i as int);
                }
                Ok(())
            }
            None => Err(Error::UnknownDatabase(i64_to_string(id.0))),
        }
    }

    // -----------------------------------------------------------------------
    // Schemas.
    // -----------------------------------------------------------------------

    /// Whether some schema row pairs this database with this name (runtime
    /// check).
    pub fn schema_name_exists(&self, database_id: i64, name: &str) -> (r: bool)
        ensures
            r == self.has_schema_name(database_id as int, name@),
    {
        let n = self.schemas.len();
        let mut i: usize = 0;
        while i < n
            invariant
                0 <= i <= n,
                n == self.schemas@.len(),
                forall|k: int|
                    0 <= k < i ==> !((#[trigger] self.schemas@[k]).database_id == Some(database_id)
                        && self.schemas@[k].name@ == name@),
            decreases n - i,
        {
            let row = &self.schemas[i];
            let matches_db = match row.database_id {
                Some(d) => d == database_id,
                None => false,
            };
            if matches_db && str_eq_string(name, &row.name) {
                return true;
            }
            i = i + 1;
        }
        false
    }

    /// Creates a schema in this database, assigning the next primary key.
    /// Fails when the database already has a schema with this name.
    pub fn insert_schema(&mut self, database_id: i64, schema_name: &str) -> (r: Result<
        i64,
        Error,
    >)
        requires
            old(self).wf(),
        ensures
            final(self).wf(),
            *final(self) == (CatalogState { schemas: final(self).schemas, ..*old(self) }),
            r is Ok <==> !old(self).has_schema_name(database_id as int, schema_name@) && old(
                self,
            ).can_assign_schema_id(),
            r matches Ok(id) ==> {
                &&& id == old(self).next_schema_id()
                &&& final(self).schemas@.len() == old(self).schemas@.len() + 1
                &&& final(self).schemas@.drop_last() == old(self).schemas@
                &&& final(self).schemas@.last().id == id
                &&& final(self).schemas@.last().database_id == Some(database_id)
                &&& final(self).schemas@.last().name@ == schema_name@
            },
            r is Err ==> *final(self) == *old(self),
            r matches Err(e) ==> if old(self).has_schema_name(database_id as int, schema_name@) {
                e matches Error::SchemaAlreadyExists(n) && n@ == schema_name@
            } else {
                e is Storage
            },
    {
        if self.schema_name_exists(database_id, schema_name) {
            return Err(Error::SchemaAlreadyExists(schema_name.to_owned()));
        }
        let n = self.schemas.len();
        let id: i64 = if n == 0 {
            1
        } else {
            let last = self.schemas[n - 1].id;
            if last == i64::MAX {
                return Err(Error::Storage(String::from_str("schema key space exhausted")));
            }
            last + 1
        };
        self.schemas.push(
            SchemaRow { id, database_id: Some(database_id), name: schema_name.to_owned() },
        );
        proof {
            assert(final(self).schemas@.drop_last() =~= old(self).schemas@);
        }
        Ok(id)
    }

    /// Creates a schema without an owning database (only migrations do
    /// this), assigning the next primary key.
    pub fn insert_detached_schema(&mut self, schema_name: &str) -> (r: Result<i64, Error>)
        requires
            old(self).wf(),
        ensures
            final(self).wf(),
            *final(self) == (CatalogState { schemas: final(self).schemas, ..*old(self) }),
            r is Ok <==> old(self).can_assign_schema_id(),
            r matches Ok(id) ==> {
                &&& id == old(self).next_schema_id()
                &&& final(self).schemas@.len() == old(self).schemas@.len() + 1
                &&& final(self).schemas@.drop_last() == old(self).schemas@
                &&& final(self).schemas@.last().id == id
                &&& final(self).schemas@.last().database_id is None
                &&& final(self).schemas@.last().name@ == schema_name@
            },
            r is Err ==> *final(self) == *old(self) && r->Err_0 is Storage,
    {
        let n = self.schemas.len();
        let id: i64 = if n == 0 {
            1
        } else {
            let last = self.schemas[n - 1].id;
            if last == i64::MAX {
                return Err(Error::Storage(String::from_str("schema key space exhausted")));
            }
            last + 1
        };
        self.schemas.push(SchemaRow { id, database_id: None, name: schema_name.to_owned() });
        proof {
            assert(final(self).schemas@.drop_last() =~= old(self).schemas@);
        }
        Ok(id)
    }

    /// The index of the schema row with this database and id pair.
    pub open spec fn schema_index_of(self, database_id: int, id: int) -> int {
        choose|i: int|
            0 <= i < self.schemas@.len() && (#[trigger] self.schemas@[i]).database_id == Some(
                database_id as i64,
            ) && self.schemas@[i].id == id
    }

    /// Whether some schema row pairs this database reference with this id.
    pub open spec fn has_schema(self, database_id: int, id: int) -> bool {
        exists|i: int|
            0 <= i < self.schemas@.len() && (#[trigger] self.schemas@[i]).database_id == Some(
                database_id as i64,
            ) && self.schemas@[i].id == id
    }

    /// Whether some schema row pairs this database reference with this id
    /// (runtime check), and at which index.
    pub fn find_schema_index(&self, database_id: i64, schema_id: i64) -> (r: Option<usize>)
        ensures
            r matches Some(i) ==> i < self.schemas@.len() && self.schemas@[i as int].database_id
                == Some(database_id) && self.schemas@[i as int].id == schema_id,
            r is None ==> !self.has_schema(database_id as int, schema_id as int),
    {
        let n = self.schemas.len();
        let mut i: usize = 0;
        while i < n
            invariant
                0 <= i <= n,
                n == self.schemas@.len(),
                forall|k: int|
                    0 <= k < i ==> !((#[trigger] self.schemas@[k]).database_id == Some(database_id)
                        && self.schemas@[k].id == schema_id),
            decreases n - i,
        {
            let row = &self.schemas[i];
            let matches_db = match row.database_id {
                Some(d) => d == database_id,
                None => false,
            };
            if matches_db && row.id == schema_id {
                return Some(i);
            }
            i = i + 1;
        }
        None
    }

    /// Deletes the schema row with this database and id pair. At most one
    /// row can match; fails when none does.
    pub fn remove_schema(
        &mut self,
        database_id: &crate::ids::DatabaseId,
        schema_id: &crate::ids::SchemaId,
    ) -> (r: Result<(), Error>)
        requires
            old(self).wf(),
        ensures
            final(self).wf(),
            *final(self) == (CatalogState { schemas: final(self).schemas, ..*old(self) }),
            r is Ok <==> old(self).has_schema(database_id.0 as int, schema_id.0 as int),
            r is Ok ==> final(self).schemas@ == old(self).schemas@.remove(
                old(self).schema_index_of(database_id.0 as int, schema_id.0 as int),
            ),
            r is Err ==> *final(self) == *old(self),
            r matches Err(e) ==> (e matches Error::UnknownSchema(s) && s@
                == crate::text::dec_seq_signed(database_id.0 as int) + seq!['.']
                + crate::text::dec_seq_signed(schema_id.0 as int)),
    {
        match self.find_schema_index(database_id.0, schema_id.0) {
            Some(i) => {
                proof {
                    assert(old(self).has_schema(database_id.0 as int, schema_id.0 as int));
                }
                self.schemas.remove(i);
                proof {
                    let j = old(self).schema_index_of(database_id.0 as int, schema_id.0 as int);
                    assert(0 <= j < old(self).schemas@.len() && old(
                        self,
                    ).schemas@[j].database_id == Some(database_id.0) && old(self).schemas@[j].id
                        == schema_id.0);
                    assert(j == i as int);
                }
                return Ok(());
            }
            None => {}
        }
        let mut msg = i64_to_string(database_id.0);
        proof {
            reveal_strlit(".");
        }
        msg.append(".");
        let sid = i64_to_string(schema_id.0);
        msg.append(sid.as_str());
        proof {
            assert(msg@ =~= crate::text::dec_seq_signed(database_id.0 as int) + seq!['.']
                + crate::text::dec_seq_signed(schema_id.0 as int));
        }
        Err(Error::UnknownSchema(msg))
    }

    // -----------------------------------------------------------------------
    // Roles.
    // -----------------------------------------------------------------------

    /// Whether some role row carries this name (runtime check).
    pub fn role_name_exists(&self, name: &str) -> (r: bool)
        ensures
            r == self.has_role_name(name@),
    {
        let n = self.roles.len();
        let mut i: usize = 0;
        while i < n
            invariant
                0 <= i <= n,
                n == self.roles@.len(),
                forall|k: int| 0 <= k < i ==> (#[trigger] self.roles@[k]).name@ != name@,
            decreases n - i,
        {
            if str_eq_string(name, &self.roles[i].name) {
                return true;
            }
            i = i + 1;
        }
        false
    }

    /// Creates a role with this name, assigning the next primary key.
    /// Fails when a role with this name already exists.
    pub fn insert_role(&mut self, role_name: &str) -> (r: Result<i64, Error>)
        requires
            old(self).wf(),
        ensures
            final(self).wf(),
            *final(self) == (CatalogState { roles: final(self).roles, ..*old(self) }),
            r is Ok <==> !old(self).has_role_name(role_name@) && old(self).can_assign_role_id(),
            r matches Ok(id) ==> {
                &&& id == old(self).next_role_id()
                &&& final(self).roles@.len() == old(self).roles@.len() + 1
                &&& final(self).roles@.drop_last() == old(self).roles@
                &&& final(self).roles@.last().id == id
                &&& final(self).roles@.last().name@ == role_name@
            },
            r is Err ==> *final(self) == *old(self),
            r matches Err(e) ==> if old(self).has_role_name(role_name@) {
                e matches Error::RoleAlreadyExists(n) && n@ == role_name@
            } else {
                e is Storage
            },
    {
        if self.role_name_exists(role_name) {
            return Err(Error::RoleAlreadyExists(role_name.to_owned()));
        }
        let n = self.roles.len();
        let id: i64 = if n == 0 {
            1
        } else {
            let last = self.roles[n - 1].id;
            if last == i64::MAX {
                return Err(Error::Storage(String::from_str("role key space exhausted")));
            }
            last + 1
        };
        self.roles.push(RoleRow { id, name: role_name.to_owned() });
        proof {
            assert(final(self).roles@.drop_last() =~= old(self).roles@);
        }
        Ok(id)
    }

    /// The index of the role row with this name.
    pub open spec fn role_index_of(self, name: Seq<char>) -> int {
        choose|i: int| 0 <= i < self.roles@.len() && #[trigger] self.roles@[i].name@ == name
    }

    /// Deletes the role row with this name. At most one row can match;
    /// fails when none does.
    pub fn remove_role(&mut self, name: &str) -> (r: Result<(), Error>)
        requires
            old(self).wf(),
        ensures
            final(self).wf(),
            *final(self) == (CatalogState { roles: final(self).roles, ..*old(self) }),
            r is Ok <==> old(self).has_role_name(name@),
            r is Ok ==> final(self).roles@ == old(self).roles@.remove(
                old(self).role_index_of(name@),
            ),
            r is Err ==> *final(self) == *old(self),
            r matches Err(e) ==> (e matches Error::UnknownRole(s) && s@ == name@),
    {
        match self.find_role_index(name) {
            Some(i) => {
                proof {
                    assert(old(self).has_role_name(name@));
                }
                self.roles.remove(i);
                proof {
                    let j = old(self).role_index_of(name@);
                    assert(0 <= j < old(self).roles@.len() && old(self).roles@[j].name@ == name@);
                    assert(j == i as int);
                }
                Ok(())
            }
            None => Err(Error::UnknownRole(name.to_owned())),
        }
    }

    /// Whether some role row carries this name (runtime check), and at
    /// which index.
    pub fn find_role_index(&self, name: &str) -> (r: Option<usize>)
        ensures
            r matches Some(i) ==> i < self.roles@.len() && self.roles@[i as int].name@ == name@,
            r is None ==> !self.has_role_name(name@),
    {
        let n = self.roles.len();
        let mut i: usize = 0;
        while i < n
            invariant
                0 <= i <= n,
                n == self.roles@.len(),
                forall|k: int| 0 <= k < i ==> (#[trigger] self.roles@[k]).name@ != name@,
            decreases n - i,
        {
            if str_eq_string(name, &self.roles[i].name) {
                return Some(i);
            }
            i = i + 1;
        }
        None
    }

    // -----------------------------------------------------------------------
    // Compute instances.
    // -----------------------------------------------------------------------

    /// Whether the compute-instances table can assign one more primary key.
    pub open spec fn can_assign_compute_instance_id(self) -> bool {
        self.compute_instances@.len() == 0 || self.compute_instances@.last().id < i64::MAX
    }

    /// The primary key the next compute-instance insert assigns.
    pub open spec fn next_compute_instance_id(self) -> int {
        if self.compute_instances@.len() == 0 {
            1
        } else {
            self.compute_instances@.last().id + 1
        }
    }

    /// Whether some compute-instance row carries this name (runtime check),
    /// and at which index.
    pub fn find_compute_instance_by_name(&self, name: &str) -> (r: Option<usize>)
        ensures
            r matches Some(i) ==> i < self.compute_instances@.len()
                && self.compute_instances@[i as int].name@ == name@,
            r is None ==> !self.has_compute_instance_name(name@),
    {
        let n = self.compute_instances.len();
        let mut i: usize = 0;
        while i < n
            invariant
                0 <= i <= n,
                n == self.compute_instances@.len(),
                forall|k: int|
                    0 <= k < i ==> (#[trigger] self.compute_instances@[k]).name@ != name@,
            decreases n - i,
        {
            if str_eq_string(name, &self.compute_instances[i].name) {
                return Some(i);
            }
            i = i + 1;
        }
        None
    }

    /// Whether some compute-instance row carries this id (runtime check),
    /// and at which index.
    pub fn find_compute_instance_by_id(&self, id: i64) -> (r: Option<usize>)
        ensures
            r matches Some(i) ==> i < self.compute_instances@.len()
                && self.compute_instances@[i as int].id == id,
            r is None ==> !self.has_compute_instance_id(id as int),
    {
        let n = self.compute_instances.len();
        let mut i: usize = 0;
        while i < n
            invariant
                0 <= i <= n,
                n == self.compute_instances@.len(),
                forall|k: int| 0 <= k < i ==> (#[trigger] self.compute_instances@[k]).id != id,
            decreases n - i,
        {
            if self.compute_instances[i].id == id {
                return Some(i);
            }
            i = i + 1;
        }
        None
    }

    /// Whether some introspection row carries this composite key (runtime
    /// check).
    pub fn introspection_exists(&self, compute_id: i64, name: &str) -> (r: bool)
        ensures
            r == self.has_introspection(compute_id as int, name@),
    {
        let n = self.introspection_sources.len();
        let mut i: usize = 0;
        while i < n
            invariant
                0 <= i <= n,
                n == self.introspection_sources@.len(),
                forall|k: int|
                    0 <= k < i ==> !((#[trigger] self.introspection_sources@[k]).compute_id
                        == compute_id && self.introspection_sources@[k].name@ == name@),
            decreases n - i,
        {
            let row = &self.introspection_sources[i];
            if row.compute_id == compute_id && str_eq_string(name, &row.name) {
                return true;
            }
            i = i + 1;
        }
        false
    }

    /// Appends one introspection-source row. Fails (as a raw storage error,
    /// which is how the embedded engine surfaces a primary-key violation
    /// here) when the composite key is already taken.
    pub fn insert_introspection(&mut self, compute_id: i64, name: &str, index_id: u64) -> (r:
        Result<(), Error>)
        requires
            old(self).wf(),
        ensures
            final(self).wf(),
            *final(self) == (CatalogState {
                introspection_sources: final(self).introspection_sources,
                ..*old(self)
            }),
            r is Ok <==> !old(self).has_introspection(compute_id as int, name@),
            r is Ok ==> {
                &&& final(self).introspection_sources@.len() == old(
                    self,
                ).introspection_sources@.len() + 1
                &&& final(self).introspection_sources@.drop_last() == old(
                    self,
                ).introspection_sources@
                &&& final(self).introspection_sources@.last().compute_id == compute_id
                &&& final(self).introspection_sources@.last().name@ == name@
                &&& final(self).introspection_sources@.last().index_id == index_id
            },
            r is Err ==> *final(self) == *old(self) && r->Err_0 is Storage,
    {
        if self.introspection_exists(compute_id, name) {
            return Err(Error::Storage(String::from_str("constraint violation")));
        }
        self.introspection_sources.push(
            IntrospectionRow { compute_id, name: name.to_owned(), index_id },
        );
        proof {
            assert(final(self).introspection_sources@.drop_last() =~= old(
                self,
            ).introspection_sources@);
        }
        Ok(())
    }

    /// Creates a compute instance with this name and configuration,
    /// assigning the next primary key. Fails when an instance with this name
    /// already exists; no partial state is written.
    pub fn insert_compute_instance_row(&mut self, name: &str, config: Option<String>) -> (r:
        Result<i64, Error>)
        requires
            old(self).wf(),
        ensures
            final(self).wf(),
            *final(self) == (CatalogState {
                compute_instances: final(self).compute_instances,
                ..*old(self)
            }),
            r is Ok <==> !old(self).has_compute_instance_name(name@) && old(
                self,
            ).can_assign_compute_instance_id(),
            r matches Ok(id) ==> {
                &&& id == old(self).next_compute_instance_id()
                &&& final(self).compute_instances@.len() == old(self).compute_instances@.len() + 1
                &&& final(self).compute_instances@.drop_last() == old(self).compute_instances@
                &&& final(self).compute_instances@.last().id == id
                &&& final(self).compute_instances@.last().name@ == name@
                &&& match final(self).compute_instances@.last().config {
                    Some(c) => config matches Some(g) && c@ == g@,
                    None => config is None,
                }
            },
            r is Err ==> *final(self) == *old(self),
            r matches Err(e) ==> if old(self).has_compute_instance_name(name@) {
                e matches Error::ClusterAlreadyExists(n) && n@ == name@
            } else {
                e is Storage
            },
    {
        if let Some(_) = self.find_compute_instance_by_name(name) {
            return Err(Error::ClusterAlreadyExists(name.to_owned()));
        }
        let n = self.compute_instances.len();
        let id: i64 = if n == 0 {
            1
        } else {
            let last = self.compute_instances[n - 1].id;
            if last == i64::MAX {
                return Err(
                    Error::Storage(String::from_str("compute instance key space exhausted")),
                );
            }
            last + 1
        };
        self.compute_instances.push(ComputeInstanceRow { id, name: name.to_owned(), config });
        proof {
            assert(final(self).compute_instances@.drop_last() =~= old(self).compute_instances@);
        }
        Ok(id)
    }

    /// The index of the compute-instance row with this id.
    pub open spec fn compute_instance_index_of_id(self, id: int) -> int {
        choose|i: int|
            0 <= i < self.compute_instances@.len() && #[trigger] self.compute_instances@[i].id
                == id
    }

    /// The index of the compute-instance row with this name.
    pub open spec fn compute_instance_index_of_name(self, name: Seq<char>) -> int {
        choose|i: int|
            0 <= i < self.compute_instances@.len() && #[trigger] self.compute_instances@[i].name@
                == name
    }

    /// Replaces the configuration of the compute instance with this id,
    /// touching exactly that row. Fails when no instance carries the id.
    pub fn update_compute_instance_config_row(&mut self, id: i64, config: String) -> (r: Result<
        (),
        Error,
    >)
        requires
            old(self).wf(),
        ensures
            final(self).wf(),
            *final(self) == (CatalogState {
                compute_instances: final(self).compute_instances,
                ..*old(self)
            }),
            r is Ok <==> old(self).has_compute_instance_id(id as int),
            r is Ok ==> {
                let idx = old(self).compute_instance_index_of_id(id as int);
                &&& final(self).compute_instances@.len() == old(self).compute_instances@.len()
                &&& forall|k: int|
                    0 <= k < old(self).compute_instances@.len() && k != idx
                        ==> final(self).compute_instances@[k] == old(self).compute_instances@[k]
                &&& final(self).compute_instances@[idx].id == id
                &&& final(self).compute_instances@[idx].name == old(
                    self,
                ).compute_instances@[idx].name
                &&& final(self).compute_instances@[idx].config matches Some(c) && c@ == config@
            },
            r is Err ==> *final(self) == *old(self),
            r matches Err(e) ==> (e matches Error::UnknownComputeInstance(s) && s@
                == crate::text::dec_seq_signed(id as int)),
    {
        match self.find_compute_instance_by_id(id) {
            Some(i) => {
                proof {
                    assert(old(self).has_compute_instance_id(id as int));
                }
                let name = self.compute_instances[i].name.clone();
                let row = ComputeInstanceRow { id, name, config: Some(config) };
                self.compute_instances.set(i, row);
                proof {
                    let j = old(self).compute_instance_index_of_id(id as int);
                    assert(0 <= j < old(self).compute_instances@.len() && old(
                        self,
                    ).compute_instances@[j].id == id);
                    assert(j == i as int);
                    assert forall|a: int, b: int|
                        0 <= a < b < self.compute_instances@.len() implies self.compute_instances@[a].id
                        < self.compute_instances@[b].id && (#[trigger] self.compute_instances@[a]).name@
                        != (#[trigger] self.compute_instances@[b]).name@ by {
                        assert(old(self).compute_instances@[a].id < old(
                            self,
                        ).compute_instances@[b].id && old(self).compute_instances@[a].name@ != old(
                            self,
                        ).compute_instances@[b].name@);
                    }
                }
                Ok(())
            }
            None => Err(Error::UnknownComputeInstance(i64_to_string(id))),
        }
    }

    /// Deletes the compute-instance row with this name. At most one row can
    /// match; fails when none does. Its introspection rows, if any, are left
    /// behind, exactly as the embedded store leaves them.
    pub fn remove_compute_instance(&mut self, name: &str) -> (r: Result<(), Error>)
        requires
            old(self).wf(),
        ensures
            final(self).wf(),
            *final(self) == (CatalogState {
                compute_instances: final(self).compute_instances,
                ..*old(self)
            }),
            r is Ok <==> old(self).has_compute_instance_name(name@),
            r is Ok ==> final(self).compute_instances@ == old(self).compute_instances@.remove(
                old(self).compute_instance_index_of_name(name@),
            ),
            r is Err ==> *final(self) == *old(self),
            r matches Err(e) ==> (e matches Error::UnknownComputeInstance(s) && s@ == name@),
    {
        match self.find_compute_instance_by_name(name) {
            Some(i) => {
                proof {
                    assert(old(self).has_compute_instance_name(name@));
                }
                self.compute_instances.remove(i);
                proof {
                    let j = old(self).compute_instance_index_of_name(name@);
                    assert(0 <= j < old(self).compute_instances@.len() && old(
                        self,
                    ).compute_instances@[j].name@ == name@);
                    assert(j == i as int);
                }
                Ok(())
            }
            None => Err(Error::UnknownComputeInstance(name.to_owned())),
        }
    }

    // -----------------------------------------------------------------------
    // Items.
    // -----------------------------------------------------------------------

    /// Whether some item row carries this global identifier (runtime check),
    /// and at which index.
    pub fn find_item_by_gid(&self, gid: &GlobalId) -> (r: Option<usize>)
        ensures
            r matches Some(i) ==> i < self.items@.len() && self.items@[i as int].gid == *gid,
            r is None ==> !self.has_item_gid(*gid),
    {
        let n = self.items.len();
        let mut i: usize = 0;
        while i < n
            invariant
                0 <= i <= n,
                n == self.items@.len(),
                forall|k: int| 0 <= k < i ==> (#[trigger] self.items@[k]).gid != *gid,
            decreases n - i,
        {
            if self.items[i].gid == *gid {
                return Some(i);
            }
            i = i + 1;
        }
        None
    }

    /// Whether some item row pairs this schema with this name (runtime
    /// check), excluding the row at `except` (pass the row count to exclude
    /// none).
    pub fn item_name_exists_except(&self, schema_id: i64, name: &str, except: usize) -> (r: bool)
        ensures
            r == exists|k: int|
                0 <= k < self.items@.len() && k != except && (#[trigger] self.items@[k]).schema_id
                    == schema_id && self.items@[k].name@ == name@,
    {
        let n = self.items.len();
        let mut i: usize = 0;
        while i < n
            invariant
                0 <= i <= n,
                n == self.items@.len(),
                forall|k: int|
                    0 <= k < i && k != except ==> !((#[trigger] self.items@[k]).schema_id
                        == schema_id && self.items@[k].name@ == name@),
            decreases n - i,
        {
            if i != except {
                let row = &self.items[i];
                if row.schema_id == schema_id && str_eq_string(name, &row.name) {
                    return true;
                }
            }
            i = i + 1;
        }
        false
    }

    /// Creates an item under this schema. Fails when the identifier or the
    /// (schema, name) pair is already taken; no partial state is written.
    pub fn insert_item_row(
        &mut self,
        gid: GlobalId,
        schema_id: i64,
        item_name: &str,
        definition: &[u8],
    ) -> (r: Result<(), Error>)
        requires
            old(self).wf(),
        ensures
            final(self).wf(),
            *final(self) == (CatalogState { items: final(self).items, ..*old(self) }),
            r is Ok <==> !old(self).has_item_gid(gid) && !old(self).has_item_name(
                schema_id as int,
                item_name@,
            ),
            r is Ok ==> {
                &&& final(self).items@.len() == old(self).items@.len() + 1
                &&& final(self).items@.drop_last() == old(self).items@
                &&& final(self).items@.last().gid == gid
                &&& final(self).items@.last().schema_id == schema_id
                &&& final(self).items@.last().name@ == item_name@
                &&& final(self).items@.last().definition@ == definition@
            },
            r is Err ==> *final(self) == *old(self),
            r matches Err(e) ==> (e matches Error::ItemAlreadyExists(n) && n@ == item_name@),
    {
        if let Some(_) = self.find_item_by_gid(&gid) {
            return Err(Error::ItemAlreadyExists(item_name.to_owned()));
        }
        let except = self.items.len();
        if self.item_name_exists_except(schema_id, item_name, except) {
            proof {
                assert(old(self).has_item_name(schema_id as int, item_name@));
            }
            return Err(Error::ItemAlreadyExists(item_name.to_owned()));
        }
        self.items.push(
            ItemRow {
                gid,
                schema_id,
                name: item_name.to_owned(),
                definition: vstd::slice::slice_to_vec(definition),
            },
        );
        proof {
            assert(final(self).items@.drop_last() =~= old(self).items@);
        }
        Ok(())
    }

    /// The index of the item row with this identifier.
    pub open spec fn item_index_of(self, gid: GlobalId) -> int {
        choose|i: int| 0 <= i < self.items@.len() && #[trigger] self.items@[i].gid == gid
    }

    /// Renames and redefines the item with this identifier, touching exactly
    /// that row. Fails when no item carries the identifier, and with a raw
    /// storage error (how the embedded engine surfaces the unique-constraint
    /// violation on an update) when the new name is already taken in the
    /// item's schema.
    pub fn update_item_row(&mut self, gid: GlobalId, item_name: &str, definition: &[u8]) -> (r:
        Result<(), Error>)
        requires
            old(self).wf(),
        ensures
            final(self).wf(),
            *final(self) == (CatalogState { items: final(self).items, ..*old(self) }),
            ({
                let idx = old(self).item_index_of(gid);
                &&& (r is Ok <==> old(self).has_item_gid(gid) && !(exists|k: int|
                    0 <= k < old(self).items@.len() && k != idx && (#[trigger] old(
                        self,
                    ).items@[k]).schema_id == old(self).items@[idx].schema_id && old(
                        self,
                    ).items@[k].name@ == item_name@))
                &&& r is Ok ==> {
                    &&& final(self).items@.len() == old(self).items@.len()
                    &&& forall|k: int|
                        0 <= k < old(self).items@.len() && k != idx ==> final(self).items@[k]
                            == old(self).items@[k]
                    &&& final(self).items@[idx].gid == gid
                    &&& final(self).items@[idx].schema_id == old(self).items@[idx].schema_id
                    &&& final(self).items@[idx].name@ == item_name@
                    &&& final(self).items@[idx].definition@ == definition@
                }
            }),
            r is Err ==> *final(self) == *old(self),
            r matches Err(e) ==> if old(self).has_item_gid(gid) {
                e is Storage
            } else {
                e matches Error::UnknownItem(s) && s@ == gid.text()
            },
    {
        match self.find_item_by_gid(&gid) {
            Some(i) => {
                proof {
                    assert(old(self).has_item_gid(gid));
                    let j = old(self).item_index_of(gid);
                    assert(0 <= j < old(self).items@.len() && old(self).items@[j].gid == gid);
                    assert(j == i as int);
                }
                let schema_id = self.items[i].schema_id;
                if self.item_name_exists_except(schema_id, item_name, i) {
                    return Err(Error::Storage(String::from_str("constraint violation")));
                }
                let row = ItemRow {
                    gid,
                    schema_id,
                    name: item_name.to_owned(),
                    definition: vstd::slice::slice_to_vec(definition),
                };
                self.items.set(i, row);
                proof {
                    assert forall|a: int, b: int|
                        0 <= a < b < self.items@.len() implies (#[trigger] self.items@[a]).gid
                        != (#[trigger] self.items@[b]).gid && !(self.items@[a].schema_id
                        == self.items@[b].schema_id && self.items@[a].name@
                        == self.items@[b].name@) by {
                        assert(old(self).items@[a].gid != old(self).items@[b].gid && !(old(
                            self,
                        ).items@[a].schema_id == old(self).items@[b].schema_id && old(
                            self,
                        ).items@[a].name@ == old(self).items@[b].name@));
                    }
                }
                Ok(())
            }
            None => {
                let text = gid.to_text();
                Err(Error::UnknownItem(text))
            }
        }
    }

    /// Deletes the item row with this identifier. At most one row can match;
    /// fails when none does.
    pub fn remove_item_row(&mut self, gid: GlobalId) -> (r: Result<(), Error>)
        requires
            old(self).wf(),
        ensures
            final(self).wf(),
            *final(self) == (CatalogState { items: final(self).items, ..*old(self) }),
            r is Ok <==> old(self).has_item_gid(gid),
            r is Ok ==> final(self).items@ == old(self).items@.remove(old(self).item_index_of(gid)),
            r is Err ==> *final(self) == *old(self),
            r matches Err(e) ==> (e matches Error::UnknownItem(s) && s@ == gid.text()),
    {
        match self.find_item_by_gid(&gid) {
            Some(i) => {
                proof {
                    assert(old(self).has_item_gid(gid));
                }
                self.items.remove(i);
                proof {
                    let j = old(self).item_index_of(gid);
                    assert(0 <= j < old(self).items@.len() && old(self).items@[j].gid == gid);
                    assert(j == i as int);
                }
                Ok(())
            }
            None => {
                let text = gid.to_text();
                Err(Error::UnknownItem(text))
            }
        }
    }

    // -----------------------------------------------------------------------
    // System object mapping.
    // -----------------------------------------------------------------------

    /// The index of the mapping row with this composite key.
    pub open spec fn system_mapping_index_of(
        self,
        schema_name: Seq<char>,
        object_name: Seq<char>,
    ) -> int {
        choose|i: int|
            0 <= i < self.system_gid_mapping@.len()
                && (#[trigger] self.system_gid_mapping@[i]).schema_name@ == schema_name
                && self.system_gid_mapping@[i].object_name@ == object_name
    }

    /// Pins the identifier and fingerprint of one built-in object: inserts
    /// the mapping row, or replaces it when the composite key already exists
    /// (insert-or-replace), so migrations and upgrades can re-pin built-in
    /// identifiers without deleting rows.
    pub fn upsert_system_mapping(
        &mut self,
        schema_name: &str,
        object_name: &str,
        id: u64,
        fingerprint: u64,
    ) -> (r: ())
        requires
            old(self).wf(),
        ensures
            final(self).wf(),
            *final(self) == (CatalogState {
                system_gid_mapping: final(self).system_gid_mapping,
                ..*old(self)
            }),
            final(self).has_system_mapping(schema_name@, object_name@),
            if old(self).has_system_mapping(schema_name@, object_name@) {
                let idx = old(self).system_mapping_index_of(schema_name@, object_name@);
                &&& final(self).system_gid_mapping@.len() == old(self).system_gid_mapping@.len()
                &&& forall|k: int|
                    0 <= k < old(self).system_gid_mapping@.len() && k != idx
                        ==> final(self).system_gid_mapping@[k] == old(self).system_gid_mapping@[k]
                &&& final(self).system_gid_mapping@[idx].schema_name@ == schema_name@
                &&& final(self).system_gid_mapping@[idx].object_name@ == object_name@
                &&& final(self).system_gid_mapping@[idx].id == id
                &&& final(self).system_gid_mapping@[idx].fingerprint == fingerprint
            } else {
                &&& final(self).system_gid_mapping@.len() == old(self).system_gid_mapping@.len()
                    + 1
                &&& final(self).system_gid_mapping@.drop_last() == old(self).system_gid_mapping@
                &&& final(self).system_gid_mapping@.last().schema_name@ == schema_name@
                &&& final(self).system_gid_mapping@.last().object_name@ == object_name@
                &&& final(self).system_gid_mapping@.last().id == id
                &&& final(self).system_gid_mapping@.last().fingerprint == fingerprint
            },
    {
        let n = self.system_gid_mapping.len();
        let mut i: usize = 0;
        while i < n
            invariant
                0 <= i <= n,
                n == self.system_gid_mapping@.len(),
                *self == *old(self),
                old(self).wf(),
                forall|k: int|
                    0 <= k < i ==> !((#[trigger] self.system_gid_mapping@[k]).schema_name@
                        == schema_name@ && self.system_gid_mapping@[k].object_name@
                        == object_name@),
            decreases n - i,
        {
            let row = &self.system_gid_mapping[i];
            if str_eq_string(schema_name, &row.schema_name) && str_eq_string(
                object_name,
                &row.object_name,
            ) {
                proof {
                    assert(old(self).has_system_mapping(schema_name@, object_name@));
                }
                let new_row = SystemMappingRow {
                    schema_name: schema_name.to_owned(),
                    object_name: object_name.to_owned(),
                    id,
                    fingerprint,
                };
                self.system_gid_mapping.set(i, new_row);
                proof {
                    let j = old(self).system_mapping_index_of(schema_name@, object_name@);
                    assert(0 <= j < old(self).system_gid_mapping@.len() && old(
                        self,
                    ).system_gid_mapping@[j].schema_name@ == schema_name@ && old(
                        self,
                    ).system_gid_mapping@[j].object_name@ == object_name@);
                    assert(j == i as int);
                    assert forall|a: int, b: int|
                        0 <= a < b < self.system_gid_mapping@.len() implies !((
                        #[trigger] self.system_gid_mapping@[a]).schema_name@
                        == (#[trigger] self.system_gid_mapping@[b]).schema_name@
                        && self.system_gid_mapping@[a].object_name@
                        == self.system_gid_mapping@[b].object_name@) by {
                        assert(!(old(self).system_gid_mapping@[a].schema_name@ == old(
                            self,
                        ).system_gid_mapping@[b].schema_name@ && old(
                            self,
                        ).system_gid_mapping@[a].object_name@ == old(
                            self,
                        ).system_gid_mapping@[b].object_name@));
                    }
                    assert(final(self).system_gid_mapping@[i as int].schema_name@ == schema_name@);
                }
                return ;
            }
            i = i + 1;
        }
        let new_row = SystemMappingRow {
            schema_name: schema_name.to_owned(),
            object_name: object_name.to_owned(),
            id,
            fingerprint,
        };
        self.system_gid_mapping.push(new_row);
        proof {
            assert(final(self).system_gid_mapping@.drop_last() =~= old(self).system_gid_mapping@);
            let last = final(self).system_gid_mapping@.len() - 1;
            assert(final(self).system_gid_mapping@[last].schema_name@ == schema_name@);
            assert forall|a: int, b: int|
                0 <= a < b < self.system_gid_mapping@.len() implies !((
            #[trigger] self.system_gid_mapping@[a]).schema_name@
                == (#[trigger] self.system_gid_mapping@[b]).schema_name@
                && self.system_gid_mapping@[a].object_name@
                == self.system_gid_mapping@[b].object_name@) by {
                if b < old(self).system_gid_mapping@.len() {
                    assert(!(old(self).system_gid_mapping@[a].schema_name@ == old(
                        self,
                    ).system_gid_mapping@[b].schema_name@ && old(
                        self,
                    ).system_gid_mapping@[a].object_name@ == old(
                        self,
                    ).system_gid_mapping@[b].object_name@));
                }
            }
        }
    }

    // -----------------------------------------------------------------------
    // Allocator.
    // -----------------------------------------------------------------------

    /// Serves one batch from an allocator counter: reads the next value,
    /// fails with exhaustion when the batch does not fit in signed 64-bit
    /// storage (leaving the counter untouched), and otherwise returns the
    /// half-open range and advances the counter once.
    pub fn allocate_gids(&mut self, system: bool, amount: u64) -> (r: Result<Vec<u64>, Error>)
        requires
            old(self).wf(),
            amount >= 1,
        ensures
            final(self).wf(),
            ({
                let next = if system {
                    old(self).system_next_gid
                } else {
                    old(self).user_next_gid
                };
                &&& (r is Ok <==> next + amount <= i64::MAX)
                &&& r matches Ok(ids) ==> {
                    &&& ids@.len() == amount
                    &&& forall|k: int| 0 <= k < amount ==> ids@[k] == next + k
                    &&& if system {
                        *final(self) == (CatalogState {
                            system_next_gid: (next + amount) as u64,
                            ..*old(self)
                        })
                    } else {
                        *final(self) == (CatalogState {
                            user_next_gid: (next + amount) as u64,
                            ..*old(self)
                        })
                    }
                }
                &&& r matches Err(e) ==> *final(self) == *old(self) && e is IdExhaustion
            }),
    {
        let next = if system {
            self.system_next_gid
        } else {
            self.user_next_gid
        };
        if next == i64::MAX as u64 || amount > i64::MAX as u64 - next {
            return Err(Error::IdExhaustion);
        }
        let mut ids: Vec<u64> = Vec::new();
        let mut k: u64 = 0;
        while k < amount
            invariant
                0 <= k <= amount,
                next + amount <= i64::MAX,
                ids@.len() == k,
                forall|j: int| 0 <= j < k ==> ids@[j] == next + j,
            decreases amount - k,
        {
            ids.push(next + k);
            k = k + 1;
        }
        if system {
            self.system_next_gid = next + amount;
        } else {
            self.user_next_gid = next + amount;
        }
        Ok(ids)
    }

    // -----------------------------------------------------------------------
    // Settings.
    // -----------------------------------------------------------------------

    /// Reads a named setting (runtime lookup).
    pub fn get_setting(&self, name: &str) -> (r: Option<&String>)
        ensures
            r matches Some(v) ==> self.setting(name@) == Some(v@),
            r is None ==> self.setting(name@) is None,
    {
        let n = self.settings.len();
        let mut i: usize = 0;
        while i < n
            invariant
                0 <= i <= n,
                n == self.settings@.len(),
                setting_prefix_missed(self.settings@, i as int, name@),
            decreases n - i,
        {
            if str_eq_string(name, &self.settings[i].name) {
                proof {
                    lemma_setting_lookup_at(self.settings@, i as int, name@);
                }
                return Some(&self.settings[i].value);
            }
            i = i + 1;
        }
        proof {
            lemma_setting_lookup_none(self.settings@, name@);
        }
        None
    }

    /// Writes a named setting, replacing any prior value (upsert).
    pub fn set_setting(&mut self, name: &str, value: String) -> (r: ())
        requires
            old(self).wf(),
        ensures
            final(self).wf(),
            *final(self) == (CatalogState { settings: final(self).settings, ..*old(self) }),
            final(self).setting(name@) == Some(value@),
            forall|other: Seq<char>| other != name@ ==> final(self).setting(other) == old(
                self,
            ).setting(other),
    {
        let n = self.settings.len();
        let mut i: usize = 0;
        while i < n
            invariant
                0 <= i <= n,
                n == self.settings@.len(),
                *self == *old(self),
                old(self).wf(),
                forall|k: int| 0 <= k < i ==> (#[trigger] self.settings@[k]).name@ != name@,
            decreases n - i,
        {
            if str_eq_string(name, &self.settings[i].name) {
                let row = SettingRow { name: name.to_owned(), value };
                self.settings.set(i, row);
                proof {
                    let before = old(self).settings@;
                    let after = self.settings@;
                    assert forall|a: int, b: int|
                        0 <= a < b < after.len() implies (#[trigger] after[a]).name@
                        != (#[trigger] after[b]).name@ by {
                        assert(before[a].name@ != before[b].name@);
                        if a == i {
                            assert(after[a].name@ == before[a].name@);
                        }
                        if b == i {
                            assert(after[b].name@ == before[b].name@);
                        }
                    }
                    lemma_setting_lookup_update(before, after, i as int, name@);
                }
                return ;
            }
            i = i + 1;
        }
        let row = SettingRow { name: name.to_owned(), value };
        self.settings.push(row);
        proof {
            let before = old(self).settings@;
            let after = self.settings@;
            assert forall|a: int, b: int|
                0 <= a < b < after.len() implies (#[trigger] after[a]).name@
                != (#[trigger] after[b]).name@ by {
                if b < before.len() {
                    assert(before[a].name@ != before[b].name@);
                } else {
                    assert(after[b].name@ == name@);
                    assert(before[a].name@ != name@);
                }
            }
            lemma_setting_lookup_push(before, after, name@);
        }
    }
}

/// No row before `i` carries this name.
pub open spec fn setting_prefix_missed(rows: Seq<SettingRow>, i: int, name: Seq<char>) -> bool {
    forall|k: int| 0 <= k < i ==> (#[trigger] rows[k]).name@ != name
}

/// When no row up to `i` carries the name and row `i` does, the lookup
/// yields row `i`'s value.
proof fn lemma_setting_lookup_at(rows: Seq<SettingRow>, i: int, name: Seq<char>)
    requires
        0 <= i < rows.len(),
        setting_prefix_missed(rows, i, name),
        rows[i].name@ == name,
    ensures
        crate::state::setting_lookup(rows, name) == Some(rows[i].value@),
    decreases i,
{
    if i > 0 {
        lemma_setting_lookup_at(rows.drop_first(), i - 1, name);
    }
}

/// When no row carries the name, the lookup yields nothing.
proof fn lemma_setting_lookup_none(rows: Seq<SettingRow>, name: Seq<char>)
    requires
        setting_prefix_missed(rows, rows.len() as int, name),
    ensures
        crate::state::setting_lookup(rows, name) is None,
    decreases rows.len(),
{
    if rows.len() > 0 {
        lemma_setting_lookup_none(rows.drop_first(), name);
    }
}

/// Replacing the row at the first occurrence of a name changes that name's
/// lookup and no other.
proof fn lemma_setting_lookup_update(
    before: Seq<SettingRow>,
    after: Seq<SettingRow>,
    i: int,
    name: Seq<char>,
)
    requires
        0 <= i < before.len(),
        after.len() == before.len(),
        setting_prefix_missed(before, i, name),
        before[i].name@ == name,
        after[i].name@ == name,
        forall|k: int| 0 <= k < before.len() && k != i ==> after[k] == before[k],
    ensures
        crate::state::setting_lookup(after, name) == Some(after[i].value@),
        forall|other: Seq<char>|
            other != name ==> crate::state::setting_lookup(after, other)
                == crate::state::setting_lookup(before, other),
    decreases i,
{
    lemma_setting_lookup_at(after, i, name);
    assert forall|other: Seq<char>| other != name implies crate::state::setting_lookup(
        after,
        other,
    ) == crate::state::setting_lookup(before, other) by {
        lemma_setting_lookup_pointwise(before, after, i, name, other);
    }
}

/// Helper for the update lemma, one foreign name at a time.
proof fn lemma_setting_lookup_pointwise(
    before: Seq<SettingRow>,
    after: Seq<SettingRow>,
    i: int,
    name: Seq<char>,
    other: Seq<char>,
)
    requires
        0 <= i < before.len(),
        after.len() == before.len(),
        before[i].name@ == name,
        after[i].name@ == name,
        forall|k: int| 0 <= k < before.len() && k != i ==> after[k] == before[k],
        other != name,
    ensures
        crate::state::setting_lookup(after, other) == crate::state::setting_lookup(before, other),
    decreases before.len(),
{
    if before.len() > 0 {
        if i == 0 {
            // Both sequences carry `name` at the head, which is not `other`,
            // so both lookups move to the (equal) tails.
            assert(before[0].name@ != other);
            assert(after[0].name@ != other);
            lemma_setting_lookup_same(before.drop_first(), after.drop_first(), other);
        } else {
            assert(after[0] == before[0]);
            if before[0].name@ == other {
            } else {
                lemma_setting_lookup_pointwise(
                    before.drop_first(),
                    after.drop_first(),
                    i - 1,
                    name,
                    other,
                );
            }
        }
    }
}

/// Equal sequences look up equally.
proof fn lemma_setting_lookup_same(a: Seq<SettingRow>, b: Seq<SettingRow>, name: Seq<char>)
    requires
        a.len() == b.len(),
        forall|k: int| 0 <= k < a.len() ==> a[k] == b[k],
    ensures
        crate::state::setting_lookup(a, name) == crate::state::setting_lookup(b, name),
    decreases a.len(),
{
    if a.len() > 0 {
        lemma_setting_lookup_same(a.drop_first(), b.drop_first(), name);
    }
}

/// Appending a row with a fresh name changes that name's lookup and no
/// other.
proof fn lemma_setting_lookup_push(
    before: Seq<SettingRow>,
    after: Seq<SettingRow>,
    name: Seq<char>,
)
    requires
        setting_prefix_missed(before, before.len() as int, name),
        after.len() == before.len() + 1,
        after[after.len() - 1].name@ == name,
        forall|k: int| 0 <= k < before.len() ==> after[k] == before[k],
    ensures
        crate::state::setting_lookup(after, name) == Some(after[after.len() - 1].value@),
        forall|other: Seq<char>|
            other != name ==> crate::state::setting_lookup(after, other)
                == crate::state::setting_lookup(before, other),
    decreases before.len(),
{
    lemma_setting_lookup_at(after, after.len() - 1, name);
    assert forall|other: Seq<char>| other != name implies crate::state::setting_lookup(
        after,
        other,
    ) == crate::state::setting_lookup(before, other) by {
        lemma_setting_lookup_push_pointwise(before, after, name, other);
    }
}

/// Helper for the push lemma, one foreign name at a time.
proof fn lemma_setting_lookup_push_pointwise(
    before: Seq<SettingRow>,
    after: Seq<SettingRow>,
    name: Seq<char>,
    other: Seq<char>,
)
    requires
        after.len() == before.len() + 1,
        after[after.len() - 1].name@ == name,
        forall|k: int| 0 <= k < before.len() ==> after[k] == before[k],
        other != name,
    ensures
        crate::state::setting_lookup(after, other) == crate::state::setting_lookup(before, other),
    decreases before.len(),
{
    if before.len() == 0 {
        assert(after.len() == 1);
        assert(after[0].name@ == name);
    } else {
        assert(after[0] == before[0]);
        if before[0].name@ == other {
        } else {
            lemma_setting_lookup_push_pointwise(
                before.drop_first(),
                after.drop_first(),
                name,
                other,
            );
        }
    }
}

} // verus!

verus! {

/// The key the next database insert assigns is not in use.
pub proof fn lemma_next_database_id_fresh(s: CatalogState)
    requires
        s.databases_wf(),
        s.can_assign_database_id(),
    ensures
        !s.has_database_id(s.next_database_id()),
{
    let rows = s.databases@;
    if rows.len() > 0 {
        assert forall|i: int| 0 <= i < rows.len() implies (#[trigger] rows[i]).id
            != s.next_database_id() by {
            if i < rows.len() - 1 {
                assert(rows[i].id < rows[rows.len() - 1].id);
            }
        }
    }
}

/// The key the next schema insert assigns is not in use.
pub proof fn lemma_next_schema_id_fresh(s: CatalogState)
    requires
        s.schemas_wf(),
        s.can_assign_schema_id(),
    ensures
        !s.has_schema_id(s.next_schema_id()),
{
    let rows = s.schemas@;
    if rows.len() > 0 {
        assert forall|i: int| 0 <= i < rows.len() implies (#[trigger] rows[i]).id
            != s.next_schema_id() by {
            if i < rows.len() - 1 {
                assert(rows[i].id < rows[rows.len() - 1].id);
            }
        }
    }
}

/// The key the next role insert assigns is not in use.
pub proof fn lemma_next_role_id_fresh(s: CatalogState)
    requires
        s.roles_wf(),
        s.can_assign_role_id(),
    ensures
        !s.has_role_id(s.next_role_id()),
{
    let rows = s.roles@;
    if rows.len() > 0 {
        assert forall|i: int| 0 <= i < rows.len() implies (#[trigger] rows[i]).id
            != s.next_role_id() by {
            if i < rows.len() - 1 {
                assert(rows[i].id < rows[rows.len() - 1].id);
            }
        }
    }
}

/// The key the next compute-instance insert assigns is not in use.
pub proof fn lemma_next_compute_instance_id_fresh(s: CatalogState)
    requires
        s.compute_instances_wf(),
        s.can_assign_compute_instance_id(),
    ensures
        !s.has_compute_instance_id(s.next_compute_instance_id()),
{
    let rows = s.compute_instances@;
    if rows.len() > 0 {
        assert forall|i: int| 0 <= i < rows.len() implies (#[trigger] rows[i]).id
            != s.next_compute_instance_id() by {
            if i < rows.len() - 1 {
                assert(rows[i].id < rows[rows.len() - 1].id);
            }
        }
    }
}

} // verus!
