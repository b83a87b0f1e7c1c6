//! Validating content read back from the store file. The embedded engine's
//! constraints guarantee these invariants for any store this library wrote;
//! reading them back re-establishes the well-formedness invariant that every
//! operation relies on, and rejects a tampered file.

use vstd::prelude::*;

use crate::state::CatalogState;
use crate::text::str_eq_string;

verus! {

impl CatalogState {
    /// Checks the databases table: strictly ascending keys, unique names.
    fn databases_wf_check(&self) -> (r: bool)
        ensures
            r == self.databases_wf(),
    {
        let n = self.databases.len();
        let mut i: usize = 0;
        while i < n
            invariant
                0 <= i <= n,
                n == self.databases@.len(),
                forall|a: int, b: int|
                    #![trigger self.databases@[a], self.databases@[b]]
                    0 <= a < b < n && a < i ==> self.databases@[a].id < self.databases@[b].id
                        && self.databases@[a].name@ != self.databases@[b].name@,
            decreases n - i,
        {
            let mut j: usize = i + 1;
            while j < n
                invariant
                    i < j <= n,
                    i < n,
                    n == self.databases@.len(),
                    forall|b: int|
                        #![trigger self.databases@[b]]
                        i < b < j ==> self.databases@[i as int].id < self.databases@[b].id
                            && self.databases@[i as int].name@ != self.databases@[b].name@,
                decreases n - j,
            {
                if self.databases[i].id >= self.databases[j].id || str_eq_string(
                    self.databases[i].name.as_str(),
                    &self.databases[j].name,
                ) {
                    return false;
                }
                j = j + 1;
            }
            i = i + 1;
        }
        true
    }

    /// Checks the schemas table: strictly ascending keys, and unique
    /// (database, name) pairs where the database is present.
    fn schemas_wf_check(&self) -> (r: bool)
        ensures
            r == self.schemas_wf(),
    {
        let n = self.schemas.len();
        let mut i: usize = 0;
        while i < n
            invariant
                0 <= i <= n,
                n == self.schemas@.len(),
                forall|a: int, b: int|
                    #![trigger self.schemas@[a], self.schemas@[b]]
                    0 <= a < b < n && a < i ==> self.schemas@[a].id < self.schemas@[b].id && !(
                    self.schemas@[a].database_id is Some && self.schemas@[a].database_id
                        == self.schemas@[b].database_id && self.schemas@[a].name@
                        == self.schemas@[b].name@),
            decreases n - i,
        {
            let mut j: usize = i + 1;
            while j < n
                invariant
                    i < j <= n,
                    i < n,
                    n == self.schemas@.len(),
                    forall|b: int|
                        #![trigger self.schemas@[b]]
                        i < b < j ==> self.schemas@[i as int].id < self.schemas@[b].id && !(
                        self.schemas@[i as int].database_id is Some
                            && self.schemas@[i as int].database_id == self.schemas@[b].database_id
                            && self.schemas@[i as int].name@ == self.schemas@[b].name@),
                decreases n - j,
            {
                if self.schemas[i].id >= self.schemas[j].id {
                    return false;
                }
                let same_db = match (&self.schemas[i].database_id, &self.schemas[j].database_id) {
                    (Some(a), Some(b)) => *a == *b,
                    _ => false,
                };
                if same_db && str_eq_string(self.schemas[i].name.as_str(), &self.schemas[j].name) {
                    return false;
                }
                j = j + 1;
            }
            i = i + 1;
        }
        true
    }

    /// Checks the roles table: strictly ascending keys, unique names.
    fn roles_wf_check(&self) -> (r: bool)
        ensures
            r == self.roles_wf(),
    {
        let n = self.roles.len();
        let mut i: usize = 0;
        while i < n
            invariant
                0 <= i <= n,
                n == self.roles@.len(),
                forall|a: int, b: int|
                    #![trigger self.roles@[a], self.roles@[b]]
                    0 <= a < b < n && a < i ==> self.roles@[a].id < self.roles@[b].id
                        && self.roles@[a].name@ != self.roles@[b].name@,
            decreases n - i,
        {
            let mut j: usize = i + 1;
            while j < n
                invariant
                    i < j <= n,
                    i < n,
                    n == self.roles@.len(),
                    forall|b: int|
                        #![trigger self.roles@[b]]
                        i < b < j ==> self.roles@[i as int].id < self.roles@[b].id
                            && self.roles@[i as int].name@ != self.roles@[b].name@,
                decreases n - j,
            {
                if self.roles[i].id >= self.roles[j].id || str_eq_string(
                    self.roles[i].name.as_str(),
                    &self.roles[j].name,
                ) {
                    return false;
                }
                j = j + 1;
            }
            i = i + 1;
        }
        true
    }

    /// Checks the compute-instances table: strictly ascending keys, unique
    /// names.
    fn compute_instances_wf_check(&self) -> (r: bool)
        ensures
            r == self.compute_instances_wf(),
    {
        let n = self.compute_instances.len();
        let mut i: usize = 0;
        while i < n
            invariant
                0 <= i <= n,
                n == self.compute_instances@.len(),
                forall|a: int, b: int|
                    #![trigger self.compute_instances@[a], self.compute_instances@[b]]
                    0 <= a < b < n && a < i ==> self.compute_instances@[a].id
                        < self.compute_instances@[b].id && self.compute_instances@[a].name@
                        != self.compute_instances@[b].name@,
            decreases n - i,
        {
            let mut j: usize = i + 1;
            while j < n
                invariant
                    i < j <= n,
                    i < n,
                    n == self.compute_instances@.len(),
                    forall|b: int|
                        #![trigger self.compute_instances@[b]]
                        i < b < j ==> self.compute_instances@[i as int].id
                            < self.compute_instances@[b].id
                            && self.compute_instances@[i as int].name@
                            != self.compute_instances@[b].name@,
                decreases n - j,
            {
                if self.compute_instances[i].id >= self.compute_instances[j].id || str_eq_string(
                    self.compute_instances[i].name.as_str(),
                    &self.compute_instances[j].name,
                ) {
                    return false;
                }
                j = j + 1;
            }
            i = i + 1;
        }
        true
    }

    /// Checks the items table: unique identifiers and unique (schema, name)
    /// pairs.
    fn items_wf_check(&self) -> (r: bool)
        ensures
            r == self.items_wf(),
    {
        let n = self.items.len();
        let mut i: usize = 0;
        while i < n
            invariant
                0 <= i <= n,
                n == self.items@.len(),
                forall|a: int, b: int|
                    #![trigger self.items@[a], self.items@[b]]
                    0 <= a < b < n && a < i ==> self.items@[a].gid != self.items@[b].gid && !(
                    self.items@[a].schema_id == self.items@[b].schema_id && self.items@[a].name@
                        == self.items@[b].name@),
            decreases n - i,
        {
            let mut j: usize = i + 1;
            while j < n
                invariant
                    i < j <= n,
                    i < n,
                    n == self.items@.len(),
                    forall|b: int|
                        #![trigger self.items@[b]]
                        i < b < j ==> self.items@[i as int].gid != self.items@[b].gid && !(
                        self.items@[i as int].schema_id == self.items@[b].schema_id
                            && self.items@[i as int].name@ == self.items@[b].name@),
                decreases n - j,
            {
                if self.items[i].gid == self.items[j].gid {
                    return false;
                }
                if self.items[i].schema_id == self.items[j].schema_id && str_eq_string(
                    self.items[i].name.as_str(),
                    &self.items[j].name,
                ) {
                    return false;
                }
                j = j + 1;
            }
            i = i + 1;
        }
        true
    }

    /// Checks the system mapping table: unique composite keys.
    fn system_gid_mapping_wf_check(&self) -> (r: bool)
        ensures
            r == self.system_gid_mapping_wf(),
    {
        let n = self.system_gid_mapping.len();
        let mut i: usize = 0;
        while i < n
            invariant
                0 <= i <= n,
                n == self.system_gid_mapping@.len(),
                forall|a: int, b: int|
                    #![trigger self.system_gid_mapping@[a], self.system_gid_mapping@[b]]
                    0 <= a < b < n && a < i ==> !(self.system_gid_mapping@[a].schema_name@
                        == self.system_gid_mapping@[b].schema_name@
                        && self.system_gid_mapping@[a].object_name@
                        == self.system_gid_mapping@[b].object_name@),
            decreases n - i,
        {
            let mut j: usize = i + 1;
            while j < n
                invariant
                    i < j <= n,
                    i < n,
                    n == self.system_gid_mapping@.len(),
                    forall|b: int|
                        #![trigger self.system_gid_mapping@[b]]
                        i < b < j ==> !(self.system_gid_mapping@[i as int].schema_name@
                            == self.system_gid_mapping@[b].schema_name@
                            && self.system_gid_mapping@[i as int].object_name@
                            == self.system_gid_mapping@[b].object_name@),
                decreases n - j,
            {
                if str_eq_string(
                    self.system_gid_mapping[i].schema_name.as_str(),
                    &self.system_gid_mapping[j].schema_name,
                ) && str_eq_string(
                    self.system_gid_mapping[i].object_name.as_str(),
                    &self.system_gid_mapping[j].object_name,
                ) {
                    return false;
                }
                j = j + 1;
            }
            i = i + 1;
        }
        true
    }

    /// Checks the introspection table: unique composite keys.
    fn introspection_wf_check(&self) -> (r: bool)
        ensures
            r == self.introspection_wf(),
    {
        let n = self.introspection_sources.len();
        let mut i: usize = 0;
        while i < n
            invariant
                0 <= i <= n,
                n == self.introspection_sources@.len(),
                forall|a: int, b: int|
                    #![trigger self.introspection_sources@[a], self.introspection_sources@[b]]
                    0 <= a < b < n && a < i ==> !(self.introspection_sources@[a].compute_id
                        == self.introspection_sources@[b].compute_id
                        && self.introspection_sources@[a].name@
                        == self.introspection_sources@[b].name@),
            decreases n - i,
        {
            let mut j: usize = i + 1;
            while j < n
                invariant
                    i < j <= n,
                    i < n,
                    n == self.introspection_sources@.len(),
                    forall|b: int|
                        #![trigger self.introspection_sources@[b]]
                        i < b < j ==> !(self.introspection_sources@[i as int].compute_id
                            == self.introspection_sources@[b].compute_id
                            && self.introspection_sources@[i as int].name@
                            == self.introspection_sources@[b].name@),
                decreases n - j,
            {
                if self.introspection_sources[i].compute_id
                    == self.introspection_sources[j].compute_id && str_eq_string(
                    self.introspection_sources[i].name.as_str(),
                    &self.introspection_sources[j].name,
                ) {
                    return false;
                }
                j = j + 1;
            }
            i = i + 1;
        }
        true
    }

    /// Checks the settings table: unique names.
    fn settings_wf_check(&self) -> (r: bool)
        ensures
            r == self.settings_wf(),
    {
        let n = self.settings.len();
        let mut i: usize = 0;
        while i < n
            invariant
                0 <= i <= n,
                n == self.settings@.len(),
                forall|a: int, b: int|
                    #![trigger self.settings@[a], self.settings@[b]]
                    0 <= a < b < n && a < i ==> self.settings@[a].name@ != self.settings@[b].name@,
            decreases n - i,
        {
            let mut j: usize = i + 1;
            while j < n
                invariant
                    i < j <= n,
                    i < n,
                    n == self.settings@.len(),
                    forall|b: int|
                        #![trigger self.settings@[b]]
                        i < b < j ==> self.settings@[i as int].name@ != self.settings@[b].name@,
                decreases n - j,
            {
                if str_eq_string(self.settings[i].name.as_str(), &self.settings[j].name) {
                    return false;
                }
                j = j + 1;
            }
            i = i + 1;
        }
        true
    }

    /// Checks the whole well-formedness invariant of content read back from
    /// a store file.
    pub fn wf_check(&self) -> (r: bool)
        ensures
            r == self.wf(),
    {
        self.databases_wf_check() && self.schemas_wf_check() && self.roles_wf_check()
            && self.compute_instances_wf_check() && self.items_wf_check()
            && self.system_gid_mapping_wf_check() && self.introspection_wf_check()
            && self.settings_wf_check() && self.user_next_gid <= 0x7fff_ffff_ffff_ffff
            && self.system_next_gid <= 0x7fff_ffff_ffff_ffff
    }
}

} // verus!
