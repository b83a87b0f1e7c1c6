//! The load operations: every read returns all rows of its entity in a
//! stable order — primary-key order for the id-keyed tables, stored order
//! for the composite-keyed ones — and the item listing joins items through
//! schemas to databases and orders user items by the numeric suffix of their
//! global identifier, so callers observe a deterministic replay order.

use vstd::prelude::*;

use crate::config::{local_config_text, ComputeInstanceConfig};
use crate::ids::{DatabaseId, GlobalId, SchemaId};
use crate::state::{CatalogState, ItemRow};

verus! {

/// The fully qualified name of one item: the database and schema it lives
/// under, and its own name.
#[derive(Debug, PartialEq, Eq)]
pub struct QualifiedObjectName {
    pub database_id: i64,
    pub schema_id: i64,
    pub item: String,
}

/// The sort key of the item listing: the numeric suffix of a user
/// identifier, below which every other identifier sorts (the stored
/// expression the listing orders by is absent for them).
pub open spec fn item_key(g: GlobalId) -> int {
    match g {
        GlobalId::User(n) => n as int,
        _ => -1,
    }
}

/// Whether the sort key of `a` is strictly below the sort key of `b`
/// (runtime check).
fn item_key_lt(a: &GlobalId, b: &GlobalId) -> (r: bool)
    ensures
        r == (item_key(*a) < item_key(*b)),
{
    match (a, b) {
        (GlobalId::User(x), GlobalId::User(y)) => *x < *y,
        (_, GlobalId::User(_)) => true,
        _ => false,
    }
}

impl CatalogState {
    // -----------------------------------------------------------------------
    // Plain table loads.
    // -----------------------------------------------------------------------

    /// Returns all databases in primary-key order.
    pub fn load_databases(&self) -> (r: Vec<(DatabaseId, String)>)
        ensures
            r@.len() == self.databases@.len(),
            forall|i: int|
                0 <= i < r@.len() ==> (#[trigger] r@[i]).0.0 == self.databases@[i].id && r@[i].1@
                    == self.databases@[i].name@,
    {
        let mut r: Vec<(DatabaseId, String)> = Vec::new();
        let n = self.databases.len();
        let mut i: usize = 0;
        while i < n
            invariant
                0 <= i <= n,
                n == self.databases@.len(),
                r@.len() == i,
                forall|k: int|
                    0 <= k < i ==> (#[trigger] r@[k]).0.0 == self.databases@[k].id && r@[k].1@
                        == self.databases@[k].name@,
            decreases n - i,
        {
            let row = &self.databases[i];
            r.push((DatabaseId(row.id), row.name.clone()));
            i = i + 1;
        }
        r
    }

    /// The database reference the schema listing reports for one schema row:
    /// the referenced database when it exists, and nothing otherwise (the
    /// listing joins schemas to databases with an outer join).
    pub open spec fn schema_database_view(self, k: int) -> Option<i64> {
        match self.schemas@[k].database_id {
            Some(d) => if self.has_database_id(d as int) {
                Some(d)
            } else {
                None
            },
            None => None,
        }
    }

    /// Returns all schemas in primary-key order, each with the database it
    /// resolves to.
    pub fn load_schemas(&self) -> (r: Vec<(SchemaId, String, Option<DatabaseId>)>)
        ensures
            r@.len() == self.schemas@.len(),
            forall|i: int|
                0 <= i < r@.len() ==> (#[trigger] r@[i]).0.0 == self.schemas@[i].id && r@[i].1@
                    == self.schemas@[i].name@ && (match r@[i].2 {
                    Some(d) => self.schema_database_view(i) == Some(d.0),
                    None => self.schema_database_view(i) is None,
                }),
    {
        let mut r: Vec<(SchemaId, String, Option<DatabaseId>)> = Vec::new();
        let n = self.schemas.len();
        let mut i: usize = 0;
        while i < n
            invariant
                0 <= i <= n,
                n == self.schemas@.len(),
                r@.len() == i,
                forall|k: int|
                    0 <= k < i ==> (#[trigger] r@[k]).0.0 == self.schemas@[k].id && r@[k].1@
                        == self.schemas@[k].name@ && (match r@[k].2 {
                        Some(d) => self.schema_database_view(k) == Some(d.0),
                        None => self.schema_database_view(k) is None,
                    }),
            decreases n - i,
        {
            let row = &self.schemas[i];
            let resolved: Option<DatabaseId> = match row.database_id {
                Some(d) => match self.find_database_index(d) {
                    Some(_) => Some(DatabaseId(d)),
                    None => None,
                },
                None => None,
            };
            proof {
                match row.database_id {
                    Some(d) => {
                        if self.has_database_id(d as int) {
                            assert(self.schema_database_view(i as int) == Some(d));
                        }
                    }
                    None => {}
                }
            }
            r.push((SchemaId(row.id), row.name.clone(), resolved));
            i = i + 1;
        }
        r
    }

    /// Returns all roles in primary-key order.
    pub fn load_roles(&self) -> (r: Vec<(i64, String)>)
        ensures
            r@.len() == self.roles@.len(),
            forall|i: int|
                0 <= i < r@.len() ==> (#[trigger] r@[i]).0 == self.roles@[i].id && r@[i].1@
                    == self.roles@[i].name@,
    {
        let mut r: Vec<(i64, String)> = Vec::new();
        let n = self.roles.len();
        let mut i: usize = 0;
        while i < n
            invariant
                0 <= i <= n,
                n == self.roles@.len(),
                r@.len() == i,
                forall|k: int|
                    0 <= k < i ==> (#[trigger] r@[k]).0 == self.roles@[k].id && r@[k].1@
                        == self.roles@[k].name@,
            decreases n - i,
        {
            let row = &self.roles[i];
            r.push((row.id, row.name.clone()));
            i = i + 1;
        }
        r
    }

    /// Returns all compute instances in primary-key order, each with its
    /// decoded configuration (an absent column reads as the local default).
    pub fn load_compute_instances(&self) -> (r: Vec<(i64, String, ComputeInstanceConfig)>)
        ensures
            r@.len() == self.compute_instances@.len(),
            forall|i: int|
                0 <= i < r@.len() ==> (#[trigger] r@[i]).0 == self.compute_instances@[i].id
                    && r@[i].1@ == self.compute_instances@[i].name@ && (match self.compute_instances@[i].config {
                    None => r@[i].2 is Local,
                    Some(s) => if s@ == local_config_text() {
                        r@[i].2 is Local
                    } else {
                        r@[i].2 matches ComputeInstanceConfig::Custom(c) && c@ == s@
                    },
                }),
    {
        let mut r: Vec<(i64, String, ComputeInstanceConfig)> = Vec::new();
        let n = self.compute_instances.len();
        let mut i: usize = 0;
        while i < n
            invariant
                0 <= i <= n,
                n == self.compute_instances@.len(),
                r@.len() == i,
                forall|k: int|
                    0 <= k < i ==> (#[trigger] r@[k]).0 == self.compute_instances@[k].id
                        && r@[k].1@ == self.compute_instances@[k].name@ && (match self.compute_instances@[k].config {
                        None => r@[k].2 is Local,
                        Some(s) => if s@ == local_config_text() {
                            r@[k].2 is Local
                        } else {
                            r@[k].2 matches ComputeInstanceConfig::Custom(c) && c@ == s@
                        },
                    }),
            decreases n - i,
        {
            let row = &self.compute_instances[i];
            let config = ComputeInstanceConfig::decode(row.config.as_ref());
            r.push((row.id, row.name.clone(), config));
            i = i + 1;
        }
        r
    }

    /// Returns the persisted mapping of built-in objects to their stable
    /// identifiers, in stored order.
    pub fn load_system_gids(&self) -> (r: Vec<(String, String, GlobalId, u64)>)
        ensures
            r@.len() == self.system_gid_mapping@.len(),
            forall|i: int|
                0 <= i < r@.len() ==> (#[trigger] r@[i]).0@ == self.system_gid_mapping@[i].schema_name@
                    && r@[i].1@ == self.system_gid_mapping@[i].object_name@ && r@[i].2
                    == GlobalId::System(self.system_gid_mapping@[i].id) && r@[i].3
                    == self.system_gid_mapping@[i].fingerprint,
    {
        let mut r: Vec<(String, String, GlobalId, u64)> = Vec::new();
        let n = self.system_gid_mapping.len();
        let mut i: usize = 0;
        while i < n
            invariant
                0 <= i <= n,
                n == self.system_gid_mapping@.len(),
                r@.len() == i,
                forall|k: int|
                    0 <= k < i ==> (#[trigger] r@[k]).0@
                        == self.system_gid_mapping@[k].schema_name@ && r@[k].1@
                        == self.system_gid_mapping@[k].object_name@ && r@[k].2 == GlobalId::System(
                        self.system_gid_mapping@[k].id,
                    ) && r@[k].3 == self.system_gid_mapping@[k].fingerprint,
            decreases n - i,
        {
            let row = &self.system_gid_mapping[i];
            r.push(
                (
                    row.schema_name.clone(),
                    row.object_name.clone(),
                    GlobalId::System(row.id),
                    row.fingerprint,
                ),
            );
            i = i + 1;
        }
        r
    }

    /// Returns the introspection-source indexes of one compute instance, in
    /// stored order.
    pub fn load_introspection_source_index_gids(&self, compute_id: i64) -> (r: Vec<
        (String, GlobalId),
    >)
        ensures
            ({
                let rows = self.introspection_sources@.filter(
                    |row: crate::state::IntrospectionRow| row.compute_id == compute_id,
                );
                &&& r@.len() == rows.len()
                &&& forall|i: int|
                    0 <= i < r@.len() ==> (#[trigger] r@[i]).0@ == rows[i].name@ && r@[i].1
                        == GlobalId::System(rows[i].index_id)
            }),
    {
        let ghost pred = |row: crate::state::IntrospectionRow| row.compute_id == compute_id;
        let mut r: Vec<(String, GlobalId)> = Vec::new();
        let n = self.introspection_sources.len();
        let mut i: usize = 0;
        while i < n
            invariant
                0 <= i <= n,
                n == self.introspection_sources@.len(),
                pred == (|row: crate::state::IntrospectionRow| row.compute_id == compute_id),
                ({
                    let rows = self.introspection_sources@.subrange(0, i as int).filter(pred);
                    &&& r@.len() == rows.len()
                    &&& forall|k: int|
                        0 <= k < r@.len() ==> (#[trigger] r@[k]).0@ == rows[k].name@ && r@[k].1
                            == GlobalId::System(rows[k].index_id)
                }),
            decreases n - i,
        {
            let row = &self.introspection_sources[i];
            proof {
                reveal(Seq::filter);
                let pre = self.introspection_sources@.subrange(0, i as int);
                let ext = self.introspection_sources@.subrange(0, i + 1 as int);
                assert(ext.drop_last() =~= pre);
                assert(ext.last() == self.introspection_sources@[i as int]);
                if pred(self.introspection_sources@[i as int]) {
                    assert(ext.filter(pred) =~= pre.filter(pred).push(ext.last()));
                } else {
                    assert(ext.filter(pred) =~= pre.filter(pred));
                }
            }
            if row.compute_id == compute_id {
                r.push((row.name.clone(), GlobalId::System(row.index_id)));
            }
            i = i + 1;
        }
        proof {
            assert(self.introspection_sources@.subrange(0, n as int)
                =~= self.introspection_sources@);
        }
        r
    }

    // -----------------------------------------------------------------------
    // The item listing.
    // -----------------------------------------------------------------------

    /// The index of the schema row with this id.
    pub open spec fn schema_index_by_id(self, id: int) -> int {
        choose|i: int| 0 <= i < self.schemas@.len() && #[trigger] self.schemas@[i].id == id
    }

    /// Whether an item row survives the listing's joins: its schema exists
    /// and that schema belongs to an existing database.
    pub open spec fn included_item(self, row: ItemRow) -> bool {
        &&& self.has_schema_id(row.schema_id as int)
        &&& self.schemas@[self.schema_index_by_id(row.schema_id as int)].database_id matches Some(
            d,
        ) && self.has_database_id(d as int)
    }

    /// The database the listing reports for an included item.
    pub open spec fn item_database_of(self, row: ItemRow) -> i64 {
        self.schemas@[self.schema_index_by_id(row.schema_id as int)].database_id->0
    }

    /// Whether one listing entry faithfully reports some included item row.
    pub open spec fn loaded_matches(self, t: (GlobalId, QualifiedObjectName, Vec<u8>)) -> bool {
        exists|i: int|
            0 <= i < self.items@.len() && (#[trigger] self.items@[i]).gid == t.0
                && self.included_item(self.items@[i]) && t.1.database_id == self.item_database_of(
                self.items@[i],
            ) && t.1.schema_id == self.items@[i].schema_id && t.1.item@ == self.items@[i].name@
                && t.2@ == self.items@[i].definition@
    }

    /// Whether some schema row carries this id (runtime check), and at which
    /// index.
    pub fn find_schema_by_id(&self, id: i64) -> (r: Option<usize>)
        ensures
            r matches Some(i) ==> i < self.schemas@.len() && self.schemas@[i as int].id == id,
            r is None ==> !self.has_schema_id(id as int),
    {
        let n = self.schemas.len();
        let mut i: usize = 0;
        while i < n
            invariant
                0 <= i <= n,
                n == self.schemas@.len(),
                forall|k: int| 0 <= k < i ==> (#[trigger] self.schemas@[k]).id != id,
            decreases n - i,
        {
            if self.schemas[i].id == id {
                return Some(i);
            }
            i = i + 1;
        }
        None
    }

    /// Every included item appears in the listing: the completeness half of
    /// the listing's contract.
    pub open spec fn listing_complete(
        self,
        v: Seq<(GlobalId, QualifiedObjectName, Vec<u8>)>,
    ) -> bool {
        forall|i: int|
            0 <= i < self.items@.len() && self.included_item(#[trigger] self.items@[i])
                ==> exists|k: int| 0 <= k < v.len() && (#[trigger] v[k]).0 == self.items@[i].gid
    }

    /// Returns every item that resolves through an existing schema to an
    /// existing database — exactly once each — with user items in ascending
    /// order of the numeric suffix of their identifier.
    #[verifier::rlimit(60)]
    pub fn load_items(&self) -> (r: Vec<(GlobalId, QualifiedObjectName, Vec<u8>)>)
        requires
            self.wf(),
        ensures
            forall|k: int| 0 <= k < r@.len() ==> self.loaded_matches(#[trigger] r@[k]),
            self.listing_complete(r@),
            forall|k: int, l: int|
                0 <= k < l < r@.len() ==> (#[trigger] r@[k]).0 != (#[trigger] r@[l]).0,
            forall|k: int, l: int|
                0 <= k < l < r@.len() ==> item_key((#[trigger] r@[k]).0) <= item_key(
                    (#[trigger] r@[l]).0,
                ),
    {
        // The join: collect the entries that resolve, in stored order.
        let mut joined: Vec<(GlobalId, QualifiedObjectName, Vec<u8>)> = Vec::new();
        let n = self.items.len();
        let mut i: usize = 0;
        while i < n
            invariant
                0 <= i <= n,
                n == self.items@.len(),
                self.wf(),
                forall|k: int| 0 <= k < joined@.len() ==> self.loaded_matches(#[trigger] joined@[k]),
                forall|j: int|
                    0 <= j < i && self.included_item(#[trigger] self.items@[j]) ==> exists|k: int|
                        0 <= k < joined@.len() && (#[trigger] joined@[k]).0 == self.items@[j].gid,
                forall|k: int|
                    0 <= k < joined@.len() ==> exists|j: int|
                        0 <= j < i && (#[trigger] joined@[k]).0 == self.items@[j].gid,
                forall|k: int, l: int|
                    0 <= k < l < joined@.len() ==> (#[trigger] joined@[k]).0
                        != (#[trigger] joined@[l]).0,
            decreases n - i,
        {
            let row = &self.items[i];
            let mut resolved: Option<i64> = None;
            match self.find_schema_by_id(row.schema_id) {
                Some(si) => {
                    proof {
                        assert(self.has_schema_id(row.schema_id as int));
                        let ci = self.schema_index_by_id(row.schema_id as int);
                        assert(0 <= ci < self.schemas@.len() && self.schemas@[ci].id
                            == row.schema_id);
                        assert(ci == si as int);
                    }
                    match self.schemas[si].database_id {
                        Some(d) => {
                            match self.find_database_index(d) {
                                Some(_) => {
                                    resolved = Some(d);
                                }
                                None => {}
                            }
                        }
                        None => {}
                    }
                }
                None => {}
            }
            match resolved {
                Some(d) => {
                    proof {
                        assert(self.included_item(self.items@[i as int]));
                        assert(self.item_database_of(self.items@[i as int]) == d);
                    }
                    let entry = (
                        row.gid,
                        QualifiedObjectName {
                            database_id: d,
                            schema_id: row.schema_id,
                            item: row.name.clone(),
                        },
                        clone_bytes(&row.definition),
                    );
                    let ghost jprev = joined@;
                    joined.push(entry);
                    proof {
                        let m = joined@.len() - 1;
                        assert(self.items@[i as int].gid == joined@[m].0);
                        assert(self.loaded_matches(joined@[m]));
                        assert forall|k: int, l: int|
                            0 <= k < l < joined@.len() implies (#[trigger] joined@[k]).0
                            != (#[trigger] joined@[l]).0 by {
                            if l == m {
                                assert(joined@[k] == jprev[k]);
                                let j = choose|j: int|
                                    0 <= j < i && (#[trigger] jprev[k]).0 == self.items@[j].gid;
                                assert(self.items@[j].gid != self.items@[i as int].gid);
                            } else {
                                assert(joined@[k] == jprev[k] && joined@[l] == jprev[l]);
                            }
                        }
                        assert forall|j: int|
                            0 <= j < i + 1 && self.included_item(
                                #[trigger] self.items@[j],
                            ) implies exists|k: int|
                            0 <= k < joined@.len() && (#[trigger] joined@[k]).0
                                == self.items@[j].gid by {
                            if j < i {
                                let k = choose|k: int|
                                    0 <= k < jprev.len() && (#[trigger] jprev[k]).0
                                        == self.items@[j].gid;
                                assert(joined@[k].0 == self.items@[j].gid);
                            } else {
                                assert(joined@[m].0 == self.items@[j].gid);
                            }
                        }
                        assert forall|k: int|
                            0 <= k < joined@.len() implies exists|j: int|
                            0 <= j < i + 1 && (#[trigger] joined@[k]).0
                                == self.items@[j].gid by {
                            if k < m {
                                assert(joined@[k] == jprev[k]);
                                let j = choose|j: int|
                                    0 <= j < i && (#[trigger] jprev[k]).0 == self.items@[j].gid;
                                assert(joined@[k].0 == self.items@[j].gid);
                            } else {
                                assert(joined@[k].0 == self.items@[i as int].gid);
                            }
                        }
                    }
                }
                None => {
                    proof {
                        assert(!self.included_item(self.items@[i as int]));
                    }
                }
            }
            i = i + 1;
        }
        // The ordering: insertion sort by the listing key.
        let mut out: Vec<(GlobalId, QualifiedObjectName, Vec<u8>)> = Vec::new();
        while joined.len() > 0
            invariant
                self.wf(),
                forall|k: int| 0 <= k < out@.len() ==> self.loaded_matches(#[trigger] out@[k]),
                forall|k: int| 0 <= k < joined@.len() ==> self.loaded_matches(#[trigger] joined@[k]),
                forall|j: int|
                    0 <= j < self.items@.len() && self.included_item(#[trigger] self.items@[j])
                        ==> (exists|k: int|
                        0 <= k < out@.len() && (#[trigger] out@[k]).0 == self.items@[j].gid)
                        || (exists|k: int|
                        0 <= k < joined@.len() && (#[trigger] joined@[k]).0
                            == self.items@[j].gid),
                forall|k: int, l: int|
                    0 <= k < l < out@.len() ==> (#[trigger] out@[k]).0 != (#[trigger] out@[l]).0,
                forall|k: int, l: int|
                    0 <= k < l < joined@.len() ==> (#[trigger] joined@[k]).0
                        != (#[trigger] joined@[l]).0,
                forall|k: int, l: int|
                    0 <= k < out@.len() && 0 <= l < joined@.len() ==> (#[trigger] out@[k]).0 != (
                    #[trigger] joined@[l]).0,
                forall|k: int, l: int|
                    0 <= k < l < out@.len() ==> item_key((#[trigger] out@[k]).0) <= item_key(
                        (#[trigger] out@[l]).0,
                    ),
            decreases joined@.len(),
        {
            let ghost head = joined@;
            let t = match joined.pop() {
                Some(t) => t,
                None => vstd::pervasive::unreached(),
            };
            let ghost popped = joined@;
            proof {
                assert(head =~= popped.push(t));
            }
            let mut p: usize = out.len();
            while p > 0 && item_key_lt(&t.0, &out[p - 1].0)
                invariant
                    0 <= p <= out@.len(),
                    forall|q: int|
                        p <= q < out@.len() ==> item_key(t.0) < item_key(
                            (#[trigger] out@[q]).0,
                        ),
                    forall|k: int, l: int|
                        0 <= k < l < out@.len() ==> item_key((#[trigger] out@[k]).0) <= item_key(
                            (#[trigger] out@[l]).0,
                        ),
                decreases p,
            {
                p = p - 1;
            }
            proof {
                if p > 0 {
                    assert(item_key(out@[p - 1].0) <= item_key(t.0));
                }
            }
            let ghost prev = out@;
            let ghost pos = p as int;
            out.insert(p, t);
            proof {
                prev.insert_ensures(pos, t);
                let newv = out@;
                assert(newv.len() == prev.len() + 1);
                // Every entry of the grown output is an old entry or the
                // moved one, so the per-entry properties carry over.
                assert forall|k: int| 0 <= k < newv.len() implies self.loaded_matches(
                    #[trigger] newv[k],
                ) by {
                    if k < pos {
                        assert(newv[k] == prev[k]);
                    } else if k == pos {
                        assert(newv[k] == t);
                    } else {
                        assert(newv[k] == prev[k - 1]);
                    }
                }
                assert forall|k: int, l: int| 0 <= k < l < newv.len() implies (
                #[trigger] newv[k]).0 != (#[trigger] newv[l]).0 by {
                    let a = if k < pos {
                        prev[k]
                    } else if k == pos {
                        t
                    } else {
                        prev[k - 1]
                    };
                    let b = if l < pos {
                        prev[l]
                    } else if l == pos {
                        t
                    } else {
                        prev[l - 1]
                    };
                    assert(newv[k] == a && newv[l] == b);
                    if k == pos {
                        assert(b == prev[l - 1]);
                    }
                    if l == pos {
                        assert(a == prev[k]);
                    }
                }
                assert forall|k: int, l: int| 0 <= k < l < newv.len() implies item_key(
                    (#[trigger] newv[k]).0,
                ) <= item_key((#[trigger] newv[l]).0) by {
                    let a = if k < pos {
                        prev[k]
                    } else if k == pos {
                        t
                    } else {
                        prev[k - 1]
                    };
                    let b = if l < pos {
                        prev[l]
                    } else if l == pos {
                        t
                    } else {
                        prev[l - 1]
                    };
                    assert(newv[k] == a && newv[l] == b);
                    if k == pos && l > pos {
                        assert(item_key(t.0) < item_key(prev[l - 1].0));
                    }
                    if l == pos && k < pos {
                        assert(item_key(prev[k].0) <= item_key(t.0));
                    }
                }
                // The moved entry accounts for its own identifier; the rest
                // stay accounted for.
                assert forall|j: int|
                    0 <= j < self.items@.len() && self.included_item(
                        #[trigger] self.items@[j],
                    ) implies (exists|k: int|
                    0 <= k < newv.len() && (#[trigger] newv[k]).0 == self.items@[j].gid) || (
                exists|k: int|
                    0 <= k < popped.len() && (#[trigger] popped[k]).0
                        == self.items@[j].gid) by {
                    let gid = self.items@[j].gid;
                    if exists|k: int|
                        0 <= k < prev.len() && (#[trigger] prev[k]).0 == gid {
                        let k = choose|k: int|
                            0 <= k < prev.len() && (#[trigger] prev[k]).0 == gid;
                        if k < pos {
                            assert(newv[k].0 == gid);
                        } else {
                            assert(newv[k + 1].0 == gid);
                        }
                    } else if t.0 == gid {
                        assert(newv[pos].0 == gid);
                    } else {
                        let k = choose|k: int|
                            0 <= k < head.len() && (#[trigger] head[k]).0 == gid;
                        assert(head[k].0 == gid);
                        assert(k < popped.len());
                        assert(popped[k].0 == gid);
                    }
                }
                assert forall|k: int, l: int|
                    0 <= k < newv.len() && 0 <= l < popped.len() implies (#[trigger] newv[k]).0
                    != (#[trigger] popped[l]).0 by {
                    let a = if k < pos {
                        prev[k]
                    } else if k == pos {
                        t
                    } else {
                        prev[k - 1]
                    };
                    assert(newv[k] == a);
                    if k == pos {
                        assert(head[popped.len() as int] == t);
                        assert(head[l] == popped[l]);
                    }
                }
            }
        }
        proof {
            assert forall|i: int|
                0 <= i < self.items@.len() && self.included_item(
                    #[trigger] self.items@[i],
                ) implies exists|k: int|
                0 <= k < out@.len() && (#[trigger] out@[k]).0 == self.items@[i].gid by {}
            assert(self.listing_complete(out@));
        }
        out
    }
}

/// A copy of a byte vector.
pub(crate) fn clone_bytes(b: &Vec<u8>) -> (r: Vec<u8>)
    ensures
        r@ == b@,
{
    let mut r: Vec<u8> = Vec::new();
    let n = b.len();
    let mut i: usize = 0;
    while i < n
        invariant
            0 <= i <= n,
            n == b@.len(),
            r@ == b@.subrange(0, i as int),
        decreases n - i,
    {
        r.push(b[i]);
        proof {
            assert(r@ =~= b@.subrange(0, i + 1 as int));
        }
        i = i + 1;
    }
    proof {
        assert(b@.subrange(0, n as int) =~= b@);
    }
    r
}

} // verus!
