//! The migration engine: an append-only ordered list of schema-evolution
//! steps, applied strictly in order, each recording its index in the
//! schema-version header. Two historical steps destroy and recreate the
//! timestamps table (acceptable only because no consistency promise had yet
//! been made when they shipped); one replays that table into the external
//! stash. Released steps are never removed or reordered; later fixes can
//! only be layered as new steps.

use vstd::prelude::*;

use crate::error::Error;
use crate::model::{
    compute_instances_view, databases_view, introspection_view, items_view, mapping_view,
    model_next_schema_id, roles_view, schemas_view, settings_view, timestamps_view, StoreModel,
};
use crate::seed::{builtin_seed, builtin_mappings, seed_entries_view};
use crate::stash::{
    exports_correct, replay_ok, replay_timestamp_bindings, TimestampBindingExport,
};
use crate::state::{CatalogState, ComputeInstanceRow, DatabaseRow, RoleRow, SchemaRow};

verus! {

/// The index of the last migration: the schema version of a fully migrated
/// store.
pub const LAST_MIGRATION: u32 = 11;

// ---------------------------------------------------------------------------
// The model of each step's effect.
// ---------------------------------------------------------------------------

/// Replaces the first row carrying an entry's composite key, or appends the
/// entry: the model of the mapping table's insert-or-replace.
pub open spec fn model_upsert(
    rows: Seq<(Seq<char>, Seq<char>, int, int)>,
    e: (Seq<char>, Seq<char>, int, int),
) -> Seq<(Seq<char>, Seq<char>, int, int)>
    decreases rows.len(),
{
    if rows.len() == 0 {
        seq![e]
    } else if rows[0].0 == e.0 && rows[0].1 == e.1 {
        seq![e] + rows.drop_first()
    } else {
        seq![rows[0]] + model_upsert(rows.drop_first(), e)
    }
}

/// Upserts a run of entries in order.
pub open spec fn seed_fold(
    rows: Seq<(Seq<char>, Seq<char>, int, int)>,
    entries: Seq<(Seq<char>, Seq<char>, int, int)>,
) -> Seq<(Seq<char>, Seq<char>, int, int)>
    decreases entries.len(),
{
    if entries.len() == 0 {
        rows
    } else {
        seed_fold(model_upsert(rows, entries[0]), entries.drop_first())
    }
}

/// The effect of one migration step on the store's content. Every step also
/// records its own index as the schema version.
pub open spec fn migration_model(m: StoreModel, idx: int) -> StoreModel {
    let v = StoreModel { version: idx, ..m };
    if idx == 0 {
        // The baseline schema, with its seeded database, schemas and
        // allocator origin.
        StoreModel {
            user_next: 1,
            databases: seq![(1int, "materialize"@)],
            schemas: seq![
                (1int, None, "mz_catalog"@),
                (2int, None, "pg_catalog"@),
                (3int, Some(1int), "public"@),
            ],
            items: Seq::empty(),
            timestamps: Seq::empty(),
            ..v
        }
    } else if idx == 1 {
        // Destroys and recreates the timestamps table for multi-partition
        // topics.
        StoreModel { timestamps: Seq::empty(), ..v }
    } else if idx == 2 {
        // Introduces the settings table.
        StoreModel { settings: Seq::empty(), ..v }
    } else if idx == 3 {
        // Introduces roles, seeding the default role.
        StoreModel { roles: seq![(1int, "materialize"@)], ..v }
    } else if idx == 4 {
        // Makes the internal schema literal.
        StoreModel {
            schemas: v.schemas.push((model_next_schema_id(v.schemas), None, "mz_internal"@)),
            ..v
        }
    } else if idx == 5 {
        // Destroys and recreates the timestamps table for replayable
        // bindings.
        StoreModel { timestamps: Seq::empty(), ..v }
    } else if idx == 6 {
        // Makes the information schema literal.
        StoreModel {
            schemas: v.schemas.push(
                (model_next_schema_id(v.schemas), None, "information_schema"@),
            ),
            ..v
        }
    } else if idx == 7 {
        // Adds an index over the timestamps table: no content change.
        v
    } else if idx == 8 {
        // Introduces compute instances, seeding the default instance.
        StoreModel { compute_instances: seq![(1int, "default"@, None)], ..v }
    } else if idx == 9 {
        // Adds the nullable config column: existing rows read as absent.
        v
    } else if idx == 10 {
        // Replays the timestamp bindings into the external stash, then
        // drops the table.
        StoreModel { timestamps: Seq::empty(), ..v }
    } else {
        // Splits the allocator into user and system namespaces and pins the
        // built-in object mapping.
        StoreModel {
            system_next: 5044,
            system_gid_mapping: seed_fold(Seq::empty(), builtin_seed()),
            introspection: Seq::empty(),
            ..v
        }
    }
}

/// The content after applying migrations `lo..=hi` in order.
pub open spec fn run_model(m: StoreModel, lo: int, hi: int) -> StoreModel
    decreases hi + 1 - lo,
{
    if lo > hi {
        m
    } else {
        run_model(migration_model(m, lo), lo + 1, hi)
    }
}

/// Splitting a migration run anywhere yields the same content: applying
/// `lo..=hi` equals applying `lo..=k`, then resuming with `k+1..=hi`.
pub proof fn lemma_run_split(m: StoreModel, lo: int, k: int, hi: int)
    requires
        lo <= k <= hi,
    ensures
        run_model(m, lo, hi) == run_model(run_model(m, lo, k), k + 1, hi),
    decreases k - lo,
{
    if lo == k {
        assert(run_model(m, lo, k) == run_model(migration_model(m, lo), lo + 1, lo));
    } else {
        lemma_run_split(migration_model(m, lo), lo + 1, k, hi);
    }
}

/// Law: for any migration indices i < j, applying `0..=j` to a store yields
/// the same content as applying `0..=i`, closing, and applying `i+1..=j` on
/// resumption — the engine can stop and resume at any released step.
pub proof fn lemma_migration_prefix_composition(m: StoreModel, i: int, j: int)
    requires
        0 <= i < j,
    ensures
        run_model(m, 0, j) == run_model(run_model(m, 0, i), i + 1, j),
{
    lemma_run_split(m, 0, i, j);
}

/// Whether one step can run on this state: the schema inserts need a free
/// primary key, and the replay needs every stored row to decode.
pub open spec fn migration_applicable(s: CatalogState, idx: int) -> bool {
    if idx == 4 || idx == 6 {
        s.can_assign_schema_id()
    } else if idx == 10 {
        replay_ok(timestamps_view(s.timestamps@))
    } else {
        true
    }
}

/// Whether one step can run, judged on the content alone.
pub open spec fn model_applicable(m: StoreModel, idx: int) -> bool {
    if idx == 4 || idx == 6 {
        model_next_schema_id(m.schemas) <= i64::MAX
    } else if idx == 10 {
        replay_ok(m.timestamps)
    } else {
        true
    }
}

/// Whether a whole run of steps goes through.
pub open spec fn run_ok(m: StoreModel, lo: int, hi: int) -> bool
    decreases hi + 1 - lo,
{
    if lo > hi {
        true
    } else {
        model_applicable(m, lo) && run_ok(migration_model(m, lo), lo + 1, hi)
    }
}

/// A successful run split anywhere is successful piecewise.
pub proof fn lemma_run_ok_split(m: StoreModel, lo: int, k: int, hi: int)
    requires
        lo <= k <= hi,
    ensures
        run_ok(m, lo, hi) <==> run_ok(m, lo, k) && run_ok(run_model(m, lo, k), k + 1, hi),
    decreases k - lo,
{
    if lo == k {
        assert(run_model(m, lo, k) == run_model(migration_model(m, lo), lo + 1, lo));
        assert(run_model(migration_model(m, lo), lo + 1, lo) == migration_model(m, lo));
        assert(run_ok(migration_model(m, lo), lo + 1, lo));
        assert(run_ok(m, lo, lo) == (model_applicable(m, lo) && run_ok(
            migration_model(m, lo),
            lo + 1,
            lo,
        )));
        assert(run_ok(m, lo, hi) == (model_applicable(m, lo) && run_ok(
            migration_model(m, lo),
            lo + 1,
            hi,
        )));
    } else {
        lemma_run_ok_split(migration_model(m, lo), lo + 1, k, hi);
    }
}

// ---------------------------------------------------------------------------
// Bridging the runtime upsert to the model upsert.
// ---------------------------------------------------------------------------

/// Appending an entry with a fresh key is what the model upsert does.
pub(crate) proof fn lemma_model_upsert_fresh(
    rows: Seq<(Seq<char>, Seq<char>, int, int)>,
    e: (Seq<char>, Seq<char>, int, int),
)
    requires
        forall|k: int| 0 <= k < rows.len() ==> !((#[trigger] rows[k]).0 == e.0 && rows[k].1 == e.1),
    ensures
        model_upsert(rows, e) == rows.push(e),
    decreases rows.len(),
{
    if rows.len() == 0 {
        assert(model_upsert(rows, e) =~= rows.push(e));
    } else {
        lemma_model_upsert_fresh(rows.drop_first(), e);
        assert(model_upsert(rows, e) =~= rows.push(e));
    }
}

/// Replacing the only row carrying the key is what the model upsert does.
pub(crate) proof fn lemma_model_upsert_at(
    rows: Seq<(Seq<char>, Seq<char>, int, int)>,
    e: (Seq<char>, Seq<char>, int, int),
    idx: int,
)
    requires
        0 <= idx < rows.len(),
        rows[idx].0 == e.0 && rows[idx].1 == e.1,
        forall|k: int| 0 <= k < idx ==> !((#[trigger] rows[k]).0 == e.0 && rows[k].1 == e.1),
    ensures
        model_upsert(rows, e) == rows.update(idx, e),
    decreases idx,
{
    if idx == 0 {
        assert(model_upsert(rows, e) =~= rows.update(0, e));
    } else {
        lemma_model_upsert_at(rows.drop_first(), e, idx - 1);
        assert(rows.drop_first().update(idx - 1, e) =~= rows.update(idx, e).drop_first());
        assert(model_upsert(rows, e) =~= rows.update(idx, e));
    }
}

/// Folding one more entry onto the end of a run.
pub(crate) proof fn lemma_seed_fold_snoc(
    rows: Seq<(Seq<char>, Seq<char>, int, int)>,
    entries: Seq<(Seq<char>, Seq<char>, int, int)>,
    e: (Seq<char>, Seq<char>, int, int),
)
    ensures
        seed_fold(rows, entries.push(e)) == model_upsert(seed_fold(rows, entries), e),
    decreases entries.len(),
{
    if entries.len() == 0 {
        assert(entries.push(e)[0] == e);
        assert(entries.push(e).drop_first() =~= entries);
        assert(seed_fold(rows, entries) == rows);
        assert(seed_fold(model_upsert(rows, e), entries) == model_upsert(rows, e));
    } else {
        assert(entries.push(e)[0] == entries[0]);
        assert(entries.push(e).drop_first() =~= entries.drop_first().push(e));
        assert(seed_fold(rows, entries.push(e)) == seed_fold(
            model_upsert(rows, entries[0]),
            entries.drop_first().push(e),
        ));
        lemma_seed_fold_snoc(model_upsert(rows, entries[0]), entries.drop_first(), e);
        assert(seed_fold(rows, entries) == seed_fold(
            model_upsert(rows, entries[0]),
            entries.drop_first(),
        ));
    }
}

// ---------------------------------------------------------------------------
// The engine.
// ---------------------------------------------------------------------------

impl CatalogState {
    /// Applies one migration step to the content: exactly the effect the
    /// step's statements have on the stored tables, plus recording the
    /// step's index as the schema version. The replay step additionally
    /// hands back the per-source export bundles; every other step returns
    /// none. On failure nothing changes.
    pub fn apply_migration(&mut self, idx: u32) -> (r: Result<Vec<TimestampBindingExport>, Error>)
        requires
            old(self).wf(),
            idx <= LAST_MIGRATION,
        ensures
            final(self).wf(),
            r is Ok <==> migration_applicable(*old(self), idx as int),
            r matches Ok(ex) ==> final(self).model() == migration_model(
                old(self).model(),
                idx as int,
            ) && (idx != 10 ==> ex@.len() == 0) && (idx == 10 ==> exports_correct(
                old(self).model().timestamps,
                ex@,
            )),
            r is Err ==> *final(self) == *old(self) && r->Err_0 is Storage,
    {
        let no_exports: Vec<TimestampBindingExport> = Vec::new();
        if idx == 0 {
            self.user_next_gid = 1;
            let mut databases: Vec<DatabaseRow> = Vec::new();
            databases.push(DatabaseRow { id: 1, name: String::from_str("materialize") });
            self.databases = databases;
            let mut schemas: Vec<SchemaRow> = Vec::new();
            schemas.push(
                SchemaRow { id: 1, database_id: None, name: String::from_str("mz_catalog") },
            );
            schemas.push(
                SchemaRow { id: 2, database_id: None, name: String::from_str("pg_catalog") },
            );
            schemas.push(
                SchemaRow { id: 3, database_id: Some(1), name: String::from_str("public") },
            );
            self.schemas = schemas;
            self.items = Vec::new();
            self.timestamps = Vec::new();
            self.version = 0;
            proof {
                assert(databases_view(self.databases@) =~= seq![(1int, "materialize"@)]);
                assert(schemas_view(self.schemas@) =~= seq![
                    (1int, None, "mz_catalog"@),
                    (2int, None, "pg_catalog"@),
                    (3int, Some(1int), "public"@),
                ]);
                assert(items_view(self.items@) =~= Seq::<
                    (crate::ids::GlobalId, int, Seq<char>, Seq<u8>),
                >::empty());
                assert(timestamps_view(self.timestamps@) =~= Seq::<
                    (Seq<u8>, Seq<char>, int, int),
                >::empty());
                assert(self.model() =~= migration_model(old(self).model(), 0));
            }
            Ok(no_exports)
        } else if idx == 1 || idx == 5 {
            self.timestamps = Vec::new();
            self.version = idx;
            proof {
                assert(timestamps_view(self.timestamps@) =~= Seq::<
                    (Seq<u8>, Seq<char>, int, int),
                >::empty());
                assert(self.model() =~= migration_model(old(self).model(), idx as int));
            }
            Ok(no_exports)
        } else if idx == 2 {
            self.settings = Vec::new();
            self.version = 2;
            proof {
                assert(settings_view(self.settings@) =~= Seq::<(Seq<char>, Seq<char>)>::empty());
                assert(self.model() =~= migration_model(old(self).model(), 2));
            }
            Ok(no_exports)
        } else if idx == 3 {
            let mut roles: Vec<RoleRow> = Vec::new();
            roles.push(RoleRow { id: 1, name: String::from_str("materialize") });
            self.roles = roles;
            self.version = 3;
            proof {
                assert(roles_view(self.roles@) =~= seq![(1int, "materialize"@)]);
                assert(self.model() =~= migration_model(old(self).model(), 3));
            }
            Ok(no_exports)
        } else if idx == 4 || idx == 6 {
            let name = if idx == 4 {
                "mz_internal"
            } else {
                "information_schema"
            };
            match self.insert_detached_schema(name) {
                Ok(_) => {
                    self.version = idx;
                    proof {
                        let pre = schemas_view(old(self).schemas@);
                        assert(schemas_view(self.schemas@) =~= pre.push(
                            (model_next_schema_id(pre), None, name@),
                        ));
                        assert(self.model() =~= migration_model(old(self).model(), idx as int));
                    }
                    Ok(no_exports)
                }
                Err(e) => Err(e),
            }
        } else if idx == 7 || idx == 9 {
            self.version = idx;
            proof {
                assert(self.model() =~= migration_model(old(self).model(), idx as int));
            }
            Ok(no_exports)
        } else if idx == 8 {
            let mut instances: Vec<ComputeInstanceRow> = Vec::new();
            instances.push(
                ComputeInstanceRow { id: 1, name: String::from_str("default"), config: None },
            );
            self.compute_instances = instances;
            self.version = 8;
            proof {
                assert(compute_instances_view(self.compute_instances@) =~= seq![
                    (1int, "default"@, None),
                ]);
                assert(self.model() =~= migration_model(old(self).model(), 8));
            }
            Ok(no_exports)
        } else if idx == 10 {
            match replay_timestamp_bindings(&self.timestamps) {
                Ok(exports) => {
                    self.timestamps = Vec::new();
                    self.version = 10;
                    proof {
                        assert(timestamps_view(self.timestamps@) =~= Seq::<
                            (Seq<u8>, Seq<char>, int, int),
                        >::empty());
                        assert(self.model() =~= migration_model(old(self).model(), 10));
                    }
                    Ok(exports)
                }
                Err(e) => {
                    proof {
                        assert(!migration_applicable(*old(self), 10));
                    }
                    match e {
                        Error::Storage(m) => Err(Error::Storage(m)),
                        Error::Codec(m) => Err(Error::Storage(m)),
                        _ => Err(Error::Storage(String::from_str("timestamp replay failed"))),
                    }
                }
            }
        } else {
            self.system_next_gid = 5044;
            self.introspection_sources = Vec::new();
            self.system_gid_mapping = Vec::new();
            let ghost pre = *self;
            let entries = builtin_mappings();
            let ghost seedv = builtin_seed();
            let n = entries.len();
            proof {
                assert(seedv.take(0) =~= Seq::<(Seq<char>, Seq<char>, int, int)>::empty());
                assert(mapping_view(self.system_gid_mapping@) =~= Seq::<
                    (Seq<char>, Seq<char>, int, int),
                >::empty());
            }
            let mut k: usize = 0;
            while k < n
                invariant
                    0 <= k <= n,
                    n == entries@.len(),
                    seed_entries_view(entries@) == seedv,
                    self.wf(),
                    *self == (CatalogState {
                        system_gid_mapping: self.system_gid_mapping,
                        ..pre
                    }),
                    mapping_view(self.system_gid_mapping@) == seed_fold(
                        Seq::empty(),
                        seedv.take(k as int),
                    ),
                decreases n - k,
            {
                let e = entries[k];
                let ghost eview = (e.0@, e.1@, e.2 as int, e.3 as int);
                proof {
                    assert(seed_entries_view(entries@)[k as int] == eview);
                }
                let ghost before = mapping_view(self.system_gid_mapping@);
                let ghost braw = self.system_gid_mapping@;
                let ghost prestate = *self;
                self.upsert_system_mapping(e.0, e.1, e.2, e.3);
                proof {
                    let after = mapping_view(self.system_gid_mapping@);
                    assert(seedv.take(k + 1 as int) =~= seedv.take(k as int).push(eview));
                    lemma_seed_fold_snoc(
                        Seq::empty(),
                        seedv.take(k as int),
                        eview,
                    );
                    if prestate.has_system_mapping(e.0@, e.1@) {
                        let idx0 = prestate.system_mapping_index_of(e.0@, e.1@);
                        assert(0 <= idx0 < braw.len() && braw[idx0].schema_name@ == e.0@
                            && braw[idx0].object_name@ == e.1@);
                        assert(after =~= before.update(idx0, eview));
                        assert forall|j: int| 0 <= j < idx0 implies !((#[trigger] before[j]).0
                            == eview.0 && before[j].1 == eview.1) by {
                            assert(before[j].0 == braw[j].schema_name@ && before[j].1
                                == braw[j].object_name@);
                        }
                        lemma_model_upsert_at(before, eview, idx0);
                    } else {
                        assert(after =~= before.push(eview));
                        assert forall|j: int| 0 <= j < before.len() implies !((
                        #[trigger] before[j]).0 == eview.0 && before[j].1 == eview.1) by {
                            assert(before[j].0 == braw[j].schema_name@ && before[j].1
                                == braw[j].object_name@);
                        }
                        lemma_model_upsert_fresh(before, eview);
                    }
                }
                k = k + 1;
            }
            self.version = 11;
            proof {
                assert(seedv.take(n as int) =~= seedv);
                assert(introspection_view(self.introspection_sources@) =~= Seq::<
                    (int, Seq<char>, int),
                >::empty());
                assert(self.model() =~= migration_model(old(self).model(), 11));
            }
            Ok(no_exports)
        }
    }
}

impl CatalogState {
    /// Runs every migration strictly above the recorded schema version, in
    /// order, recording each index as it commits. A store at or past the
    /// last released step is left untouched. Returns the replay exports when
    /// the run crossed the replay step. On the first failing step the run
    /// stops with the store exactly as the preceding steps left it — at the
    /// last successfully applied version.
    pub fn migrate_to_latest(&mut self) -> (r: Result<Vec<TimestampBindingExport>, Error>)
        requires
            old(self).wf(),
        ensures
            final(self).wf(),
            ({
                let m0 = old(self).model();
                let start = old(self).version + 1;
                &&& (r is Ok <==> run_ok(m0, start as int, LAST_MIGRATION as int))
                &&& r matches Ok(ex) ==> final(self).model() == run_model(
                    m0,
                    start as int,
                    LAST_MIGRATION as int,
                ) && (if old(self).version < 10 {
                    exports_correct(run_model(m0, start as int, 9).timestamps, ex@)
                } else {
                    ex@.len() == 0
                })
                &&& r is Err ==> r->Err_0 is Storage
                &&& r is Err ==> exists|k: int|
                    {
                        &&& start <= k <= LAST_MIGRATION
                        &&& !#[trigger] model_applicable(
                            run_model(m0, start as int, k - 1),
                            k,
                        )
                        &&& run_ok(m0, start as int, k - 1)
                        &&& final(self).model() == run_model(m0, start as int, k - 1)
                        &&& k > start ==> final(self).model().version == k - 1
                    }
            }),
    {
        let ghost m0 = old(self).model();
        let start_version = self.version;
        if start_version >= LAST_MIGRATION {
            proof {
                assert(run_model(m0, start_version + 1, LAST_MIGRATION as int) == m0);
                assert(final(self).model() =~= m0);
            }
            return Ok(Vec::new());
        }
        let mut exports: Vec<TimestampBindingExport> = Vec::new();
        let mut i: u32 = start_version + 1;
        proof {
            assert(run_model(m0, start_version + 1, i - 1) == m0);
        }
        while i <= LAST_MIGRATION
            invariant
                m0 == old(self).model(),
                start_version == old(self).version,
                start_version < i <= LAST_MIGRATION + 1,
                self.wf(),
                self.model() == run_model(m0, start_version + 1, i - 1),
                i > start_version + 1 ==> self.model().version == i - 1,
                run_ok(m0, start_version + 1, i - 1),
                if start_version < 10 && i > 10 {
                    exports_correct(run_model(m0, start_version + 1, 9).timestamps, exports@)
                } else {
                    exports@.len() == 0
                },
            decreases LAST_MIGRATION + 1 - i,
        {
            let ghost mid = self.model();
            proof {
                // Runtime applicability coincides with model applicability.
                if i == 4 || i == 6 {
                    if self.schemas@.len() == 0 {
                    } else {
                        assert(crate::model::schemas_view(self.schemas@).last().0
                            == self.schemas@.last().id as int);
                    }
                }
                assert(migration_applicable(*self, i as int) == model_applicable(mid, i as int));
            }
            let step = match self.apply_migration(i) {
                Ok(ex) => ex,
                Err(e) => {
                    proof {
                        assert(!model_applicable(mid, i as int));
                        assert(!run_ok(mid, i as int, LAST_MIGRATION as int));
                        if i == start_version + 1 {
                            assert(mid == m0);
                        } else {
                            lemma_run_ok_split(
                                m0,
                                start_version + 1,
                                i - 1,
                                LAST_MIGRATION as int,
                            );
                        }
                        assert(!run_ok(m0, start_version + 1, LAST_MIGRATION as int));
                        // The failing index witnesses the failure-state
                        // clause: the store stands at the run up to it.
                        assert(!model_applicable(
                            run_model(m0, start_version + 1, i - 1),
                            i as int,
                        ));
                        if i > start_version + 1 {
                            assert(run_model(m0, start_version + 1, i - 1).version == i - 1);
                        }
                    }
                    return Err(e);
                }
            };
            proof {
                assert(run_model(migration_model(mid, i as int), i + 1, i as int)
                    == migration_model(mid, i as int));
                assert(run_model(mid, i as int, i as int) == migration_model(mid, i as int));
                assert(run_ok(migration_model(mid, i as int), i + 1, i as int));
                assert(run_ok(mid, i as int, i as int) == model_applicable(mid, i as int));
                if i == start_version + 1 {
                    assert(mid == m0);
                    assert(run_model(m0, start_version + 1, i as int) == run_model(
                        migration_model(m0, i as int),
                        i + 1,
                        i as int,
                    ));
                    assert(run_ok(m0, start_version + 1, i as int) == (model_applicable(
                        m0,
                        i as int,
                    ) && run_ok(migration_model(m0, i as int), i + 1, i as int)));
                } else {
                    lemma_run_split(m0, start_version + 1, i - 1, i as int);
                    lemma_run_ok_split(m0, start_version + 1, i - 1, i as int);
                }
                assert(run_ok(m0, start_version + 1, i as int));
            }
            if i == 10 {
                let ghost stepv = step@;
                let mut step_exports = step;
                exports.append(&mut step_exports);
                proof {
                    assert(exports@ =~= stepv);
                }
            } else {
                proof {
                    assert(step@.len() == 0);
                }
            }
            i = i + 1;
        }
        proof {
            lemma_run_ok_split(m0, start_version + 1, LAST_MIGRATION as int, LAST_MIGRATION as int);
        }
        Ok(exports)
    }
}

/// The statement batch of one migration step, exactly as released: what the
/// durable mirror executes at this index. The replay step's batch is the
/// final drop of the table it replays; its reads and the stash writes happen
/// through the export bundles.
pub fn migration_sql(idx: u32) -> &'static str
    requires
        idx <= LAST_MIGRATION,
{
    if idx == 0 {
        "CREATE TABLE gid_alloc (
         next_gid integer NOT NULL
     );

     CREATE TABLE databases (
         id   integer PRIMARY KEY,
         name text NOT NULL UNIQUE
     );

     CREATE TABLE schemas (
         id          integer PRIMARY KEY,
         database_id integer REFERENCES databases,
         name        text NOT NULL,
         UNIQUE (database_id, name)
     );

     CREATE TABLE items (
         gid        blob PRIMARY KEY,
         schema_id  integer REFERENCES schemas,
         name       text NOT NULL,
         definition blob NOT NULL,
         UNIQUE (schema_id, name)
     );

     CREATE TABLE timestamps (
         sid blob NOT NULL,
         vid blob NOT NULL,
         timestamp integer NOT NULL,
         offset blob NOT NULL,
         PRIMARY KEY (sid, vid, timestamp)
     );

     INSERT INTO gid_alloc VALUES (1);
     INSERT INTO databases VALUES (1, 'materialize');
     INSERT INTO schemas VALUES
         (1, NULL, 'mz_catalog'),
         (2, NULL, 'pg_catalog'),
         (3, 1, 'public');"
    } else if idx == 1 {
        "DROP TABLE timestamps;
     CREATE TABLE timestamps (
        sid blob NOT NULL,
        vid blob NOT NULL,
        pcount blob NOT NULL,
        pid blob NOT NULL,
        timestamp integer NOT NULL,
        offset blob NOT NULL,
        PRIMARY KEY (sid, vid, pid, timestamp)
    );"
    } else if idx == 2 {
        "CREATE TABLE settings (
        name TEXT PRIMARY KEY,
        value TEXT
    );"
    } else if idx == 3 {
        "CREATE TABLE roles (
        id   integer PRIMARY KEY,
        name text NOT NULL UNIQUE
    );
    INSERT INTO roles VALUES (1, 'materialize');"
    } else if idx == 4 {
        "INSERT INTO schemas (database_id, name) VALUES
        (NULL, 'mz_internal');"
    } else if idx == 5 {
        "DROP TABLE timestamps;
     CREATE TABLE timestamps (
        sid blob NOT NULL,
        pid blob NOT NULL,
        timestamp integer NOT NULL,
        offset blob NOT NULL,
        PRIMARY KEY (sid, pid, timestamp, offset)
    );"
    } else if idx == 6 {
        "INSERT INTO schemas (database_id, name) VALUES
        (NULL, 'information_schema');"
    } else if idx == 7 {
        "CREATE INDEX timestamps_sid_timestamp ON timestamps (sid, timestamp)"
    } else if idx == 8 {
        "CREATE TABLE compute_instances (
        id   integer PRIMARY KEY,
        name text NOT NULL UNIQUE
    );
    INSERT INTO compute_instances VALUES (1, 'default');"
    } else if idx == 9 {
        "ALTER TABLE compute_instances ADD COLUMN config text"
    } else if idx == 10 {
        "DROP TABLE timestamps;"
    } else {
        "ALTER TABLE gid_alloc RENAME TO user_gid_alloc;

    CREATE TABLE system_gid_alloc (
        next_gid integer NOT NULL
    );

    -- Higher than all previous statically assigned IDs
    INSERT INTO system_gid_alloc VALUES (5044);

    CREATE TABLE system_gid_mapping (
        schema_name text NOT NULL,
        object_name text NOT NULL,
        id integer NOT NULL,
        fingerprint integer NOT NULL,
        PRIMARY KEY (schema_name, object_name)
    );

    -- We need to insert previous static IDs in the mapping so user can successfully upgrade
    INSERT INTO system_gid_mapping (schema_name, object_name, id, fingerprint) VALUES
        -- Types
        ('pg_catalog', 'bool', 1000, 0),
        ('pg_catalog', 'bytea', 1001, 0),
        ('pg_catalog', 'int8', 1002, 0),
        ('pg_catalog', 'int4', 1003, 0),
        ('pg_catalog', 'text', 1004, 0),
        ('pg_catalog', 'oid', 1005, 0),
        ('pg_catalog', 'float4', 1006, 0),
        ('pg_catalog', 'float8', 1007, 0),
        ('pg_catalog', '_bool', 1008, 0),
        ('pg_catalog', '_bytea', 1009, 0),
        ('pg_catalog', '_int4', 1010, 0),
        ('pg_catalog', '_text', 1011, 0),
        ('pg_catalog', '_int8', 1012, 0),
        ('pg_catalog', '_float4', 1013, 0),
        ('pg_catalog', '_float8', 1014, 0),
        ('pg_catalog', '_oid', 1015, 0),
        ('pg_catalog', 'date', 1016, 0),
        ('pg_catalog', 'time', 1017, 0),
        ('pg_catalog', 'timestamp', 1018, 0),
        ('pg_catalog', '_timestamp', 1019, 0),
        ('pg_catalog', '_date', 1020, 0),
        ('pg_catalog', '_time', 1021, 0),
        ('pg_catalog', 'timestamptz', 1022, 0),
        ('pg_catalog', '_timestamptz', 1023, 0),
        ('pg_catalog', 'interval', 1024, 0),
        ('pg_catalog', '_interval', 1025, 0),
        ('pg_catalog', 'numeric', 1026, 0),
        ('pg_catalog', '_numeric', 1027, 0),
        ('pg_catalog', 'record', 1028, 0),
        ('pg_catalog', '_record', 1029, 0),
        ('pg_catalog', 'uuid', 1030, 0),
        ('pg_catalog', '_uuid', 1031, 0),
        ('pg_catalog', 'jsonb', 1032, 0),
        ('pg_catalog', '_jsonb', 1033, 0),
        ('pg_catalog', 'any', 1034, 0),
        ('pg_catalog', 'anyarray', 1035, 0),
        ('pg_catalog', 'anyelement', 1036, 0),
        ('pg_catalog', 'anynonarray', 1037, 0),
        ('pg_catalog', 'char', 1038, 0),
        ('pg_catalog', 'varchar', 1039, 0),
        ('pg_catalog', 'int2', 1040, 0),
        ('pg_catalog', '_int2', 1041, 0),
        ('pg_catalog', 'bpchar', 1042, 0),
        ('pg_catalog', '_char', 1043, 0),
        ('pg_catalog', '_varchar', 1044, 0),
        ('pg_catalog', '_bpchar', 1045, 0),
        ('pg_catalog', 'regproc', 1046, 0),
        ('pg_catalog', '_regproc', 1047, 0),
        ('pg_catalog', 'regtype', 1048, 0),
        ('pg_catalog', '_regtype', 1049, 0),
        ('pg_catalog', 'regclass', 1050, 0),
        ('pg_catalog', '_regclass', 1051, 0),
        ('pg_catalog', 'int2vector', 1052, 0),
        ('pg_catalog', '_int2vector', 1053, 0),
        ('pg_catalog', 'anycompatible', 1054, 0),
        ('pg_catalog', 'anycompatiblearray', 1055, 0),
        ('pg_catalog', 'anycompatiblenonarray', 1056, 0),
        ('pg_catalog', 'list', 1998, 0),
        ('pg_catalog', 'map', 1999, 0),
        ('pg_catalog', 'anycompatiblelist', 1997, 0),
        ('pg_catalog', 'anycompatiblemap', 1996, 0),
        -- Logs
        ('mz_catalog', 'mz_dataflow_operators', 3000, 0),
        ('mz_catalog', 'mz_dataflow_operator_addresses', 3002, 0),
        ('mz_catalog', 'mz_dataflow_channels', 3004, 0),
        ('mz_catalog', 'mz_scheduling_elapsed_internal', 3006, 0),
        ('mz_catalog', 'mz_scheduling_histogram_internal', 3008, 0),
        ('mz_catalog', 'mz_scheduling_parks_internal', 3010, 0),
        ('mz_catalog', 'mz_arrangement_batches_internal', 3012, 0),
        ('mz_catalog', 'mz_arrangement_sharing_internal', 3014, 0),
        ('mz_catalog', 'mz_materializations', 3016, 0),
        ('mz_catalog', 'mz_materialization_dependencies', 3018, 0),
        ('mz_catalog', 'mz_worker_materialization_frontiers', 3020, 0),
        ('mz_catalog', 'mz_peek_active', 3022, 0),
        ('mz_catalog', 'mz_peek_durations', 3024, 0),
        ('mz_catalog', 'mz_source_info', 3026, 0),
        ('mz_catalog', 'mz_message_counts_received_internal', 3028, 0),
        ('mz_catalog', 'mz_message_counts_sent_internal', 3036, 0),
        ('mz_catalog', 'mz_dataflow_operator_reachability_internal', 3034, 0),
        ('mz_catalog', 'mz_arrangement_records_internal', 3038, 0),
        ('mz_catalog', 'mz_kafka_source_statistics', 3040, 0),
         -- Tables
        ('mz_catalog', 'mz_view_keys', 4001, 0),
        ('mz_catalog', 'mz_view_foreign_keys', 4003, 0),
        ('mz_catalog', 'mz_kafka_sinks', 4005, 0),
        ('mz_catalog', 'mz_avro_ocf_sinks', 4007, 0),
        ('mz_catalog', 'mz_databases', 4009, 0),
        ('mz_catalog', 'mz_schemas', 4011, 0),
        ('mz_catalog', 'mz_columns', 4013, 0),
        ('mz_catalog', 'mz_indexes', 4015, 0),
        ('mz_catalog', 'mz_index_columns', 4017, 0),
        ('mz_catalog', 'mz_tables', 4019, 0),
        ('mz_catalog', 'mz_sources', 4021, 0),
        ('mz_catalog', 'mz_sinks', 4023, 0),
        ('mz_catalog', 'mz_views', 4025, 0),
        ('mz_catalog', 'mz_types', 4027, 0),
        ('mz_catalog', 'mz_array_types', 4029, 0),
        ('mz_catalog', 'mz_base_types', 4031, 0),
        ('mz_catalog', 'mz_list_types', 4033, 0),
        ('mz_catalog', 'mz_map_types', 4035, 0),
        ('mz_catalog', 'mz_roles', 4037, 0),
        ('mz_catalog', 'mz_pseudo_types', 4039, 0),
        ('mz_catalog', 'mz_functions', 4041, 0),
        ('mz_catalog', 'mz_metrics', 4043, 0),
        ('mz_catalog', 'mz_metrics_meta', 4045, 0),
        ('mz_catalog', 'mz_metric_histograms', 4047, 0),
        ('mz_catalog', 'mz_clusters', 4049, 0),
        ('mz_catalog', 'mz_secrets', 4050, 0),
        -- Views
        ('mz_catalog', 'mz_relations', 5000, 0),
        ('mz_catalog', 'mz_objects', 5001, 0),
        ('mz_catalog', 'mz_catalog_names', 5002, 0),
        ('mz_catalog', 'mz_dataflow_names', 5003, 0),
        ('mz_catalog', 'mz_dataflow_operator_dataflows', 5004, 0),
        ('mz_catalog', 'mz_materialization_frontiers', 5005, 0),
        ('mz_catalog', 'mz_records_per_dataflow_operator', 5006, 0),
        ('mz_catalog', 'mz_records_per_dataflow', 5007, 0),
        ('mz_catalog', 'mz_records_per_dataflow_global', 5008, 0),
        ('mz_catalog', 'mz_perf_arrangement_records', 5009, 0),
        ('mz_catalog', 'mz_perf_peek_durations_core', 5010, 0),
        ('mz_catalog', 'mz_perf_peek_durations_bucket', 5011, 0),
        ('mz_catalog', 'mz_perf_peek_durations_aggregates', 5012, 0),
        ('mz_catalog', 'mz_perf_dependency_frontiers', 5013, 0),
        ('pg_catalog', 'pg_namespace', 5014, 0),
        ('pg_catalog', 'pg_class', 5015, 0),
        ('pg_catalog', 'pg_database', 5016, 0),
        ('pg_catalog', 'pg_index', 5017, 0),
        ('pg_catalog', 'pg_description', 5018, 0),
        ('pg_catalog', 'pg_type', 5019, 0),
        ('pg_catalog', 'pg_attribute', 5020, 0),
        ('pg_catalog', 'pg_proc', 5021, 0),
        ('pg_catalog', 'pg_range', 5022, 0),
        ('pg_catalog', 'pg_enum', 5023, 0),
        ('pg_catalog', 'pg_attrdef', 5025, 0),
        ('pg_catalog', 'pg_settings', 5026, 0),
        ('mz_catalog', 'mz_scheduling_elapsed', 5027, 0),
        ('mz_catalog', 'mz_scheduling_histogram', 5028, 0),
        ('mz_catalog', 'mz_scheduling_parks', 5029, 0),
        ('mz_catalog', 'mz_message_counts', 5030, 0),
        ('mz_catalog', 'mz_dataflow_operator_reachability', 5031, 0),
        ('mz_catalog', 'mz_arrangement_sizes', 5032, 0),
        ('mz_catalog', 'mz_arrangement_sharing', 5033, 0),
        ('pg_catalog', 'pg_constraint', 5034, 0),
        ('pg_catalog', 'pg_tables', 5035, 0),
        ('pg_catalog', 'pg_am', 5036, 0),
        ('pg_catalog', 'pg_roles', 5037, 0),
        ('pg_catalog', 'pg_views', 5038, 0),
        ('information_schema', 'columns', 5039, 0),
        ('information_schema', 'tables', 5040, 0),
        ('pg_catalog', 'pg_collation', 5041, 0),
        ('pg_catalog', 'pg_policy', 5042, 0),
        ('pg_catalog', 'pg_inherits', 5043, 0);

    CREATE TABLE compute_introspection_source_indexes (
        compute_id integer NOT NULL,
        name text NOT NULL,
        index_id integer NOT NULL,
        PRIMARY KEY (compute_id, name)
    );
    CREATE INDEX compute_introspection_source_indexes_ind
        ON compute_introspection_source_indexes(compute_id);"
    }
}

} // verus!
