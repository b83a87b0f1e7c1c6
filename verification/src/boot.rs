//! Opening a store: validate the store identity, run every unapplied
//! migration, resolve the experimental-mode latch, and resolve or assign the
//! cluster identity. Opening is the only place the schema may change.

use vstd::prelude::*;

use crate::error::Error;
use crate::migrations::{run_model, run_ok, LAST_MIGRATION};
use crate::model::{settings_view, StoreModel};
use crate::stash::{exports_correct, TimestampBindingExport};
use crate::state::{setting_lookup, CatalogState, SettingRow, APPLICATION_ID};
use crate::text::{dec_val, is_numeral, parse_u64_bounded};
use crate::uuid_val::{is_uuid_text, uuid_text, Uuid};

verus! {

/// Everything a successful open hands back: the migrated store, the
/// resolved experimental flag, the cluster identity, and any replay exports
/// the migration run produced for the external stash.
pub struct BootRecord {
    pub state: CatalogState,
    pub experimental_mode: bool,
    pub cluster_id: Uuid,
    pub exports: Vec<TimestampBindingExport>,
}

/// The name of the experimental-mode setting.
pub open spec fn experimental_name() -> Seq<char> {
    "experimental_mode"@
}

/// The name of the cluster-identity setting.
pub open spec fn cluster_name() -> Seq<char> {
    "cluster_id"@
}

/// The name of the content-version setting.
pub open spec fn content_version_name() -> Seq<char> {
    "catalog_content_version"@
}

/// The value of the first settings-model row with this name, if any.
pub open spec fn msetting(rows: Seq<(Seq<char>, Seq<char>)>, name: Seq<char>) -> Option<Seq<char>>
    decreases rows.len(),
{
    if rows.len() == 0 {
        None
    } else if rows[0].0 == name {
        Some(rows[0].1)
    } else {
        msetting(rows.drop_first(), name)
    }
}

/// The state-level lookup agrees with the model-level lookup.
pub proof fn lemma_setting_model(rows: Seq<SettingRow>, name: Seq<char>)
    ensures
        setting_lookup(rows, name) == msetting(settings_view(rows), name),
    decreases rows.len(),
{
    if rows.len() > 0 {
        lemma_setting_model(rows.drop_first(), name);
        assert(settings_view(rows).drop_first() =~= settings_view(rows.drop_first()));
    }
}

/// The truth of a stored experimental value: its numeral is nonzero.
pub open spec fn setting_truth(v: Seq<char>) -> bool {
    dec_val(v) != 0
}

/// Whether a stored experimental value, if any, is a numeral the latch can
/// read; the latch has no defined answer for anything else, so opening asks
/// for this up front.
pub open spec fn experimental_parseable(v: Option<Seq<char>>) -> bool {
    match v {
        None => true,
        Some(s) => is_numeral(s) && dec_val(s) <= u64::MAX,
    }
}

/// A value in quotes.
pub open spec fn quoted(s: Seq<char>) -> Seq<char> {
    seq!['"'] + s + seq!['"']
}

/// Whether a stored cluster-identity value is well-formed: a hyphenated
/// UUID in quotes.
pub open spec fn quoted_uuid_value(v: Seq<char>) -> bool {
    v.len() == 38 && v[0] == '"' && v[37] == '"' && is_uuid_text(v.subrange(1, 37))
}

/// The content after the open-time migration run: a virgin store takes the
/// application magic and the whole list; any other store resumes above its
/// recorded version.
pub open spec fn boot_run(m: StoreModel) -> StoreModel {
    if m.app_id == 0 {
        run_model(
            StoreModel { app_id: APPLICATION_ID as int, ..m },
            0,
            LAST_MIGRATION as int,
        )
    } else {
        run_model(m, m.version + 1, LAST_MIGRATION as int)
    }
}

/// The content just before the replay step of the open-time migration run.
pub open spec fn boot_run_pre_replay(m: StoreModel) -> StoreModel {
    if m.app_id == 0 {
        run_model(StoreModel { app_id: APPLICATION_ID as int, ..m }, 0, 9)
    } else {
        run_model(m, m.version + 1, 9)
    }
}

/// Whether the open-time migration run crosses the replay step.
pub open spec fn boot_crosses_replay(m: StoreModel) -> bool {
    m.app_id == 0 || m.version < 10
}

/// Whether the open-time migration run goes through.
pub open spec fn boot_migrations_ok(m: StoreModel) -> bool {
    if m.app_id == 0 {
        run_ok(StoreModel { app_id: APPLICATION_ID as int, ..m }, 0, LAST_MIGRATION as int)
    } else {
        run_ok(m, m.version + 1, LAST_MIGRATION as int)
    }
}

impl CatalogState {
    /// Resolves the experimental-mode latch against the stored setting:
    /// the flag can be enabled only at first initialization, is recorded
    /// then, and can never be disabled afterwards; opening without a hint
    /// reads the recorded value (or reports off on a store that never
    /// recorded one).
    pub fn resolve_experimental(&mut self, hint: Option<bool>) -> (r: Result<bool, Error>)
        requires
            old(self).wf(),
            experimental_parseable(old(self).setting(experimental_name())),
        ensures
            final(self).wf(),
            *final(self) == (CatalogState { settings: final(self).settings, ..*old(self) }),
            ({
                let stored = old(self).setting(experimental_name());
                &&& (r is Ok <==> match (stored, hint) {
                    (Some(v), Some(h)) => h == setting_truth(v),
                    _ => true,
                })
                &&& r matches Ok(b) ==> b == (match (stored, hint) {
                    (None, Some(h)) => h,
                    (None, None) => false,
                    (Some(v), None) => setting_truth(v),
                    (Some(v), Some(h)) => h,
                })
                &&& r matches Ok(b) ==> (match (stored, hint) {
                    (None, Some(h)) => {
                        &&& final(self).setting(experimental_name()) == Some(
                            if h {
                                "1"@
                            } else {
                                "0"@
                            },
                        )
                        &&& forall|other: Seq<char>|
                            other != experimental_name() ==> final(self).setting(other) == old(
                                self,
                            ).setting(other)
                    },
                    _ => *final(self) == *old(self),
                })
                &&& r matches Err(e) ==> {
                    &&& *final(self) == *old(self)
                    &&& stored matches Some(v) && hint matches Some(h) && h != setting_truth(v)
                    &&& (e is ExperimentalModeRequired <==> setting_truth(stored->0))
                    &&& (e is ExperimentalModeUnavailable <==> !setting_truth(stored->0))
                }
            }),
    {
        let cur: Option<bool> = match self.get_setting("experimental_mode") {
            Some(v) => {
                match parse_u64_bounded(v.as_str(), u64::MAX) {
                    Some(n) => Some(n != 0),
                    None => vstd::pervasive::unreached(),
                }
            }
            None => None,
        };
        match (cur, hint) {
            (None, Some(h)) => {
                let value = if h {
                    proof {
                        reveal_strlit("1");
                    }
                    String::from_str("1")
                } else {
                    proof {
                        reveal_strlit("0");
                    }
                    String::from_str("0")
                };
                proof {
                    if h {
                        assert(value@ =~= "1"@);
                    } else {
                        assert(value@ =~= "0"@);
                    }
                }
                self.set_setting("experimental_mode", value);
                Ok(h)
            }
            (Some(cs), Some(h)) => {
                if cs && !h {
                    Err(Error::ExperimentalModeRequired)
                } else if !cs && h {
                    Err(Error::ExperimentalModeUnavailable)
                } else {
                    Ok(h)
                }
            }
            (Some(cs), None) => Ok(cs),
            (None, None) => Ok(false),
        }
    }

    /// Resolves the cluster identity: the stored value on any but the first
    /// open, and the provided fresh identifier — persisted — on the first.
    /// The identity is assigned exactly once and immutable thereafter.
    pub fn resolve_cluster_id(&mut self, fresh: Uuid) -> (r: Result<Uuid, Error>)
        requires
            old(self).wf(),
            fresh.wf(),
        ensures
            final(self).wf(),
            *final(self) == (CatalogState { settings: final(self).settings, ..*old(self) }),
            ({
                let stored = old(self).setting(cluster_name());
                &&& (r is Ok <==> match stored {
                    Some(v) => quoted_uuid_value(v),
                    None => true,
                })
                &&& r matches Ok(u) ==> u.wf() && (match stored {
                    Some(v) => {
                        &&& uuid_text(u.bytes_spec()) == v.subrange(1, 37)
                        &&& *final(self) == *old(self)
                    },
                    None => {
                        &&& u.bytes_spec() == fresh.bytes_spec()
                        &&& final(self).setting(cluster_name()) == Some(
                            quoted(uuid_text(fresh.bytes_spec())),
                        )
                        &&& forall|other: Seq<char>|
                            other != cluster_name() ==> final(self).setting(other) == old(
                                self,
                            ).setting(other)
                    },
                })
                &&& r matches Err(e) ==> *final(self) == *old(self) && e is Storage
            }),
    {
        let stored: Option<String> = match self.get_setting("cluster_id") {
            Some(v) => Some(v.clone()),
            None => None,
        };
        match stored {
            Some(v) => {
                let n = v.as_str().unicode_len();
                if n != 38 || v.as_str().get_char(0) != '"' || v.as_str().get_char(37) != '"' {
                    return Err(Error::Storage(String::from_str("malformed cluster id")));
                }
                let mid = v.as_str().substring_char(1, 37);
                match Uuid::parse(mid) {
                    Some(u) => Ok(u),
                    None => Err(Error::Storage(String::from_str("malformed cluster id"))),
                }
            }
            None => {
                proof {
                    reveal_strlit("\"");
                }
                let mut value = String::from_str("\"");
                let text = fresh.to_text();
                value.append(text.as_str());
                value.append("\"");
                proof {
                    assert(value@ =~= quoted(uuid_text(fresh.bytes_spec())));
                }
                self.set_setting("cluster_id", value);
                let out = fresh.clone_id();
                Ok(out)
            }
        }
    }

    /// Reads the content version: the stored value, the sentinel
    /// `pre-v0.8.4` when a legacy 32-bit numeral is recognized, and `new`
    /// when nothing is stored.
    pub fn get_catalog_content_version(&self) -> (r: String)
        ensures
            ({
                let stored = self.setting(content_version_name());
                match stored {
                    None => r@ == "new"@,
                    Some(v) => if is_numeral(v) && dec_val(v) <= u32::MAX {
                        r@ == "pre-v0.8.4"@
                    } else {
                        r@ == v
                    },
                }
            }),
    {
        match self.get_setting("catalog_content_version") {
            None => String::from_str("new"),
            Some(v) => {
                match parse_u64_bounded(v.as_str(), 0xffff_ffff) {
                    Some(_) => String::from_str("pre-v0.8.4"),
                    None => v.clone(),
                }
            }
        }
    }

    /// Writes the content version (opaque upsert).
    pub fn set_catalog_content_version(&mut self, new_version: &str)
        requires
            old(self).wf(),
        ensures
            final(self).wf(),
            *final(self) == (CatalogState { settings: final(self).settings, ..*old(self) }),
            final(self).setting(content_version_name()) == Some(new_version@),
            forall|other: Seq<char>|
                other != content_version_name() ==> final(self).setting(other) == old(
                    self,
                ).setting(other),
    {
        self.set_setting("catalog_content_version", new_version.to_owned());
    }
}

/// Opens a store presented as its prior durable content: validates the
/// store identity (a zero header is a virgin store and takes the magic; any
/// other value than the magic is corruption), runs every unapplied
/// migration, resolves the experimental latch against the hint, and
/// resolves or assigns the cluster identity from `fresh_id`.
pub fn boot(prior: CatalogState, experimental_mode: Option<bool>, fresh_id: Uuid) -> (r: Result<
    BootRecord,
    Error,
>)
    requires
        prior.wf(),
        fresh_id.wf(),
        experimental_parseable(msetting(boot_run(prior.model()).settings, experimental_name())),
    ensures
        ({
            let m0 = prior.model();
            let mm = boot_run(m0);
            let e0 = msetting(mm.settings, experimental_name());
            let c0 = msetting(mm.settings, cluster_name());
            let app_ok = m0.app_id == 0 || m0.app_id == APPLICATION_ID as int;
            let latch_ok = match (e0, experimental_mode) {
                (Some(v), Some(h)) => h == setting_truth(v),
                _ => true,
            };
            let cluster_ok = match c0 {
                Some(v) => quoted_uuid_value(v),
                None => true,
            };
            &&& (r is Ok <==> app_ok && boot_migrations_ok(m0) && latch_ok && cluster_ok)
            &&& r matches Ok(b) ==> {
                &&& b.state.wf()
                &&& b.state.model() == (StoreModel { settings: b.state.model().settings, ..mm })
                &&& b.experimental_mode == (match (e0, experimental_mode) {
                    (None, Some(h)) => h,
                    (None, None) => false,
                    (Some(v), None) => setting_truth(v),
                    (Some(v), Some(h)) => h,
                })
                &&& b.state.setting(experimental_name()) == (match (e0, experimental_mode) {
                    (None, Some(h)) => Some(
                        if h {
                            "1"@
                        } else {
                            "0"@
                        },
                    ),
                    _ => e0,
                })
                &&& b.cluster_id.wf()
                &&& (match c0 {
                    Some(v) => uuid_text(b.cluster_id.bytes_spec()) == v.subrange(1, 37)
                        && b.state.setting(cluster_name()) == c0,
                    None => b.cluster_id.bytes_spec() == fresh_id.bytes_spec() && b.state.setting(
                        cluster_name(),
                    ) == Some(quoted(uuid_text(fresh_id.bytes_spec()))),
                })
                &&& forall|other: Seq<char>|
                    other != experimental_name() && other != cluster_name()
                        ==> b.state.setting(other) == msetting(mm.settings, other)
                &&& if boot_crosses_replay(m0) {
                    exports_correct(boot_run_pre_replay(m0).timestamps, b.exports@)
                } else {
                    b.exports@.len() == 0
                }
            }
            &&& r matches Err(e) ==> {
                &&& (e matches Error::Corruption { detail } ==> detail@
                    == "catalog file has incorrect application_id"@)
                &&& (e is Corruption <==> !app_ok)
                &&& (e is ExperimentalModeRequired <==> app_ok && boot_migrations_ok(m0)
                    && !latch_ok && setting_truth(e0->0))
                &&& (e is ExperimentalModeUnavailable <==> app_ok && boot_migrations_ok(m0)
                    && !latch_ok && !setting_truth(e0->0))
                &&& (e is Storage <==> app_ok && (!boot_migrations_ok(m0) || (latch_ok
                    && !cluster_ok)))
            }
        }),
{
    let ghost m0 = prior.model();
    let mut s = prior;
    let exports: Vec<TimestampBindingExport>;
    if s.app_id == 0 {
        // A virgin store: install the identity and apply the baseline
        // migration, then the rest of the list.
        s.app_id = APPLICATION_ID;
        let ghost mset = s.model();
        proof {
            assert(mset =~= (StoreModel { app_id: APPLICATION_ID as int, ..m0 }));
        }
        match s.apply_migration(0) {
            Ok(_) => {}
            Err(_) => {
                return vstd::pervasive::unreached();
            }
        }
        match s.migrate_to_latest() {
            Ok(ex) => {
                exports = ex;
                proof {
                    assert(s.model() == run_model(mset, 0, LAST_MIGRATION as int)) by {
                        assert(run_model(mset, 0, LAST_MIGRATION as int) == run_model(
                            crate::migrations::migration_model(mset, 0),
                            1,
                            LAST_MIGRATION as int,
                        ));
                    }
                    assert(boot_migrations_ok(m0)) by {
                        assert(run_ok(mset, 0, LAST_MIGRATION as int) == (
                        crate::migrations::model_applicable(mset, 0) && run_ok(
                            crate::migrations::migration_model(mset, 0),
                            1,
                            LAST_MIGRATION as int,
                        )));
                    }
                    assert(exports_correct(
                        run_model(crate::migrations::migration_model(mset, 0), 1, 9).timestamps,
                        exports@,
                    ) ==> exports_correct(boot_run_pre_replay(m0).timestamps, exports@)) by {
                        assert(run_model(mset, 0, 9) == run_model(
                            crate::migrations::migration_model(mset, 0),
                            1,
                            9,
                        ));
                    }
                }
            }
            Err(e) => {
                proof {
                    assert(!boot_migrations_ok(m0)) by {
                        assert(run_ok(mset, 0, LAST_MIGRATION as int) == (
                        crate::migrations::model_applicable(mset, 0) && run_ok(
                            crate::migrations::migration_model(mset, 0),
                            1,
                            LAST_MIGRATION as int,
                        )));
                    }
                }
                return Err(e);
            }
        }
    } else if s.app_id != APPLICATION_ID {
        return Err(
            Error::Corruption {
                detail: String::from_str("catalog file has incorrect application_id"),
            },
        );
    } else {
        match s.migrate_to_latest() {
            Ok(ex) => {
                exports = ex;
            }
            Err(e) => {
                return Err(e);
            }
        }
    }
    proof {
        assert(s.model() == boot_run(m0));
        lemma_setting_model(s.settings@, experimental_name());
        lemma_setting_model(s.settings@, cluster_name());
    }
    let ghost mid_state = s;
    let resolved = match s.resolve_experimental(experimental_mode) {
        Ok(b) => b,
        Err(e) => {
            return Err(e);
        }
    };
    proof {
        reveal_strlit("experimental_mode");
        reveal_strlit("cluster_id");
        assert(experimental_name().len() == 17);
        assert(cluster_name().len() == 10);
        assert(experimental_name() != cluster_name());
        assert(s.setting(cluster_name()) == mid_state.setting(cluster_name()));
    }
    let ghost latched_state = s;
    let cluster_id = match s.resolve_cluster_id(fresh_id) {
        Ok(u) => u,
        Err(e) => {
            return Err(e);
        }
    };
    proof {
        assert(s.model() == (StoreModel { settings: s.model().settings, ..boot_run(m0) }));
        assert forall|other: Seq<char>|
            other != experimental_name() && other != cluster_name() implies s.setting(other)
            == msetting(boot_run(m0).settings, other) by {
            lemma_setting_model(mid_state.settings@, other);
            assert(mid_state.setting(other) == msetting(boot_run(m0).settings, other));
            assert(latched_state.setting(other) == mid_state.setting(other));
            assert(s.setting(other) == latched_state.setting(other));
        }
    }
    Ok(BootRecord { state: s, experimental_mode: resolved, cluster_id, exports })
}

/// Migrations above the settings step never touch the settings rows.
proof fn lemma_run_settings_stable(m: StoreModel, lo: int)
    requires
        lo >= 3,
    ensures
        run_model(m, lo, LAST_MIGRATION as int).settings == m.settings,
    decreases (if lo <= LAST_MIGRATION as int { (LAST_MIGRATION as int) + 1 - lo } else { 0 }),
{
    if lo > LAST_MIGRATION as int {
    } else {
        assert(crate::migrations::migration_model(m, lo).settings == m.settings);
        lemma_run_settings_stable(crate::migrations::migration_model(m, lo), lo + 1);
    }
}

/// A run that ends at the settings step leaves the settings rows empty.
proof fn lemma_run_through_settings(m: StoreModel, lo: int)
    requires
        0 <= lo <= 2,
    ensures
        run_model(m, lo, 2).settings == Seq::<(Seq<char>, Seq<char>)>::empty(),
    decreases 2 - lo,
{
    if lo == 2 {
        assert(run_model(m, 2, 2) == run_model(crate::migrations::migration_model(m, 2), 3, 2));
    } else {
        lemma_run_through_settings(crate::migrations::migration_model(m, lo), lo + 1);
    }
}

/// Opening a store already past the settings step leaves its settings rows
/// exactly as stored.
pub proof fn lemma_settings_survive_run(m: StoreModel)
    requires
        m.app_id != 0,
        m.version >= 2,
    ensures
        boot_run(m).settings == m.settings,
{
    lemma_run_settings_stable(m, m.version + 1);
}

/// Opening a virgin store, or one from before the settings step, crosses
/// the step that creates the settings table, so the migrated settings rows
/// are empty.
pub proof fn lemma_settings_cleared_run(m: StoreModel)
    requires
        m.app_id == 0 || (0 <= m.version < 2),
    ensures
        boot_run(m).settings == Seq::<(Seq<char>, Seq<char>)>::empty(),
{
    if m.app_id == 0 {
        let mset = StoreModel { app_id: APPLICATION_ID as int, ..m };
        crate::migrations::lemma_run_split(mset, 0, 2, LAST_MIGRATION as int);
        lemma_run_through_settings(mset, 0);
        lemma_run_settings_stable(run_model(mset, 0, 2), 3);
    } else {
        let lo = m.version + 1;
        crate::migrations::lemma_run_split(m, lo, 2, LAST_MIGRATION as int);
        lemma_run_through_settings(m, lo);
        lemma_run_settings_stable(run_model(m, lo, 2), 3);
    }
}

} // verus!
