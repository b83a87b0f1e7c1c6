//! Durable catalog store for a streaming database: the system of record for
//! metadata objects (databases, schemas, roles, compute instances, items),
//! together with the schema-migration engine and the identifier allocators
//! that back it. The store's content and every operation on it are modeled
//! and verified; the embedded relational engine is kept as a durability
//! mirror behind a small trusted boundary.

mod boot;
mod codec;
mod config;
mod conn;
mod error;
mod ids;
mod laws;
mod loads;
mod migrations;
mod model;
mod raw;
mod repo;
mod seed;
mod sqlite;
mod stash;
mod state;
mod text;
mod uuid_val;

mod orchestrator;
mod secrets;

pub use boot::{
    boot, boot_crosses_replay, boot_migrations_ok, boot_run, boot_run_pre_replay, cluster_name,
    content_version_name, experimental_name, experimental_parseable, msetting, quoted,
    quoted_uuid_value, setting_truth, BootRecord,
};
pub use codec::{
    decode_gid_spec, decode_global_id, encode_global_id, gid_blob, lemma_global_id_codec_roundtrip,
    SqlVal,
};
pub use config::{lemma_config_codec_roundtrip, local_config_text, ComputeInstanceConfig};
pub use conn::{CatalogConnection, Transaction};
pub use error::Error;
pub use ids::{DatabaseId, GlobalId, Id, LocalId, PartitionId, SchemaId, SourceInstanceId};
pub use laws::{
    lemma_reopen_preserves_content, lemma_user_allocation_block, user_alloc_step,
};
pub use loads::{item_key, QualifiedObjectName};
pub use migrations::{
    lemma_migration_prefix_composition, migration_model, migration_sql, run_model, run_ok,
    LAST_MIGRATION,
};
pub use model::StoreModel;
pub use orchestrator::ProcessOrchestratorConfig;
pub use secrets::FilesystemSecretsController;
pub use seed::builtin_mappings;
pub use sqlite::{is_constraint_violation, SqlData, SqliteFailure};
pub use stash::{
    diff_deltas, encode_timestamp_bindings, exports_correct, max_timestamp,
    replay_timestamp_bindings, TimestampBindingExport,
};
pub use state::{
    CatalogState, ComputeInstanceRow, DatabaseRow, IntrospectionRow, ItemRow, RoleRow, SchemaRow,
    SettingRow, SystemMappingRow, TimestampRow, APPLICATION_ID,
};
pub use uuid_val::{is_uuid_text, uuid_text, Uuid};
