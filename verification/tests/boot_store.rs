//! Opening, migrating, and the settings policies, on the pure store content.

use catalog_store::{
    boot, encode_global_id, CatalogState, ComputeInstanceConfig, Error, GlobalId, PartitionId,
    TimestampRow, Uuid, APPLICATION_ID,
};

fn fresh() -> catalog_store::BootRecord {
    boot(CatalogState::empty(), None, Uuid::new_v4()).expect("fresh init")
}

#[test]
fn fresh_init_content() {
    let record = fresh();
    let s = &record.state;
    assert_eq!(s.version, 11);
    assert_eq!(s.app_id, APPLICATION_ID);
    assert!(!record.experimental_mode);
    assert_eq!(record.cluster_id.to_text().len(), 36);

    let dbs = s.load_databases();
    assert_eq!(dbs.len(), 1);
    assert_eq!(dbs[0].0 .0, 1);
    assert_eq!(dbs[0].1, "materialize");

    let schemas = s.load_schemas();
    let names: Vec<&str> = schemas.iter().map(|s| s.1.as_str()).collect();
    assert_eq!(
        names,
        vec!["mz_catalog", "pg_catalog", "public", "mz_internal", "information_schema"]
    );

    let roles = s.load_roles();
    assert_eq!(roles, vec![(1, "materialize".to_string())]);

    let instances = s.load_compute_instances();
    assert_eq!(instances.len(), 1);
    assert_eq!(instances[0].0, 1);
    assert_eq!(instances[0].1, "default");
    assert_eq!(instances[0].2, ComputeInstanceConfig::Local);

    let mapping = s.load_system_gids();
    assert_eq!(mapping.len(), 149);
    assert_eq!(
        mapping[0],
        ("pg_catalog".to_string(), "bool".to_string(), GlobalId::System(1000), 0)
    );
    // The historical identifier gaps are reproduced exactly as shipped.
    assert!(mapping.iter().any(|row| {
        row.0 == "mz_catalog"
            && row.1 == "mz_message_counts_received_internal"
            && row.2 == GlobalId::System(3028)
    }));
    assert!(mapping.iter().any(|row| {
        row.0 == "mz_catalog"
            && row.1 == "mz_message_counts_sent_internal"
            && row.2 == GlobalId::System(3036)
    }));
    assert!(record.exports.is_empty());
}

#[test]
fn allocator_batches() {
    let mut s = fresh().state;
    let ids = s.allocate_gids(true, 3).expect("system batch");
    assert_eq!(ids, vec![5044, 5045, 5046]);
    let ids = s.allocate_gids(true, 1).expect("system single");
    assert_eq!(ids, vec![5047]);
    let ids = s.allocate_gids(false, 1).expect("user single");
    assert_eq!(ids, vec![1]);
    let ids = s.allocate_gids(false, 1).expect("user single");
    assert_eq!(ids, vec![2]);
}

#[test]
fn allocator_exhaustion_leaves_counter() {
    let mut s = fresh().state;
    s.user_next_gid = i64::MAX as u64;
    let r = s.allocate_gids(false, 1);
    assert!(matches!(r, Err(Error::IdExhaustion)));
    assert_eq!(s.user_next_gid, i64::MAX as u64);
}

#[test]
fn corruption_on_foreign_identity() {
    let mut s = CatalogState::empty();
    s.app_id = 12345;
    let r = boot(s, None, Uuid::new_v4());
    match r {
        Err(Error::Corruption { detail }) => {
            assert_eq!(detail, "catalog file has incorrect application_id");
        }
        other => panic!("expected corruption, got {:?}", other.is_ok()),
    }
}

#[test]
fn experimental_latch() {
    // Enabled at first init, then required afterwards.
    let first = boot(CatalogState::empty(), Some(true), Uuid::new_v4()).expect("init on");
    assert!(first.experimental_mode);
    let reopened = boot(first.state, Some(false), Uuid::new_v4());
    assert!(matches!(reopened, Err(Error::ExperimentalModeRequired)));

    // Disabled at first init, then unavailable afterwards.
    let first = boot(CatalogState::empty(), Some(false), Uuid::new_v4()).expect("init off");
    assert!(!first.experimental_mode);
    let reopened = boot(first.state, Some(true), Uuid::new_v4());
    assert!(matches!(reopened, Err(Error::ExperimentalModeUnavailable)));

    // Reading without a hint reports the recorded value.
    let first = boot(CatalogState::empty(), Some(true), Uuid::new_v4()).expect("init on");
    let probe = boot(first.state, None, Uuid::new_v4()).expect("read-only probe");
    assert!(probe.experimental_mode);
}

#[test]
fn cluster_id_assigned_once() {
    let chosen = Uuid::new_v4();
    let text = chosen.to_text();
    let first = boot(CatalogState::empty(), None, chosen).expect("init");
    assert_eq!(first.cluster_id.to_text(), text);
    // A later open provides fresh randomness, but the stored identity wins.
    let second = boot(first.state, None, Uuid::new_v4()).expect("reopen");
    assert_eq!(second.cluster_id.to_text(), text);
}

#[test]
fn content_version_probe() {
    let mut s = fresh().state;
    assert_eq!(s.get_catalog_content_version(), "new");
    s.set_catalog_content_version("v0.26.0");
    assert_eq!(s.get_catalog_content_version(), "v0.26.0");
    // A legacy 32-bit numeral reads as the sentinel.
    s.set_catalog_content_version("42");
    assert_eq!(s.get_catalog_content_version(), "pre-v0.8.4");
    s.set_catalog_content_version("4294967296");
    assert_eq!(s.get_catalog_content_version(), "4294967296");
}

#[test]
fn migration_prefix_composition_runtime() {
    // Applying the whole list equals applying a prefix, stopping, and
    // resuming, for one representative split.
    let mut whole = CatalogState::empty();
    whole.app_id = APPLICATION_ID;
    for i in 0..=11u32 {
        whole.apply_migration(i).expect("step");
    }
    let mut split = CatalogState::empty();
    split.app_id = APPLICATION_ID;
    for i in 0..=5u32 {
        split.apply_migration(i).expect("step");
    }
    for i in 6..=11u32 {
        split.apply_migration(i).expect("step");
    }
    assert_eq!(whole.version, split.version);
    assert_eq!(whole.load_databases(), split.load_databases());
    assert_eq!(whole.load_schemas(), split.load_schemas());
    assert_eq!(whole.load_roles(), split.load_roles());
    assert_eq!(whole.load_system_gids(), split.load_system_gids());
}

#[test]
fn reopen_preserves_rows() {
    let record = fresh();
    let mut s = record.state;
    s.insert_database("accounting").expect("insert");
    let before = s.load_databases();
    let reopened = boot(s, None, Uuid::new_v4()).expect("reopen");
    assert_eq!(reopened.state.load_databases(), before);
}

#[test]
fn item_round_trip_with_reopen() {
    let mut s = fresh().state;
    s.insert_item_row(GlobalId::User(7), 3, "v", &[1, 2]).expect("insert item");
    let reopened = boot(s, None, Uuid::new_v4()).expect("reopen");
    let items = reopened.state.load_items();
    assert_eq!(items.len(), 1);
    assert_eq!(items[0].0, GlobalId::User(7));
    assert_eq!(items[0].1.database_id, 1);
    assert_eq!(items[0].1.schema_id, 3);
    assert_eq!(items[0].1.item, "v");
    assert_eq!(items[0].2, vec![1, 2]);
}

#[test]
fn user_items_listed_in_identifier_order() {
    let mut s = fresh().state;
    s.insert_item_row(GlobalId::User(9), 3, "c", &[3]).unwrap();
    s.insert_item_row(GlobalId::User(2), 3, "a", &[1]).unwrap();
    s.insert_item_row(GlobalId::User(5), 3, "b", &[2]).unwrap();
    // An item in a schema without a database is not listed.
    s.insert_item_row(GlobalId::System(77), 1, "hidden", &[0]).unwrap();
    let items = s.load_items();
    let gids: Vec<GlobalId> = items.iter().map(|t| t.0).collect();
    assert_eq!(gids, vec![GlobalId::User(2), GlobalId::User(5), GlobalId::User(9)]);
}

#[test]
fn timestamp_replay_exports_on_upgrade() {
    // A store stopped just before the replay step, holding bindings for two
    // sources.
    let mut s = CatalogState::empty();
    s.app_id = APPLICATION_ID;
    for i in 0..=9u32 {
        s.apply_migration(i).expect("step");
    }
    let sid_a = GlobalId::User(1);
    let sid_b = GlobalId::User(2);
    s.timestamps.push(TimestampRow {
        sid: encode_global_id(&sid_a),
        pid: "0".to_string(),
        timestamp: 1,
        offset: 5,
    });
    s.timestamps.push(TimestampRow {
        sid: encode_global_id(&sid_b),
        pid: "none".to_string(),
        timestamp: 4,
        offset: 2,
    });
    s.timestamps.push(TimestampRow {
        sid: encode_global_id(&sid_a),
        pid: "0".to_string(),
        timestamp: 2,
        offset: 9,
    });
    let record = boot(s, None, Uuid::new_v4()).expect("upgrade");
    assert!(record.state.timestamps.is_empty());
    assert_eq!(record.exports.len(), 2);
    let a = &record.exports[0];
    assert_eq!(a.source_id, sid_a);
    assert_eq!(a.collection_name, "timestamp-bindings-u1");
    assert_eq!(
        a.updates,
        vec![(PartitionId::Kafka(0), 1, 5), (PartitionId::Kafka(0), 2, 4)]
    );
    assert_eq!(a.seal, Some(2));
    let b = &record.exports[1];
    assert_eq!(b.source_id, sid_b);
    assert_eq!(b.collection_name, "timestamp-bindings-u2");
    assert_eq!(b.updates, vec![(PartitionId::NonePartition, 4, 2)]);
    assert_eq!(b.seal, Some(4));
}

#[test]
fn replay_fails_on_undecodable_rows() {
    let mut s = CatalogState::empty();
    s.app_id = APPLICATION_ID;
    for i in 0..=9u32 {
        s.apply_migration(i).expect("step");
    }
    s.timestamps.push(TimestampRow {
        sid: vec![1, 2, 3],
        pid: "0".to_string(),
        timestamp: 1,
        offset: 5,
    });
    assert!(boot(s, None, Uuid::new_v4()).is_err());
}

#[test]
fn interleaved_user_allocations_form_one_block() {
    let mut s = fresh().state;
    let start = s.user_next_gid;
    let mut seen = Vec::new();
    for _ in 0..5 {
        let ids = s.allocate_gids(false, 1).expect("allocate");
        seen.push(ids[0]);
    }
    let expected: Vec<u64> = (start..start + 5).collect();
    assert_eq!(seen, expected);
    assert_eq!(s.user_next_gid, start + 5);
}
