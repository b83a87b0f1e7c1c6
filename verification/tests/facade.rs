//! The store handle and transaction facade over the embedded engine.

use catalog_store::{
    CatalogConnection, ComputeInstanceConfig, DatabaseId, Error, GlobalId, SchemaId,
    SqliteFailure,
};

fn open_fresh() -> CatalogConnection {
    let (conn, exports) = CatalogConnection::open_in_memory(None).expect("open in memory");
    assert!(exports.is_empty());
    conn
}

#[test]
fn duplicate_database_fails_cleanly() {
    let mut conn = open_fresh();
    let mut tx = conn.transaction().expect("tx");
    let id = tx.insert_database("x").expect("first insert");
    match tx.insert_database("x") {
        Err(Error::DatabaseAlreadyExists(name)) => assert_eq!(name, "x"),
        other => panic!("expected AlreadyExists, got ok={}", other.is_ok()),
    }
    tx.commit(&mut conn).expect("commit");
    let dbs = conn.load_databases().expect("load");
    let matching: Vec<_> = dbs.iter().filter(|d| d.1 == "x").collect();
    assert_eq!(matching.len(), 1);
    assert_eq!(matching[0].0, id);
}

#[test]
fn duplicate_schema_role_instance_item() {
    let mut conn = open_fresh();
    let mut tx = conn.transaction().expect("tx");
    tx.insert_schema(DatabaseId(1), "app").expect("schema");
    assert!(matches!(
        tx.insert_schema(DatabaseId(1), "app"),
        Err(Error::SchemaAlreadyExists(_))
    ));
    tx.insert_role("alice").expect("role");
    assert!(matches!(tx.insert_role("alice"), Err(Error::RoleAlreadyExists(_))));
    let sources: Vec<(String, GlobalId)> = Vec::new();
    tx.insert_compute_instance("workers", &ComputeInstanceConfig::Local, &sources)
        .expect("instance");
    assert!(matches!(
        tx.insert_compute_instance("workers", &ComputeInstanceConfig::Local, &sources),
        Err(Error::ClusterAlreadyExists(_))
    ));
    tx.insert_item(GlobalId::User(1), SchemaId(3), "v", &[1]).expect("item");
    assert!(matches!(
        tx.insert_item(GlobalId::User(2), SchemaId(3), "v", &[2]),
        Err(Error::ItemAlreadyExists(_))
    ));
    assert!(matches!(
        tx.insert_item(GlobalId::User(1), SchemaId(3), "w", &[2]),
        Err(Error::ItemAlreadyExists(_))
    ));
    tx.commit(&mut conn).expect("commit");
}

#[test]
fn remove_nonexistent_fails_and_changes_nothing() {
    let mut conn = open_fresh();
    let before = conn.load_databases().expect("load");
    let mut tx = conn.transaction().expect("tx");
    assert!(matches!(
        tx.remove_database(&DatabaseId(99)),
        Err(Error::UnknownDatabase(_))
    ));
    assert!(matches!(
        tx.remove_schema(&DatabaseId(1), &SchemaId(99)),
        Err(Error::UnknownSchema(_))
    ));
    assert!(matches!(tx.remove_role("nobody"), Err(Error::UnknownRole(_))));
    assert!(matches!(
        tx.remove_compute_instance("nowhere"),
        Err(Error::UnknownComputeInstance(_))
    ));
    assert!(matches!(tx.remove_item(GlobalId::User(42)), Err(Error::UnknownItem(_))));
    tx.commit(&mut conn).expect("commit");
    assert_eq!(conn.load_databases().expect("load"), before);
}

#[test]
fn dropped_transaction_has_no_effect() {
    let mut conn = open_fresh();
    {
        let mut tx = conn.transaction().expect("tx");
        let sid = tx.insert_schema(DatabaseId(1), "scratch").expect("schema");
        tx.insert_item(GlobalId::User(8), sid, "tmp", &[9]).expect("item");
        // Dropped without commit.
    }
    let schemas = conn.load_schemas().expect("load");
    assert!(schemas.iter().all(|s| s.1 != "scratch"));
    let tx = conn.transaction().expect("tx");
    let items = tx.load_items().expect("items");
    assert!(items.is_empty());
    let _ = conn;
}

#[test]
fn committed_transaction_is_visible() {
    let mut conn = open_fresh();
    let mut tx = conn.transaction().expect("tx");
    let sid = tx.insert_schema(DatabaseId(1), "app").expect("schema");
    tx.insert_item(GlobalId::User(7), sid, "v", &[1, 2]).expect("item");
    tx.commit(&mut conn).expect("commit");
    let tx = conn.transaction().expect("tx");
    let items = tx.load_items().expect("items");
    assert_eq!(items.len(), 1);
    assert_eq!(items[0].0, GlobalId::User(7));
    assert_eq!(items[0].1.item, "v");
    assert_eq!(items[0].2, vec![1, 2]);
}

#[test]
fn update_and_remove_items() {
    let mut conn = open_fresh();
    let mut tx = conn.transaction().expect("tx");
    tx.insert_item(GlobalId::User(7), SchemaId(3), "v", &[1]).expect("item");
    tx.update_item(GlobalId::User(7), "w", &[2, 3]).expect("update");
    assert!(matches!(
        tx.update_item(GlobalId::User(9), "x", &[4]),
        Err(Error::UnknownItem(_))
    ));
    tx.commit(&mut conn).expect("commit");
    let tx = conn.transaction().expect("tx");
    let items = tx.load_items().expect("items");
    assert_eq!(items.len(), 1);
    assert_eq!(items[0].1.item, "w");
    assert_eq!(items[0].2, vec![2, 3]);
}

#[test]
fn update_compute_instance_config_targets_one_row() {
    let mut conn = open_fresh();
    let mut tx = conn.transaction().expect("tx");
    tx.update_compute_instance_config(1, &ComputeInstanceConfig::Custom("{\"replicas\":2}".to_string()))
        .expect("update");
    assert!(matches!(
        tx.update_compute_instance_config(99, &ComputeInstanceConfig::Local),
        Err(Error::UnknownComputeInstance(_))
    ));
    tx.commit(&mut conn).expect("commit");
    let instances = conn.load_compute_instances().expect("load");
    assert_eq!(
        instances[0].2,
        ComputeInstanceConfig::Custom("{\"replicas\":2}".to_string())
    );
}

#[test]
fn allocators_through_the_handle() {
    let mut conn = open_fresh();
    let ids = conn.allocate_system_ids(3).expect("system batch");
    assert_eq!(
        ids,
        vec![GlobalId::System(5044), GlobalId::System(5045), GlobalId::System(5046)]
    );
    let ids = conn.allocate_system_ids(1).expect("system single");
    assert_eq!(ids, vec![GlobalId::System(5047)]);
    let first = conn.allocate_user_id().expect("user");
    let second = conn.allocate_user_id().expect("user");
    assert_eq!(first, GlobalId::User(1));
    assert_eq!(second, GlobalId::User(2));
}

#[test]
fn system_mappings_and_introspection() {
    let mut conn = open_fresh();
    let mappings = vec![
        ("mz_catalog".to_string(), "mz_widgets".to_string(), GlobalId::System(6000), 7u64),
        // Re-pinning an existing built-in replaces its row.
        ("pg_catalog".to_string(), "bool".to_string(), GlobalId::System(1000), 9u64),
    ];
    conn.set_system_gids(&mappings).expect("set mappings");
    let stored = conn.load_system_gids().expect("load");
    assert_eq!(stored.len(), 150);
    assert!(stored.iter().any(|r| r.1 == "mz_widgets" && r.2 == GlobalId::System(6000) && r.3 == 7));
    assert!(stored.iter().any(|r| r.1 == "bool" && r.3 == 9));

    let sources = vec![(1i64, "mz_active_peeks".to_string(), GlobalId::System(5048))];
    conn.set_introspection_source_index_gids(&sources).expect("set sources");
    let got = conn.load_introspection_source_index_gids(1).expect("load");
    assert_eq!(got, vec![("mz_active_peeks".to_string(), GlobalId::System(5048))]);
    assert!(conn.load_introspection_source_index_gids(2).expect("load").is_empty());
}

#[test]
fn compute_instance_with_introspection_sources() {
    let mut conn = open_fresh();
    let mut tx = conn.transaction().expect("tx");
    let sources = vec![
        ("mz_dataflow_operators".to_string(), GlobalId::System(5100)),
        ("mz_dataflow_channels".to_string(), GlobalId::System(5101)),
    ];
    let id = tx
        .insert_compute_instance("workers", &ComputeInstanceConfig::Local, &sources)
        .expect("instance");
    assert_eq!(id, 2);
    tx.commit(&mut conn).expect("commit");
    let got = conn.load_introspection_source_index_gids(2).expect("load");
    assert_eq!(got.len(), 2);
    assert_eq!(got[0].1, GlobalId::System(5100));
}

#[test]
fn constraint_violation_classification() {
    let f = SqliteFailure { constraint_violation: true, message: "constraint".to_string() };
    assert!(catalog_store::is_constraint_violation(&f));
    let f = SqliteFailure { constraint_violation: false, message: "io".to_string() };
    assert!(!catalog_store::is_constraint_violation(&f));
}

#[test]
fn experimental_hint_through_the_handle() {
    let (conn, _) = CatalogConnection::open_in_memory(Some(true)).expect("open");
    assert!(conn.experimental_mode());
    let (conn, _) = CatalogConnection::open_in_memory(Some(false)).expect("open");
    assert!(!conn.experimental_mode());
    assert_eq!(conn.cluster_id().to_text().len(), 36);
}

#[test]
fn content_version_through_the_handle() {
    let (mut conn, _) = CatalogConnection::open_in_memory(None).expect("open");
    assert_eq!(conn.get_catalog_content_version().expect("get"), "new");
    conn.set_catalog_content_version("v0.26.0").expect("set");
    assert_eq!(conn.get_catalog_content_version().expect("get"), "v0.26.0");
}

#[test]
fn durable_store_survives_reopen() {
    // A real file under the system temporary directory: the second open
    // resumes from whatever the first one persisted (this test stays
    // correct across repeated runs against the same file).
    let dir = "/tmp";
    let first_id;
    {
        let (mut conn, _) = CatalogConnection::open(dir, None).expect("first open");
        first_id = conn.allocate_user_id().expect("allocate");
    }
    {
        let (mut conn, _) = CatalogConnection::open(dir, None).expect("second open");
        let second_id = conn.allocate_user_id().expect("allocate");
        match (first_id, second_id) {
            (GlobalId::User(a), GlobalId::User(b)) => assert_eq!(b, a + 1),
            _ => panic!("user ids expected"),
        }
    }
}

#[test]
fn remove_operations_take_effect() {
    let mut conn = open_fresh();
    let mut tx = conn.transaction().expect("tx");
    let db = tx.insert_database("tmp").expect("db");
    let schema = tx.insert_schema(db, "s").expect("schema");
    tx.insert_role("bob").expect("role");
    tx.remove_schema(&db, &schema).expect("remove schema");
    tx.remove_database(&db).expect("remove db");
    tx.remove_role("bob").expect("remove role");
    tx.commit(&mut conn).expect("commit");
    let dbs = conn.load_databases().expect("load");
    assert!(dbs.iter().all(|d| d.1 != "tmp"));
    let roles = conn.load_roles().expect("load");
    assert!(roles.iter().all(|r| r.1 != "bob"));
}

#[test]
fn schema_listing_resolves_missing_databases_to_none() {
    let mut conn = open_fresh();
    let mut tx = conn.transaction().expect("tx");
    let db = tx.insert_database("doomed").expect("db");
    tx.insert_schema(db, "orphan").expect("schema");
    // Removing the database leaves the schema row behind; the listing's
    // outer join then reports no database for it.
    tx.remove_database(&db).expect("remove db");
    tx.commit(&mut conn).expect("commit");
    let schemas = conn.load_schemas().expect("load");
    let orphan = schemas.iter().find(|s| s.1 == "orphan").expect("still listed");
    assert_eq!(orphan.2, None);
    let public = schemas.iter().find(|s| s.1 == "public").expect("public");
    assert_eq!(public.2, Some(catalog_store::DatabaseId(1)));
}

#[test]
fn uncommitted_facade_leaves_no_trace_across_reopen() {
    // A real file store: a facade dropped without commit leaves nothing for
    // a later open to find. (Repeated runs reuse the same file; nothing is
    // ever committed, so the assertions stay valid.)
    let dir = "/var/tmp";
    {
        let (conn, _) = CatalogConnection::open(dir, None).expect("first open");
        let mut tx = conn.transaction().expect("tx");
        let sid = tx.insert_schema(DatabaseId(1), "ephemeral").expect("schema");
        tx.insert_item(GlobalId::User(8), sid, "tmp", &[9]).expect("item");
        // Dropped without commit.
    }
    {
        let (conn, _) = CatalogConnection::open(dir, None).expect("second open");
        let schemas = conn.load_schemas().expect("load");
        assert!(schemas.iter().all(|s| s.1 != "ephemeral"));
        let tx = conn.transaction().expect("tx");
        let items = tx.load_items().expect("items");
        assert!(items.iter().all(|i| i.1.item != "tmp"));
    }
}

#[test]
fn empty_batches_are_no_ops() {
    let mut conn = open_fresh();
    let before = conn.load_system_gids().expect("load");
    let empty_mappings: Vec<(String, String, GlobalId, u64)> = Vec::new();
    conn.set_system_gids(&empty_mappings).expect("empty set");
    assert_eq!(conn.load_system_gids().expect("load"), before);
    let empty_sources: Vec<(i64, String, GlobalId)> = Vec::new();
    conn.set_introspection_source_index_gids(&empty_sources).expect("empty set");
    assert!(conn.load_introspection_source_index_gids(1).expect("load").is_empty());
}

#[test]
fn introspection_batch_rejects_collisions() {
    let mut conn = open_fresh();
    let first = vec![(1i64, "mz_active_peeks".to_string(), GlobalId::System(5048))];
    conn.set_introspection_source_index_gids(&first).expect("first set");
    // A key collision with an existing row propagates as a raw storage
    // error and leaves nothing of the batch behind.
    let clash = vec![
        (1i64, "mz_new_log".to_string(), GlobalId::System(5049)),
        (1i64, "mz_active_peeks".to_string(), GlobalId::System(5050)),
    ];
    assert!(matches!(
        conn.set_introspection_source_index_gids(&clash),
        Err(Error::Storage(_))
    ));
    let got = conn.load_introspection_source_index_gids(1).expect("load");
    assert_eq!(got, vec![("mz_active_peeks".to_string(), GlobalId::System(5048))]);
}

#[test]
fn system_mapping_batch_later_duplicate_wins() {
    let mut conn = open_fresh();
    let mappings = vec![
        ("mz_catalog".to_string(), "mz_widgets".to_string(), GlobalId::System(6000), 1u64),
        ("mz_catalog".to_string(), "mz_widgets".to_string(), GlobalId::System(6001), 2u64),
    ];
    conn.set_system_gids(&mappings).expect("set");
    let stored = conn.load_system_gids().expect("load");
    let row: Vec<_> = stored.iter().filter(|r| r.1 == "mz_widgets").collect();
    assert_eq!(row.len(), 1);
    assert_eq!(row[0].2, GlobalId::System(6001));
    assert_eq!(row[0].3, 2);
}
