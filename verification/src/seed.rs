//! The built-in object seed: the full static mapping of built-in system
//! objects (type names, logs, tables, views) to their pinned numeric
//! identifiers with fingerprint zero, exactly as the final migration inserts
//! it. The identifiers carry historical gaps, which are intentional and must
//! be reproduced as shipped.

use vstd::prelude::*;

verus! {

/// The view of a run of seed entries.
pub open spec fn seed_entries_view(s: Seq<(&'static str, &'static str, u64, u64)>) -> Seq<
    (Seq<char>, Seq<char>, int, int),
> {
    s.map_values(
        |e: (&'static str, &'static str, u64, u64)| (e.0@, e.1@, e.2 as int, e.3 as int),
    )
}

/// One block of the built-in object seed.
pub open spec fn seed_chunk_0() -> Seq<(Seq<char>, Seq<char>, int, int)> {
    seq![
        ("pg_catalog"@, "bool"@, 1000, 0),
        ("pg_catalog"@, "bytea"@, 1001, 0),
        ("pg_catalog"@, "int8"@, 1002, 0),
        ("pg_catalog"@, "int4"@, 1003, 0),
        ("pg_catalog"@, "text"@, 1004, 0),
        ("pg_catalog"@, "oid"@, 1005, 0),
        ("pg_catalog"@, "float4"@, 1006, 0),
        ("pg_catalog"@, "float8"@, 1007, 0),
        ("pg_catalog"@, "_bool"@, 1008, 0),
        ("pg_catalog"@, "_bytea"@, 1009, 0),
        ("pg_catalog"@, "_int4"@, 1010, 0),
        ("pg_catalog"@, "_text"@, 1011, 0),
        ("pg_catalog"@, "_int8"@, 1012, 0),
        ("pg_catalog"@, "_float4"@, 1013, 0),
        ("pg_catalog"@, "_float8"@, 1014, 0),
        ("pg_catalog"@, "_oid"@, 1015, 0),
        ("pg_catalog"@, "date"@, 1016, 0),
        ("pg_catalog"@, "time"@, 1017, 0),
        ("pg_catalog"@, "timestamp"@, 1018, 0),
        ("pg_catalog"@, "_timestamp"@, 1019, 0),
    ]
}

/// One block of the built-in object seed.
pub open spec fn seed_chunk_1() -> Seq<(Seq<char>, Seq<char>, int, int)> {
    seq![
        ("pg_catalog"@, "_date"@, 1020, 0),
        ("pg_catalog"@, "_time"@, 1021, 0),
        ("pg_catalog"@, "timestamptz"@, 1022, 0),
        ("pg_catalog"@, "_timestamptz"@, 1023, 0),
        ("pg_catalog"@, "interval"@, 1024, 0),
        ("pg_catalog"@, "_interval"@, 1025, 0),
        ("pg_catalog"@, "numeric"@, 1026, 0),
        ("pg_catalog"@, "_numeric"@, 1027, 0),
        ("pg_catalog"@, "record"@, 1028, 0),
        ("pg_catalog"@, "_record"@, 1029, 0),
        ("pg_catalog"@, "uuid"@, 1030, 0),
        ("pg_catalog"@, "_uuid"@, 1031, 0),
        ("pg_catalog"@, "jsonb"@, 1032, 0),
        ("pg_catalog"@, "_jsonb"@, 1033, 0),
        ("pg_catalog"@, "any"@, 1034, 0),
        ("pg_catalog"@, "anyarray"@, 1035, 0),
        ("pg_catalog"@, "anyelement"@, 1036, 0),
        ("pg_catalog"@, "anynonarray"@, 1037, 0),
        ("pg_catalog"@, "char"@, 1038, 0),
        ("pg_catalog"@, "varchar"@, 1039, 0),
    ]
}

/// One block of the built-in object seed.
pub open spec fn seed_chunk_2() -> Seq<(Seq<char>, Seq<char>, int, int)> {
    seq![
        ("pg_catalog"@, "int2"@, 1040, 0),
        ("pg_catalog"@, "_int2"@, 1041, 0),
        ("pg_catalog"@, "bpchar"@, 1042, 0),
        ("pg_catalog"@, "_char"@, 1043, 0),
        ("pg_catalog"@, "_varchar"@, 1044, 0),
        ("pg_catalog"@, "_bpchar"@, 1045, 0),
        ("pg_catalog"@, "regproc"@, 1046, 0),
        ("pg_catalog"@, "_regproc"@, 1047, 0),
        ("pg_catalog"@, "regtype"@, 1048, 0),
        ("pg_catalog"@, "_regtype"@, 1049, 0),
        ("pg_catalog"@, "regclass"@, 1050, 0),
        ("pg_catalog"@, "_regclass"@, 1051, 0),
        ("pg_catalog"@, "int2vector"@, 1052, 0),
        ("pg_catalog"@, "_int2vector"@, 1053, 0),
        ("pg_catalog"@, "anycompatible"@, 1054, 0),
        ("pg_catalog"@, "anycompatiblearray"@, 1055, 0),
        ("pg_catalog"@, "anycompatiblenonarray"@, 1056, 0),
        ("pg_catalog"@, "list"@, 1998, 0),
        ("pg_catalog"@, "map"@, 1999, 0),
        ("pg_catalog"@, "anycompatiblelist"@, 1997, 0),
    ]
}

/// One block of the built-in object seed.
pub open spec fn seed_chunk_3() -> Seq<(Seq<char>, Seq<char>, int, int)> {
    seq![
        ("pg_catalog"@, "anycompatiblemap"@, 1996, 0),
        ("mz_catalog"@, "mz_dataflow_operators"@, 3000, 0),
        ("mz_catalog"@, "mz_dataflow_operator_addresses"@, 3002, 0),
        ("mz_catalog"@, "mz_dataflow_channels"@, 3004, 0),
        ("mz_catalog"@, "mz_scheduling_elapsed_internal"@, 3006, 0),
        ("mz_catalog"@, "mz_scheduling_histogram_internal"@, 3008, 0),
        ("mz_catalog"@, "mz_scheduling_parks_internal"@, 3010, 0),
        ("mz_catalog"@, "mz_arrangement_batches_internal"@, 3012, 0),
        ("mz_catalog"@, "mz_arrangement_sharing_internal"@, 3014, 0),
        ("mz_catalog"@, "mz_materializations"@, 3016, 0),
        ("mz_catalog"@, "mz_materialization_dependencies"@, 3018, 0),
        ("mz_catalog"@, "mz_worker_materialization_frontiers"@, 3020, 0),
        ("mz_catalog"@, "mz_peek_active"@, 3022, 0),
        ("mz_catalog"@, "mz_peek_durations"@, 3024, 0),
        ("mz_catalog"@, "mz_source_info"@, 3026, 0),
        ("mz_catalog"@, "mz_message_counts_received_internal"@, 3028, 0),
        ("mz_catalog"@, "mz_message_counts_sent_internal"@, 3036, 0),
        ("mz_catalog"@, "mz_dataflow_operator_reachability_internal"@, 3034, 0),
        ("mz_catalog"@, "mz_arrangement_records_internal"@, 3038, 0),
        ("mz_catalog"@, "mz_kafka_source_statistics"@, 3040, 0),
    ]
}

/// One block of the built-in object seed.
pub open spec fn seed_chunk_4() -> Seq<(Seq<char>, Seq<char>, int, int)> {
    seq![
        ("mz_catalog"@, "mz_view_keys"@, 4001, 0),
        ("mz_catalog"@, "mz_view_foreign_keys"@, 4003, 0),
        ("mz_catalog"@, "mz_kafka_sinks"@, 4005, 0),
        ("mz_catalog"@, "mz_avro_ocf_sinks"@, 4007, 0),
        ("mz_catalog"@, "mz_databases"@, 4009, 0),
        ("mz_catalog"@, "mz_schemas"@, 4011, 0),
        ("mz_catalog"@, "mz_columns"@, 4013, 0),
        ("mz_catalog"@, "mz_indexes"@, 4015, 0),
        ("mz_catalog"@, "mz_index_columns"@, 4017, 0),
        ("mz_catalog"@, "mz_tables"@, 4019, 0),
        ("mz_catalog"@, "mz_sources"@, 4021, 0),
        ("mz_catalog"@, "mz_sinks"@, 4023, 0),
        ("mz_catalog"@, "mz_views"@, 4025, 0),
        ("mz_catalog"@, "mz_types"@, 4027, 0),
        ("mz_catalog"@, "mz_array_types"@, 4029, 0),
        ("mz_catalog"@, "mz_base_types"@, 4031, 0),
        ("mz_catalog"@, "mz_list_types"@, 4033, 0),
        ("mz_catalog"@, "mz_map_types"@, 4035, 0),
        ("mz_catalog"@, "mz_roles"@, 4037, 0),
        ("mz_catalog"@, "mz_pseudo_types"@, 4039, 0),
    ]
}

/// One block of the built-in object seed.
pub open spec fn seed_chunk_5() -> Seq<(Seq<char>, Seq<char>, int, int)> {
    seq![
        ("mz_catalog"@, "mz_functions"@, 4041, 0),
        ("mz_catalog"@, "mz_metrics"@, 4043, 0),
        ("mz_catalog"@, "mz_metrics_meta"@, 4045, 0),
        ("mz_catalog"@, "mz_metric_histograms"@, 4047, 0),
        ("mz_catalog"@, "mz_clusters"@, 4049, 0),
        ("mz_catalog"@, "mz_secrets"@, 4050, 0),
        ("mz_catalog"@, "mz_relations"@, 5000, 0),
        ("mz_catalog"@, "mz_objects"@, 5001, 0),
        ("mz_catalog"@, "mz_catalog_names"@, 5002, 0),
        ("mz_catalog"@, "mz_dataflow_names"@, 5003, 0),
        ("mz_catalog"@, "mz_dataflow_operator_dataflows"@, 5004, 0),
        ("mz_catalog"@, "mz_materialization_frontiers"@, 5005, 0),
        ("mz_catalog"@, "mz_records_per_dataflow_operator"@, 5006, 0),
        ("mz_catalog"@, "mz_records_per_dataflow"@, 5007, 0),
        ("mz_catalog"@, "mz_records_per_dataflow_global"@, 5008, 0),
        ("mz_catalog"@, "mz_perf_arrangement_records"@, 5009, 0),
        ("mz_catalog"@, "mz_perf_peek_durations_core"@, 5010, 0),
        ("mz_catalog"@, "mz_perf_peek_durations_bucket"@, 5011, 0),
        ("mz_catalog"@, "mz_perf_peek_durations_aggregates"@, 5012, 0),
        ("mz_catalog"@, "mz_perf_dependency_frontiers"@, 5013, 0),
    ]
}

/// One block of the built-in object seed.
pub open spec fn seed_chunk_6() -> Seq<(Seq<char>, Seq<char>, int, int)> {
    seq![
        ("pg_catalog"@, "pg_namespace"@, 5014, 0),
        ("pg_catalog"@, "pg_class"@, 5015, 0),
        ("pg_catalog"@, "pg_database"@, 5016, 0),
        ("pg_catalog"@, "pg_index"@, 5017, 0),
        ("pg_catalog"@, "pg_description"@, 5018, 0),
        ("pg_catalog"@, "pg_type"@, 5019, 0),
        ("pg_catalog"@, "pg_attribute"@, 5020, 0),
        ("pg_catalog"@, "pg_proc"@, 5021, 0),
        ("pg_catalog"@, "pg_range"@, 5022, 0),
        ("pg_catalog"@, "pg_enum"@, 5023, 0),
        ("pg_catalog"@, "pg_attrdef"@, 5025, 0),
        ("pg_catalog"@, "pg_settings"@, 5026, 0),
        ("mz_catalog"@, "mz_scheduling_elapsed"@, 5027, 0),
        ("mz_catalog"@, "mz_scheduling_histogram"@, 5028, 0),
        ("mz_catalog"@, "mz_scheduling_parks"@, 5029, 0),
        ("mz_catalog"@, "mz_message_counts"@, 5030, 0),
        ("mz_catalog"@, "mz_dataflow_operator_reachability"@, 5031, 0),
        ("mz_catalog"@, "mz_arrangement_sizes"@, 5032, 0),
        ("mz_catalog"@, "mz_arrangement_sharing"@, 5033, 0),
        ("pg_catalog"@, "pg_constraint"@, 5034, 0),
    ]
}

/// One block of the built-in object seed.
pub open spec fn seed_chunk_7() -> Seq<(Seq<char>, Seq<char>, int, int)> {
    seq![
        ("pg_catalog"@, "pg_tables"@, 5035, 0),
        ("pg_catalog"@, "pg_am"@, 5036, 0),
        ("pg_catalog"@, "pg_roles"@, 5037, 0),
        ("pg_catalog"@, "pg_views"@, 5038, 0),
        ("information_schema"@, "columns"@, 5039, 0),
        ("information_schema"@, "tables"@, 5040, 0),
        ("pg_catalog"@, "pg_collation"@, 5041, 0),
        ("pg_catalog"@, "pg_policy"@, 5042, 0),
        ("pg_catalog"@, "pg_inherits"@, 5043, 0),
    ]
}

/// The whole built-in object seed, in insertion order.
pub open spec fn builtin_seed() -> Seq<(Seq<char>, Seq<char>, int, int)> {
    seed_chunk_0() + seed_chunk_1() + seed_chunk_2() + seed_chunk_3() + seed_chunk_4()
        + seed_chunk_5() + seed_chunk_6() + seed_chunk_7()
}

/// One block of the built-in object seed (runtime form).
fn seed_chunk_0_vec() -> (v: Vec<(&'static str, &'static str, u64, u64)>)
    ensures
        seed_entries_view(v@) == seed_chunk_0(),
{
    let mut v: Vec<(&'static str, &'static str, u64, u64)> = Vec::new();
    v.push(("pg_catalog", "bool", 1000, 0));
    v.push(("pg_catalog", "bytea", 1001, 0));
    v.push(("pg_catalog", "int8", 1002, 0));
    v.push(("pg_catalog", "int4", 1003, 0));
    v.push(("pg_catalog", "text", 1004, 0));
    v.push(("pg_catalog", "oid", 1005, 0));
    v.push(("pg_catalog", "float4", 1006, 0));
    v.push(("pg_catalog", "float8", 1007, 0));
    v.push(("pg_catalog", "_bool", 1008, 0));
    v.push(("pg_catalog", "_bytea", 1009, 0));
    v.push(("pg_catalog", "_int4", 1010, 0));
    v.push(("pg_catalog", "_text", 1011, 0));
    v.push(("pg_catalog", "_int8", 1012, 0));
    v.push(("pg_catalog", "_float4", 1013, 0));
    v.push(("pg_catalog", "_float8", 1014, 0));
    v.push(("pg_catalog", "_oid", 1015, 0));
    v.push(("pg_catalog", "date", 1016, 0));
    v.push(("pg_catalog", "time", 1017, 0));
    v.push(("pg_catalog", "timestamp", 1018, 0));
    v.push(("pg_catalog", "_timestamp", 1019, 0));
    proof {
        assert(seed_entries_view(v@) =~= seed_chunk_0());
    }
    v
}

/// One block of the built-in object seed (runtime form).
fn seed_chunk_1_vec() -> (v: Vec<(&'static str, &'static str, u64, u64)>)
    ensures
        seed_entries_view(v@) == seed_chunk_1(),
{
    let mut v: Vec<(&'static str, &'static str, u64, u64)> = Vec::new();
    v.push(("pg_catalog", "_date", 1020, 0));
    v.push(("pg_catalog", "_time", 1021, 0));
    v.push(("pg_catalog", "timestamptz", 1022, 0));
    v.push(("pg_catalog", "_timestamptz", 1023, 0));
    v.push(("pg_catalog", "interval", 1024, 0));
    v.push(("pg_catalog", "_interval", 1025, 0));
    v.push(("pg_catalog", "numeric", 1026, 0));
    v.push(("pg_catalog", "_numeric", 1027, 0));
    v.push(("pg_catalog", "record", 1028, 0));
    v.push(("pg_catalog", "_record", 1029, 0));
    v.push(("pg_catalog", "uuid", 1030, 0));
    v.push(("pg_catalog", "_uuid", 1031, 0));
    v.push(("pg_catalog", "jsonb", 1032, 0));
    v.push(("pg_catalog", "_jsonb", 1033, 0));
    v.push(("pg_catalog", "any", 1034, 0));
    v.push(("pg_catalog", "anyarray", 1035, 0));
    v.push(("pg_catalog", "anyelement", 1036, 0));
    v.push(("pg_catalog", "anynonarray", 1037, 0));
    v.push(("pg_catalog", "char", 1038, 0));
    v.push(("pg_catalog", "varchar", 1039, 0));
    proof {
        assert(seed_entries_view(v@) =~= seed_chunk_1());
    }
    v
}

/// One block of the built-in object seed (runtime form).
fn seed_chunk_2_vec() -> (v: Vec<(&'static str, &'static str, u64, u64)>)
    ensures
        seed_entries_view(v@) == seed_chunk_2(),
{
    let mut v: Vec<(&'static str, &'static str, u64, u64)> = Vec::new();
    v.push(("pg_catalog", "int2", 1040, 0));
    v.push(("pg_catalog", "_int2", 1041, 0));
    v.push(("pg_catalog", "bpchar", 1042, 0));
    v.push(("pg_catalog", "_char", 1043, 0));
    v.push(("pg_catalog", "_varchar", 1044, 0));
    v.push(("pg_catalog", "_bpchar", 1045, 0));
    v.push(("pg_catalog", "regproc", 1046, 0));
    v.push(("pg_catalog", "_regproc", 1047, 0));
    v.push(("pg_catalog", "regtype", 1048, 0));
    v.push(("pg_catalog", "_regtype", 1049, 0));
    v.push(("pg_catalog", "regclass", 1050, 0));
    v.push(("pg_catalog", "_regclass", 1051, 0));
    v.push(("pg_catalog", "int2vector", 1052, 0));
    v.push(("pg_catalog", "_int2vector", 1053, 0));
    v.push(("pg_catalog", "anycompatible", 1054, 0));
    v.push(("pg_catalog", "anycompatiblearray", 1055, 0));
    v.push(("pg_catalog", "anycompatiblenonarray", 1056, 0));
    v.push(("pg_catalog", "list", 1998, 0));
    v.push(("pg_catalog", "map", 1999, 0));
    v.push(("pg_catalog", "anycompatiblelist", 1997, 0));
    proof {
        assert(seed_entries_view(v@) =~= seed_chunk_2());
    }
    v
}

/// One block of the built-in object seed (runtime form).
fn seed_chunk_3_vec() -> (v: Vec<(&'static str, &'static str, u64, u64)>)
    ensures
        seed_entries_view(v@) == seed_chunk_3(),
{
    let mut v: Vec<(&'static str, &'static str, u64, u64)> = Vec::new();
    v.push(("pg_catalog", "anycompatiblemap", 1996, 0));
    v.push(("mz_catalog", "mz_dataflow_operators", 3000, 0));
    v.push(("mz_catalog", "mz_dataflow_operator_addresses", 3002, 0));
    v.push(("mz_catalog", "mz_dataflow_channels", 3004, 0));
    v.push(("mz_catalog", "mz_scheduling_elapsed_internal", 3006, 0));
    v.push(("mz_catalog", "mz_scheduling_histogram_internal", 3008, 0));
    v.push(("mz_catalog", "mz_scheduling_parks_internal", 3010, 0));
    v.push(("mz_catalog", "mz_arrangement_batches_internal", 3012, 0));
    v.push(("mz_catalog", "mz_arrangement_sharing_internal", 3014, 0));
    v.push(("mz_catalog", "mz_materializations", 3016, 0));
    v.push(("mz_catalog", "mz_materialization_dependencies", 3018, 0));
    v.push(("mz_catalog", "mz_worker_materialization_frontiers", 3020, 0));
    v.push(("mz_catalog", "mz_peek_active", 3022, 0));
    v.push(("mz_catalog", "mz_peek_durations", 3024, 0));
    v.push(("mz_catalog", "mz_source_info", 3026, 0));
    v.push(("mz_catalog", "mz_message_counts_received_internal", 3028, 0));
    v.push(("mz_catalog", "mz_message_counts_sent_internal", 3036, 0));
    v.push(("mz_catalog", "mz_dataflow_operator_reachability_internal", 3034, 0));
    v.push(("mz_catalog", "mz_arrangement_records_internal", 3038, 0));
    v.push(("mz_catalog", "mz_kafka_source_statistics", 3040, 0));
    proof {
        assert(seed_entries_view(v@) =~= seed_chunk_3());
    }
    v
}

/// One block of the built-in object seed (runtime form).
fn seed_chunk_4_vec() -> (v: Vec<(&'static str, &'static str, u64, u64)>)
    ensures
        seed_entries_view(v@) == seed_chunk_4(),
{
    let mut v: Vec<(&'static str, &'static str, u64, u64)> = Vec::new();
    v.push(("mz_catalog", "mz_view_keys", 4001, 0));
    v.push(("mz_catalog", "mz_view_foreign_keys", 4003, 0));
    v.push(("mz_catalog", "mz_kafka_sinks", 4005, 0));
    v.push(("mz_catalog", "mz_avro_ocf_sinks", 4007, 0));
    v.push(("mz_catalog", "mz_databases", 4009, 0));
    v.push(("mz_catalog", "mz_schemas", 4011, 0));
    v.push(("mz_catalog", "mz_columns", 4013, 0));
    v.push(("mz_catalog", "mz_indexes", 4015, 0));
    v.push(("mz_catalog", "mz_index_columns", 4017, 0));
    v.push(("mz_catalog", "mz_tables", 4019, 0));
    v.push(("mz_catalog", "mz_sources", 4021, 0));
    v.push(("mz_catalog", "mz_sinks", 4023, 0));
    v.push(("mz_catalog", "mz_views", 4025, 0));
    v.push(("mz_catalog", "mz_types", 4027, 0));
    v.push(("mz_catalog", "mz_array_types", 4029, 0));
    v.push(("mz_catalog", "mz_base_types", 4031, 0));
    v.push(("mz_catalog", "mz_list_types", 4033, 0));
    v.push(("mz_catalog", "mz_map_types", 4035, 0));
    v.push(("mz_catalog", "mz_roles", 4037, 0));
    v.push(("mz_catalog", "mz_pseudo_types", 4039, 0));
    proof {
        assert(seed_entries_view(v@) =~= seed_chunk_4());
    }
    v
}

/// One block of the built-in object seed (runtime form).
fn seed_chunk_5_vec() -> (v: Vec<(&'static str, &'static str, u64, u64)>)
    ensures
        seed_entries_view(v@) == seed_chunk_5(),
{
    let mut v: Vec<(&'static str, &'static str, u64, u64)> = Vec::new();
    v.push(("mz_catalog", "mz_functions", 4041, 0));
    v.push(("mz_catalog", "mz_metrics", 4043, 0));
    v.push(("mz_catalog", "mz_metrics_meta", 4045, 0));
    v.push(("mz_catalog", "mz_metric_histograms", 4047, 0));
    v.push(("mz_catalog", "mz_clusters", 4049, 0));
    v.push(("mz_catalog", "mz_secrets", 4050, 0));
    v.push(("mz_catalog", "mz_relations", 5000, 0));
    v.push(("mz_catalog", "mz_objects", 5001, 0));
    v.push(("mz_catalog", "mz_catalog_names", 5002, 0));
    v.push(("mz_catalog", "mz_dataflow_names", 5003, 0));
    v.push(("mz_catalog", "mz_dataflow_operator_dataflows", 5004, 0));
    v.push(("mz_catalog", "mz_materialization_frontiers", 5005, 0));
    v.push(("mz_catalog", "mz_records_per_dataflow_operator", 5006, 0));
    v.push(("mz_catalog", "mz_records_per_dataflow", 5007, 0));
    v.push(("mz_catalog", "mz_records_per_dataflow_global", 5008, 0));
    v.push(("mz_catalog", "mz_perf_arrangement_records", 5009, 0));
    v.push(("mz_catalog", "mz_perf_peek_durations_core", 5010, 0));
    v.push(("mz_catalog", "mz_perf_peek_durations_bucket", 5011, 0));
    v.push(("mz_catalog", "mz_perf_peek_durations_aggregates", 5012, 0));
    v.push(("mz_catalog", "mz_perf_dependency_frontiers", 5013, 0));
    proof {
        assert(seed_entries_view(v@) =~= seed_chunk_5());
    }
    v
}

/// One block of the built-in object seed (runtime form).
fn seed_chunk_6_vec() -> (v: Vec<(&'static str, &'static str, u64, u64)>)
    ensures
        seed_entries_view(v@) == seed_chunk_6(),
{
    let mut v: Vec<(&'static str, &'static str, u64, u64)> = Vec::new();
    v.push(("pg_catalog", "pg_namespace", 5014, 0));
    v.push(("pg_catalog", "pg_class", 5015, 0));
    v.push(("pg_catalog", "pg_database", 5016, 0));
    v.push(("pg_catalog", "pg_index", 5017, 0));
    v.push(("pg_catalog", "pg_description", 5018, 0));
    v.push(("pg_catalog", "pg_type", 5019, 0));
    v.push(("pg_catalog", "pg_attribute", 5020, 0));
    v.push(("pg_catalog", "pg_proc", 5021, 0));
    v.push(("pg_catalog", "pg_range", 5022, 0));
    v.push(("pg_catalog", "pg_enum", 5023, 0));
    v.push(("pg_catalog", "pg_attrdef", 5025, 0));
    v.push(("pg_catalog", "pg_settings", 5026, 0));
    v.push(("mz_catalog", "mz_scheduling_elapsed", 5027, 0));
    v.push(("mz_catalog", "mz_scheduling_histogram", 5028, 0));
    v.push(("mz_catalog", "mz_scheduling_parks", 5029, 0));
    v.push(("mz_catalog", "mz_message_counts", 5030, 0));
    v.push(("mz_catalog", "mz_dataflow_operator_reachability", 5031, 0));
    v.push(("mz_catalog", "mz_arrangement_sizes", 5032, 0));
    v.push(("mz_catalog", "mz_arrangement_sharing", 5033, 0));
    v.push(("pg_catalog", "pg_constraint", 5034, 0));
    proof {
        assert(seed_entries_view(v@) =~= seed_chunk_6());
    }
    v
}

/// One block of the built-in object seed (runtime form).
fn seed_chunk_7_vec() -> (v: Vec<(&'static str, &'static str, u64, u64)>)
    ensures
        seed_entries_view(v@) == seed_chunk_7(),
{
    let mut v: Vec<(&'static str, &'static str, u64, u64)> = Vec::new();
    v.push(("pg_catalog", "pg_tables", 5035, 0));
    v.push(("pg_catalog", "pg_am", 5036, 0));
    v.push(("pg_catalog", "pg_roles", 5037, 0));
    v.push(("pg_catalog", "pg_views", 5038, 0));
    v.push(("information_schema", "columns", 5039, 0));
    v.push(("information_schema", "tables", 5040, 0));
    v.push(("pg_catalog", "pg_collation", 5041, 0));
    v.push(("pg_catalog", "pg_policy", 5042, 0));
    v.push(("pg_catalog", "pg_inherits", 5043, 0));
    proof {
        assert(seed_entries_view(v@) =~= seed_chunk_7());
    }
    v
}

/// The whole built-in object seed (runtime form).
pub fn builtin_mappings() -> (v: Vec<(&'static str, &'static str, u64, u64)>)
    ensures
        seed_entries_view(v@) == builtin_seed(),
{
    let mut v = seed_chunk_0_vec();
    let mut c1 = seed_chunk_1_vec();
    v.append(&mut c1);
    proof {
        assert(seed_entries_view(v@) =~= seed_chunk_0() + seed_chunk_1());
    }
    let mut c2 = seed_chunk_2_vec();
    v.append(&mut c2);
    proof {
        assert(seed_entries_view(v@) =~= seed_chunk_0() + seed_chunk_1() + seed_chunk_2());
    }
    let mut c3 = seed_chunk_3_vec();
    v.append(&mut c3);
    proof {
        assert(seed_entries_view(v@) =~= seed_chunk_0() + seed_chunk_1() + seed_chunk_2()
            + seed_chunk_3());
    }
    let mut c4 = seed_chunk_4_vec();
    v.append(&mut c4);
    proof {
        assert(seed_entries_view(v@) =~= seed_chunk_0() + seed_chunk_1() + seed_chunk_2()
            + seed_chunk_3() + seed_chunk_4());
    }
    let mut c5 = seed_chunk_5_vec();
    v.append(&mut c5);
    proof {
        assert(seed_entries_view(v@) =~= seed_chunk_0() + seed_chunk_1() + seed_chunk_2()
            + seed_chunk_3() + seed_chunk_4() + seed_chunk_5());
    }
    let mut c6 = seed_chunk_6_vec();
    v.append(&mut c6);
    proof {
        assert(seed_entries_view(v@) =~= seed_chunk_0() + seed_chunk_1() + seed_chunk_2()
            + seed_chunk_3() + seed_chunk_4() + seed_chunk_5() + seed_chunk_6());
    }
    let mut c7 = seed_chunk_7_vec();
    v.append(&mut c7);
    proof {
        assert(seed_entries_view(v@) =~= builtin_seed());
    }
    v
}

} // verus!
