//! Table metadata, transaction and log logic of a Delta Lake table.
use vstd::prelude::*;

pub mod action_row_laws;
pub mod action_schema_laws;
pub mod action_schemas;
pub mod actions;
pub mod alter_laws;
pub mod alter_table;
pub mod bindings;
pub mod checkpoint_read;
pub mod column_mapping;
pub mod commit;
pub mod commit_contents;
pub mod commit_cover;
pub mod commit_info;
pub mod commit_laws;
pub mod commit_path;
pub mod commit_plan;
pub mod commit_result;
pub mod configuration_laws;
pub mod crc;
pub mod create_table;
pub mod create_table_builder;
pub mod create_table_laws;
pub mod data_layout;
pub mod deletion_vector_path;
pub mod domain_changes;
pub mod dv_laws;
pub mod dv_update;
pub mod error;
pub mod evaluation;
pub mod evaluation_laws;
pub mod expressions;
pub mod file_order;
pub mod file_sizes;
pub mod file_stats;
pub mod log_read_laws;
pub mod log_segment;
pub mod log_validation;
pub mod mapping_laws;
pub mod path;
pub mod result_laws;
pub mod row_literals;
pub mod row_tracking;
pub mod scalars;
pub mod schema;
pub mod schema_change_laws;
pub mod schema_compare;
pub mod schema_json;
pub mod schema_laws;
pub mod schema_project;
pub mod schema_transform;
pub mod segment_laws;
pub mod segment_listing;
pub mod snapshot;
pub mod stats_laws;
pub mod stats_schema;
pub mod string_map;
pub mod table_configuration;
pub mod table_features;
pub mod table_properties;
pub mod text;
pub mod transaction;
pub mod update_table;

verus! {

/// The version number of a table.
pub type Version = u64;

/// The size of a file in bytes.
pub type FileSize = u64;

} // verus!
