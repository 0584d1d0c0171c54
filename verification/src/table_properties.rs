//! The typed properties of a table.
use vstd::prelude::*;

use crate::expressions::{self, clone_columns, parse_column_list, ColumnName};
use crate::string_map::StringMap;
use crate::table_features::{self, ColumnMappingMode};
use crate::text::{self, parse_signed, parse_unsigned, same_text};
use crate::Version;

verus! {

pub const DELTA_PROPERTY_PREFIX: &'static str = "delta.";

pub const APPEND_ONLY: &'static str = "delta.appendOnly";

pub const CHECKPOINT_WRITE_STATS_AS_JSON: &'static str = "delta.checkpoint.writeStatsAsJson";

pub const CHECKPOINT_WRITE_STATS_AS_STRUCT: &'static str = "delta.checkpoint.writeStatsAsStruct";

pub const COLUMN_MAPPING_MODE: &'static str = "delta.columnMapping.mode";

pub const COLUMN_MAPPING_MAX_COLUMN_ID: &'static str = "delta.columnMapping.maxColumnId";

pub const DATA_SKIPPING_NUM_INDEXED_COLS: &'static str = "delta.dataSkippingNumIndexedCols";

pub const DATA_SKIPPING_STATS_COLUMNS: &'static str = "delta.dataSkippingStatsColumns";

pub const ENABLE_CHANGE_DATA_FEED: &'static str = "delta.enableChangeDataFeed";

pub const ENABLE_DELETION_VECTORS: &'static str = "delta.enableDeletionVectors";

pub const ENABLE_ICEBERG_COMPAT_V1: &'static str = "delta.enableIcebergCompatV1";

pub const ENABLE_IN_COMMIT_TIMESTAMPS: &'static str = "delta.enableInCommitTimestamps";

pub const ENABLE_ROW_TRACKING: &'static str = "delta.enableRowTracking";

pub const ENABLE_TYPE_WIDENING: &'static str = "delta.enableTypeWidening";

pub const IN_COMMIT_TIMESTAMP_ENABLEMENT_VERSION: &'static str = "delta.inCommitTimestampEnablementVersion";

pub const IN_COMMIT_TIMESTAMP_ENABLEMENT_TIMESTAMP: &'static str =
    "delta.inCommitTimestampEnablementTimestamp";

pub const ROW_TRACKING_SUSPENDED: &'static str = "delta.rowTrackingSuspended";

pub const SET_TRANSACTION_RETENTION_DURATION: &'static str = "delta.setTransactionRetentionDuration";

/// How many leaf columns have statistics when no columns are named.
#[derive(Debug, Clone, Copy, PartialEq, Eq, Structural)]
pub enum DataSkippingNumIndexedCols {
    AllColumns,
    NumColumns(u64),
}

/// The properties of a table by type. What is not a property with a type of its own, or has a
/// value that cannot be read, is kept as it is.
#[derive(Debug, PartialEq, Eq)]
pub struct TableProperties {
    pub append_only: Option<bool>,
    pub checkpoint_write_stats_as_json: Option<bool>,
    pub checkpoint_write_stats_as_struct: Option<bool>,
    pub enable_change_data_feed: Option<bool>,
    pub enable_deletion_vectors: Option<bool>,
    pub enable_in_commit_timestamps: Option<bool>,
    pub enable_row_tracking: Option<bool>,
    pub row_tracking_suspended: Option<bool>,
    pub enable_type_widening: Option<bool>,
    pub column_mapping_mode: Option<ColumnMappingMode>,
    pub data_skipping_num_indexed_cols: Option<DataSkippingNumIndexedCols>,
    pub in_commit_timestamp_enablement_version: Option<Version>,
    pub in_commit_timestamp_enablement_timestamp: Option<i64>,
    pub data_skipping_stats_columns: Option<Vec<ColumnName>>,
    pub unknown_properties: StringMap<String>,
}

/// The mathematical value of [`TableProperties`].
pub struct TablePropertiesView {
    pub append_only: Option<bool>,
    pub checkpoint_write_stats_as_json: Option<bool>,
    pub checkpoint_write_stats_as_struct: Option<bool>,
    pub enable_change_data_feed: Option<bool>,
    pub enable_deletion_vectors: Option<bool>,
    pub enable_in_commit_timestamps: Option<bool>,
    pub enable_row_tracking: Option<bool>,
    pub row_tracking_suspended: Option<bool>,
    pub enable_type_widening: Option<bool>,
    pub column_mapping_mode: Option<ColumnMappingMode>,
    pub data_skipping_num_indexed_cols: Option<DataSkippingNumIndexedCols>,
    pub in_commit_timestamp_enablement_version: Option<Version>,
    pub in_commit_timestamp_enablement_timestamp: Option<i64>,
    pub data_skipping_stats_columns: Option<Seq<Seq<Seq<char>>>>,
    pub unknown_properties: Map<Seq<char>, Seq<char>>,
}

impl View for TableProperties {
    type V = TablePropertiesView;

    open spec fn view(&self) -> TablePropertiesView {
        TablePropertiesView {
            append_only: self.append_only,
            checkpoint_write_stats_as_json: self.checkpoint_write_stats_as_json,
            checkpoint_write_stats_as_struct: self.checkpoint_write_stats_as_struct,
            enable_change_data_feed: self.enable_change_data_feed,
            enable_deletion_vectors: self.enable_deletion_vectors,
            enable_in_commit_timestamps: self.enable_in_commit_timestamps,
            enable_row_tracking: self.enable_row_tracking,
            row_tracking_suspended: self.row_tracking_suspended,
            enable_type_widening: self.enable_type_widening,
            column_mapping_mode: self.column_mapping_mode,
            data_skipping_num_indexed_cols: self.data_skipping_num_indexed_cols,
            in_commit_timestamp_enablement_version: self.in_commit_timestamp_enablement_version,
            in_commit_timestamp_enablement_timestamp: self.in_commit_timestamp_enablement_timestamp,
            data_skipping_stats_columns: expressions::opt_columns(self.data_skipping_stats_columns),
            unknown_properties: self.unknown_properties@,
        }
    }
}

/// The flag that a text stands for.
pub open spec fn bool_of(s: Seq<char>) -> Option<bool> {
    if s == "true"@ {
        Some(true)
    } else if s == "false"@ {
        Some(false)
    } else {
        None
    }
}

/// The number of indexed columns that a text stands for: `-1` for all of them.
pub open spec fn indexed_cols_of(s: Seq<char>) -> Option<DataSkippingNumIndexedCols> {
    match text::parsed_signed(s) {
        Some(n) => if n == -1 {
            Some(DataSkippingNumIndexedCols::AllColumns)
        } else if n >= 0 {
            Some(DataSkippingNumIndexedCols::NumColumns(n as u64))
        } else {
            None
        },
        None => None,
    }
}

/// Whether a property has a type of its own and a value that can be read.
pub open spec fn recognised(key: Seq<char>, value: Seq<char>) -> bool {
    if key == APPEND_ONLY@
        || key == CHECKPOINT_WRITE_STATS_AS_JSON@
        || key == CHECKPOINT_WRITE_STATS_AS_STRUCT@
        || key == ENABLE_CHANGE_DATA_FEED@
        || key == ENABLE_DELETION_VECTORS@
        || key == ENABLE_IN_COMMIT_TIMESTAMPS@
        || key == ENABLE_ROW_TRACKING@
        || key == ROW_TRACKING_SUSPENDED@
        || key == ENABLE_TYPE_WIDENING@ {
        bool_of(value) is Some
    } else if key == COLUMN_MAPPING_MODE@ {
        table_features::mode_of_name(value) is Some
    } else if key == DATA_SKIPPING_NUM_INDEXED_COLS@ {
        indexed_cols_of(value) is Some
    } else if key == IN_COMMIT_TIMESTAMP_ENABLEMENT_VERSION@ {
        text::parsed_unsigned(value) is Some
    } else if key == IN_COMMIT_TIMESTAMP_ENABLEMENT_TIMESTAMP@ {
        text::parsed_signed(value) is Some
    } else if key == DATA_SKIPPING_STATS_COLUMNS@ {
        expressions::column_list_of(value) is Some
    } else {
        false
    }
}

/// The flag that a property holds.
pub open spec fn bool_property(config: Map<Seq<char>, Seq<char>>, key: Seq<char>) -> Option<bool> {
    if config.dom().contains(key) {
        bool_of(config[key])
    } else {
        None
    }
}

/// The properties that a configuration holds.
pub open spec fn properties_of(config: Map<Seq<char>, Seq<char>>) -> TablePropertiesView {
    TablePropertiesView {
        append_only: bool_property(config, APPEND_ONLY@),
        checkpoint_write_stats_as_json: bool_property(config, CHECKPOINT_WRITE_STATS_AS_JSON@),
        checkpoint_write_stats_as_struct: bool_property(config, CHECKPOINT_WRITE_STATS_AS_STRUCT@),
        enable_change_data_feed: bool_property(config, ENABLE_CHANGE_DATA_FEED@),
        enable_deletion_vectors: bool_property(config, ENABLE_DELETION_VECTORS@),
        enable_in_commit_timestamps: bool_property(config, ENABLE_IN_COMMIT_TIMESTAMPS@),
        enable_row_tracking: bool_property(config, ENABLE_ROW_TRACKING@),
        row_tracking_suspended: bool_property(config, ROW_TRACKING_SUSPENDED@),
        enable_type_widening: bool_property(config, ENABLE_TYPE_WIDENING@),
        column_mapping_mode: if config.dom().contains(COLUMN_MAPPING_MODE@) {
            table_features::mode_of_name(config[COLUMN_MAPPING_MODE@])
        } else {
            None
        },
        data_skipping_num_indexed_cols: if config.dom().contains(DATA_SKIPPING_NUM_INDEXED_COLS@) {
            indexed_cols_of(config[DATA_SKIPPING_NUM_INDEXED_COLS@])
        } else {
            None
        },
        in_commit_timestamp_enablement_version: if config.dom().contains(IN_COMMIT_TIMESTAMP_ENABLEMENT_VERSION@) {
            text::parsed_unsigned(config[IN_COMMIT_TIMESTAMP_ENABLEMENT_VERSION@])
        } else {
            None
        },
        in_commit_timestamp_enablement_timestamp: if config.dom().contains(IN_COMMIT_TIMESTAMP_ENABLEMENT_TIMESTAMP@) {
            text::parsed_signed(config[IN_COMMIT_TIMESTAMP_ENABLEMENT_TIMESTAMP@])
        } else {
            None
        },
        data_skipping_stats_columns: if config.dom().contains(DATA_SKIPPING_STATS_COLUMNS@) {
            expressions::column_list_of(config[DATA_SKIPPING_STATS_COLUMNS@])
        } else {
            None
        },
        unknown_properties: config.restrict(
            Set::new(|k: Seq<char>| config.dom().contains(k) && !recognised(k, config[k])),
        ),
    }
}

/// Reads a flag.
pub fn parse_bool(s: &str) -> (r: Option<bool>)
    ensures
        r == bool_of(s@),
{
    if same_text(s, "true") {
        Some(true)
    } else if same_text(s, "false") {
        Some(false)
    } else {
        None
    }
}

/// Reads a number of indexed columns.
pub fn parse_indexed_cols(s: &str) -> (r: Option<DataSkippingNumIndexedCols>)
    ensures
        r == indexed_cols_of(s@),
{
    match parse_signed(s) {
        Some(n) => if n == -1 {
            Some(DataSkippingNumIndexedCols::AllColumns)
        } else if n >= 0 {
            Some(DataSkippingNumIndexedCols::NumColumns(n as u64))
        } else {
            None
        },
        None => None,
    }
}

/// Reads the flag of a property.
fn read_bool(config: &StringMap<String>, key: &str) -> (r: Option<bool>)
    ensures
        r == bool_property(config@, key@),
{
    match config.get(key) {
        Some(v) => parse_bool(v.as_str()),
        None => None,
    }
}

/// Whether a property has a type of its own and a value that can be read.
fn is_recognised(key: &str, value: &str) -> (r: bool)
    ensures
        r == recognised(key@, value@),
{
    if same_text(key, APPEND_ONLY)
        || same_text(key, CHECKPOINT_WRITE_STATS_AS_JSON)
        || same_text(key, CHECKPOINT_WRITE_STATS_AS_STRUCT)
        || same_text(key, ENABLE_CHANGE_DATA_FEED)
        || same_text(key, ENABLE_DELETION_VECTORS)
        || same_text(key, ENABLE_IN_COMMIT_TIMESTAMPS)
        || same_text(key, ENABLE_ROW_TRACKING)
        || same_text(key, ROW_TRACKING_SUSPENDED)
        || same_text(key, ENABLE_TYPE_WIDENING) {
        parse_bool(value).is_some()
    } else if same_text(key, COLUMN_MAPPING_MODE) {
        ColumnMappingMode::parse(value).is_some()
    } else if same_text(key, DATA_SKIPPING_NUM_INDEXED_COLS) {
        parse_indexed_cols(value).is_some()
    } else if same_text(key, IN_COMMIT_TIMESTAMP_ENABLEMENT_VERSION) {
        parse_unsigned(value).is_some()
    } else if same_text(key, IN_COMMIT_TIMESTAMP_ENABLEMENT_TIMESTAMP) {
        parse_signed(value).is_some()
    } else if same_text(key, DATA_SKIPPING_STATS_COLUMNS) {
        parse_column_list(value).is_some()
    } else {
        false
    }
}

impl TableProperties {
    /// Reads the properties of a configuration. Nothing fails: what cannot be read is kept as it
    /// is.
    pub fn from(config: &StringMap<String>) -> (r: TableProperties)
        ensures
            r@ == properties_of(config@),
    {
        let mut unknown: StringMap<String> = StringMap::new();
        let n: usize = config.len();
        let mut i: usize = 0;
        let ghost keys = config.keys();
        while i < n
            invariant
                i <= n == config.keys().len(),
                keys == config.keys(),
                keys.no_duplicates(),
                forall|k: Seq<char>| keys.contains(k) <==> config@.dom().contains(k),
                forall|k: Seq<char>| #[trigger]
                    unknown@.dom().contains(k) <==> keys.take(i as int).contains(k) && !recognised(
                        k,
                        config@[k],
                    ),
                forall|k: Seq<char>| #[trigger]
                    unknown@.dom().contains(k) ==> unknown@[k] == config@[k],
            decreases n - i,
        {
            let key = config.key_at(i);
            let value = config.value_at(i);
            proof {
                assert(keys.take(i + 1) =~= keys.take(i as int).push(key@));
                assert forall|k: Seq<char>| keys.take(i + 1).contains(k) <==> (keys.take(
                    i as int,
                ).contains(k) || k == key@) by {
                    if keys.take(i as int).contains(k) {
                        let j = keys.take(i as int).index_of(k);
                        assert(keys.take(i + 1)[j] == k);
                    }
                    assert(keys.take(i + 1)[i as int] == key@);
                }
            }
            if !is_recognised(key.as_str(), value.as_str()) {
                unknown.insert(key.clone(), value.clone());
            }
            i += 1;
        }
        assert(keys.take(n as int) =~= keys);
        assert(unknown@ =~= properties_of(config@).unknown_properties);
        TableProperties {
            append_only: read_bool(config, APPEND_ONLY),
            checkpoint_write_stats_as_json: read_bool(config, CHECKPOINT_WRITE_STATS_AS_JSON),
            checkpoint_write_stats_as_struct: read_bool(config, CHECKPOINT_WRITE_STATS_AS_STRUCT),
            enable_change_data_feed: read_bool(config, ENABLE_CHANGE_DATA_FEED),
            enable_deletion_vectors: read_bool(config, ENABLE_DELETION_VECTORS),
            enable_in_commit_timestamps: read_bool(config, ENABLE_IN_COMMIT_TIMESTAMPS),
            enable_row_tracking: read_bool(config, ENABLE_ROW_TRACKING),
            row_tracking_suspended: read_bool(config, ROW_TRACKING_SUSPENDED),
            enable_type_widening: read_bool(config, ENABLE_TYPE_WIDENING),
            column_mapping_mode: match config.get(COLUMN_MAPPING_MODE) {
                Some(v) => ColumnMappingMode::parse(v.as_str()),
                None => None,
            },
            data_skipping_num_indexed_cols: match config.get(DATA_SKIPPING_NUM_INDEXED_COLS) {
                Some(v) => parse_indexed_cols(v.as_str()),
                None => None,
            },
            in_commit_timestamp_enablement_version: match config.get(IN_COMMIT_TIMESTAMP_ENABLEMENT_VERSION) {
                Some(v) => parse_unsigned(v.as_str()),
                None => None,
            },
            in_commit_timestamp_enablement_timestamp: match config.get(IN_COMMIT_TIMESTAMP_ENABLEMENT_TIMESTAMP) {
                Some(v) => parse_signed(v.as_str()),
                None => None,
            },
            data_skipping_stats_columns: match config.get(DATA_SKIPPING_STATS_COLUMNS) {
                Some(v) => parse_column_list(v.as_str()),
                None => None,
            },
            unknown_properties: unknown,
        }
    }
}

/// No properties at all.
pub open spec fn no_properties() -> TablePropertiesView {
    TablePropertiesView {
        append_only: None,
        checkpoint_write_stats_as_json: None,
        checkpoint_write_stats_as_struct: None,
        enable_change_data_feed: None,
        enable_deletion_vectors: None,
        enable_in_commit_timestamps: None,
        enable_row_tracking: None,
        row_tracking_suspended: None,
        enable_type_widening: None,
        column_mapping_mode: None,
        data_skipping_num_indexed_cols: None,
        in_commit_timestamp_enablement_version: None,
        in_commit_timestamp_enablement_timestamp: None,
        data_skipping_stats_columns: None,
        unknown_properties: Map::empty(),
    }
}

impl Default for TableProperties {
    fn default() -> (r: TableProperties)
        ensures
            r@ == no_properties(),
    {
        TableProperties {
            append_only: None,
            checkpoint_write_stats_as_json: None,
            checkpoint_write_stats_as_struct: None,
            enable_change_data_feed: None,
            enable_deletion_vectors: None,
            enable_in_commit_timestamps: None,
            enable_row_tracking: None,
            row_tracking_suspended: None,
            enable_type_widening: None,
            column_mapping_mode: None,
            data_skipping_num_indexed_cols: None,
            in_commit_timestamp_enablement_version: None,
            in_commit_timestamp_enablement_timestamp: None,
            data_skipping_stats_columns: None,
            unknown_properties: StringMap::new(),
        }
    }
}

impl Clone for TableProperties {
    fn clone(&self) -> (r: TableProperties)
        ensures
            r@ == self@,
    {
        TableProperties {
            append_only: self.append_only,
            checkpoint_write_stats_as_json: self.checkpoint_write_stats_as_json,
            checkpoint_write_stats_as_struct: self.checkpoint_write_stats_as_struct,
            enable_change_data_feed: self.enable_change_data_feed,
            enable_deletion_vectors: self.enable_deletion_vectors,
            enable_in_commit_timestamps: self.enable_in_commit_timestamps,
            enable_row_tracking: self.enable_row_tracking,
            row_tracking_suspended: self.row_tracking_suspended,
            enable_type_widening: self.enable_type_widening,
            column_mapping_mode: self.column_mapping_mode,
            data_skipping_num_indexed_cols: self.data_skipping_num_indexed_cols,
            in_commit_timestamp_enablement_version: self.in_commit_timestamp_enablement_version,
            in_commit_timestamp_enablement_timestamp: self.in_commit_timestamp_enablement_timestamp,
            data_skipping_stats_columns: match &self.data_skipping_stats_columns {
                Some(c) => Some(clone_columns(c)),
                None => None,
            },
            unknown_properties: self.unknown_properties.clone(),
        }
    }
}

} // verus!
