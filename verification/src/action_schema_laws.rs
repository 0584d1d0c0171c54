//! What the columns of the log are.
use vstd::prelude::*;

use crate::action_schemas;
use crate::actions;
use crate::evaluation;
use crate::schema::{self, DataTypeView, FieldView, PrimitiveType};
use crate::schema_json;

verus! {

/// Whether there is a column of a name and a primitive type, which may be null or not.
pub open spec fn has_value(s: Seq<FieldView>, name: Seq<char>, t: PrimitiveType, nullable: bool) -> bool {
    exists|i: int|
        0 <= i < s.len() && (#[trigger] s[i]).name == name && s[i].nullable == nullable
            && s[i].data_type == DataTypeView::Primitive(t)
}

/// Whether there is a column of a name that maps texts to texts, which may be null or not; the texts
/// that it maps to may be null or not.
pub open spec fn has_texts_by_name(
    s: Seq<FieldView>,
    name: Seq<char>,
    null_texts: bool,
    nullable: bool,
) -> bool {
    let text = DataTypeView::Primitive(PrimitiveType::String);
    exists|i: int|
        0 <= i < s.len() && (#[trigger] s[i]).name == name && s[i].nullable == nullable
            && s[i].data_type == DataTypeView::Mapping(Box::new(text), Box::new(text), null_texts)
}

/// Whether there is a column of a name that lists texts, none of them null; it may be null or not.
pub open spec fn has_texts(s: Seq<FieldView>, name: Seq<char>, nullable: bool) -> bool {
    let text = DataTypeView::Primitive(PrimitiveType::String);
    exists|i: int|
        0 <= i < s.len() && (#[trigger] s[i]).name == name && s[i].nullable == nullable
            && s[i].data_type == DataTypeView::Array(Box::new(text), false)
}

/// Whether there is a column of a name that holds columns, which may be null or not.
pub open spec fn has_struct(
    s: Seq<FieldView>,
    name: Seq<char>,
    inner: Seq<FieldView>,
    nullable: bool,
) -> bool {
    exists|i: int|
        0 <= i < s.len() && (#[trigger] s[i]).name == name && s[i].nullable == nullable
            && s[i].data_type == DataTypeView::Struct(inner)
}

/// A deletion vector is described by its storage, its place, its size and the number of rows that it
/// marks; the offset may be missing.
pub proof fn columns_of_deletion_vectors()
    ensures
        ({
            let s = action_schemas::deletion_vector_fields();
            &&& s.len() == 5
            &&& has_value(s, "storageType"@, PrimitiveType::String, false)
            &&& has_value(s, "pathOrInlineDv"@, PrimitiveType::String, false)
            &&& has_value(s, "offset"@, PrimitiveType::Integer, true)
            &&& has_value(s, "sizeInBytes"@, PrimitiveType::Integer, false)
            &&& has_value(s, "cardinality"@, PrimitiveType::Long, false)
        }),
{
    let s = action_schemas::deletion_vector_fields();
    assert(s[0].name == "storageType"@);
    assert(s[1].name == "pathOrInlineDv"@);
    assert(s[2].name == "offset"@);
    assert(s[3].name == "sizeInBytes"@);
    assert(s[4].name == "cardinality"@);
}

/// An added file has a path, partition values, a size, a time of modification, and says whether data
/// change; what else is known of it may be missing.
pub proof fn columns_of_added_files()
    ensures
        ({
            let s = action_schemas::add_fields();
            &&& s.len() == 11
            &&& has_value(s, "path"@, PrimitiveType::String, false)
            &&& has_texts_by_name(s, "partitionValues"@, true, false)
            &&& has_value(s, "size"@, PrimitiveType::Long, false)
            &&& has_value(s, "modificationTime"@, PrimitiveType::Long, false)
            &&& has_value(s, "dataChange"@, PrimitiveType::Boolean, false)
            &&& has_value(s, "stats"@, PrimitiveType::String, true)
            &&& has_texts_by_name(s, "tags"@, true, true)
            &&& has_struct(s, "deletionVector"@, action_schemas::deletion_vector_fields(), true)
            &&& has_value(s, "baseRowId"@, PrimitiveType::Long, true)
            &&& has_value(s, "defaultRowCommitVersion"@, PrimitiveType::Long, true)
            &&& has_value(s, "clusteringProvider"@, PrimitiveType::String, true)
        }),
{
    let s = action_schemas::add_fields();
    assert(s[0].name == "path"@);
    assert(s[1].name == "partitionValues"@);
    assert(s[2].name == "size"@);
    assert(s[3].name == "modificationTime"@);
    assert(s[4].name == "dataChange"@);
    assert(s[5].name == "stats"@);
    assert(s[6].name == "tags"@);
    assert(s[7].name == "deletionVector"@);
    assert(s[8].name == "baseRowId"@);
    assert(s[9].name == "defaultRowCommitVersion"@);
    assert(s[10].name == "clusteringProvider"@);
}

/// A removed file has a path and says whether data change; what else is known of it may be missing.
pub proof fn columns_of_removed_files()
    ensures
        ({
            let s = action_schemas::remove_fields();
            &&& s.len() == 11
            &&& has_value(s, "path"@, PrimitiveType::String, false)
            &&& has_value(s, "deletionTimestamp"@, PrimitiveType::Long, true)
            &&& has_value(s, "dataChange"@, PrimitiveType::Boolean, false)
            &&& has_value(s, "extendedFileMetadata"@, PrimitiveType::Boolean, true)
            &&& has_texts_by_name(s, "partitionValues"@, false, true)
            &&& has_value(s, "size"@, PrimitiveType::Long, true)
            &&& has_value(s, "stats"@, PrimitiveType::String, true)
            &&& has_texts_by_name(s, "tags"@, false, true)
            &&& has_struct(s, "deletionVector"@, action_schemas::deletion_vector_fields(), true)
            &&& has_value(s, "baseRowId"@, PrimitiveType::Long, true)
            &&& has_value(s, "defaultRowCommitVersion"@, PrimitiveType::Long, true)
        }),
{
    let s = action_schemas::remove_fields();
    assert(s[0].name == "path"@);
    assert(s[1].name == "deletionTimestamp"@);
    assert(s[2].name == "dataChange"@);
    assert(s[3].name == "extendedFileMetadata"@);
    assert(s[4].name == "partitionValues"@);
    assert(s[5].name == "size"@);
    assert(s[6].name == "stats"@);
    assert(s[7].name == "tags"@);
    assert(s[8].name == "deletionVector"@);
    assert(s[9].name == "baseRowId"@);
    assert(s[10].name == "defaultRowCommitVersion"@);
}

/// A format names its provider and its options.
pub proof fn columns_of_formats()
    ensures
        ({
            let s = action_schemas::format_fields();
            &&& s.len() == 2
            &&& has_value(s, "provider"@, PrimitiveType::String, false)
            &&& has_texts_by_name(s, "options"@, false, false)
        }),
{
    let s = action_schemas::format_fields();
    assert(s[0].name == "provider"@);
    assert(s[1].name == "options"@);
}

/// Metadata have an identifier, a format, a schema, partition columns and a configuration; a name, a
/// description and a time of creation may be missing.
pub proof fn columns_of_metadata()
    ensures
        ({
            let s = action_schemas::metadata_fields();
            &&& s.len() == 8
            &&& has_value(s, "id"@, PrimitiveType::String, false)
            &&& has_value(s, "name"@, PrimitiveType::String, true)
            &&& has_value(s, "description"@, PrimitiveType::String, true)
            &&& has_struct(s, "format"@, action_schemas::format_fields(), false)
            &&& has_value(s, "schemaString"@, PrimitiveType::String, false)
            &&& has_texts(s, "partitionColumns"@, false)
            &&& has_value(s, "createdTime"@, PrimitiveType::Long, true)
            &&& has_texts_by_name(s, "configuration"@, false, false)
        }),
{
    let s = action_schemas::metadata_fields();
    assert(s[0].name == "id"@);
    assert(s[1].name == "name"@);
    assert(s[2].name == "description"@);
    assert(s[3].name == "format"@);
    assert(s[4].name == "schemaString"@);
    assert(s[5].name == "partitionColumns"@);
    assert(s[6].name == "createdTime"@);
    assert(s[7].name == "configuration"@);
}

/// A protocol has a version for readers and one for writers; the features may be missing.
pub proof fn columns_of_protocols()
    ensures
        ({
            let s = action_schemas::protocol_fields();
            &&& s.len() == 4
            &&& has_value(s, "minReaderVersion"@, PrimitiveType::Integer, false)
            &&& has_value(s, "minWriterVersion"@, PrimitiveType::Integer, false)
            &&& has_texts(s, "readerFeatures"@, true)
            &&& has_texts(s, "writerFeatures"@, true)
        }),
{
    let s = action_schemas::protocol_fields();
    assert(s[0].name == "minReaderVersion"@);
    assert(s[1].name == "minWriterVersion"@);
    assert(s[2].name == "readerFeatures"@);
    assert(s[3].name == "writerFeatures"@);
}

/// An application transaction has an identifier and a version; when it was last updated may be missing.
pub proof fn columns_of_application_transactions()
    ensures
        ({
            let s = action_schemas::set_transaction_fields();
            &&& s.len() == 3
            &&& has_value(s, "appId"@, PrimitiveType::String, false)
            &&& has_value(s, "version"@, PrimitiveType::Long, false)
            &&& has_value(s, "lastUpdated"@, PrimitiveType::Long, true)
        }),
{
    let s = action_schemas::set_transaction_fields();
    assert(s[0].name == "appId"@);
    assert(s[1].name == "version"@);
    assert(s[2].name == "lastUpdated"@);
}

/// Everything that a commit says of itself may be missing.
pub proof fn columns_of_commit_infos()
    ensures
        ({
            let s = action_schemas::commit_info_fields();
            &&& s.len() == 8
            &&& has_value(s, "timestamp"@, PrimitiveType::Long, true)
            &&& has_value(s, "inCommitTimestamp"@, PrimitiveType::Long, true)
            &&& has_value(s, "operation"@, PrimitiveType::String, true)
            &&& has_texts_by_name(s, "operationParameters"@, false, true)
            &&& has_value(s, "kernelVersion"@, PrimitiveType::String, true)
            &&& has_value(s, "isBlindAppend"@, PrimitiveType::Boolean, true)
            &&& has_value(s, "engineInfo"@, PrimitiveType::String, true)
            &&& has_value(s, "txnId"@, PrimitiveType::String, true)
        }),
{
    let s = action_schemas::commit_info_fields();
    assert(s[0].name == "timestamp"@);
    assert(s[1].name == "inCommitTimestamp"@);
    assert(s[2].name == "operation"@);
    assert(s[3].name == "operationParameters"@);
    assert(s[4].name == "kernelVersion"@);
    assert(s[5].name == "isBlindAppend"@);
    assert(s[6].name == "engineInfo"@);
    assert(s[7].name == "txnId"@);
}

/// A file of changes has a path, partition values and a size, and says whether data change.
pub proof fn columns_of_change_files()
    ensures
        ({
            let s = action_schemas::cdc_fields();
            &&& s.len() == 5
            &&& has_value(s, "path"@, PrimitiveType::String, false)
            &&& has_texts_by_name(s, "partitionValues"@, true, false)
            &&& has_value(s, "size"@, PrimitiveType::Long, false)
            &&& has_value(s, "dataChange"@, PrimitiveType::Boolean, false)
            &&& has_texts_by_name(s, "tags"@, false, true)
        }),
{
    let s = action_schemas::cdc_fields();
    assert(s[0].name == "path"@);
    assert(s[1].name == "partitionValues"@);
    assert(s[2].name == "size"@);
    assert(s[3].name == "dataChange"@);
    assert(s[4].name == "tags"@);
}

/// A domain has a name and a configuration, and says whether it was removed.
pub proof fn columns_of_domains()
    ensures
        ({
            let s = action_schemas::domain_metadata_fields();
            &&& s.len() == 3
            &&& has_value(s, "domain"@, PrimitiveType::String, false)
            &&& has_value(s, "configuration"@, PrimitiveType::String, false)
            &&& has_value(s, "removed"@, PrimitiveType::Boolean, false)
        }),
{
    let s = action_schemas::domain_metadata_fields();
    assert(s[0].name == "domain"@);
    assert(s[1].name == "configuration"@);
    assert(s[2].name == "removed"@);
}

/// The metadata of a checkpoint have its version.
pub proof fn columns_of_checkpoint_metadata()
    ensures
        ({
            let s = action_schemas::checkpoint_metadata_fields();
            &&& s.len() == 2
            &&& has_value(s, "version"@, PrimitiveType::Long, false)
            &&& has_texts_by_name(s, "tags"@, false, true)
        }),
{
    let s = action_schemas::checkpoint_metadata_fields();
    assert(s[0].name == "version"@);
    assert(s[1].name == "tags"@);
}

/// A sidecar has a path, a size and a time of modification.
pub proof fn columns_of_sidecars()
    ensures
        ({
            let s = action_schemas::sidecar_fields();
            &&& s.len() == 4
            &&& has_value(s, "path"@, PrimitiveType::String, false)
            &&& has_value(s, "sizeInBytes"@, PrimitiveType::Long, false)
            &&& has_value(s, "modificationTime"@, PrimitiveType::Long, false)
            &&& has_texts_by_name(s, "tags"@, false, true)
        }),
{
    let s = action_schemas::sidecar_fields();
    assert(s[0].name == "path"@);
    assert(s[1].name == "sizeInBytes"@);
    assert(s[2].name == "modificationTime"@);
    assert(s[3].name == "tags"@);
}

/// A row of a commit may hold an action of any kind but the two that only checkpoints hold, a row of
/// the log an action of any kind.
pub proof fn rows_may_hold_any_action()
    ensures
        ({
            let s = action_schemas::all_actions_fields();
            &&& s.len() == 10
            &&& action_schemas::commit_schema_fields() == s.subrange(0, 8)
            &&& has_struct(s, "add"@, action_schemas::add_fields(), true)
            &&& has_struct(s, "remove"@, action_schemas::remove_fields(), true)
            &&& has_struct(s, "metaData"@, action_schemas::metadata_fields(), true)
            &&& has_struct(s, "protocol"@, action_schemas::protocol_fields(), true)
            &&& has_struct(s, "txn"@, action_schemas::set_transaction_fields(), true)
            &&& has_struct(s, "commitInfo"@, action_schemas::commit_info_fields(), true)
            &&& has_struct(s, "cdc"@, action_schemas::cdc_fields(), true)
            &&& has_struct(s, "domainMetadata"@, action_schemas::domain_metadata_fields(), true)
            &&& has_struct(s, "checkpointMetadata"@, action_schemas::checkpoint_metadata_fields(), true)
            &&& has_struct(s, "sidecar"@, action_schemas::sidecar_fields(), true)
            &&& s[8].name == "checkpointMetadata"@ && s[9].name == "sidecar"@
        }),
{
    let s = action_schemas::all_actions_fields();
    assert(s[0].name == "add"@);
    assert(s[1].name == "remove"@);
    assert(s[2].name == "metaData"@);
    assert(s[3].name == "protocol"@);
    assert(s[4].name == "txn"@);
    assert(s[5].name == "commitInfo"@);
    assert(s[6].name == "cdc"@);
    assert(s[7].name == "domainMetadata"@);
    assert(s[8].name == "checkpointMetadata"@);
    assert(s[9].name == "sidecar"@);
    assert(action_schemas::commit_schema_fields() =~= s.subrange(0, 8));
}

/// A row that holds nothing but one kind of action has that column of the log alone.
pub proof fn rows_of_one_kind_hold_it_alone()
    ensures
        action_schemas::log_add_fields().len() == 1 && action_schemas::log_add_fields()[0].name == "add"@
            && action_schemas::all_actions_fields().contains(action_schemas::log_add_fields()[0]),
        action_schemas::log_remove_fields().len() == 1 && action_schemas::log_remove_fields()[0].name == "remove"@
            && action_schemas::all_actions_fields().contains(action_schemas::log_remove_fields()[0]),
        action_schemas::log_commit_info_fields().len() == 1 && action_schemas::log_commit_info_fields()[0].name == "commitInfo"@
            && action_schemas::all_actions_fields().contains(action_schemas::log_commit_info_fields()[0]),
        action_schemas::log_set_transaction_fields().len() == 1 && action_schemas::log_set_transaction_fields()[0].name == "txn"@
            && action_schemas::all_actions_fields().contains(action_schemas::log_set_transaction_fields()[0]),
        action_schemas::log_domain_metadata_fields().len() == 1 && action_schemas::log_domain_metadata_fields()[0].name == "domainMetadata"@
            && action_schemas::all_actions_fields().contains(action_schemas::log_domain_metadata_fields()[0]),
        action_schemas::log_sidecar_fields().len() == 1 && action_schemas::log_sidecar_fields()[0].name == "sidecar"@
            && action_schemas::all_actions_fields().contains(action_schemas::log_sidecar_fields()[0]),
{
    let s = action_schemas::all_actions_fields();
    assert(s[0] == action_schemas::log_add_fields()[0]);
    assert(s[1] == action_schemas::log_remove_fields()[0]);
    assert(s[5] == action_schemas::log_commit_info_fields()[0]);
    assert(s[4] == action_schemas::log_set_transaction_fields()[0]);
    assert(s[7] == action_schemas::log_domain_metadata_fields()[0]);
    assert(s[9] == action_schemas::log_sidecar_fields()[0]);
}

/// A schema holds file actions exactly where it has a column for added or for removed files.
pub proof fn file_actions_are_added_and_removed_files(s: Seq<FieldView>)
    ensures
        action_schemas::has_file_actions(s) <==> exists|i: int|
            0 <= i < s.len() && ((#[trigger] s[i]).name == "add"@ || s[i].name == "remove"@),
{
    schema::lemma_field_position(s, "add"@);
    schema::lemma_field_position(s, "remove"@);
}

/// An engine reports of an added file its path, its partition values, its size, when it was modified,
/// and statistics, which may be missing.
pub proof fn columns_of_reported_files()
    ensures
        ({
            let s = evaluation::base_add_files_fields();
            &&& s.len() == 5
            &&& s.subrange(0, 4) == evaluation::mandatory_add_file_fields()
            &&& has_value(s, "path"@, PrimitiveType::String, false)
            &&& has_texts_by_name(s, "partitionValues"@, true, false)
            &&& has_value(s, "size"@, PrimitiveType::Long, false)
            &&& has_value(s, "modificationTime"@, PrimitiveType::Long, false)
            &&& has_struct(s, "stats"@, evaluation::base_stats_fields(), true)
        }),
        ({
            let s = evaluation::base_stats_fields();
            let none = Seq::<FieldView>::empty();
            &&& s.len() == 5
            &&& has_value(s, "numRecords"@, PrimitiveType::Long, true)
            &&& has_struct(s, "nullCount"@, none, true)
            &&& has_struct(s, "minValues"@, none, true)
            &&& has_struct(s, "maxValues"@, none, true)
            &&& has_value(s, "tightBounds"@, PrimitiveType::Boolean, true)
        }),
{
    let s = evaluation::base_add_files_fields();
    assert(s.subrange(0, 4) =~= evaluation::mandatory_add_file_fields());
    assert(s[0].name == "path"@ && s[1].name == "partitionValues"@ && s[2].name == "size"@);
    assert(s[3].name == "modificationTime"@ && s[4].name == "stats"@);
    let t = evaluation::base_stats_fields();
    assert(t[0].name == "numRecords"@ && t[1].name == "nullCount"@ && t[2].name == "minValues"@);
    assert(t[3].name == "maxValues"@ && t[4].name == "tightBounds"@);
}

/// A scan reports of a file its path, its size, when it was modified, its statistics, its deletion
/// vector, and what is the same for all of its rows. A row with a new deletion vector has one column
/// more.
pub proof fn columns_of_scan_rows()
    ensures
        ({
            let s = evaluation::scan_row_fields();
            let v = action_schemas::deletion_vector_fields();
            &&& s.len() == 6
            &&& has_value(s, "path"@, PrimitiveType::String, true)
            &&& has_value(s, "size"@, PrimitiveType::Long, true)
            &&& has_value(s, "modificationTime"@, PrimitiveType::Long, true)
            &&& has_value(s, "stats"@, PrimitiveType::String, true)
            &&& has_struct(s, "deletionVector"@, v, true)
            &&& has_struct(s, "fileConstantValues"@, evaluation::file_constant_fields(), true)
            &&& evaluation::intermediate_dv_fields().len() == 7
            &&& evaluation::intermediate_dv_fields().subrange(0, 6) == s
            &&& has_struct(evaluation::intermediate_dv_fields(), "newDeletionVector"@, v, true)
        }),
        ({
            let s = evaluation::file_constant_fields();
            &&& s.len() == 5
            &&& has_texts_by_name(s, "partitionValues"@, true, true)
            &&& has_value(s, "baseRowId"@, PrimitiveType::Long, true)
            &&& has_value(s, "defaultRowCommitVersion"@, PrimitiveType::Long, true)
            &&& has_texts_by_name(s, "tags"@, true, true)
            &&& has_value(s, "clusteringProvider"@, PrimitiveType::String, true)
        }),
{
    let s = evaluation::scan_row_fields();
    let d = evaluation::intermediate_dv_fields();
    assert(d.subrange(0, 6) =~= s);
    assert(s[0].name == "path"@ && s[1].name == "size"@ && s[2].name == "modificationTime"@);
    assert(s[3].name == "stats"@ && s[4].name == "deletionVector"@);
    assert(s[5].name == "fileConstantValues"@ && d[6].name == "newDeletionVector"@);
    let t = evaluation::file_constant_fields();
    assert(t[0].name == "partitionValues"@ && t[1].name == "baseRowId"@);
    assert(t[2].name == "defaultRowCommitVersion"@ && t[3].name == "tags"@);
    assert(t[4].name == "clusteringProvider"@);
}

/// The metadata of a new table are what was given: identifier, name and description, the schema as
/// text, the partition columns, the time and the configuration; its files are Parquet files.
pub proof fn metadata_hold_what_was_given(
    id: Seq<char>,
    name: Option<Seq<char>>,
    description: Option<Seq<char>>,
    s: Seq<FieldView>,
    partition: Seq<Seq<char>>,
    time: i64,
    config: Map<Seq<char>, Seq<char>>,
    keys: Seq<Seq<char>>,
)
    ensures
        ({
            let m = actions::new_metadata(id, name, description, s, partition, time, config, keys);
            &&& m.id == id && m.name == name && m.description == description
            &&& m.schema_string == schema_json::schema_json(s)
            &&& m.partition_columns == partition && m.created_time == Some(time)
            &&& m.configuration == config
            &&& m.format.provider == "parquet"@ && m.format.options == Map::<
                Seq<char>,
                Seq<char>,
            >::empty()
        }),
{
}

} // verus!
