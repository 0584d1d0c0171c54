//! The schemas of the actions in the log.
use vstd::prelude::*;

use crate::actions::{
    Add, Cdc, CheckpointMetadata, CommitInfo, DeletionVectorDescriptor, DomainMetadata, Format,
    Metadata, Protocol, Remove, SetTransaction, Sidecar,
};
use crate::scalars;
use crate::schema::{
    self, DataType, DataTypeView, FieldView, PrimitiveType, StructField, StructType,
};

verus! {

pub const ADD_NAME: &'static str = "add";

pub const REMOVE_NAME: &'static str = "remove";

pub const METADATA_NAME: &'static str = "metaData";

pub const PROTOCOL_NAME: &'static str = "protocol";

pub const SET_TRANSACTION_NAME: &'static str = "txn";

pub const COMMIT_INFO_NAME: &'static str = "commitInfo";

pub const CDC_NAME: &'static str = "cdc";

pub const SIDECAR_NAME: &'static str = "sidecar";

pub const CHECKPOINT_METADATA_NAME: &'static str = "checkpointMetadata";

pub const DOMAIN_METADATA_NAME: &'static str = "domainMetadata";

/// A nullable field that holds the given fields.
pub open spec fn action_field(name: Seq<char>, fields: Seq<FieldView>) -> FieldView {
    schema::plain_field(name, DataTypeView::Struct(fields), true)
}

/// The fields of a deletion vector descriptor.
pub open spec fn deletion_vector_fields() -> Seq<FieldView> {
    seq![
        schema::plain_field("storageType"@, schema::primitive(PrimitiveType::String), false),
        schema::plain_field("pathOrInlineDv"@, schema::primitive(PrimitiveType::String), false),
        schema::plain_field("offset"@, schema::primitive(PrimitiveType::Integer), true),
        schema::plain_field("sizeInBytes"@, schema::primitive(PrimitiveType::Integer), false),
        schema::plain_field("cardinality"@, schema::primitive(PrimitiveType::Long), false),
    ]
}

impl DeletionVectorDescriptor {
    /// The schema of a deletion vector descriptor.
    pub fn to_schema() -> (r: StructType)
        ensures
            r@ == deletion_vector_fields(),
    {
        let r = StructType {
            fields: vec![
                StructField::not_null("storageType", DataType::string()),
                StructField::not_null("pathOrInlineDv", DataType::string()),
                StructField::nullable("offset", DataType::integer()),
                StructField::not_null("sizeInBytes", DataType::integer()),
                StructField::not_null("cardinality", DataType::long()),
            ],
        };
        assert(r@ =~= deletion_vector_fields());
        r
    }
}

/// The fields of an add action.
pub open spec fn add_fields() -> Seq<FieldView> {
    seq![
        schema::plain_field("path"@, schema::primitive(PrimitiveType::String), false),
        schema::plain_field("partitionValues"@, schema::string_map_type(true), false),
        schema::plain_field("size"@, schema::primitive(PrimitiveType::Long), false),
        schema::plain_field("modificationTime"@, schema::primitive(PrimitiveType::Long), false),
        schema::plain_field("dataChange"@, schema::primitive(PrimitiveType::Boolean), false),
        schema::plain_field("stats"@, schema::primitive(PrimitiveType::String), true),
        schema::plain_field("tags"@, schema::string_map_type(true), true),
        schema::plain_field("deletionVector"@, DataTypeView::Struct(deletion_vector_fields()), true),
        schema::plain_field("baseRowId"@, schema::primitive(PrimitiveType::Long), true),
        schema::plain_field("defaultRowCommitVersion"@, schema::primitive(PrimitiveType::Long), true),
        schema::plain_field("clusteringProvider"@, schema::primitive(PrimitiveType::String), true),
    ]
}

impl Add {
    /// The schema of an add action.
    pub fn to_schema() -> (r: StructType)
        ensures
            r@ == add_fields(),
    {
        let r = StructType {
            fields: vec![
                StructField::not_null("path", DataType::string()),
                StructField::not_null("partitionValues", DataType::mapping(DataType::string(), DataType::string(), true)),
                StructField::not_null("size", DataType::long()),
                StructField::not_null("modificationTime", DataType::long()),
                StructField::not_null("dataChange", DataType::boolean()),
                StructField::nullable("stats", DataType::string()),
                StructField::nullable("tags", DataType::mapping(DataType::string(), DataType::string(), true)),
                StructField::nullable("deletionVector", DataType::struct_of(DeletionVectorDescriptor::to_schema())),
                StructField::nullable("baseRowId", DataType::long()),
                StructField::nullable("defaultRowCommitVersion", DataType::long()),
                StructField::nullable("clusteringProvider", DataType::string()),
            ],
        };
        assert(r@ =~= add_fields());
        r
    }
}

/// The fields of a remove action.
pub open spec fn remove_fields() -> Seq<FieldView> {
    seq![
        schema::plain_field("path"@, schema::primitive(PrimitiveType::String), false),
        schema::plain_field("deletionTimestamp"@, schema::primitive(PrimitiveType::Long), true),
        schema::plain_field("dataChange"@, schema::primitive(PrimitiveType::Boolean), false),
        schema::plain_field("extendedFileMetadata"@, schema::primitive(PrimitiveType::Boolean), true),
        schema::plain_field("partitionValues"@, schema::string_map_type(false), true),
        schema::plain_field("size"@, schema::primitive(PrimitiveType::Long), true),
        schema::plain_field("stats"@, schema::primitive(PrimitiveType::String), true),
        schema::plain_field("tags"@, schema::string_map_type(false), true),
        schema::plain_field("deletionVector"@, DataTypeView::Struct(deletion_vector_fields()), true),
        schema::plain_field("baseRowId"@, schema::primitive(PrimitiveType::Long), true),
        schema::plain_field("defaultRowCommitVersion"@, schema::primitive(PrimitiveType::Long), true),
    ]
}

impl Remove {
    /// The schema of a remove action.
    pub fn to_schema() -> (r: StructType)
        ensures
            r@ == remove_fields(),
    {
        let r = StructType {
            fields: vec![
                StructField::not_null("path", DataType::string()),
                StructField::nullable("deletionTimestamp", DataType::long()),
                StructField::not_null("dataChange", DataType::boolean()),
                StructField::nullable("extendedFileMetadata", DataType::boolean()),
                StructField::nullable("partitionValues", DataType::mapping(DataType::string(), DataType::string(), false)),
                StructField::nullable("size", DataType::long()),
                StructField::nullable("stats", DataType::string()),
                StructField::nullable("tags", DataType::mapping(DataType::string(), DataType::string(), false)),
                StructField::nullable("deletionVector", DataType::struct_of(DeletionVectorDescriptor::to_schema())),
                StructField::nullable("baseRowId", DataType::long()),
                StructField::nullable("defaultRowCommitVersion", DataType::long()),
            ],
        };
        assert(r@ =~= remove_fields());
        r
    }
}

/// The fields of the format of the data files.
pub open spec fn format_fields() -> Seq<FieldView> {
    seq![
        schema::plain_field("provider"@, schema::primitive(PrimitiveType::String), false),
        schema::plain_field("options"@, schema::string_map_type(false), false),
    ]
}

impl Format {
    /// The schema of the format of the data files.
    pub fn to_schema() -> (r: StructType)
        ensures
            r@ == format_fields(),
    {
        let r = StructType {
            fields: vec![
                StructField::not_null("provider", DataType::string()),
                StructField::not_null("options", DataType::mapping(DataType::string(), DataType::string(), false)),
            ],
        };
        assert(r@ =~= format_fields());
        r
    }
}

/// The fields of a metadata action.
pub open spec fn metadata_fields() -> Seq<FieldView> {
    seq![
        schema::plain_field("id"@, schema::primitive(PrimitiveType::String), false),
        schema::plain_field("name"@, schema::primitive(PrimitiveType::String), true),
        schema::plain_field("description"@, schema::primitive(PrimitiveType::String), true),
        schema::plain_field("format"@, DataTypeView::Struct(format_fields()), false),
        schema::plain_field("schemaString"@, schema::primitive(PrimitiveType::String), false),
        schema::plain_field("partitionColumns"@, scalars::string_list_type(), false),
        schema::plain_field("createdTime"@, schema::primitive(PrimitiveType::Long), true),
        schema::plain_field("configuration"@, schema::string_map_type(false), false),
    ]
}

impl Metadata {
    /// The schema of a metadata action.
    pub fn to_schema() -> (r: StructType)
        ensures
            r@ == metadata_fields(),
    {
        let r = StructType {
            fields: vec![
                StructField::not_null("id", DataType::string()),
                StructField::nullable("name", DataType::string()),
                StructField::nullable("description", DataType::string()),
                StructField::not_null("format", DataType::struct_of(Format::to_schema())),
                StructField::not_null("schemaString", DataType::string()),
                StructField::not_null("partitionColumns", DataType::array(DataType::string(), false)),
                StructField::nullable("createdTime", DataType::long()),
                StructField::not_null("configuration", DataType::mapping(DataType::string(), DataType::string(), false)),
            ],
        };
        assert(r@ =~= metadata_fields());
        r
    }
}

/// The fields of a protocol action.
pub open spec fn protocol_fields() -> Seq<FieldView> {
    seq![
        schema::plain_field("minReaderVersion"@, schema::primitive(PrimitiveType::Integer), false),
        schema::plain_field("minWriterVersion"@, schema::primitive(PrimitiveType::Integer), false),
        schema::plain_field("readerFeatures"@, scalars::string_list_type(), true),
        schema::plain_field("writerFeatures"@, scalars::string_list_type(), true),
    ]
}

impl Protocol {
    /// The schema of a protocol action.
    pub fn to_schema() -> (r: StructType)
        ensures
            r@ == protocol_fields(),
    {
        let r = StructType {
            fields: vec![
                StructField::not_null("minReaderVersion", DataType::integer()),
                StructField::not_null("minWriterVersion", DataType::integer()),
                StructField::nullable("readerFeatures", DataType::array(DataType::string(), false)),
                StructField::nullable("writerFeatures", DataType::array(DataType::string(), false)),
            ],
        };
        assert(r@ =~= protocol_fields());
        r
    }
}

/// The fields of a transaction action.
pub open spec fn set_transaction_fields() -> Seq<FieldView> {
    seq![
        schema::plain_field("appId"@, schema::primitive(PrimitiveType::String), false),
        schema::plain_field("version"@, schema::primitive(PrimitiveType::Long), false),
        schema::plain_field("lastUpdated"@, schema::primitive(PrimitiveType::Long), true),
    ]
}

impl SetTransaction {
    /// The schema of a transaction action.
    pub fn to_schema() -> (r: StructType)
        ensures
            r@ == set_transaction_fields(),
    {
        let r = StructType {
            fields: vec![
                StructField::not_null("appId", DataType::string()),
                StructField::not_null("version", DataType::long()),
                StructField::nullable("lastUpdated", DataType::long()),
            ],
        };
        assert(r@ =~= set_transaction_fields());
        r
    }
}

/// The fields of a commit info action.
pub open spec fn commit_info_fields() -> Seq<FieldView> {
    seq![
        schema::plain_field("timestamp"@, schema::primitive(PrimitiveType::Long), true),
        schema::plain_field("inCommitTimestamp"@, schema::primitive(PrimitiveType::Long), true),
        schema::plain_field("operation"@, schema::primitive(PrimitiveType::String), true),
        schema::plain_field("operationParameters"@, schema::string_map_type(false), true),
        schema::plain_field("kernelVersion"@, schema::primitive(PrimitiveType::String), true),
        schema::plain_field("isBlindAppend"@, schema::primitive(PrimitiveType::Boolean), true),
        schema::plain_field("engineInfo"@, schema::primitive(PrimitiveType::String), true),
        schema::plain_field("txnId"@, schema::primitive(PrimitiveType::String), true),
    ]
}

impl CommitInfo {
    /// The schema of a commit info action.
    pub fn to_schema() -> (r: StructType)
        ensures
            r@ == commit_info_fields(),
    {
        let r = StructType {
            fields: vec![
                StructField::nullable("timestamp", DataType::long()),
                StructField::nullable("inCommitTimestamp", DataType::long()),
                StructField::nullable("operation", DataType::string()),
                StructField::nullable("operationParameters", DataType::mapping(DataType::string(), DataType::string(), false)),
                StructField::nullable("kernelVersion", DataType::string()),
                StructField::nullable("isBlindAppend", DataType::boolean()),
                StructField::nullable("engineInfo", DataType::string()),
                StructField::nullable("txnId", DataType::string()),
            ],
        };
        assert(r@ =~= commit_info_fields());
        r
    }
}

/// The fields of a change data action.
pub open spec fn cdc_fields() -> Seq<FieldView> {
    seq![
        schema::plain_field("path"@, schema::primitive(PrimitiveType::String), false),
        schema::plain_field("partitionValues"@, schema::string_map_type(true), false),
        schema::plain_field("size"@, schema::primitive(PrimitiveType::Long), false),
        schema::plain_field("dataChange"@, schema::primitive(PrimitiveType::Boolean), false),
        schema::plain_field("tags"@, schema::string_map_type(false), true),
    ]
}

impl Cdc {
    /// The schema of a change data action.
    pub fn to_schema() -> (r: StructType)
        ensures
            r@ == cdc_fields(),
    {
        let r = StructType {
            fields: vec![
                StructField::not_null("path", DataType::string()),
                StructField::not_null("partitionValues", DataType::mapping(DataType::string(), DataType::string(), true)),
                StructField::not_null("size", DataType::long()),
                StructField::not_null("dataChange", DataType::boolean()),
                StructField::nullable("tags", DataType::mapping(DataType::string(), DataType::string(), false)),
            ],
        };
        assert(r@ =~= cdc_fields());
        r
    }
}

/// The fields of a domain metadata action.
pub open spec fn domain_metadata_fields() -> Seq<FieldView> {
    seq![
        schema::plain_field("domain"@, schema::primitive(PrimitiveType::String), false),
        schema::plain_field("configuration"@, schema::primitive(PrimitiveType::String), false),
        schema::plain_field("removed"@, schema::primitive(PrimitiveType::Boolean), false),
    ]
}

impl DomainMetadata {
    /// The schema of a domain metadata action.
    pub fn to_schema() -> (r: StructType)
        ensures
            r@ == domain_metadata_fields(),
    {
        let r = StructType {
            fields: vec![
                StructField::not_null("domain", DataType::string()),
                StructField::not_null("configuration", DataType::string()),
                StructField::not_null("removed", DataType::boolean()),
            ],
        };
        assert(r@ =~= domain_metadata_fields());
        r
    }
}

/// The fields of a checkpoint metadata action.
pub open spec fn checkpoint_metadata_fields() -> Seq<FieldView> {
    seq![
        schema::plain_field("version"@, schema::primitive(PrimitiveType::Long), false),
        schema::plain_field("tags"@, schema::string_map_type(false), true),
    ]
}

impl CheckpointMetadata {
    /// The schema of a checkpoint metadata action.
    pub fn to_schema() -> (r: StructType)
        ensures
            r@ == checkpoint_metadata_fields(),
    {
        let r = StructType {
            fields: vec![
                StructField::not_null("version", DataType::long()),
                StructField::nullable("tags", DataType::mapping(DataType::string(), DataType::string(), false)),
            ],
        };
        assert(r@ =~= checkpoint_metadata_fields());
        r
    }
}

/// The fields of a sidecar action.
pub open spec fn sidecar_fields() -> Seq<FieldView> {
    seq![
        schema::plain_field("path"@, schema::primitive(PrimitiveType::String), false),
        schema::plain_field("sizeInBytes"@, schema::primitive(PrimitiveType::Long), false),
        schema::plain_field("modificationTime"@, schema::primitive(PrimitiveType::Long), false),
        schema::plain_field("tags"@, schema::string_map_type(false), true),
    ]
}

impl Sidecar {
    /// The schema of a sidecar action.
    pub fn to_schema() -> (r: StructType)
        ensures
            r@ == sidecar_fields(),
    {
        let r = StructType {
            fields: vec![
                StructField::not_null("path", DataType::string()),
                StructField::not_null("sizeInBytes", DataType::long()),
                StructField::not_null("modificationTime", DataType::long()),
                StructField::nullable("tags", DataType::mapping(DataType::string(), DataType::string(), false)),
            ],
        };
        assert(r@ =~= sidecar_fields());
        r
    }
}

/// The fields of all actions that can appear in a commit.
pub open spec fn commit_schema_fields() -> Seq<FieldView> {
    seq![
        action_field(ADD_NAME@, add_fields()),
        action_field(REMOVE_NAME@, remove_fields()),
        action_field(METADATA_NAME@, metadata_fields()),
        action_field(PROTOCOL_NAME@, protocol_fields()),
        action_field(SET_TRANSACTION_NAME@, set_transaction_fields()),
        action_field(COMMIT_INFO_NAME@, commit_info_fields()),
        action_field(CDC_NAME@, cdc_fields()),
        action_field(DOMAIN_METADATA_NAME@, domain_metadata_fields()),
    ]
}

/// The schema of all actions that can appear in a commit.
pub fn get_commit_schema() -> (r: StructType)
    ensures
        r@ == commit_schema_fields(),
{
    let r = StructType {
        fields: vec![
            StructField::nullable(ADD_NAME, DataType::struct_of(Add::to_schema())),
            StructField::nullable(REMOVE_NAME, DataType::struct_of(Remove::to_schema())),
            StructField::nullable(METADATA_NAME, DataType::struct_of(Metadata::to_schema())),
            StructField::nullable(PROTOCOL_NAME, DataType::struct_of(Protocol::to_schema())),
            StructField::nullable(SET_TRANSACTION_NAME, DataType::struct_of(SetTransaction::to_schema())),
            StructField::nullable(COMMIT_INFO_NAME, DataType::struct_of(CommitInfo::to_schema())),
            StructField::nullable(CDC_NAME, DataType::struct_of(Cdc::to_schema())),
            StructField::nullable(DOMAIN_METADATA_NAME, DataType::struct_of(DomainMetadata::to_schema())),
        ],
    };
    assert(r@ =~= commit_schema_fields());
    r
}

/// The fields of all actions.
pub open spec fn all_actions_fields() -> Seq<FieldView> {
    seq![
        action_field(ADD_NAME@, add_fields()),
        action_field(REMOVE_NAME@, remove_fields()),
        action_field(METADATA_NAME@, metadata_fields()),
        action_field(PROTOCOL_NAME@, protocol_fields()),
        action_field(SET_TRANSACTION_NAME@, set_transaction_fields()),
        action_field(COMMIT_INFO_NAME@, commit_info_fields()),
        action_field(CDC_NAME@, cdc_fields()),
        action_field(DOMAIN_METADATA_NAME@, domain_metadata_fields()),
        action_field(CHECKPOINT_METADATA_NAME@, checkpoint_metadata_fields()),
        action_field(SIDECAR_NAME@, sidecar_fields()),
    ]
}

/// The schema of all actions.
pub fn get_all_actions_schema() -> (r: StructType)
    ensures
        r@ == all_actions_fields(),
{
    let r = StructType {
        fields: vec![
            StructField::nullable(ADD_NAME, DataType::struct_of(Add::to_schema())),
            StructField::nullable(REMOVE_NAME, DataType::struct_of(Remove::to_schema())),
            StructField::nullable(METADATA_NAME, DataType::struct_of(Metadata::to_schema())),
            StructField::nullable(PROTOCOL_NAME, DataType::struct_of(Protocol::to_schema())),
            StructField::nullable(SET_TRANSACTION_NAME, DataType::struct_of(SetTransaction::to_schema())),
            StructField::nullable(COMMIT_INFO_NAME, DataType::struct_of(CommitInfo::to_schema())),
            StructField::nullable(CDC_NAME, DataType::struct_of(Cdc::to_schema())),
            StructField::nullable(DOMAIN_METADATA_NAME, DataType::struct_of(DomainMetadata::to_schema())),
            StructField::nullable(CHECKPOINT_METADATA_NAME, DataType::struct_of(CheckpointMetadata::to_schema())),
            StructField::nullable(SIDECAR_NAME, DataType::struct_of(Sidecar::to_schema())),
        ],
    };
    assert(r@ =~= all_actions_fields());
    r
}

/// The fields of a log row that holds nothing but an add action.
pub open spec fn log_add_fields() -> Seq<FieldView> {
    seq![
        action_field(ADD_NAME@, add_fields()),
    ]
}

/// The schema of a log row that holds nothing but an add action.
pub fn get_log_add_schema() -> (r: StructType)
    ensures
        r@ == log_add_fields(),
{
    let r = StructType {
        fields: vec![
            StructField::nullable(ADD_NAME, DataType::struct_of(Add::to_schema())),
        ],
    };
    assert(r@ =~= log_add_fields());
    r
}

/// The fields of a log row that holds nothing but a remove action.
pub open spec fn log_remove_fields() -> Seq<FieldView> {
    seq![
        action_field(REMOVE_NAME@, remove_fields()),
    ]
}

/// The schema of a log row that holds nothing but a remove action.
pub fn get_log_remove_schema() -> (r: StructType)
    ensures
        r@ == log_remove_fields(),
{
    let r = StructType {
        fields: vec![
            StructField::nullable(REMOVE_NAME, DataType::struct_of(Remove::to_schema())),
        ],
    };
    assert(r@ =~= log_remove_fields());
    r
}

/// The fields of a log row that holds nothing but a commit info action.
pub open spec fn log_commit_info_fields() -> Seq<FieldView> {
    seq![
        action_field(COMMIT_INFO_NAME@, commit_info_fields()),
    ]
}

/// The schema of a log row that holds nothing but a commit info action.
pub fn get_log_commit_info_schema() -> (r: StructType)
    ensures
        r@ == log_commit_info_fields(),
{
    let r = StructType {
        fields: vec![
            StructField::nullable(COMMIT_INFO_NAME, DataType::struct_of(CommitInfo::to_schema())),
        ],
    };
    assert(r@ =~= log_commit_info_fields());
    r
}

/// The fields of a log row that holds nothing but a transaction action.
pub open spec fn log_set_transaction_fields() -> Seq<FieldView> {
    seq![
        action_field(SET_TRANSACTION_NAME@, set_transaction_fields()),
    ]
}

/// The schema of a log row that holds nothing but a transaction action.
pub fn get_log_txn_schema() -> (r: StructType)
    ensures
        r@ == log_set_transaction_fields(),
{
    let r = StructType {
        fields: vec![
            StructField::nullable(SET_TRANSACTION_NAME, DataType::struct_of(SetTransaction::to_schema())),
        ],
    };
    assert(r@ =~= log_set_transaction_fields());
    r
}

/// The fields of a log row that holds nothing but a domain metadata action.
pub open spec fn log_domain_metadata_fields() -> Seq<FieldView> {
    seq![
        action_field(DOMAIN_METADATA_NAME@, domain_metadata_fields()),
    ]
}

/// The schema of a log row that holds nothing but a domain metadata action.
pub fn get_log_domain_metadata_schema() -> (r: StructType)
    ensures
        r@ == log_domain_metadata_fields(),
{
    let r = StructType {
        fields: vec![
            StructField::nullable(DOMAIN_METADATA_NAME, DataType::struct_of(DomainMetadata::to_schema())),
        ],
    };
    assert(r@ =~= log_domain_metadata_fields());
    r
}

/// The fields of a log row that holds nothing but a sidecar action.
pub open spec fn log_sidecar_fields() -> Seq<FieldView> {
    seq![
        action_field(SIDECAR_NAME@, sidecar_fields()),
    ]
}

/// The schema of a log row that holds nothing but a sidecar action.
pub fn sidecar_read_schema() -> (r: StructType)
    ensures
        r@ == log_sidecar_fields(),
{
    let r = StructType {
        fields: vec![
            StructField::nullable(SIDECAR_NAME, DataType::struct_of(Sidecar::to_schema())),
        ],
    };
    assert(r@ =~= log_sidecar_fields());
    r
}

/// Whether a schema holds file actions.
pub open spec fn has_file_actions(s: Seq<FieldView>) -> bool {
    schema::find_field(s, ADD_NAME@) is Some || schema::find_field(s, REMOVE_NAME@) is Some
}

/// Whether a schema holds a column for add or remove actions.
pub fn schema_contains_file_actions(schema: &StructType) -> (r: bool)
    ensures
        r == has_file_actions(schema@),
{
    schema.contains(ADD_NAME) || schema.contains(REMOVE_NAME)
}

/// Nests the schema of an add action in a log row.
pub fn as_log_add_schema(schema: StructType) -> (r: StructType)
    ensures
        r@ == seq![action_field(ADD_NAME@, schema@)],
{
    let ghost fields = schema@;
    let r = StructType { fields: vec![StructField::nullable(ADD_NAME, DataType::struct_of(schema))] };
    assert(r@ =~= seq![action_field(ADD_NAME@, fields)]);
    r
}

} // verus!
