//! How the files of a checkpoint are read.
use vstd::prelude::*;

use crate::action_schemas::{
    self, get_log_add_schema, schema_contains_file_actions, ADD_NAME, DOMAIN_METADATA_NAME,
    METADATA_NAME, PROTOCOL_NAME, SET_TRANSACTION_NAME, SIDECAR_NAME,
};
use crate::actions::{self, Sidecar, SidecarView};
use crate::error::{self, DeltaResult, Error, ErrorView};
use crate::expressions::{self, ColumnName, Predicate, PredicateView};
use crate::log_segment::{self, LogSegment, SegmentView};
use crate::path::{
    self, clone_files, FileMeta, FileMetaView, LogPathFileType, LogPathView, ParsedLogPath,
};
use crate::schema::{
    self, clone_fields, position_of, DataType, DataTypeView, FieldView, StructField, StructType,
};
use crate::schema_compare;
use crate::text::{same_text, text2};

verus! {

/// The column that is not null in every row that holds the given action, for the actions by which
/// groups of rows can be skipped.
pub open spec fn identifying_column(action: Seq<char>) -> Option<Seq<Seq<char>>> {
    if action == METADATA_NAME@ {
        Some(seq![METADATA_NAME@, "id"@])
    } else if action == PROTOCOL_NAME@ {
        Some(seq![PROTOCOL_NAME@, "minReaderVersion"@])
    } else if action == SET_TRANSACTION_NAME@ {
        Some(seq![SET_TRANSACTION_NAME@, "appId"@])
    } else if action == DOMAIN_METADATA_NAME@ {
        Some(seq![DOMAIN_METADATA_NAME@, "domain"@])
    } else {
        None
    }
}

/// The path of an optional column.
pub open spec fn opt_column(c: Option<ColumnName>) -> Option<Seq<Seq<char>>> {
    match c {
        Some(c) => Some(c@),
        None => None,
    }
}

/// The column that is not null in every row that holds the given action.
pub fn action_identifying_column(action_name: &str) -> (r: Option<ColumnName>)
    ensures
        opt_column(r) == identifying_column(action_name@),
{
    if same_text(action_name, METADATA_NAME) {
        let c = ColumnName::new([METADATA_NAME, "id"]);
        assert(c@ =~= seq![METADATA_NAME@, "id"@]);
        Some(c)
    } else if same_text(action_name, PROTOCOL_NAME) {
        let c = ColumnName::new([PROTOCOL_NAME, "minReaderVersion"]);
        assert(c@ =~= seq![PROTOCOL_NAME@, "minReaderVersion"@]);
        Some(c)
    } else if same_text(action_name, SET_TRANSACTION_NAME) {
        let c = ColumnName::new([SET_TRANSACTION_NAME, "appId"]);
        assert(c@ =~= seq![SET_TRANSACTION_NAME@, "appId"@]);
        Some(c)
    } else if same_text(action_name, DOMAIN_METADATA_NAME) {
        let c = ColumnName::new([DOMAIN_METADATA_NAME, "domain"]);
        assert(c@ =~= seq![DOMAIN_METADATA_NAME@, "domain"@]);
        Some(c)
    } else {
        None
    }
}

/// Whether each field of a schema is an action with an identifying column.
pub open spec fn all_identified(s: Seq<FieldView>) -> bool {
    forall|i: int| 0 <= i < s.len() ==> identifying_column((#[trigger] s[i]).name) is Some
}

/// That one of the identifying columns is not null.
pub open spec fn some_identifying_column<P>(s: Seq<FieldView>) -> PredicateView<P>
    recommends
        s.len() > 0,
        all_identified(s),
    decreases s.len(),
{
    let last = PredicateView::IsNotNull(identifying_column(s.last().name)->0);
    if s.len() <= 1 {
        last
    } else {
        PredicateView::Or(Box::new(some_identifying_column(s.drop_last())), Box::new(last))
    }
}

/// The predicate by which groups of rows without an action of the schema can be skipped: none
/// where a field is not a known action or where there is no field.
pub open spec fn not_null_predicate<P>(s: Seq<FieldView>) -> Option<PredicateView<P>> {
    if s.len() > 0 && all_identified(s) {
        Some(some_identifying_column(s))
    } else {
        None
    }
}

/// The predicate by which groups of rows without an action of the schema can be skipped.
pub fn schema_to_is_not_null_predicate<P>(schema: &StructType) -> (r: Option<Predicate<P>>)
    ensures
        expressions::opt_predicate(r) == not_null_predicate::<P>(schema@),
{
    let ghost s = schema@;
    let fields = &schema.fields;
    let mut all: Option<Predicate<P>> = None;
    let mut i: usize = 0;
    while i < fields.len()
        invariant
            i <= fields@.len(),
            s == schema@,
            s == schema::fields_view(fields@),
            forall|j: int| 0 <= j < i ==> identifying_column((#[trigger] s[j]).name) is Some,
            i == 0 <==> all is None,
            i > 0 ==> expressions::opt_predicate(all) == Some(some_identifying_column::<P>(s.take(i as int))),
        decreases fields.len() - i,
    {
        assert(s[i as int] == schema::field_view(fields@[i as int]));
        assert(s.take(i + 1).last() == s[i as int]);
        assert(s.take(i + 1).drop_last() =~= s.take(i as int));
        match action_identifying_column(fields[i].name.as_str()) {
            None => {
                assert(!all_identified(s));
                return None;
            },
            Some(column) => {
                let next = Predicate::IsNotNull(column);
                proof {
                    reveal_with_fuel(expressions::predicate_view, 2);
                }
                all = match all {
                    None => Some(next),
                    Some(p) => Some(Predicate::Or(Box::new(p), Box::new(next))),
                };
            },
        }
        i += 1;
    }
    assert(s.take(i as int) =~= s);
    all
}

/// The predicate with which a checkpoint is read: the one that the schema gives, together with the
/// one that the caller gives.
pub open spec fn effective_predicate_of<P>(s: Seq<FieldView>, given: Option<P>) -> Option<
    PredicateView<P>,
> {
    match (not_null_predicate::<P>(s), given) {
        (None, None) => None,
        (None, Some(g)) => Some(PredicateView::Given(g)),
        (Some(p), None) => Some(p),
        (Some(p), Some(g)) => Some(
            PredicateView::And(Box::new(p), Box::new(PredicateView::Given(g))),
        ),
    }
}

/// The predicate with which a checkpoint is read.
pub fn effective_predicate<P>(schema: &StructType, given: Option<P>) -> (r: Option<Predicate<P>>)
    ensures
        expressions::opt_predicate(r) == effective_predicate_of(schema@, given),
{
    proof {
        reveal_with_fuel(expressions::predicate_view, 2);
    }
    match (schema_to_is_not_null_predicate::<P>(schema), given) {
        (None, None) => None,
        (None, Some(g)) => Some(Predicate::Given(g)),
        (Some(p), None) => Some(p),
        (Some(p), Some(g)) => Some(Predicate::And(Box::new(p), Box::new(Predicate::Given(g)))),
    }
}

/// Whether the types of two lists of fields are compatible where both have a field of a name.
/// Fields that are only in one of the lists do not matter.
pub open spec fn fields_compatible(available: Seq<FieldView>, needed: Seq<FieldView>) -> bool
    decreases needed,
{
    forall|i: int|
        0 <= i < needed.len() ==> match schema::find_field(available, (#[trigger] needed[i]).name) {
            Some(f) => types_compatible(f.data_type, needed[i].data_type),
            None => true,
        }
}

/// Whether a column can be read as the type that is needed: structs field by field, primitives by
/// the rules for statistics, anything else by the rules for data.
pub open spec fn types_compatible(available: DataTypeView, needed: DataTypeView) -> bool
    decreases needed,
{
    match (available, needed) {
        (DataTypeView::Struct(a), DataTypeView::Struct(n)) => fields_compatible(a, n),
        (DataTypeView::Primitive(a), DataTypeView::Primitive(n)) => schema_compare::stats_type_compatible(a, n),
        _ => schema_compare::readable_as(available, needed),
    }
}

fn fields_have_compatible_types(available: &StructType, needed: &Vec<StructField>) -> (r: bool)
    ensures
        r == fields_compatible(available@, schema::fields_view(needed@)),
    decreases needed@,
{
    let ghost n = schema::fields_view(needed@);
    let mut i: usize = 0;
    while i < needed.len()
        invariant
            i <= needed@.len(),
            n == schema::fields_view(needed@),
            forall|j: int|
                0 <= j < i ==> match schema::find_field(available@, (#[trigger] n[j]).name) {
                    Some(f) => types_compatible(f.data_type, n[j].data_type),
                    None => true,
                },
        decreases needed.len() - i,
    {
        assert(n[i as int] == schema::field_view(needed@[i as int]));
        if let Some(f) = available.field(needed[i].name.as_str()) {
            if !type_is_compatible(&f.data_type, &needed[i].data_type) {
                return false;
            }
        }
        i += 1;
    }
    true
}

fn type_is_compatible(available: &DataType, needed: &DataType) -> (r: bool)
    ensures
        r == types_compatible(available@, needed@),
    decreases *needed,
{
    match (available, needed) {
        (DataType::Struct(a), DataType::Struct(n)) => fields_have_compatible_types(a, &n.fields),
        (DataType::Primitive(a), DataType::Primitive(n)) => a.is_stats_type_compatible_with(n),
        _ => available.can_read_as(needed),
    }
}

/// The field of a name inside the struct that the column of add actions is.
pub open spec fn add_subfield(s: Seq<FieldView>, name: Seq<char>) -> Option<FieldView> {
    match schema::find_field(s, ADD_NAME@) {
        Some(f) => match f.data_type {
            DataTypeView::Struct(inner) => schema::find_field(inner, name),
            _ => None,
        },
        None => None,
    }
}

/// Whether the statistics of one kind can be used: they may be missing on either side, but on the
/// side of the checkpoint they must be a struct, and the types must be compatible.
pub open spec fn stats_values_usable(
    parsed: Seq<FieldView>,
    needed: Seq<FieldView>,
    kind: Seq<char>,
) -> bool {
    match schema::find_field(parsed, kind) {
        None => true,
        Some(f) => match f.data_type {
            DataTypeView::Struct(available) => match schema::find_field(needed, kind) {
                None => true,
                Some(g) => match g.data_type {
                    DataTypeView::Struct(wanted) => fields_compatible(available, wanted),
                    _ => true,
                },
            },
            _ => false,
        },
    }
}

/// Whether the add actions of a checkpoint have parsed statistics that can be used for the
/// statistics that are needed.
pub open spec fn stats_parsed_usable(checkpoint: Seq<FieldView>, stats: Seq<FieldView>) -> bool {
    match add_subfield(checkpoint, "stats_parsed"@) {
        Some(f) => match f.data_type {
            DataTypeView::Struct(parsed) => stats_values_usable(parsed, stats, "minValues"@)
                && stats_values_usable(parsed, stats, "maxValues"@),
            _ => false,
        },
        None => false,
    }
}

/// Whether the add actions of a checkpoint have parsed partition values that can be used for the
/// partition columns that are needed.
pub open spec fn partition_values_usable(
    checkpoint: Seq<FieldView>,
    partition: Seq<FieldView>,
) -> bool {
    match add_subfield(checkpoint, "partitionValues_parsed"@) {
        Some(f) => match f.data_type {
            DataTypeView::Struct(parsed) => fields_compatible(parsed, partition),
            _ => false,
        },
        None => false,
    }
}

/// The field of a name inside the struct that the column of add actions is.
fn find_add_subfield<'a>(schema: &'a StructType, name: &str) -> (r: Option<&'a StructField>)
    ensures
        schema::opt_field(r) == add_subfield(schema@, name@),
{
    match schema.field(ADD_NAME) {
        Some(f) => match &f.data_type {
            DataType::Struct(inner) => inner.field(name),
            _ => None,
        },
        None => None,
    }
}

/// Whether the statistics of one kind can be used.
fn check_stats_values(parsed: &StructType, needed: &StructType, kind: &str) -> (r: bool)
    ensures
        r == stats_values_usable(parsed@, needed@, kind@),
{
    match parsed.field(kind) {
        None => true,
        Some(f) => match &f.data_type {
            DataType::Struct(available) => match needed.field(kind) {
                None => true,
                Some(g) => match &g.data_type {
                    DataType::Struct(wanted) => LogSegment::structs_have_compatible_types(
                        available,
                        wanted,
                    ),
                    _ => true,
                },
            },
            _ => false,
        },
    }
}

impl LogSegment {
    /// Whether the types of two structs are compatible where both have a field of a name.
    pub fn structs_have_compatible_types(available: &StructType, needed: &StructType) -> (r: bool)
        ensures
            r == fields_compatible(available@, needed@),
    {
        fields_have_compatible_types(available, &needed.fields)
    }

    /// Whether the add actions of a checkpoint have parsed statistics that can be used for the
    /// statistics that are needed.
    pub fn schema_has_compatible_stats_parsed(
        checkpoint_schema: &StructType,
        stats_schema: &StructType,
    ) -> (r: bool)
        ensures
            r == stats_parsed_usable(checkpoint_schema@, stats_schema@),
    {
        match find_add_subfield(checkpoint_schema, "stats_parsed") {
            Some(f) => match &f.data_type {
                DataType::Struct(parsed) => check_stats_values(parsed, stats_schema, "minValues")
                    && check_stats_values(parsed, stats_schema, "maxValues"),
                _ => false,
            },
            None => false,
        }
    }

    /// Whether the add actions of a checkpoint have parsed partition values that can be used for
    /// the partition columns that are needed.
    pub fn schema_has_compatible_partition_values_parsed(
        checkpoint_schema: &StructType,
        partition_schema: &StructType,
    ) -> (r: bool)
        ensures
            r == partition_values_usable(checkpoint_schema@, partition_schema@),
    {
        match find_add_subfield(checkpoint_schema, "partitionValues_parsed") {
            Some(f) => match &f.data_type {
                DataType::Struct(parsed) => LogSegment::structs_have_compatible_types(
                    parsed,
                    partition_schema,
                ),
                _ => false,
            },
            None => false,
        }
    }
}

/// Where the checkpoint has exactly the columns that are needed, of primitive types and each under
/// its own name, they are compatible.
pub proof fn primitive_columns_compatible_with_themselves(s: Seq<FieldView>)
    requires
        forall|i: int| 0 <= i < s.len() ==> (#[trigger] s[i]).data_type is Primitive,
        schema::field_names(s).no_duplicates(),
    ensures
        fields_compatible(s, s),
{
    assert forall|i: int| 0 <= i < s.len() implies match schema::find_field(s, (#[trigger] s[i]).name) {
        Some(f) => types_compatible(f.data_type, s[i].data_type),
        None => true,
    } by {
        schema::lemma_field_position(s, s[i].name);
        if let Some(j) = schema::field_position(s, s[i].name) {
            assert(schema::field_names(s)[j] == schema::field_names(s)[i]);
        }
    }
}

/// What is known of how a checkpoint is read.
#[derive(Debug, PartialEq, Eq)]
pub struct CheckpointReadInfo {
    /// Whether the checkpoint has parsed statistics that can be used.
    pub has_stats_parsed: bool,
    /// Whether the checkpoint has parsed partition values that can be used.
    pub has_partition_values_parsed: bool,
    /// The schema with which the checkpoint is read.
    pub checkpoint_read_schema: StructType,
}

/// The mathematical value of a [`CheckpointReadInfo`].
pub struct ReadInfoView {
    pub has_stats_parsed: bool,
    pub has_partition_values_parsed: bool,
    pub schema: Seq<FieldView>,
}

impl View for CheckpointReadInfo {
    type V = ReadInfoView;

    open spec fn view(&self) -> ReadInfoView {
        ReadInfoView {
            has_stats_parsed: self.has_stats_parsed,
            has_partition_values_parsed: self.has_partition_values_parsed,
            schema: self.checkpoint_read_schema@,
        }
    }
}

impl CheckpointReadInfo {
    /// How a checkpoint is read when parsed statistics are not used.
    pub fn without_stats_parsed() -> (r: CheckpointReadInfo)
        ensures
            r@ == (ReadInfoView {
                has_stats_parsed: false,
                has_partition_values_parsed: false,
                schema: action_schemas::log_add_fields(),
            }),
    {
        CheckpointReadInfo {
            has_stats_parsed: false,
            has_partition_values_parsed: false,
            checkpoint_read_schema: get_log_add_schema(),
        }
    }
}

/// The encoding of a checkpoint file.
#[derive(Debug, Clone, Copy, PartialEq, Eq, Structural)]
pub enum CheckpointFormat {
    Json,
    Parquet,
}

/// The encoding that a file extension stands for.
pub open spec fn format_of(extension: Seq<char>) -> Option<CheckpointFormat> {
    if extension == "json"@ {
        Some(CheckpointFormat::Json)
    } else if extension == "parquet"@ {
        Some(CheckpointFormat::Parquet)
    } else {
        None
    }
}

/// The encoding that a file extension stands for.
fn checkpoint_format(extension: &str) -> (r: Option<CheckpointFormat>)
    ensures
        r == format_of(extension@),
{
    if same_text(extension, "json") {
        Some(CheckpointFormat::Json)
    } else if same_text(extension, "parquet") {
        Some(CheckpointFormat::Parquet)
    } else {
        None
    }
}

/// The search for the schema of the file actions of a checkpoint and for its sidecar files: what
/// has to be read next, or what was found.
#[derive(Debug, PartialEq, Eq)]
pub enum SchemaSearch {
    /// The search is over.
    Found { schema: Option<StructType>, sidecars: Vec<FileMeta> },
    /// The schema in the footer of the checkpoint file is needed.
    NeedFooter { checkpoint: FileMeta },
    /// The sidecar column of the checkpoint file is needed.
    NeedSidecarRefs {
        checkpoint: FileMeta,
        format: CheckpointFormat,
        checkpoint_schema: Option<StructType>,
    },
    /// The schema in the footer of the first sidecar file is needed.
    NeedSidecarFooter { first: FileMeta, sidecars: Vec<FileMeta> },
}

/// The mathematical value of a [`SchemaSearch`].
pub enum SearchView {
    Found { schema: Option<Seq<FieldView>>, sidecars: Seq<FileMetaView> },
    NeedFooter { checkpoint: FileMetaView },
    NeedSidecarRefs {
        checkpoint: FileMetaView,
        format: CheckpointFormat,
        checkpoint_schema: Option<Seq<FieldView>>,
    },
    NeedSidecarFooter { first: FileMetaView, sidecars: Seq<FileMetaView> },
}

impl View for SchemaSearch {
    type V = SearchView;

    open spec fn view(&self) -> SearchView {
        match *self {
            SchemaSearch::Found { schema, sidecars } => SearchView::Found {
                schema: log_segment::opt_schema(schema),
                sidecars: path::files_view(sidecars@),
            },
            SchemaSearch::NeedFooter { checkpoint } => SearchView::NeedFooter {
                checkpoint: checkpoint@,
            },
            SchemaSearch::NeedSidecarRefs { checkpoint, format, checkpoint_schema } => {
                SearchView::NeedSidecarRefs {
                    checkpoint: checkpoint@,
                    format,
                    checkpoint_schema: log_segment::opt_schema(checkpoint_schema),
                }
            },
            SchemaSearch::NeedSidecarFooter { first, sidecars } => SearchView::NeedSidecarFooter {
                first: first@,
                sidecars: path::files_view(sidecars@),
            },
        }
    }
}

/// What a checkpoint file that may have sidecars asks for once its schema is known.
pub open spec fn search_with_schema(part: LogPathView, schema: Seq<FieldView>) -> SearchView {
    if part.file_type is MultiPartCheckpoint || schema::find_field(schema, SIDECAR_NAME@) is None {
        SearchView::Found { schema: Some(schema), sidecars: Seq::empty() }
    } else {
        SearchView::NeedSidecarRefs {
            checkpoint: part.location,
            format: CheckpointFormat::Parquet,
            checkpoint_schema: Some(schema),
        }
    }
}

/// Whether the schema of a checkpoint file tells whether the checkpoint has sidecars.
pub open spec fn schema_tells(part: LogPathView) -> bool {
    ||| part.file_type is MultiPartCheckpoint
    ||| (part.file_type is SinglePartCheckpoint || part.file_type is UuidCheckpoint)
        && part.extension == "parquet"@
}

/// The schema that the hint for the last checkpoint holds.
pub open spec fn hint_schema(s: SegmentView) -> Option<Seq<FieldView>> {
    match s.last_checkpoint {
        Some(h) => h.schema,
        None => None,
    }
}

/// How the search begins.
pub open spec fn search_start(s: SegmentView) -> SearchView {
    if s.listed.parts.len() == 0 {
        SearchView::Found { schema: None, sidecars: Seq::empty() }
    } else {
        let part = s.listed.parts[0];
        if part.file_type is UuidCheckpoint && part.extension == "json"@ {
            SearchView::NeedSidecarRefs {
                checkpoint: part.location,
                format: CheckpointFormat::Json,
                checkpoint_schema: None,
            }
        } else if schema_tells(part) {
            match hint_schema(s) {
                Some(schema) => search_with_schema(part, schema),
                None => SearchView::NeedFooter { checkpoint: part.location },
            }
        } else {
            SearchView::Found { schema: None, sidecars: Seq::empty() }
        }
    }
}

/// How the search goes on with the schema of a footer.
pub open spec fn search_after_footer(
    s: SegmentView,
    state: SearchView,
    schema: Seq<FieldView>,
) -> SearchView {
    match state {
        SearchView::NeedFooter { .. } => search_with_schema(s.listed.parts[0], schema),
        SearchView::NeedSidecarFooter { sidecars, .. } => SearchView::Found {
            schema: Some(schema),
            sidecars,
        },
        _ => state,
    }
}

/// How the search goes on with the sidecar actions of the checkpoint.
pub open spec fn search_after_refs(
    s: SegmentView,
    state: SearchView,
    refs: Seq<SidecarView>,
) -> Result<SearchView, ErrorView> {
    match state {
        SearchView::NeedSidecarRefs { checkpoint_schema, .. } => match actions::sidecar_files(
            refs,
            s.log_root,
        ) {
            Err(e) => Err(e),
            Ok(files) => if files.len() == 0 {
                Ok(SearchView::Found { schema: checkpoint_schema, sidecars: files })
            } else {
                Ok(SearchView::NeedSidecarFooter { first: files[0], sidecars: files })
            },
        },
        _ => Ok(state),
    }
}

/// What a checkpoint file that may have sidecars asks for once its schema is known.
fn after_checkpoint_schema(part: &ParsedLogPath, schema: StructType) -> (r: SchemaSearch)
    ensures
        r@ == search_with_schema(part@, schema@),
{
    let multi_part = match part.file_type {
        LogPathFileType::MultiPartCheckpoint { .. } => true,
        _ => false,
    };
    if multi_part || !schema.contains(SIDECAR_NAME) {
        let sidecars: Vec<FileMeta> = Vec::new();
        assert(path::files_view(sidecars@) =~= Seq::<FileMetaView>::empty());
        SchemaSearch::Found { schema: Some(schema), sidecars }
    } else {
        SchemaSearch::NeedSidecarRefs {
            checkpoint: part.location.clone(),
            format: CheckpointFormat::Parquet,
            checkpoint_schema: Some(schema),
        }
    }
}

impl LogSegment {
    /// Begins the search for the schema of the file actions of the checkpoint and for its sidecar
    /// files. A checkpoint in several parts never has sidecars; one in JSON has its file actions
    /// in sidecars; of any other Parquet checkpoint the schema tells.
    pub fn begin_schema_search(&self) -> (r: SchemaSearch)
        ensures
            r@ == search_start(self@),
    {
        let none: Vec<FileMeta> = Vec::new();
        assert(path::files_view(none@) =~= Seq::<FileMetaView>::empty());
        if self.listed.checkpoint_parts.len() == 0 {
            return SchemaSearch::Found { schema: None, sidecars: none };
        }
        let part = &self.listed.checkpoint_parts[0];
        assert(self@.listed.parts[0] == part@);
        let json = same_text(part.extension.as_str(), "json");
        let parquet = same_text(part.extension.as_str(), "parquet");
        let tells = match part.file_type {
            LogPathFileType::UuidCheckpoint => {
                if json {
                    return SchemaSearch::NeedSidecarRefs {
                        checkpoint: part.location.clone(),
                        format: CheckpointFormat::Json,
                        checkpoint_schema: None,
                    };
                }
                parquet
            },
            LogPathFileType::MultiPartCheckpoint { .. } => true,
            LogPathFileType::SinglePartCheckpoint => parquet,
            _ => false,
        };
        assert(tells == schema_tells(part@));
        if !tells {
            return SchemaSearch::Found { schema: None, sidecars: none };
        }
        if let Some(hint) = &self.last_checkpoint_metadata {
            if let Some(schema) = &hint.schema {
                return after_checkpoint_schema(part, schema.clone());
            }
        }
        SchemaSearch::NeedFooter { checkpoint: part.location.clone() }
    }

    /// Goes on with the schema of the footer that was asked for.
    pub fn schema_search_footer(&self, state: SchemaSearch, schema: StructType) -> (r: SchemaSearch)
        requires
            state is NeedFooter ==> self@.listed.parts.len() > 0,
        ensures
            r@ == search_after_footer(self@, state@, schema@),
    {
        match state {
            SchemaSearch::NeedFooter { .. } => after_checkpoint_schema(
                &self.listed.checkpoint_parts[0],
                schema,
            ),
            SchemaSearch::NeedSidecarFooter { sidecars, .. } => SchemaSearch::Found {
                schema: Some(schema),
                sidecars,
            },
            other => other,
        }
    }

    /// Goes on with the sidecar actions that were asked for. Fails where one of them does not refer
    /// to a file.
    pub fn schema_search_sidecars(&self, state: SchemaSearch, refs: &Vec<Sidecar>) -> (r: DeltaResult<
        SchemaSearch,
    >)
        ensures
            search_after_refs(self@, state@, actions::sidecars_view(refs@)) matches Ok(s) ==> (r matches Ok(
                t,
            ) && t@ == s),
            search_after_refs(self@, state@, actions::sidecars_view(refs@)) matches Err(e) ==> error::failure(r)
                == Some(e),
    {
        match state {
            SchemaSearch::NeedSidecarRefs { checkpoint_schema, .. } => {
                let files = match Sidecar::to_filemetas(refs, self.log_root.as_str()) {
                    Ok(files) => files,
                    Err(e) => {
                        return Err(e);
                    },
                };
                if files.len() == 0 {
                    Ok(SchemaSearch::Found { schema: checkpoint_schema, sidecars: files })
                } else {
                    let first = files[0].clone();
                    assert(first@ == path::files_view(files@)[0]);
                    Ok(SchemaSearch::NeedSidecarFooter { first, sidecars: files })
                }
            },
            other => Ok(other),
        }
    }
}

/// How much is left to read.
pub open spec fn search_left(state: SearchView) -> nat {
    match state {
        SearchView::NeedFooter { .. } => 3,
        SearchView::NeedSidecarRefs { .. } => 2,
        SearchView::NeedSidecarFooter { .. } => 1,
        SearchView::Found { .. } => 0,
    }
}

/// Every reply that was asked for brings the search closer to its end, which comes after three
/// replies at most.
pub proof fn schema_search_ends(
    s: SegmentView,
    state: SearchView,
    schema: Seq<FieldView>,
    refs: Seq<SidecarView>,
)
    ensures
        state is NeedFooter || state is NeedSidecarFooter ==> search_left(
            search_after_footer(s, state, schema),
        ) < search_left(state),
        state is NeedSidecarRefs ==> (search_after_refs(s, state, refs) matches Ok(next)
            ==> search_left(next) < search_left(state)),
        search_left(search_start(s)) <= 3,
{
}

/// What the search finds when the checkpoint file has the given schema in its footer and holds the
/// given sidecar actions, and the first sidecar file has the given schema in its footer.
pub open spec fn search_result(
    s: SegmentView,
    footer: Seq<FieldView>,
    refs: Seq<SidecarView>,
    sidecar_footer: Seq<FieldView>,
) -> Result<(Option<Seq<FieldView>>, Seq<FileMetaView>), ErrorView> {
    if s.listed.parts.len() == 0 {
        Ok((None, Seq::empty()))
    } else {
        let part = s.listed.parts[0];
        let schema = match hint_schema(s) {
            Some(h) => h,
            None => footer,
        };
        let json = part.file_type is UuidCheckpoint && part.extension == "json"@;
        if json || schema_tells(part) && !(part.file_type is MultiPartCheckpoint) && schema::find_field(
            schema,
            SIDECAR_NAME@,
        ) is Some {
            match actions::sidecar_files(refs, s.log_root) {
                Err(e) => Err(e),
                Ok(files) => if files.len() > 0 {
                    Ok((Some(sidecar_footer), files))
                } else if json {
                    Ok((None, files))
                } else {
                    Ok((Some(schema), files))
                },
            }
        } else if schema_tells(part) {
            Ok((Some(schema), Seq::empty()))
        } else {
            Ok((None, Seq::empty()))
        }
    }
}

/// The state after every reply that is asked for has been given.
pub open spec fn search_run(
    s: SegmentView,
    footer: Seq<FieldView>,
    refs: Seq<SidecarView>,
    sidecar_footer: Seq<FieldView>,
) -> Result<SearchView, ErrorView> {
    let first = search_start(s);
    let second = if first is NeedFooter {
        search_after_footer(s, first, footer)
    } else {
        first
    };
    match search_after_refs(s, second, refs) {
        Err(e) => Err(e),
        Ok(third) => if third is NeedSidecarFooter {
            Ok(search_after_footer(s, third, sidecar_footer))
        } else {
            Ok(third)
        },
    }
}

/// The search ends with what it is meant to find: the file actions are read with the schema of the
/// first sidecar where there are sidecars, and with that of the checkpoint where there are none.
pub proof fn schema_search_finds(
    s: SegmentView,
    footer: Seq<FieldView>,
    refs: Seq<SidecarView>,
    sidecar_footer: Seq<FieldView>,
)
    ensures
        search_result(s, footer, refs, sidecar_footer) matches Ok(found) ==> search_run(
            s,
            footer,
            refs,
            sidecar_footer,
        ) == Ok::<SearchView, ErrorView>(
            SearchView::Found { schema: found.0, sidecars: found.1 },
        ),
        search_result(s, footer, refs, sidecar_footer) matches Err(e) ==> search_run(
            s,
            footer,
            refs,
            sidecar_footer,
        ) == Err::<SearchView, ErrorView>(e),
{
    reveal_strlit("json");
    reveal_strlit("parquet");
    assert("json"@.len() != "parquet"@.len());
    if let Ok(files) = actions::sidecar_files(refs, s.log_root) {
        if files.len() == 0 {
            assert(files =~= Seq::empty());
        }
    }
}

/// How the files of a checkpoint are to be read.
#[derive(Debug, PartialEq, Eq)]
pub struct CheckpointReadPlan {
    pub info: CheckpointReadInfo,
    /// The encoding of the checkpoint files: none where there is no checkpoint.
    pub format: Option<CheckpointFormat>,
    pub checkpoint_files: Vec<FileMeta>,
    /// The sidecar files, which are Parquet files with the same schema.
    pub sidecar_files: Vec<FileMeta>,
}

/// The fields of an add action with the parsed columns that can be used.
pub open spec fn augmented_add_fields(
    fields: Seq<FieldView>,
    stats: Option<Seq<FieldView>>,
    partition: Option<Seq<FieldView>>,
) -> Seq<FieldView> {
    let with_stats = match stats {
        Some(s) => fields.push(schema::plain_field("stats_parsed"@, DataTypeView::Struct(s), true)),
        None => fields,
    };
    match partition {
        Some(p) => with_stats.push(
            schema::plain_field("partitionValues_parsed"@, DataTypeView::Struct(p), true),
        ),
        None => with_stats,
    }
}

/// The fields with that of a name replaced.
pub open spec fn with_replaced(
    fields: Seq<FieldView>,
    name: Seq<char>,
    by: FieldView,
) -> Seq<FieldView> {
    Seq::new(
        fields.len(),
        |i: int|
            if fields[i].name == name {
                by
            } else {
                fields[i]
            },
    )
}

/// The parsed columns that can be used: those that are needed, that the caller asks for and that
/// the file actions of the checkpoint have.
pub open spec fn usable_stats(
    actions: Seq<FieldView>,
    file_schema: Option<Seq<FieldView>>,
    stats: Option<Seq<FieldView>>,
) -> Option<Seq<FieldView>> {
    match (file_schema, stats) {
        (Some(f), Some(s)) => if action_schemas::has_file_actions(actions) && stats_parsed_usable(f, s) {
            Some(s)
        } else {
            None
        },
        _ => None,
    }
}

/// The parsed partition values that can be used.
pub open spec fn usable_partition(
    actions: Seq<FieldView>,
    file_schema: Option<Seq<FieldView>>,
    partition: Option<Seq<FieldView>>,
) -> Option<Seq<FieldView>> {
    match (file_schema, partition) {
        (Some(f), Some(p)) => if action_schemas::has_file_actions(actions) && partition_values_usable(f, p) {
            Some(p)
        } else {
            None
        },
        _ => None,
    }
}

/// The action schema with the parsed columns that can be used inside add actions, or the error
/// where the column of add actions is not a struct.
pub open spec fn with_parsed_columns(
    actions: Seq<FieldView>,
    stats: Option<Seq<FieldView>>,
    partition: Option<Seq<FieldView>>,
) -> Result<Seq<FieldView>, ErrorView> {
    match schema::find_field(actions, ADD_NAME@) {
        Some(add) => if stats is None && partition is None {
            Ok(actions)
        } else {
            match add.data_type {
                DataTypeView::Struct(inner) => Ok(
                    with_replaced(
                        actions,
                        ADD_NAME@,
                        FieldView {
                            data_type: DataTypeView::Struct(
                                schema::keyed(augmented_add_fields(inner, stats, partition)),
                            ),
                            ..add
                        },
                    ),
                ),
                _ => Err(
                    ErrorView::InternalError("add field in action schema must be a struct"@),
                ),
            }
        },
        None => Ok(actions),
    }
}

/// The schema with which a checkpoint is read.
pub open spec fn checkpoint_schema_of(
    actions: Seq<FieldView>,
    has_sidecars: bool,
    stats: Option<Seq<FieldView>>,
    partition: Option<Seq<FieldView>>,
) -> Result<Seq<FieldView>, ErrorView> {
    if !has_sidecars && stats is None && partition is None {
        Ok(actions)
    } else {
        match with_parsed_columns(actions, stats, partition) {
            Err(e) => Err(e),
            Ok(fields) => Ok(
                schema::keyed(
                    if has_sidecars {
                        fields.push(action_schemas::action_field(SIDECAR_NAME@, action_schemas::sidecar_fields()))
                    } else {
                        fields
                    },
                ),
            ),
        }
    }
}

/// The files of a list of log files.
pub open spec fn locations(s: Seq<LogPathView>) -> Seq<FileMetaView> {
    Seq::new(s.len(), |i: int| s[i].location)
}

/// What is wrong with the encoding of the checkpoint files.
pub open spec fn format_fault(parts: Seq<LogPathView>) -> Option<ErrorView> {
    if parts.len() > 0 && format_of(parts[0].extension) is None {
        Some(ErrorView::Generic("Unsupported checkpoint file type: "@ + parts[0].extension))
    } else {
        None
    }
}

/// The action schema with the parsed columns that can be used inside add actions.
fn add_parsed_columns(
    action_schema: &StructType,
    stats: Option<&StructType>,
    partition: Option<&StructType>,
) -> (r: DeltaResult<Vec<StructField>>)
    ensures
        with_parsed_columns(
            action_schema@,
            opt_schema_ref(stats),
            opt_schema_ref(partition),
        ) matches Ok(s) ==> (r matches Ok(t) && schema::fields_view(t@) == s),
        with_parsed_columns(
            action_schema@,
            opt_schema_ref(stats),
            opt_schema_ref(partition),
        ) matches Err(e) ==> error::failure(r) == Some(e),
{
    let fields = &action_schema.fields;
    let ghost actions = action_schema@;
    let position = match position_of(fields, ADD_NAME) {
        Some(i) => i,
        None => {
            return Ok(clone_fields(fields));
        },
    };
    if stats.is_none() && partition.is_none() {
        return Ok(clone_fields(fields));
    }
    let add = &fields[position];
    assert(actions[position as int] == schema::field_view(*add));
    let mut inner: Vec<StructField> = match &add.data_type {
        DataType::Struct(s) => clone_fields(&s.fields),
        _ => {
            return Err(Error::internal_error("add field in action schema must be a struct"));
        },
    };
    let ghost before = schema::fields_view(inner@);
    if let Some(s) = stats {
        inner.push(StructField::nullable("stats_parsed", DataType::struct_of(s.clone())));
        assert(schema::fields_view(inner@) =~= before.push(
            schema::plain_field("stats_parsed"@, DataTypeView::Struct(s@), true),
        ));
    }
    let ghost middle = schema::fields_view(inner@);
    if let Some(p) = partition {
        inner.push(StructField::nullable("partitionValues_parsed", DataType::struct_of(p.clone())));
        assert(schema::fields_view(inner@) =~= middle.push(
            schema::plain_field("partitionValues_parsed"@, DataTypeView::Struct(p@), true),
        ));
    }
    let new_add = StructField {
        name: add.name.clone(),
        data_type: DataType::struct_type_unchecked(inner),
        nullable: add.nullable,
        metadata: add.metadata.clone(),
    };
    let ghost by = new_add@;
    let mut out: Vec<StructField> = Vec::new();
    let mut i: usize = 0;
    while i < fields.len()
        invariant
            i <= fields@.len(),
            out@.len() == i,
            actions == schema::fields_view(fields@),
            new_add@ == by,
            forall|j: int|
                0 <= j < i ==> schema::field_view(#[trigger] out@[j]) == with_replaced(
                    actions,
                    ADD_NAME@,
                    by,
                )[j],
        decreases fields.len() - i,
    {
        assert(actions[i as int] == schema::field_view(fields@[i as int]));
        if same_text(fields[i].name.as_str(), ADD_NAME) {
            out.push(new_add.clone());
        } else {
            out.push(fields[i].clone());
        }
        i += 1;
    }
    assert(schema::fields_view(out@) =~= with_replaced(actions, ADD_NAME@, by));
    Ok(out)
}

/// The fields of an optional schema.
pub open spec fn opt_schema_ref(s: Option<&StructType>) -> Option<Seq<FieldView>> {
    match s {
        Some(s) => Some(s@),
        None => None,
    }
}

impl LogSegment {
    /// How the checkpoint is read: with which schema and from which files. The schema of the file
    /// actions and the sidecar files are what the search for them found; they play no role where
    /// the action schema has no file actions. Fails where the column of add actions is not a struct
    /// but would have to be extended, and where the encoding of the checkpoint files is not known.
    pub fn checkpoint_read_plan(
        &self,
        action_schema: &StructType,
        file_actions_schema: Option<&StructType>,
        sidecar_files: &Vec<FileMeta>,
        stats_schema: Option<&StructType>,
        partition_schema: Option<&StructType>,
    ) -> (r: DeltaResult<CheckpointReadPlan>)
        ensures
            ({
                let actions = action_schema@;
                let found = path::files_view(sidecar_files@);
                let sidecars = if action_schemas::has_file_actions(actions) {
                    found
                } else {
                    Seq::empty()
                };
                let stats = usable_stats(
                    actions,
                    opt_schema_ref(file_actions_schema),
                    opt_schema_ref(stats_schema),
                );
                let partition = usable_partition(
                    actions,
                    opt_schema_ref(file_actions_schema),
                    opt_schema_ref(partition_schema),
                );
                match checkpoint_schema_of(actions, sidecars.len() > 0, stats, partition) {
                    Err(e) => error::failure(r) == Some(e),
                    Ok(schema) => match format_fault(self@.listed.parts) {
                        Some(e) => error::failure(r) == Some(e),
                        None => r matches Ok(plan) && plan.info@ == (ReadInfoView {
                            has_stats_parsed: stats is Some,
                            has_partition_values_parsed: partition is Some,
                            schema,
                        }) && plan.format == (if self@.listed.parts.len() > 0 {
                            format_of(self@.listed.parts[0].extension)
                        } else {
                            None
                        }) && path::files_view(plan.checkpoint_files@) == locations(self@.listed.parts)
                            && path::files_view(plan.sidecar_files@) == sidecars,
                    },
                }
            }),
    {
        let need_file_actions = schema_contains_file_actions(action_schema);
        let sidecars: Vec<FileMeta> = if need_file_actions {
            clone_files(sidecar_files)
        } else {
            Vec::new()
        };
        assert(!need_file_actions ==> path::files_view(sidecars@) =~= Seq::<FileMetaView>::empty());
        let stats: Option<&StructType> = match (file_actions_schema, stats_schema) {
            (Some(f), Some(s)) => if need_file_actions
                && LogSegment::schema_has_compatible_stats_parsed(f, s) {
                Some(s)
            } else {
                None
            },
            _ => None,
        };
        let partition: Option<&StructType> = match (file_actions_schema, partition_schema) {
            (Some(f), Some(p)) => if need_file_actions
                && LogSegment::schema_has_compatible_partition_values_parsed(f, p) {
                Some(p)
            } else {
                None
            },
            _ => None,
        };
        let needs_sidecar = sidecars.len() > 0;
        let schema = if needs_sidecar || stats.is_some() || partition.is_some() {
            let mut fields = match add_parsed_columns(action_schema, stats, partition) {
                Ok(fields) => fields,
                Err(e) => {
                    return Err(e);
                },
            };
            let ghost before = schema::fields_view(fields@);
            if needs_sidecar {
                fields.push(
                    StructField::nullable(SIDECAR_NAME, DataType::struct_of(Sidecar::to_schema())),
                );
                assert(schema::fields_view(fields@) =~= before.push(
                    action_schemas::action_field(SIDECAR_NAME@, action_schemas::sidecar_fields()),
                ));
            }
            StructType::new_unchecked(fields)
        } else {
            action_schema.clone()
        };
        let parts = &self.listed.checkpoint_parts;
        let mut checkpoint_files: Vec<FileMeta> = Vec::new();
        let mut i: usize = 0;
        while i < parts.len()
            invariant
                i <= parts@.len(),
                checkpoint_files@.len() == i,
                forall|j: int| 0 <= j < i ==> (#[trigger] checkpoint_files@[j])@ == parts@[j]@.location,
            decreases parts.len() - i,
        {
            checkpoint_files.push(parts[i].location.clone());
            i += 1;
        }
        assert(path::files_view(checkpoint_files@) =~= locations(self@.listed.parts));
        let format: Option<CheckpointFormat> = if parts.len() > 0 {
            assert(self@.listed.parts[0] == parts@[0]@);
            match checkpoint_format(parts[0].extension.as_str()) {
                Some(f) => Some(f),
                None => {
                    return Err(
                        Error::Generic(
                            text2(
                                "Unsupported checkpoint file type: ",
                                parts[0].extension.as_str(),
                            ),
                        ),
                    );
                },
            }
        } else {
            None
        };
        Ok(
            CheckpointReadPlan {
                info: CheckpointReadInfo {
                    has_stats_parsed: stats.is_some(),
                    has_partition_values_parsed: partition.is_some(),
                    checkpoint_read_schema: schema,
                },
                format,
                checkpoint_files,
                sidecar_files: sidecars,
            },
        )
    }
}

} // verus!
