//! Building the transaction that creates a table.
use vstd::pervasive::unreached;
use vstd::prelude::*;

use crate::actions::{self, DomainMetadata, Metadata, Protocol};
use crate::bindings::{self, new_uuid_text};
use crate::column_mapping::{self, count_fields, random_names};
use crate::commit::{self, log_root};
use crate::create_table::{
    self, apply_column_mapping, apply_data_layout, ensure_table_does_not_exist,
    maybe_auto_enable_property_driven_features, maybe_enable_ict_for_catalog_managed,
    maybe_enable_timestamp_ntz, maybe_enable_variant_type,
    validate_extract_table_features_and_properties, LayoutResultView, LogListing, ValidatedView,
};
use crate::data_layout::{self, DataLayout, LayoutView};
use crate::error::{self, DeltaResult, Error, ErrorView};
use crate::expressions::{self, ColumnName};
use crate::schema::{FieldView, StructType};
use crate::string_map::StringMap;
use crate::table_configuration::{self, TableConfiguration};
use crate::table_features::FeatureView;
use crate::text;
use crate::transaction::{self, CreateTable, Transaction, TxnView};

verus! {

/// What the commit that creates a table says that it does.
pub const CREATE_TABLE_OPERATION: &'static str = "CREATE TABLE";

/// Collects what a new table is to be like.
#[derive(Debug)]
pub struct CreateTableTransactionBuilder {
    pub path: String,
    pub schema: StructType,
    pub engine_info: String,
    pub table_properties: StringMap<String>,
    pub data_layout: DataLayout,
}

/// The mathematical value of a [`CreateTableTransactionBuilder`].
pub struct BuilderView {
    pub path: Seq<char>,
    pub schema: Seq<FieldView>,
    pub engine_info: Seq<char>,
    pub properties: Map<Seq<char>, Seq<char>>,
    /// The names of the properties in the order of their first insertion.
    pub keys: Seq<Seq<char>>,
    pub layout: LayoutView,
}

impl View for CreateTableTransactionBuilder {
    type V = BuilderView;

    open spec fn view(&self) -> BuilderView {
        BuilderView {
            path: self.path@,
            schema: self.schema@,
            engine_info: self.engine_info@,
            properties: self.table_properties@,
            keys: self.table_properties.keys(),
            layout: self.data_layout@,
        }
    }
}

/// The values of pairs of texts.
pub open spec fn property_pairs(pairs: Seq<(&str, &str)>) -> Seq<(Seq<char>, Seq<char>)> {
    Seq::new(pairs.len(), |i: int| (pairs[i].0@, pairs[i].1@))
}

/// Properties with more properties, which overwrite those of the same name.
pub open spec fn properties_with(
    m: Map<Seq<char>, Seq<char>>,
    pairs: Seq<(Seq<char>, Seq<char>)>,
) -> Map<Seq<char>, Seq<char>>
    decreases pairs.len(),
{
    if pairs.len() == 0 {
        m
    } else {
        properties_with(m, pairs.drop_last()).insert(pairs.last().0, pairs.last().1)
    }
}

/// The names of properties with more properties, in the order in which they first came.
pub open spec fn property_names_with(
    m: Map<Seq<char>, Seq<char>>,
    keys: Seq<Seq<char>>,
    pairs: Seq<(Seq<char>, Seq<char>)>,
) -> Seq<Seq<char>>
    decreases pairs.len(),
{
    if pairs.len() == 0 {
        keys
    } else {
        let front = property_names_with(m, keys, pairs.drop_last());
        if properties_with(m, pairs.drop_last()).dom().contains(pairs.last().0) {
            front
        } else {
            front.push(pairs.last().0)
        }
    }
}

/// Properties that are set later win: a property has the value with which it was last set, and one
/// that is not set again keeps its value.
pub proof fn later_properties_win(
    m: Map<Seq<char>, Seq<char>>,
    pairs: Seq<(Seq<char>, Seq<char>)>,
    key: Seq<char>,
)
    ensures
        forall|i: int|
            0 <= i < pairs.len() && (#[trigger] pairs[i]).0 == key && (forall|j: int|
                i < j < pairs.len() ==> (#[trigger] pairs[j]).0 != key) ==> properties_with(
                m,
                pairs,
            ).dom().contains(key) && properties_with(m, pairs)[key] == pairs[i].1,
        (forall|i: int| 0 <= i < pairs.len() ==> (#[trigger] pairs[i]).0 != key) ==> (
        properties_with(m, pairs).dom().contains(key) == m.dom().contains(key)) && (
        m.dom().contains(key) ==> properties_with(m, pairs)[key] == m[key]),
    decreases pairs.len(),
{
    if pairs.len() > 0 {
        let front = pairs.drop_last();
        let n = pairs.len() - 1;
        later_properties_win(m, front, key);
        assert forall|i: int|
            0 <= i < pairs.len() && (#[trigger] pairs[i]).0 == key && (forall|j: int|
                i < j < pairs.len() ==> (#[trigger] pairs[j]).0 != key) implies properties_with(
            m,
            pairs,
        ).dom().contains(key) && properties_with(m, pairs)[key] == pairs[i].1 by {
            if i < n {
                assert(pairs[n].0 != key);
                assert(front[i] == pairs[i]);
                assert forall|j: int| i < j < front.len() implies (#[trigger] front[j]).0 != key by {
                    assert(front[j] == pairs[j]);
                }
            }
        }
        if forall|i: int| 0 <= i < pairs.len() ==> (#[trigger] pairs[i]).0 != key {
            assert(pairs[n].0 != key);
            assert forall|i: int| 0 <= i < front.len() implies (#[trigger] front[i]).0 != key by {
                assert(front[i] == pairs[i]);
            }
        }
    }
}

/// The first parts of column paths.
pub open spec fn first_parts(columns: Option<Seq<Seq<Seq<char>>>>) -> Seq<Seq<char>> {
    match columns {
        Some(c) => Seq::new(c.len(), |i: int| c[i][0]),
        None => Seq::empty(),
    }
}

/// Whether every column path has a part.
pub open spec fn have_parts(columns: Seq<Seq<Seq<char>>>) -> bool {
    forall|i: int| 0 <= i < columns.len() ==> (#[trigger] columns[i]).len() > 0
}

/// The properties and features of a new table, with everything that its schema and its properties
/// bring with them.
pub open spec fn completed(s: Seq<FieldView>, v: ValidatedView) -> Result<ValidatedView, ErrorView> {
    let types = create_table::with_timestamp_ntz_feature(create_table::with_variant_feature(v, s), s);
    create_table::with_catalog_timestamps(create_table::with_enabled_features(types, create_table::allowed_features()))
}

/// The transaction that creates a table, given its features and properties.
pub open spec fn created_txn<D>(
    b: BuilderView,
    s: Seq<FieldView>,
    layout: LayoutResultView,
    v: ValidatedView,
    place: PlaceView,
) -> Result<TxnView<D>, ErrorView> {
    let protocol = create_table::protocol_of(v);
    if actions::protocol_fault(protocol) is Some {
        Err(actions::protocol_fault(protocol)->0)
    } else if actions::first_metadata_column(s) is Some {
        Err(actions::metadata_column_error(actions::first_metadata_column(s)->0))
    } else {
        let metadata = actions::new_metadata(
            place.id,
            None,
            None,
            s,
            first_parts(layout.partition),
            place.created_time,
            v.properties,
            v.keys,
        );
        match table_configuration::config_fault(metadata, s, protocol) {
            Some(e) => Err(e),
            None => Ok(
                TxnView {
                    emit_protocol: true,
                    emit_metadata: true,
                    operation: Some(CREATE_TABLE_OPERATION@),
                    engine_info: Some(b.engine_info),
                    system_domains: layout.domains,
                    ..transaction::fresh_txn(
                        None,
                        table_configuration::config_of(metadata, s, protocol, place.table_root, 0),
                        place.catalog_committer,
                        place.commit_timestamp,
                        layout.clustering,
                    )
                },
            ),
        }
    }
}

/// Where and when a table is created, and what it is called.
#[derive(Debug)]
pub struct TablePlace {
    /// The URL of the table.
    pub table_root: String,
    pub is_catalog_committer: bool,
    /// The identifier of the table.
    pub id: String,
    /// When the metadata are made, in milliseconds since the Unix epoch.
    pub created_time: i64,
    /// When the transaction begins, in milliseconds since the Unix epoch.
    pub commit_timestamp: i64,
}

/// The mathematical value of a [`TablePlace`].
pub struct PlaceView {
    pub table_root: Seq<char>,
    pub catalog_committer: bool,
    pub id: Seq<char>,
    pub created_time: i64,
    pub commit_timestamp: i64,
}

impl View for TablePlace {
    type V = PlaceView;

    open spec fn view(&self) -> PlaceView {
        PlaceView {
            table_root: self.table_root@,
            catalog_committer: self.is_catalog_committer,
            id: self.id@,
            created_time: self.created_time,
            commit_timestamp: self.commit_timestamp,
        }
    }
}

/// The transaction that creates the table that a builder describes, or the first reason why there is
/// none. The physical names for column mapping are given.
pub open spec fn built<D>(b: BuilderView, place: PlaceView, names: Seq<Seq<char>>) -> Result<
    TxnView<D>,
    ErrorView,
> {
    if create_table::properties_fault(b.properties, b.keys) is Some {
        Err(create_table::properties_fault(b.properties, b.keys)->0)
    } else {
        match create_table::mapping_applied(b.schema, create_table::extracted(b.properties, b.keys), names) {
            Err(e) => Err(e),
            Ok(o) => match create_table::layout_applied(b.layout, o.schema, o.mode, o.validated) {
                Err(e) => Err(e),
                Ok((layout, v)) => match completed(o.schema, v) {
                    Err(e) => Err(e),
                    Ok(w) => created_txn(b, o.schema, layout, w, place),
                },
            },
        }
    }
}

/// Why a table cannot be created at a path at all: its schema is empty, its path is no URL, or there
/// is a table already.
pub open spec fn place_fault(
    b: BuilderView,
    log_root: Result<Seq<char>, ErrorView>,
    listing: LogListing,
) -> Option<ErrorView> {
    if b.schema.len() == 0 {
        Some(ErrorView::Generic("Schema cannot be empty"@))
    } else {
        match log_root {
            Err(e) => Some(e),
            Ok(_) => create_table::existence_fault(listing, b.path),
        }
    }
}

impl<D> Transaction<CreateTable, D> {
    /// A transaction that creates a table with the given configuration.
    pub fn try_new_create_table(
        table_configuration: TableConfiguration,
        engine_info: String,
        is_catalog_committer: bool,
        system_domain_metadata: Vec<DomainMetadata>,
        physical_clustering_columns: Option<Vec<ColumnName>>,
        commit_timestamp: i64,
    ) -> (r: DeltaResult<Transaction<CreateTable, D>>)
        ensures
            r matches Ok(t) && t@ == (TxnView {
                emit_protocol: true,
                emit_metadata: true,
                operation: Some(CREATE_TABLE_OPERATION@),
                engine_info: Some(engine_info@),
                system_domains: actions::domains_view(system_domain_metadata@),
                ..transaction::fresh_txn::<D>(
                    None,
                    table_configuration@,
                    is_catalog_committer,
                    commit_timestamp,
                    expressions::opt_columns(physical_clustering_columns),
                )
            }),
    {
        let mut txn: Transaction<CreateTable, D> = Transaction::fresh(
            None,
            table_configuration,
            is_catalog_committer,
            commit_timestamp,
            physical_clustering_columns,
            CreateTable,
        );
        txn.should_emit_protocol = true;
        txn.should_emit_metadata = true;
        txn.operation = Some(CREATE_TABLE_OPERATION.to_owned());
        txn.engine_info = Some(engine_info);
        txn.system_domain_metadata_additions = system_domain_metadata;
        Ok(txn)
    }
}

/// The first parts of column paths.
fn first_part_of_each(columns: &Option<Vec<ColumnName>>) -> (r: Vec<String>)
    requires
        expressions::opt_columns(*columns) matches Some(c) ==> have_parts(c),
    ensures
        text::texts(r@) == first_parts(expressions::opt_columns(*columns)),
{
    let mut out: Vec<String> = Vec::new();
    if let Some(list) = columns {
        let ghost c = expressions::columns_view(list@);
        assert(expressions::opt_columns(*columns) == Some(c));
        let mut i: usize = 0;
        while i < list.len()
            invariant
                i <= list@.len(),
                c == expressions::columns_view(list@),
                have_parts(c),
                out@.len() == i,
                forall|j: int| 0 <= j < i ==> (#[trigger] out@[j])@ == c[j][0],
            decreases list.len() - i,
        {
            assert(c[i as int] == list@[i as int]@);
            assert(c[i as int].len() > 0);
            let path = list[i].path();
            out.push(path[0].clone());
            i += 1;
        }
    }
    assert(text::texts(out@) =~= first_parts(expressions::opt_columns(*columns)));
    out
}

/// Enabling features keeps lists in agreement.
proof fn lemma_enabled_features_agree(v: ValidatedView, s: Seq<FeatureView>)
    requires
        create_table::lists_agree(v),
    ensures
        create_table::lists_agree(create_table::with_enabled_features(v, s)),
    decreases s.len(),
{
    if s.len() > 0 {
        lemma_enabled_features_agree(v, s.drop_last());
        create_table::added_features_keep_lists_in_agreement(
            create_table::with_enabled_features(v, s.drop_last()),
            s.last(),
        );
    }
}

/// A new table always has a valid protocol: whatever features the properties, the schema and the
/// layout bring, the lists for readers and writers agree.
pub proof fn new_tables_have_valid_protocols(b: BuilderView, names: Seq<Seq<char>>)
    ensures
        create_table::mapping_applied(b.schema, create_table::extracted(b.properties, b.keys), names) matches Ok(o) ==> (
        create_table::layout_applied(b.layout, o.schema, o.mode, o.validated) matches Ok((_, v)) ==> (completed(
            o.schema,
            v,
        ) matches Ok(w) ==> actions::protocol_fault(create_table::protocol_of(w)) is None)),
{
    let start = create_table::extracted(b.properties, b.keys);
    create_table::extracted_properties_and_features(b.properties, b.keys);
    if let Ok(o) = create_table::mapping_applied(b.schema, start, names) {
        create_table::added_features_keep_lists_in_agreement(start, FeatureView::ColumnMapping);
        assert(create_table::lists_agree(o.validated));
        if let Ok((layout, v)) = create_table::layout_applied(b.layout, o.schema, o.mode, o.validated) {
            let d = create_table::with_feature(o.validated, FeatureView::DomainMetadata);
            create_table::added_features_keep_lists_in_agreement(o.validated, FeatureView::DomainMetadata);
            create_table::added_features_keep_lists_in_agreement(d, FeatureView::ClusteredTable);
            assert(create_table::lists_agree(v));
            create_table::added_features_keep_lists_in_agreement(v, FeatureView::VariantType);
            let variant = create_table::with_variant_feature(v, o.schema);
            assert(create_table::lists_agree(variant));
            create_table::added_features_keep_lists_in_agreement(variant, FeatureView::TimestampWithoutTimezone);
            let types = create_table::with_timestamp_ntz_feature(variant, o.schema);
            assert(create_table::lists_agree(types));
            lemma_enabled_features_agree(types, create_table::allowed_features());
            let enabled = create_table::with_enabled_features(types, create_table::allowed_features());
            create_table::added_features_keep_lists_in_agreement(enabled, FeatureView::InCommitTimestamp);
        }
    }
}

/// A transaction that creates a table is valid, creates a table of version zero, and has only the
/// domains of its layout.
pub proof fn created_transactions_are_valid<D>(
    b: BuilderView,
    place: PlaceView,
    names: Seq<Seq<char>>,
)
    ensures
        built::<D>(b, place, names) matches Ok(t) ==> transaction::txn_valid(t) && transaction::creates_table(t)
            && transaction::commit_version_of(t) == 0 && t.emit_protocol && t.emit_metadata
            && t.config.table_root == place.table_root && t.adds.len() == 0 && t.removes.len() == 0,
{
}

/// Starts to describe a new table.
pub fn create_table(path: &str, schema: StructType, engine_info: &str) -> (r:
    CreateTableTransactionBuilder)
    ensures
        r@ == (BuilderView {
            path: path@,
            schema: schema@,
            engine_info: engine_info@,
            properties: Map::empty(),
            keys: Seq::empty(),
            layout: LayoutView::Unorganized,
        }),
{
    CreateTableTransactionBuilder::new(path, schema, engine_info)
}

impl CreateTableTransactionBuilder {
    /// Describes a table without properties and without a layout of its own.
    pub fn new(path: &str, schema: StructType, engine_info: &str) -> (r:
        CreateTableTransactionBuilder)
        ensures
            r@ == (BuilderView {
                path: path@,
                schema: schema@,
                engine_info: engine_info@,
                properties: Map::empty(),
                keys: Seq::empty(),
                layout: LayoutView::Unorganized,
            }),
    {
        CreateTableTransactionBuilder {
            path: path.to_owned(),
            schema,
            engine_info: engine_info.to_owned(),
            table_properties: StringMap::new(),
            data_layout: DataLayout::Unorganized,
        }
    }

    /// Sets properties of the table. They add to those that were set before; one that is set again
    /// gets the new value.
    pub fn with_table_properties<const N: usize>(self, properties: [(&str, &str); N]) -> (r:
        CreateTableTransactionBuilder)
        ensures
            r@ == (BuilderView {
                properties: properties_with(self@.properties, property_pairs(properties@)),
                keys: property_names_with(
                    self@.properties,
                    self@.keys,
                    property_pairs(properties@),
                ),
                ..self@
            }),
    {
        let mut builder = self;
        let ghost m = builder@.properties;
        let ghost k = builder@.keys;
        let ghost b = builder@;
        let ghost pairs = property_pairs(properties@);
        let mut i: usize = 0;
        assert(pairs.take(0) =~= Seq::<(Seq<char>, Seq<char>)>::empty());
        while i < N
            invariant
                i <= N,
                pairs == property_pairs(properties@),
                pairs.len() == N,
                builder@ == (BuilderView {
                    properties: properties_with(m, pairs.take(i as int)),
                    keys: property_names_with(m, k, pairs.take(i as int)),
                    ..b
                }),
            decreases N - i,
        {
            assert(pairs.take(i + 1).drop_last() =~= pairs.take(i as int));
            assert(pairs.take(i + 1).last() == pairs[i as int]);
            let (key, value) = properties[i];
            builder.table_properties.insert(key.to_owned(), value.to_owned());
            i += 1;
        }
        assert(pairs.take(N as int) =~= pairs);
        builder
    }

    /// Sets how the data of the table are laid out. Only the last layout counts.
    pub fn with_data_layout(self, layout: DataLayout) -> (r: CreateTableTransactionBuilder)
        ensures
            r@ == (BuilderView { layout: layout@, ..self@ }),
    {
        let mut builder = self;
        builder.data_layout = layout;
        builder
    }

    /// Checks that a table can be created at the path: the schema has columns, the URL of the log
    /// can be made, and there is no table yet.
    pub fn check_place(&self, log_root: DeltaResult<String>, listing: &LogListing) -> (r:
        DeltaResult<()>)
        ensures
            error::failure(r) == place_fault(self@, commit::text_outcome(log_root), *listing),
    {
        if self.schema.fields.len() == 0 {
            return Err(Error::generic("Schema cannot be empty"));
        }
        if let Err(e) = log_root {
            return Err(e);
        }
        ensure_table_does_not_exist(listing, self.path.as_str())
    }

    /// The transaction that creates the table, given its identifier, the physical names for column
    /// mapping and the time.
    pub fn build_with<D>(self, place: TablePlace, names: &Vec<String>) -> (r: DeltaResult<
        Transaction<CreateTable, D>,
    >)
        requires
            column_mapping::field_count(self@.schema) <= i64::MAX,
            column_mapping::field_count(self@.schema) <= names@.len(),
        ensures
            built::<D>(self@, place@, text::texts(names@)) matches Ok(t) ==> (r matches Ok(u) && u@ == t),
            built::<D>(self@, place@, text::texts(names@)) matches Err(e) ==> error::failure(r) == Some(e),
    {
        let ghost b = self@;
        let mut validated = match validate_extract_table_features_and_properties(
            self.table_properties,
        ) {
            Ok(v) => v,
            Err(e) => {
                return Err(e);
            },
        };
        let (schema, mode) = match apply_column_mapping(&self.schema, &mut validated, names) {
            Ok(r) => r,
            Err(e) => {
                return Err(e);
            },
        };
        let layout = match apply_data_layout(&self.data_layout, &schema, mode, &mut validated) {
            Ok(l) => l,
            Err(e) => {
                return Err(e);
            },
        };
        maybe_enable_variant_type(&schema, &mut validated);
        maybe_enable_timestamp_ntz(&schema, &mut validated);
        maybe_auto_enable_property_driven_features(&mut validated);
        if let Err(e) = maybe_enable_ict_for_catalog_managed(&mut validated) {
            return Err(e);
        }
        let ghost v = validated@;
        proof {
            if let LayoutView::Partitioned { columns } = b.layout {
                data_layout::accepted_partition_columns(schema@, columns);
            }
        }
        let partition_columns = first_part_of_each(&layout.partition_columns);
        assert(actions::as_features(validated.reader_features@) =~= v.reader);
        assert(actions::as_features(validated.writer_features@) =~= v.writer);
        let protocol = match Protocol::try_new_modern(
            validated.reader_features,
            validated.writer_features,
        ) {
            Ok(p) => p,
            Err(e) => {
                return Err(e);
            },
        };
        let metadata = match Metadata::with_id(
            place.id,
            None,
            None,
            &schema,
            partition_columns,
            place.created_time,
            validated.properties,
        ) {
            Ok(m) => m,
            Err(e) => {
                return Err(e);
            },
        };
        let config = match TableConfiguration::try_new(
            metadata,
            schema,
            protocol,
            place.table_root,
            0,
        ) {
            Ok(c) => c,
            Err(e) => {
                return Err(e);
            },
        };
        Transaction::try_new_create_table(
            config,
            self.engine_info,
            place.is_catalog_committer,
            layout.system_domain_metadata,
            layout.clustering_columns,
            place.commit_timestamp,
        )
    }

    /// The transaction that creates the table, with a random identifier and random physical names.
    /// The listing of the log directory says whether there is a table already.
    pub fn build<D>(
        self,
        table_root: String,
        listing: &LogListing,
        is_catalog_committer: bool,
        created_time: i64,
        commit_timestamp: i64,
    ) -> (r: DeltaResult<Transaction<CreateTable, D>>)
        requires
            column_mapping::field_count(self@.schema) <= i64::MAX,
            column_mapping::field_count(self@.schema) <= usize::MAX,
        ensures
            place_fault(self@, commit::log_root_of(table_root@), *listing) matches Some(e) ==> error::failure(r)
                == Some(e),
            place_fault(self@, commit::log_root_of(table_root@), *listing) is None ==> exists|
                id: Seq<char>,
                names: Seq<Seq<char>>,
            |
                #![trigger bindings::is_uuid_text(id), column_mapping::all_uuids(names)]
                bindings::is_uuid_text(id) && column_mapping::all_uuids(names) && names.len() == column_mapping::field_count(self@.schema)
                    && match built::<D>(
                    self@,
                    PlaceView {
                        table_root: table_root@,
                        catalog_committer: is_catalog_committer,
                        id,
                        created_time,
                        commit_timestamp,
                    },
                    names,
                ) {
                    Ok(t) => r matches Ok(u) && u@ == t,
                    Err(e) => error::failure(r) == Some(e),
                },
    {
        let root = log_root(table_root.as_str());
        if let Err(e) = self.check_place(root, listing) {
            return Err(e);
        }
        let n: usize = match count_fields(&self.schema.fields) {
            Some(n) => n,
            None => unreached(),
        };
        let names = random_names(n);
        let id = new_uuid_text();
        let ghost id_view = id@;
        let ghost names_view = text::texts(names@);
        let place = TablePlace {
            table_root,
            is_catalog_committer,
            id,
            created_time,
            commit_timestamp,
        };
        let r = self.build_with(place, &names);
        assert(bindings::is_uuid_text(id_view) && column_mapping::all_uuids(names_view));
        r
    }
}

} // verus!
