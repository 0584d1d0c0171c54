//! What a new table has, and where it has it from.
use vstd::prelude::*;

use crate::actions;
use crate::column_mapping;
use crate::configuration_laws;
use crate::create_table::{self, LogListing, ValidatedView};
use crate::create_table_builder::{self, BuilderView, PlaceView};
use crate::data_layout::{self, LayoutView};
use crate::error::ErrorView;
use crate::log_validation;
use crate::mapping_laws;
use crate::schema::{self, DataTypeView, FieldView};
use crate::schema_json;
use crate::schema_laws;
use crate::schema_transform::{self, SpecialType};
use crate::table_configuration;
use crate::table_features::{self, ColumnMappingMode, FeatureView};
use crate::table_properties;
use crate::text;
use crate::transaction::TxnView;

verus! {

/// Whether a property is set to true.
pub open spec fn flag_set(m: Map<Seq<char>, Seq<char>>, key: Seq<char>) -> bool {
    m.dom().contains(key) && m[key] == "true"@
}

/// Whether the properties of a new table ask for a feature.
pub open spec fn asks_for(m: Map<Seq<char>, Seq<char>>, f: FeatureView) -> bool {
    match f {
        FeatureView::AppendOnly => flag_set(m, "delta.appendOnly"@),
        FeatureView::ChangeDataFeed => flag_set(m, "delta.enableChangeDataFeed"@),
        FeatureView::DeletionVectors => flag_set(m, "delta.enableDeletionVectors"@),
        FeatureView::TypeWidening => flag_set(m, "delta.enableTypeWidening"@),
        FeatureView::InCommitTimestamp => flag_set(m, "delta.enableInCommitTimestamps"@),
        FeatureView::ColumnMapping => m.dom().contains("delta.columnMapping.mode"@) && (
        m["delta.columnMapping.mode"@] == "name"@ || m["delta.columnMapping.mode"@] == "id"@),
        _ => false,
    }
}

/// Whether a name of a property is that of one that only names a feature.
pub open spec fn names_feature(key: Seq<char>, f: FeatureView) -> bool {
    &&& "delta.feature."@.len() <= key.len()
    &&& key.subrange(0, "delta.feature."@.len() as int) == "delta.feature."@
    &&& table_features::feature_of_name(key.skip("delta.feature."@.len() as int)) == f
}

/// Whether a property of a new table names a feature.
pub open spec fn signalled(keys: Seq<Seq<char>>, f: FeatureView) -> bool {
    exists|i: int| 0 <= i < keys.len() && names_feature(#[trigger] keys[i], f)
}

/// Whether a new table is to have a feature: a property asks for it or names it, the schema needs it,
/// clustering needs it, or the table is managed by a catalog and needs it for that.
pub open spec fn wanted(b: BuilderView, f: FeatureView) -> bool {
    ||| asks_for(b.properties, f)
    ||| signalled(b.keys, f)
    ||| f is VariantType && schema_transform::fields_have(SpecialType::Variant, b.schema)
    ||| f is TimestampWithoutTimezone && schema_transform::fields_have(
        SpecialType::TimestampNtz,
        b.schema,
    )
    ||| b.layout is Clustered && (f is DomainMetadata || f is ClusteredTable)
    ||| f is InCommitTimestamp && signalled(b.keys, FeatureView::CatalogManaged)
}

/// The names of properties that ask for features, and that of the highest identifier, differ, and
/// none of them only names a feature.
proof fn lemma_property_names()
    ensures
        "delta.columnMapping.maxColumnId"@ != "delta.appendOnly"@,
        "delta.columnMapping.maxColumnId"@ != "delta.enableChangeDataFeed"@,
        "delta.columnMapping.maxColumnId"@ != "delta.enableDeletionVectors"@,
        "delta.columnMapping.maxColumnId"@ != "delta.enableTypeWidening"@,
        "delta.columnMapping.maxColumnId"@ != "delta.enableInCommitTimestamps"@,
        "delta.columnMapping.maxColumnId"@ != "delta.columnMapping.mode"@,
        "delta.enableInCommitTimestamps"@ != "delta.appendOnly"@,
        "delta.enableInCommitTimestamps"@ != "delta.enableChangeDataFeed"@,
        "delta.enableInCommitTimestamps"@ != "delta.enableDeletionVectors"@,
        "delta.enableInCommitTimestamps"@ != "delta.enableTypeWidening"@,
        "delta.enableInCommitTimestamps"@ != "delta.columnMapping.mode"@,
        !create_table::is_signal("delta.appendOnly"@),
        !create_table::is_signal("delta.enableChangeDataFeed"@),
        !create_table::is_signal("delta.enableDeletionVectors"@),
        !create_table::is_signal("delta.enableTypeWidening"@),
        !create_table::is_signal("delta.enableInCommitTimestamps"@),
        !create_table::is_signal("delta.columnMapping.mode"@),
        "none"@ != "name"@,
        "none"@ != "id"@,
        "name"@ != "id"@,
        "true"@ != "false"@,
{
    reveal_strlit("delta.columnMapping.maxColumnId");
    reveal_strlit("delta.columnMapping.mode");
    reveal_strlit("delta.appendOnly");
    reveal_strlit("delta.enableChangeDataFeed");
    reveal_strlit("delta.enableDeletionVectors");
    reveal_strlit("delta.enableTypeWidening");
    reveal_strlit("delta.enableInCommitTimestamps");
    reveal_strlit("delta.feature.");
    reveal_strlit("none");
    reveal_strlit("name");
    reveal_strlit("id");
    reveal_strlit("true");
    reveal_strlit("false");
    let prefix = "delta.feature."@;
    let n = prefix.len() as int;
    assert(prefix[6] == 'f');
    assert("delta.appendOnly"@.subrange(0, n)[6] == 'a');
    assert("delta.enableChangeDataFeed"@.subrange(0, n)[6] == 'e');
    assert("delta.enableDeletionVectors"@.subrange(0, n)[6] == 'e');
    assert("delta.enableTypeWidening"@.subrange(0, n)[6] == 'e');
    assert("delta.enableInCommitTimestamps"@.subrange(0, n)[6] == 'e');
    assert("delta.columnMapping.mode"@.subrange(0, n)[6] == 'c');
    assert("delta.enableInCommitTimestamps"@.len() == 30);
    assert("delta.columnMapping.maxColumnId"@.len() == 31);
    assert("none"@[1] == 'o' && "name"@[1] == 'a');
    assert("true"@.len() == 4 && "false"@.len() == 5);
}

/// A property enables a feature exactly where it asks for it.
proof fn lemma_enabled_is_asked(m: Map<Seq<char>, Seq<char>>, f: FeatureView)
    requires
        create_table::allowed_features().contains(f),
    ensures
        create_table::enabled_by_properties(f, m) == asks_for(m, f),
{
    lemma_property_names();
    let s = create_table::allowed_features();
    let i = choose|i: int| 0 <= i < s.len() && s[i] == f;
    assert(s[i] == f);
}

/// What a property asks for is a feature that can be asked for.
proof fn lemma_asked_is_allowed(m: Map<Seq<char>, Seq<char>>, f: FeatureView)
    requires
        asks_for(m, f),
    ensures
        create_table::allowed_features().contains(f),
{
    let s = create_table::allowed_features();
    assert(s[1] == FeatureView::ColumnMapping);
    assert(s[2] == FeatureView::InCommitTimestamp);
    assert(s[5] == FeatureView::DeletionVectors);
    assert(s[7] == FeatureView::AppendOnly);
    assert(s[8] == FeatureView::ChangeDataFeed);
    assert(s[9] == FeatureView::TypeWidening);
}

/// Adding a feature adds it to the list for writers, and to that for readers where they must
/// understand it, takes none out, and leaves the properties alone.
pub proof fn adding_a_feature_adds_it_alone(v: ValidatedView, f: FeatureView, g: FeatureView)
    ensures
        create_table::with_feature(v, f).writer.contains(g) <==> v.writer.contains(g) || g == f,
        create_table::with_feature(v, f).reader.contains(g) <==> v.reader.contains(g) || (g == f
            && table_features::feature_type_of(f) is ReaderWriter),
        create_table::with_feature(v, f).properties == v.properties,
        create_table::with_feature(v, f).keys == v.keys,
{
    lemma_listed(v.writer, f, g);
    lemma_listed(v.reader, f, g);
}

/// A list with a feature holds it and what it held before.
proof fn lemma_listed(s: Seq<FeatureView>, f: FeatureView, g: FeatureView)
    ensures
        create_table::with_listed(s, f).contains(g) <==> s.contains(g) || g == f,
{
    let t = create_table::with_listed(s, f);
    if !s.contains(f) {
        assert(t[t.len() - 1] == f);
        if s.contains(g) {
            let i = choose|i: int| 0 <= i < s.len() && s[i] == g;
            assert(t[i] == g);
        }
        if t.contains(g) && g != f {
            let i = choose|i: int| 0 <= i < t.len() && t[i] == g;
            assert(s[i] == g);
        }
    }
}

/// The features that properties enable are added, and no others.
proof fn lemma_enabled_features(v: ValidatedView, s: Seq<FeatureView>, g: FeatureView)
    ensures
        create_table::with_enabled_features(v, s).writer.contains(g) <==> v.writer.contains(g) || (
        s.contains(g) && create_table::enabled_by_properties(g, v.properties)),
        create_table::with_enabled_features(v, s).reader.contains(g) <==> v.reader.contains(g) || (
        s.contains(g) && create_table::enabled_by_properties(g, v.properties)
            && table_features::feature_type_of(g) is ReaderWriter),
        create_table::with_enabled_features(v, s).properties == v.properties,
    decreases s.len(),
{
    if s.len() > 0 {
        let front = s.drop_last();
        lemma_enabled_features(v, front, g);
        adding_a_feature_adds_it_alone(
            create_table::with_enabled_features(v, front),
            s.last(),
            g,
        );
        if s.contains(g) {
            let i = choose|i: int| 0 <= i < s.len() && s[i] == g;
            if i < front.len() {
                assert(front[i] == g);
            }
        }
        if front.contains(g) {
            let i = choose|i: int| 0 <= i < front.len() && front[i] == g;
            assert(s[i] == g);
        }
        assert(s[s.len() - 1] == s.last());
    }
}

/// The features that properties name are listed, and no others.
proof fn lemma_signalled(m: Map<Seq<char>, Seq<char>>, keys: Seq<Seq<char>>, g: FeatureView)
    ensures
        create_table::extracted(m, keys).writer.contains(g) <==> signalled(keys, g),
        create_table::extracted(m, keys).reader.contains(g) <==> signalled(keys, g)
            && table_features::feature_type_of(g) is ReaderWriter,
    decreases keys.len(),
{
    if keys.len() > 0 {
        let front = keys.drop_last();
        let key = keys.last();
        lemma_signalled(m, front, g);
        let before = create_table::extracted(m, front);
        assert(keys[keys.len() - 1] == key);
        if create_table::is_signal(key) {
            let f = table_features::feature_of_name(create_table::signal_name(key));
            adding_a_feature_adds_it_alone(before, f, g);
            assert(names_feature(key, f));
        }
        if signalled(keys, g) {
            let i = choose|i: int| 0 <= i < keys.len() && names_feature(#[trigger] keys[i], g);
            if i < front.len() {
                assert(names_feature(front[i], g));
            }
        }
        if signalled(front, g) {
            let i = choose|i: int| 0 <= i < front.len() && names_feature(#[trigger] front[i], g);
            assert(names_feature(keys[i], g));
        }
    }
}

/// Types that agree but for identifiers and physical names hold the same special types.
proof fn lemma_special_type_agrees(kind: SpecialType, t: DataTypeView, u: DataTypeView)
    requires
        mapping_laws::type_agrees(t, u),
    ensures
        schema_transform::type_has(kind, t) == schema_transform::type_has(kind, u),
    decreases t,
{
    match t {
        DataTypeView::Primitive(_) => {},
        DataTypeView::Array(e, _) => {
            if let DataTypeView::Array(f, _) = u {
                lemma_special_type_agrees(kind, *e, *f);
            }
        },
        DataTypeView::Mapping(k, v, _) => {
            if let DataTypeView::Mapping(l, w, _) = u {
                lemma_special_type_agrees(kind, *k, *l);
                lemma_special_type_agrees(kind, *v, *w);
            }
        },
        DataTypeView::Struct(s) => {
            if let DataTypeView::Struct(r) = u {
                lemma_special_types_agree(kind, s, r);
            }
        },
        DataTypeView::Variant(_) => {},
    }
}

/// Schemas that agree but for identifiers and physical names hold the same special types.
proof fn lemma_special_types_agree(kind: SpecialType, s: Seq<FieldView>, r: Seq<FieldView>)
    requires
        mapping_laws::fields_agree(s, r),
    ensures
        schema_transform::fields_have(kind, s) == schema_transform::fields_have(kind, r),
    decreases s,
{
    if s.len() > 0 {
        let a = s.drop_last();
        let b = r.drop_last();
        lemma_special_types_agree(kind, a, b);
        assert(mapping_laws::field_agrees(s.last(), r.last()));
        lemma_special_type_agrees(kind, s.last().data_type, r.last().data_type);
        if schema_transform::fields_have(kind, s) {
            let i = choose|i: int|
                0 <= i < s.len() && schema_transform::type_has(kind, (#[trigger] s[i]).data_type);
            if i < a.len() {
                assert(a[i] == s[i]);
                assert(schema_transform::fields_have(kind, b));
                let j = choose|j: int|
                    0 <= j < b.len() && schema_transform::type_has(kind, (
                    #[trigger] b[j]).data_type);
                assert(r[j] == b[j]);
            } else {
                assert(r[r.len() - 1] == r.last());
            }
        }
        if schema_transform::fields_have(kind, r) {
            let i = choose|i: int|
                0 <= i < r.len() && schema_transform::type_has(kind, (#[trigger] r[i]).data_type);
            if i < b.len() {
                assert(b[i] == r[i]);
                assert(schema_transform::fields_have(kind, a));
                let j = choose|j: int|
                    0 <= j < a.len() && schema_transform::type_has(kind, (
                    #[trigger] a[j]).data_type);
                assert(s[j] == a[j]);
            } else {
                assert(s[s.len() - 1] == s.last());
            }
        }
    }
}

/// The features and properties of a new table, once its columns are mapped and its layout is known:
/// exactly the features that it is to have, and the properties that ask for them.
proof fn lemma_completed(b: BuilderView, names: Seq<Seq<char>>, f: FeatureView)
    requires
        forall|k: Seq<char>| b.keys.contains(k) <==> #[trigger] b.properties.dom().contains(k),
    ensures
        create_table::mapping_applied(
            b.schema,
            create_table::extracted(b.properties, b.keys),
            names,
        ) matches Ok(o) ==> (create_table::layout_applied(
            b.layout,
            o.schema,
            o.mode,
            o.validated,
        ) matches Ok((_, v)) ==> {
            let w = create_table_builder::completed(o.schema, v);
            let timestamps = "delta.enableInCommitTimestamps"@;
            &&& w is Ok <==> !(signalled(b.keys, FeatureView::CatalogManaged)
                && b.properties.dom().contains(timestamps) && b.properties[timestamps] != "true"@)
            &&& w matches Ok(w) ==> {
                &&& w.writer.contains(f) <==> wanted(b, f)
                &&& w.reader.contains(f) <==> wanted(b, f) && table_features::feature_type_of(
                    f,
                ) is ReaderWriter
                &&& asks_for(b.properties, f) ==> asks_for(w.properties, f)
            }
        }),
{
    let start = create_table::extracted(b.properties, b.keys);
    if create_table::mapping_applied(b.schema, start, names) is Ok && create_table::layout_applied(
        b.layout,
        create_table::mapping_applied(b.schema, start, names)->Ok_0.schema,
        create_table::mapping_applied(b.schema, start, names)->Ok_0.mode,
        create_table::mapping_applied(b.schema, start, names)->Ok_0.validated,
    ) is Ok {
        create_table::extracted_properties_and_features(b.properties, b.keys);
        lemma_property_names();
        lemma_signalled(b.properties, b.keys, f);
        lemma_signalled(b.properties, b.keys, FeatureView::CatalogManaged);
        let catalog = FeatureView::CatalogManaged;
        assert(asks_for(start.properties, f) == asks_for(b.properties, f));
        let o = create_table::mapping_applied(b.schema, start, names)->Ok_0;
        adding_a_feature_adds_it_alone(start, FeatureView::ColumnMapping, f);
        adding_a_feature_adds_it_alone(start, FeatureView::ColumnMapping, catalog);
        assert(asks_for(o.validated.properties, f) == asks_for(b.properties, f));
        let mapped = !(o.mode is NoMapping);
        assert(mapped == asks_for(b.properties, FeatureView::ColumnMapping));
        if mapped {
            mapping_laws::mapping_only_annotates_schemas(b.schema, 0, 0, names);
            lemma_special_types_agree(SpecialType::Variant, b.schema, o.schema);
            lemma_special_types_agree(SpecialType::TimestampNtz, b.schema, o.schema);
        }
        let (layout, v) = create_table::layout_applied(b.layout, o.schema, o.mode, o.validated)->Ok_0;
        let d = create_table::with_feature(o.validated, FeatureView::DomainMetadata);
        adding_a_feature_adds_it_alone(o.validated, FeatureView::DomainMetadata, f);
        adding_a_feature_adds_it_alone(o.validated, FeatureView::DomainMetadata, catalog);
        adding_a_feature_adds_it_alone(d, FeatureView::ClusteredTable, f);
        adding_a_feature_adds_it_alone(d, FeatureView::ClusteredTable, catalog);
        let variant = create_table::with_variant_feature(v, o.schema);
        adding_a_feature_adds_it_alone(v, FeatureView::VariantType, f);
        adding_a_feature_adds_it_alone(v, FeatureView::VariantType, catalog);
        let types = create_table::with_timestamp_ntz_feature(variant, o.schema);
        adding_a_feature_adds_it_alone(variant, FeatureView::TimestampWithoutTimezone, f);
        adding_a_feature_adds_it_alone(variant, FeatureView::TimestampWithoutTimezone, catalog);
        let s = create_table::allowed_features();
        let enabled = create_table::with_enabled_features(types, s);
        lemma_enabled_features(types, s, f);
        lemma_enabled_features(types, s, catalog);
        assert(!create_table::enabled_by_properties(catalog, types.properties));
        assert(enabled.writer.contains(catalog) == signalled(b.keys, catalog));
        if s.contains(f) {
            lemma_enabled_is_asked(types.properties, f);
        }
        if asks_for(types.properties, f) {
            lemma_asked_is_allowed(types.properties, f);
        }
        adding_a_feature_adds_it_alone(enabled, FeatureView::InCommitTimestamp, f);
                let timestamps = "delta.enableInCommitTimestamps"@;
        assert(types.properties.dom().contains(timestamps) == b.properties.dom().contains(
            timestamps,
        ));
    }
}

/// A new table has exactly the features that it is to have: each that a property asks for or names,
/// that its schema, its clustering or the catalog needs, and no other. Writers must know all of them,
/// readers those that concern them. A feature that a property asks for is enabled.
pub proof fn new_tables_have_the_features_asked_for<D>(
    b: BuilderView,
    place: PlaceView,
    names: Seq<Seq<char>>,
    f: FeatureView,
)
    requires
        forall|k: Seq<char>| b.keys.contains(k) <==> #[trigger] b.properties.dom().contains(k),
    ensures
        create_table_builder::built::<D>(b, place, names) matches Ok(t) ==> {
            let p = t.config.protocol;
            &&& p.min_reader_version == 3 && p.min_writer_version == 7
            &&& p.writer_features matches Some(w) && (w.contains(f) <==> wanted(b, f))
            &&& p.reader_features matches Some(r) && (r.contains(f) <==> wanted(b, f)
                && table_features::feature_type_of(f) is ReaderWriter)
            &&& asks_for(b.properties, f) ==> table_configuration::feature_enabled(
                p,
                t.config.properties,
                f,
            )
        },
{
    if let Ok(t) = create_table_builder::built::<D>(b, place, names) {
        let start = create_table::extracted(b.properties, b.keys);
        let o = create_table::mapping_applied(b.schema, start, names)->Ok_0;
        let (layout, v) = create_table::layout_applied(b.layout, o.schema, o.mode, o.validated)->Ok_0;
        let w = create_table_builder::completed(o.schema, v)->Ok_0;
        lemma_completed(b, names, f);
        assert(t.config.protocol == create_table::protocol_of(w));
        assert(t.config.properties == table_properties::properties_of(w.properties));
        if asks_for(b.properties, f) {
            lemma_asked_is_allowed(w.properties, f);
            lemma_enabled_is_asked(w.properties, f);
        }
    }
}

/// The columns of a new table are counted from one.
proof fn lemma_mapped_ids(s: Seq<FieldView>, names: Seq<Seq<char>>)
    requires
        column_mapping::field_count(s) <= i64::MAX,
    ensures
        column_mapping::column_ids(column_mapping::mapped_fields(s, 0, 0, names))
            == column_mapping::following(0, column_mapping::field_count(s)),
{
    column_mapping::column_ids_are_consecutive(s, 0, 0, names);
}

/// A new table has the schema that was described: exactly that without column mapping, and with it
/// that but for identifiers, which are counted from one, and physical names, which are made of the
/// given texts. Its metadata hold the schema, and the highest identifier with column mapping.
pub proof fn new_tables_have_the_described_schema<D>(
    b: BuilderView,
    place: PlaceView,
    names: Seq<Seq<char>>,
)
    requires
        forall|k: Seq<char>| b.keys.contains(k) <==> #[trigger] b.properties.dom().contains(k),
        column_mapping::field_count(b.schema) <= i64::MAX,
    ensures
        create_table_builder::built::<D>(b, place, names) matches Ok(t) ==> {
            let n = column_mapping::field_count(b.schema);
            let key = "delta.columnMapping.maxColumnId"@;
            &&& t.config.metadata.schema_string == schema_json::schema_json(t.config.logical)
            &&& !asks_for(b.properties, FeatureView::ColumnMapping) ==> t.config.logical == b.schema
            &&& asks_for(b.properties, FeatureView::ColumnMapping) ==> {
                &&& mapping_laws::fields_agree(b.schema, t.config.logical)
                &&& column_mapping::column_ids(t.config.logical) == column_mapping::following(0, n)
                &&& mapping_laws::physical_names(t.config.logical) == mapping_laws::made_names(
                    names,
                    0,
                    n,
                )
                &&& t.config.metadata.configuration.dom().contains(key)
                &&& t.config.metadata.configuration[key] == text::decimal(n)
            }
        },
{
    if let Ok(t) = create_table_builder::built::<D>(b, place, names) {
        let start = create_table::extracted(b.properties, b.keys);
        create_table::extracted_properties_and_features(b.properties, b.keys);
        lemma_property_names();
        let o = create_table::mapping_applied(b.schema, start, names)->Ok_0;
        assert(start.properties.dom().contains("delta.columnMapping.mode"@)
            == b.properties.dom().contains("delta.columnMapping.mode"@));
        if !(o.mode is NoMapping) {
            mapping_laws::mapping_only_annotates_schemas(b.schema, 0, 0, names);
            mapping_laws::physical_names_are_made_of_the_texts(b.schema, 0, 0, names);
            lemma_mapped_ids(b.schema, names);
            let (layout, v) = create_table::layout_applied(
                b.layout,
                o.schema,
                o.mode,
                o.validated,
            )->Ok_0;
            let types = create_table::with_timestamp_ntz_feature(
                create_table::with_variant_feature(v, o.schema),
                o.schema,
            );
            lemma_enabled_features(
                types,
                create_table::allowed_features(),
                FeatureView::ColumnMapping,
            );
        }
    }
}

/// The configuration of a new table holds the properties that were set, with their values, but for
/// those that only name features. Besides them it holds at most the highest identifier, with column
/// mapping, and that in-commit timestamps are on, where a catalog manages the table.
pub proof fn new_tables_have_the_properties_set<D>(
    b: BuilderView,
    place: PlaceView,
    names: Seq<Seq<char>>,
    key: Seq<char>,
)
    requires
        forall|k: Seq<char>| b.keys.contains(k) <==> #[trigger] b.properties.dom().contains(k),
    ensures
        create_table_builder::built::<D>(b, place, names) matches Ok(t) ==> {
            let config = t.config.metadata.configuration;
            let set = b.properties.dom().contains(key) && !text::has_prefix(key, "delta.feature."@);
            let id = key == "delta.columnMapping.maxColumnId"@ && asks_for(
                b.properties,
                FeatureView::ColumnMapping,
            );
            let timestamps = key == "delta.enableInCommitTimestamps"@ && signalled(
                b.keys,
                FeatureView::CatalogManaged,
            );
            &&& config.dom().contains(key) <==> set || id || timestamps
            &&& set && !id ==> config[key] == b.properties[key]
            &&& timestamps ==> config[key] == "true"@
        },
{
    if let Ok(t) = create_table_builder::built::<D>(b, place, names) {
        let catalog = FeatureView::CatalogManaged;
        let start = create_table::extracted(b.properties, b.keys);
        create_table::extracted_properties_and_features(b.properties, b.keys);
        lemma_property_names();
        lemma_signalled(b.properties, b.keys, catalog);
        let o = create_table::mapping_applied(b.schema, start, names)->Ok_0;
        assert(start.properties.dom().contains("delta.columnMapping.mode"@)
            == b.properties.dom().contains("delta.columnMapping.mode"@));
        assert(start.properties.dom().contains(key) == (b.properties.dom().contains(key)
            && !create_table::is_signal(key)));
        assert(start.properties.dom().contains("delta.enableInCommitTimestamps"@)
            == b.properties.dom().contains("delta.enableInCommitTimestamps"@));
        adding_a_feature_adds_it_alone(start, FeatureView::ColumnMapping, catalog);
        let (layout, v) = create_table::layout_applied(
            b.layout,
            o.schema,
            o.mode,
            o.validated,
        )->Ok_0;
        let d = create_table::with_feature(o.validated, FeatureView::DomainMetadata);
        adding_a_feature_adds_it_alone(o.validated, FeatureView::DomainMetadata, catalog);
        adding_a_feature_adds_it_alone(d, FeatureView::ClusteredTable, catalog);
        let variant = create_table::with_variant_feature(v, o.schema);
        adding_a_feature_adds_it_alone(v, FeatureView::VariantType, catalog);
        let types = create_table::with_timestamp_ntz_feature(variant, o.schema);
        adding_a_feature_adds_it_alone(variant, FeatureView::TimestampWithoutTimezone, catalog);
        let s = create_table::allowed_features();
        lemma_enabled_features(types, s, catalog);
        assert(!create_table::enabled_by_properties(catalog, types.properties));
    }
}

/// The transaction that creates a table has the identifier, the times, the place and the committer
/// that were given, names no table that was there before, brings protocol and metadata, and says that
/// it creates a table, and by which engine. It is partitioned by the columns that were given, and
/// clustered by those, and has no other.
pub proof fn new_tables_are_as_described<D>(
    b: BuilderView,
    place: PlaceView,
    names: Seq<Seq<char>>,
)
    ensures
        create_table_builder::built::<D>(b, place, names) matches Ok(t) ==> {
            let m = t.config.metadata;
            &&& m.id == place.id && m.name is None && m.description is None
            &&& m.created_time == Some(place.created_time)
            &&& m.format.provider == "parquet"@
            &&& t.config.table_root == place.table_root && t.config.version == 0
            &&& t.read is None && t.emit_protocol && t.emit_metadata
            &&& t.timestamp == place.commit_timestamp
            &&& t.catalog_committer == place.catalog_committer
            &&& t.operation == Some("CREATE TABLE"@)
            &&& t.engine_info == Some(b.engine_info)
            &&& t.data_change && !t.blind_append && t.engine_commit_info is None
            &&& t.adds.len() == 0 && t.removes.len() == 0 && t.dv_files.len() == 0
            &&& t.set_transactions.len() == 0 && t.user_domains.len() == 0 && t.removals.len() == 0
            &&& match b.layout {
                LayoutView::Unorganized => m.partition_columns.len() == 0 && t.clustering is None
                    && t.system_domains.len() == 0,
                LayoutView::Partitioned { columns } => {
                    &&& m.partition_columns.len() == columns.len()
                    &&& forall|i: int|
                        0 <= i < columns.len() ==> seq![#[trigger] m.partition_columns[i]]
                            == columns[i]
                    &&& t.clustering is None && t.system_domains.len() == 0
                },
                LayoutView::Clustered { columns } => {
                    &&& m.partition_columns.len() == 0
                    &&& t.clustering matches Some(physical) && {
                        &&& physical.len() == columns.len()
                        &&& forall|i: int|
                            0 <= i < columns.len() ==> (schema_transform::walked(
                                t.config.logical,
                                #[trigger] columns[i],
                                t.config.mode,
                            ) matches Some((_, path)) && path == physical[i])
                        &&& t.system_domains.len() == 1
                        &&& t.system_domains[0].domain == "delta.clustering"@
                        &&& !t.system_domains[0].removed
                        &&& t.system_domains[0].configuration == data_layout::clustering_json(
                            physical,
                        )
                    }
                },
            }
        },
{
    if let Ok(t) = create_table_builder::built::<D>(b, place, names) {
        let start = create_table::extracted(b.properties, b.keys);
        let o = create_table::mapping_applied(b.schema, start, names)->Ok_0;
        lemma_mode_of_new_table::<D>(b, place, names);
        match b.layout {
            LayoutView::Unorganized => {},
            LayoutView::Partitioned { columns } => {
                data_layout::accepted_partition_columns(o.schema, columns);
                let m = t.config.metadata;
                assert forall|i: int| 0 <= i < columns.len() implies seq![
                    #[trigger] m.partition_columns[i],
                ] == columns[i] by {
                    assert(columns[i].len() == 1);
                    assert(seq![m.partition_columns[i]] =~= columns[i]);
                }
            },
            LayoutView::Clustered { columns } => {
                lemma_physical_columns(o.schema, columns, o.mode);
            },
        }
    }
}

/// The columns of a new table are mapped as its properties ask for.
proof fn lemma_mode_of_new_table<D>(b: BuilderView, place: PlaceView, names: Seq<Seq<char>>)
    ensures
        create_table_builder::built::<D>(b, place, names) matches Ok(t) ==> t.config.mode
            == create_table::mapping_applied(
            b.schema,
            create_table::extracted(b.properties, b.keys),
            names,
        )->Ok_0.mode,
{
    lemma_completed_mode(b, names);
}

/// The mode of column mapping that the features and properties of a new table give is the one that
/// its properties ask for.
proof fn lemma_completed_mode(b: BuilderView, names: Seq<Seq<char>>)
    ensures
        create_table::mapping_applied(
            b.schema,
            create_table::extracted(b.properties, b.keys),
            names,
        ) matches Ok(o) ==> (create_table::layout_applied(
            b.layout,
            o.schema,
            o.mode,
            o.validated,
        ) matches Ok((_, v)) ==> (create_table_builder::completed(o.schema, v) matches Ok(w)
            ==> table_configuration::mapping_mode_of(
            create_table::protocol_of(w),
            table_properties::properties_of(w.properties),
        ) == o.mode)),
{
    let f = FeatureView::ColumnMapping;
    let start = create_table::extracted(b.properties, b.keys);
    if let Ok(o) = create_table::mapping_applied(b.schema, start, names) {
        if let Ok((layout, v)) = create_table::layout_applied(
            b.layout,
            o.schema,
            o.mode,
            o.validated,
        ) {
            lemma_property_names();
            adding_a_feature_adds_it_alone(start, f, f);
            let d = create_table::with_feature(o.validated, FeatureView::DomainMetadata);
            adding_a_feature_adds_it_alone(o.validated, FeatureView::DomainMetadata, f);
            adding_a_feature_adds_it_alone(d, FeatureView::ClusteredTable, f);
            let variant = create_table::with_variant_feature(v, o.schema);
            adding_a_feature_adds_it_alone(v, FeatureView::VariantType, f);
            let types = create_table::with_timestamp_ntz_feature(variant, o.schema);
            adding_a_feature_adds_it_alone(variant, FeatureView::TimestampWithoutTimezone, f);
            let s = create_table::allowed_features();
            lemma_enabled_features(types, s, f);
            let enabled = create_table::with_enabled_features(types, s);
            adding_a_feature_adds_it_alone(enabled, FeatureView::InCommitTimestamp, f);
            if let Ok(w) = create_table::with_catalog_timestamps(enabled) {
                let mode = "delta.columnMapping.mode"@;
                assert(w.properties.dom().contains(mode) == start.properties.dom().contains(mode));
                assert(w.properties.dom().contains(mode) ==> w.properties[mode]
                    == start.properties[mode]);
            }
        }
    }
}

/// Columns are resolved one by one.
proof fn lemma_physical_columns(
    s: Seq<FieldView>,
    columns: Seq<Seq<Seq<char>>>,
    mode: ColumnMappingMode,
)
    ensures
        create_table::physical_columns(s, columns, mode) matches Ok(physical) ==> physical.len()
            == columns.len() && forall|i: int|
            0 <= i < columns.len() ==> (schema_transform::walked(
                s,
                #[trigger] columns[i],
                mode,
            ) matches Some((_, path)) && path == physical[i]),
    decreases columns.len(),
{
    if columns.len() > 0 {
        let front = columns.drop_last();
        lemma_physical_columns(s, front, mode);
        if let Ok(physical) = create_table::physical_columns(s, columns, mode) {
            let before = create_table::physical_columns(s, front, mode)->Ok_0;
            assert forall|i: int| 0 <= i < columns.len() implies (schema_transform::walked(
                s,
                #[trigger] columns[i],
                mode,
            ) matches Some((_, path)) && path == physical[i]) by {
                if i < front.len() {
                    assert(front[i] == columns[i]);
                    assert(physical[i] == before[i]);
                } else {
                    assert(columns[i] == columns.last());
                }
            }
        }
    }
}

/// Properties are accepted exactly where each of the family `delta.feature.` names, with the value
/// `supported`, a feature that can be asked for, and each other one of the family `delta.` is one
/// that can be set when a table is created.
pub proof fn properties_are_accepted_exactly_if_allowed(
    m: Map<Seq<char>, Seq<char>>,
    keys: Seq<Seq<char>>,
)
    ensures
        create_table::properties_fault(m, keys) is None <==> forall|i: int|
            0 <= i < keys.len() ==> {
                let key = #[trigger] keys[i];
                if text::has_prefix(key, "delta.feature."@) {
                    let f = table_features::feature_of_name(
                        key.skip("delta.feature."@.len() as int),
                    );
                    m[key] == "supported"@ && (f is DomainMetadata || f is ColumnMapping
                        || f is InCommitTimestamp || f is VacuumProtocolCheck || f is CatalogManaged
                        || f is DeletionVectors || f is V2Checkpoint || f is AppendOnly
                        || f is ChangeDataFeed || f is TypeWidening)
                } else {
                    text::has_prefix(key, "delta."@) ==> (key == "delta.columnMapping.mode"@ || key
                        == "delta.enableInCommitTimestamps"@ || key
                        == "delta.checkpoint.writeStatsAsJson"@ || key
                        == "delta.checkpoint.writeStatsAsStruct"@ || key
                        == "delta.enableDeletionVectors"@ || key == "delta.enableChangeDataFeed"@
                        || key == "delta.enableTypeWidening"@ || key == "delta.appendOnly"@ || key
                        == "delta.setTransactionRetentionDuration"@)
                }
            },
{
    let signals = |i: int| create_table::signal_fault(keys[i], m[keys[i]]);
    let others = |i: int| create_table::property_fault(keys[i]);
    log_validation::lemma_first_fault(signals, 0, keys.len() as int);
    log_validation::lemma_first_fault(others, 0, keys.len() as int);
    let s = create_table::allowed_features();
    assert forall|f: FeatureView| #[trigger] s.contains(f) <==> (f is DomainMetadata || f is ColumnMapping
        || f is InCommitTimestamp || f is VacuumProtocolCheck || f is CatalogManaged
        || f is DeletionVectors || f is V2Checkpoint || f is AppendOnly || f is ChangeDataFeed
        || f is TypeWidening) by {
        assert(s[0] is DomainMetadata && s[1] is ColumnMapping && s[2] is InCommitTimestamp);
        assert(s[3] is VacuumProtocolCheck && s[4] is CatalogManaged && s[5] is DeletionVectors);
        assert(s[6] is V2Checkpoint && s[7] is AppendOnly && s[8] is ChangeDataFeed);
        assert(s[9] is TypeWidening);
    }
    if create_table::properties_fault(m, keys) is None {
        assert forall|i: int| 0 <= i < keys.len() implies create_table::signal_fault(
            #[trigger] keys[i],
            m[keys[i]],
        ) is None && create_table::property_fault(keys[i]) is None by {
            assert(signals(i) is None);
            assert(others(i) is None);
        }
    }
}

/// A table is created only where there is none: files in its log rule it out, an empty or missing log
/// does not, and any other error is passed on.
pub proof fn tables_are_created_only_where_there_are_none(listing: LogListing, path: Seq<char>)
    ensures
        listing is HasFiles ==> create_table::existence_fault(listing, path) is Some,
        listing is Empty ==> create_table::existence_fault(listing, path) is None,
        listing matches LogListing::Failed(e) ==> create_table::existence_fault(listing, path) == (
        if e@ is FileNotFound {
            None
        } else {
            Some(e@)
        }),
        listing matches LogListing::FirstFailed(e) ==> create_table::existence_fault(listing, path)
            == (if e@ is FileNotFound {
            None
        } else {
            Some(e@)
        }),
{
}

/// The name of a feature, after the prefix, names it.
pub proof fn features_are_named_by_their_names(f: FeatureView)
    requires
        !(f is Unknown),
    ensures
        names_feature("delta.feature."@ + table_features::feature_name(f), f),
{
    table_features::feature_name_round_trip(f);
    let prefix = "delta.feature."@;
    let key = prefix + table_features::feature_name(f);
    assert(key.subrange(0, prefix.len() as int) =~= prefix);
    assert(key.skip(prefix.len() as int) =~= table_features::feature_name(f));
}

/// Columns that get identifiers and physical names have both.
proof fn lemma_mapped_field(f: FieldView, last: int, base: int, names: Seq<Seq<char>>)
    ensures
        schema_laws::is_fully_mapped(column_mapping::mapped_field(f, last, base, names)),
    decreases f,
{
    lemma_mapped_type(f.data_type, last + 1, base, names);
    reveal_strlit("delta.columnMapping.id");
    reveal_strlit("delta.columnMapping.physicalName");
    assert("delta.columnMapping.id"@.len() != "delta.columnMapping.physicalName"@.len());
}

proof fn lemma_mapped_type(t: DataTypeView, last: int, base: int, names: Seq<Seq<char>>)
    ensures
        schema_laws::is_fully_mapped_type(column_mapping::mapped_type(t, last, base, names)),
    decreases t,
{
    match t {
        DataTypeView::Primitive(_) => {},
        DataTypeView::Array(e, _) => {
            lemma_mapped_type(*e, last, base, names);
        },
        DataTypeView::Mapping(k, v, _) => {
            lemma_mapped_type(*k, last, base, names);
            lemma_mapped_type(*v, last + column_mapping::type_field_count(*k), base, names);
        },
        DataTypeView::Struct(s) => {
            lemma_mapped_fields(s, last, base, names);
        },
        DataTypeView::Variant(_) => {},
    }
}

proof fn lemma_mapped_fields(s: Seq<FieldView>, last: int, base: int, names: Seq<Seq<char>>)
    ensures
        schema_laws::are_fully_mapped(column_mapping::mapped_fields(s, last, base, names)),
    decreases s,
{
    if s.len() > 0 {
        let front = s.drop_last();
        let before = column_mapping::mapped_fields(front, last, base, names);
        lemma_mapped_fields(front, last, base, names);
        let n = last + column_mapping::field_count(front);
        lemma_mapped_field(s.last(), n, base, names);
        let r = column_mapping::mapped_fields(s, last, base, names);
        assert forall|i: int| 0 <= i < r.len() implies schema_laws::is_fully_mapped(
            #[trigger] r[i],
        ) by {
            if i < before.len() {
                assert(r[i] == before[i]);
            } else {
                assert(r[i] == column_mapping::mapped_field(s.last(), n, base, names));
            }
        }
    }
}

/// A column that is found without column mapping is found with it.
proof fn lemma_found_with_any_mode(
    s: Seq<FieldView>,
    path: Seq<Seq<char>>,
    mode: ColumnMappingMode,
)
    ensures
        schema_transform::walked(s, path, mode) is Some == schema_transform::walked(
            s,
            path,
            ColumnMappingMode::NoMapping,
        ) is Some,
    decreases path.len(),
{
    if path.len() > 1 {
        if let Some(f) = schema::find_field(s, path[0]) {
            if let DataTypeView::Struct(inner) = f.data_type {
                lemma_found_with_any_mode(inner, path.skip(1), mode);
            }
        }
    }
}

/// Columns that are found without column mapping have physical names.
proof fn lemma_found_columns(
    s: Seq<FieldView>,
    columns: Seq<Seq<Seq<char>>>,
    mode: ColumnMappingMode,
)
    requires
        forall|i: int|
            0 <= i < columns.len() ==> schema_transform::walked(
                s,
                #[trigger] columns[i],
                ColumnMappingMode::NoMapping,
            ) is Some,
    ensures
        create_table::physical_columns(s, columns, mode) is Ok,
    decreases columns.len(),
{
    if columns.len() > 0 {
        let front = columns.drop_last();
        assert forall|i: int| 0 <= i < front.len() implies schema_transform::walked(
            s,
            #[trigger] front[i],
            ColumnMappingMode::NoMapping,
        ) is Some by {
            assert(front[i] == columns[i]);
        }
        lemma_found_columns(s, front, mode);
        assert(columns[columns.len() - 1] == columns.last());
        lemma_found_with_any_mode(s, columns.last(), mode);
    }
}

/// The schema of a new table, with identifiers and physical names where its properties ask for them.
pub open spec fn schema_with_names(b: BuilderView, names: Seq<Seq<char>>) -> Seq<FieldView> {
    if asks_for(b.properties, FeatureView::ColumnMapping) {
        column_mapping::mapped_fields(b.schema, 0, 0, names)
    } else {
        b.schema
    }
}

/// Whether none of the columns is a metadata column.
pub open spec fn holds_data_alone(s: Seq<FieldView>) -> bool {
    forall|i: int|
        0 <= i < s.len() ==> !(#[trigger] s[i]).metadata.dom().contains("delta.metadataSpec"@)
}

/// There is a metadata column exactly where a column says so.
proof fn lemma_metadata_columns(s: Seq<FieldView>)
    ensures
        actions::first_metadata_column(s) is None <==> holds_data_alone(s),
    decreases s.len(),
{
    if s.len() > 0 {
        let front = s.drop_last();
        lemma_metadata_columns(front);
        assert(s[s.len() - 1] == s.last());
        if actions::first_metadata_column(s) is None {
            assert forall|i: int| 0 <= i < s.len() implies !(#[trigger] s[i]).metadata.dom().contains(
                "delta.metadataSpec"@,
            ) by {
                if i < front.len() {
                    assert(front[i] == s[i]);
                }
            }
        }
        if holds_data_alone(s) {
            assert forall|i: int| 0 <= i < front.len() implies !(
            #[trigger] front[i]).metadata.dom().contains("delta.metadataSpec"@) by {
                assert(front[i] == s[i]);
            }
        }
    }
}

/// A table can be created exactly where its properties are allowed; the mode of column mapping, where
/// one is set, is known; with column mapping, no column is annotated yet and no struct holds a name
/// twice; its columns can be clustered or partitioned as asked; in-commit timestamps are not ruled out
/// where a catalog manages the table; and no column of the table is a metadata column.
pub proof fn tables_can_be_created_exactly_if<D>(
    b: BuilderView,
    place: PlaceView,
    names: Seq<Seq<char>>,
)
    requires
        forall|k: Seq<char>| b.keys.contains(k) <==> #[trigger] b.properties.dom().contains(k),
    ensures
        ({
            let mode = "delta.columnMapping.mode"@;
            let timestamps = "delta.enableInCommitTimestamps"@;
            let mapped = asks_for(b.properties, FeatureView::ColumnMapping);
            let s = schema_with_names(b, names);
            create_table_builder::built::<D>(b, place, names) is Ok <==> {
                &&& create_table::properties_fault(b.properties, b.keys) is None
                &&& b.properties.dom().contains(mode) ==> b.properties[mode] == "none"@
                    || b.properties[mode] == "name"@ || b.properties[mode] == "id"@
                &&& mapped ==> mapping_laws::can_all_be_mapped(b.schema, true)
                    && schema::field_names(b.schema).no_duplicates()
                &&& match b.layout {
                    LayoutView::Unorganized => true,
                    LayoutView::Clustered { columns } => data_layout::clustering_fault(
                        s,
                        columns,
                    ) is None,
                    LayoutView::Partitioned { columns } => data_layout::partition_fault(
                        s,
                        columns,
                    ) is None,
                }
                &&& !(signalled(b.keys, FeatureView::CatalogManaged) && b.properties.dom().contains(
                    timestamps,
                ) && b.properties[timestamps] != "true"@)
                &&& holds_data_alone(s)
            }
        }),
{
    let start = create_table::extracted(b.properties, b.keys);
    create_table::extracted_properties_and_features(b.properties, b.keys);
    lemma_property_names();
    let mode = "delta.columnMapping.mode"@;
    assert(start.properties.dom().contains(mode) == b.properties.dom().contains(mode));
    assert(start.properties.dom().contains(mode) ==> start.properties[mode] == b.properties[mode]);
    mapping_laws::columns_are_mapped_exactly_if_they_can_be(b.schema, true);
    schema_transform::lemma_repeated_iff_duplicates(b.schema);
    let mapped = asks_for(b.properties, FeatureView::ColumnMapping);
    assert(create_table::mapping_applied(b.schema, start, names) is Ok <==> (
    b.properties.dom().contains(mode) ==> b.properties[mode] == "none"@ || b.properties[mode]
        == "name"@ || b.properties[mode] == "id"@) && (mapped ==> mapping_laws::can_all_be_mapped(
        b.schema,
        true,
    ) && schema::field_names(b.schema).no_duplicates()));
    if let Ok(o) = create_table::mapping_applied(b.schema, start, names) {
        assert(o.schema == schema_with_names(b, names));
        lemma_metadata_columns(o.schema);
        if let LayoutView::Clustered { columns } = b.layout {
            data_layout::clustering_columns_are_accepted_exactly_if(o.schema, columns);
            if data_layout::clustering_fault(o.schema, columns) is None {
                lemma_found_columns(o.schema, columns, o.mode);
            }
        }
        assert(create_table::layout_applied(b.layout, o.schema, o.mode, o.validated) is Ok <==> (
        match b.layout {
            LayoutView::Unorganized => true,
            LayoutView::Clustered { columns } => data_layout::clustering_fault(
                o.schema,
                columns,
            ) is None,
            LayoutView::Partitioned { columns } => data_layout::partition_fault(
                o.schema,
                columns,
            ) is None,
        }));
        if let Ok((layout, v)) = create_table::layout_applied(
            b.layout,
            o.schema,
            o.mode,
            o.validated,
        ) {
            lemma_completed(b, names, FeatureView::VariantType);
            lemma_completed(b, names, FeatureView::TimestampWithoutTimezone);
            lemma_completed_mode(b, names);
            if let Ok(w) = create_table_builder::completed(o.schema, v) {
                let p = create_table::protocol_of(w);
                configuration_laws::protocols_are_accepted_exactly_if_consistent(p);
                assert forall|f: FeatureView| #[trigger] configuration_laws::listed_for_readers(
                    p,
                    f,
                ) implies !configuration_laws::concerns_writers_alone(f)
                    && configuration_laws::listed_for_writers(p, f) by {
                    lemma_completed(b, names, f);
                }
                assert forall|f: FeatureView| #[trigger] configuration_laws::listed_for_writers(
                    p,
                    f,
                ) && !configuration_laws::concerns_writers_alone(f) && !(
                f is Unknown) implies configuration_laws::listed_for_readers(p, f) by {
                    lemma_completed(b, names, f);
                }
                schema_laws::schemas_are_mapped_exactly_if_annotated(o.schema, o.mode);
                if !(o.mode is NoMapping) {
                    lemma_mapped_fields(b.schema, 0, 0, names);
                    mapping_laws::mapping_only_annotates_schemas(b.schema, 0, 0, names);
                    lemma_special_types_agree(SpecialType::Variant, b.schema, o.schema);
                    lemma_special_types_agree(SpecialType::TimestampNtz, b.schema, o.schema);
                }
                assert(actions::protocol_fault(p) is None);
                assert(schema_transform::physical_schema_fault(o.schema, o.mode) is None);
                assert(table_configuration::schema_feature_fault(p, o.schema) is None);
            }
        }
    }
}

/// A table can be created at a place exactly where its schema has columns, the place has a URL, and
/// there is no table yet.
pub proof fn places_can_be_used_exactly_if(
    b: BuilderView,
    log_root: Result<Seq<char>, ErrorView>,
    listing: LogListing,
)
    ensures
        create_table_builder::place_fault(b, log_root, listing) is None <==> b.schema.len() > 0
            && log_root is Ok && create_table::existence_fault(listing, b.path) is None,
        b.schema.len() > 0 ==> (log_root matches Err(e)
            ==> create_table_builder::place_fault(b, log_root, listing) == Some(e)),
{
}

/// The names of properties are those that were there and those of the new ones, each once, and those
/// that were there come first.
pub proof fn property_names_come_once(
    m: Map<Seq<char>, Seq<char>>,
    keys: Seq<Seq<char>>,
    pairs: Seq<(Seq<char>, Seq<char>)>,
)
    requires
        keys.no_duplicates(),
        forall|k: Seq<char>| keys.contains(k) <==> #[trigger] m.dom().contains(k),
    ensures
        ({
            let names = create_table_builder::property_names_with(m, keys, pairs);
            let all = create_table_builder::properties_with(m, pairs);
            &&& names.no_duplicates()
            &&& keys.len() <= names.len() && names.subrange(0, keys.len() as int) == keys
            &&& forall|k: Seq<char>| names.contains(k) <==> #[trigger] all.dom().contains(k)
            &&& forall|i: int| 0 <= i < pairs.len() ==> names.contains((#[trigger] pairs[i]).0)
        }),
    decreases pairs.len(),
{
    let names = create_table_builder::property_names_with(m, keys, pairs);
    let all = create_table_builder::properties_with(m, pairs);
    if pairs.len() == 0 {
        assert(names.subrange(0, keys.len() as int) =~= keys);
    } else {
        let front = pairs.drop_last();
        property_names_come_once(m, keys, front);
        let before = create_table_builder::property_names_with(m, keys, front);
        let had = create_table_builder::properties_with(m, front);
        let key = pairs.last().0;
        assert(before.contains(key) <==> had.dom().contains(key));
        assert(names.subrange(0, keys.len() as int) =~= before.subrange(0, keys.len() as int));
        assert forall|k: Seq<char>| names.contains(k) <==> #[trigger] all.dom().contains(k) by {
            assert(before.contains(k) <==> had.dom().contains(k));
            if before.contains(k) {
                let i = choose|i: int| 0 <= i < before.len() && before[i] == k;
                assert(names[i] == k);
            }
            if names.contains(k) {
                let i = choose|i: int| 0 <= i < names.len() && names[i] == k;
                if i < before.len() {
                    assert(before[i] == k);
                }
            }
            if names.len() > before.len() {
                assert(names[names.len() - 1] == key);
            }
        }
        assert forall|i: int| 0 <= i < pairs.len() implies names.contains((#[trigger] pairs[i]).0) by {
            if i < front.len() {
                assert(front[i] == pairs[i]);
                assert(had.dom().contains(front[i].0));
                assert(all.dom().contains(front[i].0));
            } else {
                assert(all.dom().contains(key));
            }
        }
    }
}

/// Where the columns of a new table cannot be mapped, its properties stay as they are; the feature is
/// there if the mode is known, and no other feature is added.
pub proof fn refused_mappings_add_the_feature_alone(v: ValidatedView, f: FeatureView)
    ensures
        ({
            let mode = "delta.columnMapping.mode"@;
            let r = create_table::mapping_refused(v);
            let known = !v.properties.dom().contains(mode) || v.properties[mode] == "none"@
                || v.properties[mode] == "name"@ || v.properties[mode] == "id"@;
            &&& r.properties == v.properties && r.keys == v.keys
            &&& r.writer.contains(f) <==> v.writer.contains(f) || (known && f is ColumnMapping)
            &&& r.reader.contains(f) <==> v.reader.contains(f) || (known && f is ColumnMapping)
        }),
{
    adding_a_feature_adds_it_alone(v, FeatureView::ColumnMapping, f);
}

/// Where the properties are allowed but ask for a mode of column mapping that is not known, that mode
/// is the error.
pub proof fn unknown_modes_are_told<D>(b: BuilderView, place: PlaceView, names: Seq<Seq<char>>)
    requires
        forall|k: Seq<char>| b.keys.contains(k) <==> #[trigger] b.properties.dom().contains(k),
    ensures
        ({
            let mode = "delta.columnMapping.mode"@;
            create_table::properties_fault(b.properties, b.keys) is None
                && b.properties.dom().contains(mode) && b.properties[mode] != "none"@
                && b.properties[mode] != "name"@ && b.properties[mode] != "id"@
                ==> create_table_builder::built::<D>(b, place, names) == Err::<
                TxnView<D>,
                ErrorView,
            >(ErrorView::InvalidColumnMappingMode(b.properties[mode]))
        }),
{
    create_table::extracted_properties_and_features(b.properties, b.keys);
    lemma_property_names();
    let start = create_table::extracted(b.properties, b.keys);
    let mode = "delta.columnMapping.mode"@;
    assert(start.properties.dom().contains(mode) == b.properties.dom().contains(mode));
}

} // verus!
