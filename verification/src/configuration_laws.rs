//! What the protocol and the properties of a table mean for those who read and write it.
use vstd::prelude::*;

use crate::actions::{self, MetadataView, ProtocolView};
use crate::commit_path;
use crate::create_table_laws;
use crate::log_validation;
use crate::schema::{self, FieldView};
use crate::schema_transform::{self, SpecialType};
use crate::table_configuration::{self, ConfigView, InCommitTimestampEnablement};
use crate::table_features::{self, ColumnMappingMode, FeatureType, FeatureView, Operation};
use crate::table_properties::{self, DataSkippingNumIndexedCols};
use crate::text;

verus! {

/// Whether a protocol lists a feature for writers.
pub open spec fn listed_for_writers(p: ProtocolView, f: FeatureView) -> bool {
    p.writer_features is Some && p.writer_features->0.contains(f)
}

/// Whether a protocol lists a feature for readers.
pub open spec fn listed_for_readers(p: ProtocolView, f: FeatureView) -> bool {
    p.reader_features is Some && p.reader_features->0.contains(f)
}

/// Whether a feature concerns writers alone.
pub open spec fn concerns_writers_alone(f: FeatureView) -> bool {
    f is AppendOnly || f is Invariants || f is CheckConstraints || f is ChangeDataFeed
        || f is GeneratedColumns || f is IdentityColumns || f is InCommitTimestamp || f is RowTracking
        || f is DomainMetadata || f is IcebergCompatV1 || f is IcebergCompatV2 || f is ClusteredTable
        || f is MaterializePartitionColumns
}

/// The first writer version that includes a feature without listing it; the version from which
/// features are listed where there is none.
pub open spec fn first_writer_version(f: FeatureView) -> int {
    if f is AppendOnly || f is Invariants {
        2
    } else if f is CheckConstraints {
        3
    } else if f is ChangeDataFeed || f is GeneratedColumns {
        4
    } else if f is ColumnMapping {
        5
    } else if f is IdentityColumns {
        6
    } else {
        7
    }
}

/// A table supports a feature as its versions and lists say: below the versions from which features
/// are listed, one that the versions include; from there on, one that is listed. A feature that
/// concerns writers alone need only be there for them, any other must be there for readers too; what
/// is not known counts where it is listed for writers.
pub proof fn features_are_supported_by_version_or_list(p: ProtocolView, f: FeatureView)
    ensures
        ({
            let for_writers = if p.min_writer_version < 7 {
                p.min_writer_version >= first_writer_version(f)
            } else {
                listed_for_writers(p, f)
            };
            let for_readers = if p.min_reader_version < 3 {
                (f is ColumnMapping && p.min_reader_version == 2) || (concerns_writers_alone(f)
                    && first_writer_version(f) < 7 && p.min_reader_version >= 1)
            } else {
                listed_for_readers(p, f)
            };
            table_configuration::feature_supported(p, f) <==> if f is Unknown {
                listed_for_writers(p, f)
            } else if concerns_writers_alone(f) {
                for_writers
            } else {
                for_writers && for_readers
            }
        }),
{
}

/// Where a feature is supported and has a property of its own, it is enabled exactly where the
/// property says so; where it has none, it is enabled.
pub proof fn features_are_enabled_by_their_properties(
    p: ProtocolView,
    m: Map<Seq<char>, Seq<char>>,
    f: FeatureView,
)
    ensures
        table_configuration::feature_enabled(p, table_properties::properties_of(m), f) <==> {
            &&& table_configuration::feature_supported(p, f)
            &&& match f {
                FeatureView::AppendOnly => create_table_laws::flag_set(m, "delta.appendOnly"@),
                FeatureView::ChangeDataFeed => create_table_laws::flag_set(
                    m,
                    "delta.enableChangeDataFeed"@,
                ),
                FeatureView::InCommitTimestamp => create_table_laws::flag_set(
                    m,
                    "delta.enableInCommitTimestamps"@,
                ),
                FeatureView::RowTracking => create_table_laws::flag_set(
                    m,
                    "delta.enableRowTracking"@,
                ) && !create_table_laws::flag_set(m, "delta.rowTrackingSuspended"@),
                FeatureView::DeletionVectors => create_table_laws::flag_set(
                    m,
                    "delta.enableDeletionVectors"@,
                ),
                FeatureView::TypeWidening | FeatureView::TypeWideningPreview =>
                    create_table_laws::flag_set(m, "delta.enableTypeWidening"@),
                FeatureView::ColumnMapping => m.dom().contains("delta.columnMapping.mode"@) && (
                m["delta.columnMapping.mode"@] == "name"@ || m["delta.columnMapping.mode"@]
                    == "id"@),
                _ => true,
            }
        },
{
    reveal_strlit("true");
    reveal_strlit("false");
    reveal_strlit("none");
    reveal_strlit("name");
    reveal_strlit("id");
    assert("true"@.len() == 4 && "false"@.len() == 5);
    assert("none"@[1] == 'o' && "name"@[1] == 'a' && "id"@.len() == 2);
}

/// Columns are mapped as the property says where the protocol allows it: with reader version two, or
/// with version three and the feature listed. Otherwise they are not mapped.
pub proof fn columns_are_mapped_as_the_property_says(
    p: ProtocolView,
    m: Map<Seq<char>, Seq<char>>,
)
    ensures
        ({
            let mode = table_configuration::mapping_mode_of(p, table_properties::properties_of(m));
            let allowed = p.min_reader_version == 2 || (p.min_reader_version == 3
                && listed_for_writers(p, FeatureView::ColumnMapping));
            let key = "delta.columnMapping.mode"@;
            &&& mode is Name <==> allowed && m.dom().contains(key) && m[key] == "name"@
            &&& mode is Id <==> allowed && m.dom().contains(key) && m[key] == "id"@
        }),
{
    reveal_strlit("none");
    reveal_strlit("name");
    reveal_strlit("id");
    assert("none"@[1] == 'o' && "name"@[1] == 'a' && "id"@.len() == 2);
}

/// Whether what a feature requires of others is met.
pub open spec fn requirements_met(c: ConfigView, f: FeatureView) -> bool {
    let supported = |d: FeatureView| table_configuration::feature_supported(c.protocol, d);
    let enabled = |d: FeatureView|
        table_configuration::feature_enabled(c.protocol, c.properties, d);
    match f {
        FeatureView::RowTracking => supported(FeatureView::DomainMetadata),
        FeatureView::ClusteredTable => supported(FeatureView::DomainMetadata),
        FeatureView::IcebergCompatV1 => enabled(FeatureView::ColumnMapping) && !supported(
            FeatureView::DeletionVectors,
        ),
        FeatureView::IcebergCompatV2 => enabled(FeatureView::ColumnMapping) && !enabled(
            FeatureView::DeletionVectors,
        ),
        FeatureView::CatalogManaged => enabled(FeatureView::InCommitTimestamp),
        FeatureView::CatalogOwnedPreview => enabled(FeatureView::InCommitTimestamp),
        _ => true,
    }
}

/// Whether the library can do an operation on tables with a feature.
pub open spec fn can_handle(f: FeatureView, operation: Operation) -> bool {
    &&& !(f is CheckConstraints || f is GeneratedColumns || f is IdentityColumns
        || f is IcebergCompatV1 || f is IcebergCompatV2 || f is Unknown)
    &&& (f is TypeWidening || f is TypeWideningPreview) ==> !(operation is Write)
}

/// A feature stands in the way of nothing exactly where the library can handle it and its
/// requirements are met.
proof fn lemma_feature_fault(c: ConfigView, f: FeatureView, operation: Operation)
    ensures
        table_configuration::feature_fault(c, f, operation) is None <==> can_handle(f, operation)
            && requirements_met(c, f),
{
    let all = table_features::requirements_of(f);
    let fault = |i: int| table_configuration::requirement_fault(c, f, all[i]);
    log_validation::lemma_first_fault(fault, 0, all.len() as int);
    if all.len() > 0 {
        assert(fault(0) == table_configuration::requirement_fault(c, f, all[0]));
    }
    if all.len() > 1 {
        assert(fault(1) == table_configuration::requirement_fault(c, f, all[1]));
    }
    if requirements_met(c, f) {
        assert forall|i: int| 0 <= i < all.len() implies #[trigger] fault(i) is None by {
            assert(i == 0 || i == 1);
        }
    }
}

/// No feature of a list stands in the way exactly where none does by itself.
proof fn lemma_features_fault(c: ConfigView, s: Seq<FeatureView>, operation: Operation)
    ensures
        table_configuration::features_fault(c, s, operation) is None <==> forall|i: int|
            0 <= i < s.len() ==> can_handle(#[trigger] s[i], operation) && requirements_met(c, s[i]),
{
    let fault = |i: int| table_configuration::feature_fault(c, s[i], operation);
    log_validation::lemma_first_fault(fault, 0, s.len() as int);
    if table_configuration::features_fault(c, s, operation) is None {
        assert forall|i: int| 0 <= i < s.len() implies can_handle(#[trigger] s[i], operation)
            && requirements_met(c, s[i]) by {
            assert(fault(i) is None);
            lemma_feature_fault(c, s[i], operation);
        }
    }
    if forall|i: int|
        0 <= i < s.len() ==> can_handle(#[trigger] s[i], operation) && requirements_met(c, s[i]) {
        assert forall|i: int| 0 <= i < s.len() implies #[trigger] fault(i) is None by {
            lemma_feature_fault(c, s[i], operation);
        }
    }
}

/// The features that a table has for readers: those that are listed with version three, column mapping
/// with version two, and none below.
pub open spec fn has_for_readers(p: ProtocolView, f: FeatureView) -> bool {
    if p.min_reader_version == 3 {
        listed_for_readers(p, f)
    } else {
        p.min_reader_version == 2 && f is ColumnMapping
    }
}

/// The features that a table has for writers: those that are listed with version seven, and below
/// those that the version includes.
pub open spec fn has_for_writers(p: ProtocolView, f: FeatureView) -> bool {
    if p.min_writer_version == 7 {
        listed_for_writers(p, f)
    } else {
        1 <= p.min_writer_version < 7 && first_writer_version(f) <= p.min_writer_version
    }
}

/// A table can be read exactly where its reader version is from one to three, and the library can
/// handle each feature that it has for readers, whose requirements are met.
pub proof fn tables_can_be_read_exactly_if(c: ConfigView, operation: Operation)
    requires
        !(operation is Write),
    ensures
        table_configuration::operation_fault(c, operation) is None <==> {
            &&& 1 <= c.protocol.min_reader_version <= 3
            &&& forall|f: FeatureView| #[trigger]
                has_for_readers(c.protocol, f) ==> can_handle(f, operation) && requirements_met(c, f)
        },
{
    let p = c.protocol;
    let s = table_configuration::enabled_reader_features(p);
    lemma_features_fault(c, s, operation);
    reveal_with_fuel(table_configuration::included_features, 3);
    let legacy = table_configuration::legacy_reader_features();
    assert(legacy.drop_last() =~= Seq::<FeatureView>::empty());
    if 1 <= p.min_reader_version <= 3 {
        assert forall|f: FeatureView| #[trigger] s.contains(f) <==> has_for_readers(p, f) by {
            if p.min_reader_version == 2 {
                assert(s[0] is ColumnMapping && s.len() == 1);
            } else if p.min_reader_version == 1 {
                assert(s.len() == 0);
            }
        }
        if table_configuration::operation_fault(c, operation) is None {
            assert forall|f: FeatureView| #[trigger] has_for_readers(p, f) implies can_handle(
                f,
                operation,
            ) && requirements_met(c, f) by {
                assert(s.contains(f));
                let i = choose|i: int| 0 <= i < s.len() && s[i] == f;
                assert(can_handle(s[i], operation));
            }
        }
        if forall|f: FeatureView| #[trigger]
            has_for_readers(p, f) ==> can_handle(f, operation) && requirements_met(c, f) {
            assert forall|i: int| 0 <= i < s.len() implies can_handle(#[trigger] s[i], operation)
                && requirements_met(c, s[i]) by {
                assert(s.contains(s[i]));
                assert(has_for_readers(p, s[i]));
            }
        }
    }
}

/// The features that a writer version below seven includes.
proof fn lemma_legacy_writer_features(p: ProtocolView, f: FeatureView)
    requires
        1 <= p.min_writer_version <= 6,
    ensures
        table_configuration::enabled_writer_features(p).contains(f) <==> has_for_writers(p, f),
{
    let all = table_configuration::legacy_writer_features();
    lemma_included(all, p.min_writer_version, f);
    assert(all[0] is AppendOnly && all[1] is Invariants && all[2] is CheckConstraints);
    assert(all[3] is ChangeDataFeed && all[4] is GeneratedColumns && all[5] is ColumnMapping);
    assert(all[6] is IdentityColumns);
    if first_writer_version(f) < 7 {
        assert(all.contains(f));
    }
    if all.contains(f) {
        let i = choose|i: int| 0 <= i < all.len() && all[i] == f;
        assert(all[i] == f);
    }
}

/// The features of a list that a writer version includes.
proof fn lemma_included(s: Seq<FeatureView>, version: i32, f: FeatureView)
    ensures
        table_configuration::included_features(s, version, true).contains(f) <==> s.contains(f) && (
        table_features::legacy_versions_of(f) matches Some((_, w)) && version >= w),
    decreases s.len(),
{
    let t = table_configuration::included_features(s, version, true);
    if s.len() > 0 {
        let front = s.drop_last();
        lemma_included(front, version, f);
        let before = table_configuration::included_features(front, version, true);
        if t.contains(f) {
            let i = choose|i: int| 0 <= i < t.len() && t[i] == f;
            if i < before.len() {
                assert(before[i] == f);
                assert(before.contains(f));
                let k = choose|k: int| 0 <= k < front.len() && front[k] == f;
                assert(s[k] == f);
            } else {
                assert(s[s.len() - 1] == f);
            }
        }
        if s.contains(f) && (table_features::legacy_versions_of(f) matches Some((_, w)) && version
            >= w) {
            let k = choose|k: int| 0 <= k < s.len() && s[k] == f;
            if k < front.len() {
                assert(front[k] == f);
                assert(before.contains(f));
                let i = choose|i: int| 0 <= i < before.len() && before[i] == f;
                assert(t[i] == f);
            } else {
                assert(t[t.len() - 1] == f);
            }
        }
    }
}

/// A table can be written exactly where its writer version is from one to seven, the library can
/// write with each feature that it has for writers, whose requirements are met, and it has no column
/// with an invariant where it supports them.
pub proof fn tables_can_be_written_exactly_if(c: ConfigView)
    ensures
        table_configuration::operation_fault(c, Operation::Write) is None <==> {
            &&& 1 <= c.protocol.min_writer_version <= 7
            &&& forall|f: FeatureView| #[trigger]
                has_for_writers(c.protocol, f) ==> can_handle(f, Operation::Write)
                    && requirements_met(c, f)
            &&& !(table_configuration::feature_supported(c.protocol, FeatureView::Invariants)
                && schema_transform::has_invariants(c.logical))
        },
{
    let p = c.protocol;
    let s = table_configuration::enabled_writer_features(p);
    lemma_features_fault(c, s, Operation::Write);
    if 1 <= p.min_writer_version <= 7 {
        assert forall|f: FeatureView| #[trigger] s.contains(f) <==> has_for_writers(p, f) by {
            if p.min_writer_version <= 6 {
                lemma_legacy_writer_features(p, f);
            }
        }
        if table_configuration::features_fault(c, s, Operation::Write) is None {
            assert forall|f: FeatureView| #[trigger] has_for_writers(p, f) implies can_handle(
                f,
                Operation::Write,
            ) && requirements_met(c, f) by {
                assert(s.contains(f));
                let i = choose|i: int| 0 <= i < s.len() && s[i] == f;
                assert(can_handle(s[i], Operation::Write));
            }
        }
        if forall|f: FeatureView| #[trigger]
            has_for_writers(p, f) ==> can_handle(f, Operation::Write) && requirements_met(c, f) {
            assert forall|i: int| 0 <= i < s.len() implies can_handle(
                #[trigger] s[i],
                Operation::Write,
            ) && requirements_met(c, s[i]) by {
                assert(s.contains(s[i]));
                assert(has_for_writers(p, s[i]));
            }
        }
    }
}

/// In-commit timestamps count as enabled exactly where they are; since when they are is told by both a
/// version and a time or by neither, and one without the other is an error.
pub proof fn timestamps_tell_since_when(c: ConfigView)
    ensures
        ({
            let enabled = table_configuration::feature_enabled(
                c.protocol,
                c.properties,
                FeatureView::InCommitTimestamp,
            );
            let version = c.properties.in_commit_timestamp_enablement_version;
            let time = c.properties.in_commit_timestamp_enablement_timestamp;
            let r = table_configuration::ict_enablement(c);
            &&& (r is Ok && r->Ok_0 is NotEnabled) <==> !enabled
            &&& r is Err <==> enabled && (version is Some) != (time is Some)
            &&& r matches Ok(InCommitTimestampEnablement::Enabled { enablement }) ==> (
            enablement matches Some((v, at)) ==> version == Some(v) && time == Some(at)) && (
            enablement is None ==> version is None && time is None)
        }),
{
}

/// A protocol is accepted exactly where it lists features for readers with version three only, and for
/// writers with version seven only; what it lists for readers concerns them and is listed for writers
/// too; and what it lists for writers and concerns readers is listed for them too, unless the reader
/// version includes it, as version two includes column mapping.
pub proof fn protocols_are_accepted_exactly_if_consistent(p: ProtocolView)
    ensures
        actions::protocol_fault(p) is None <==> {
            &&& p.reader_features is Some <==> p.min_reader_version == 3
            &&& p.writer_features is Some <==> p.min_writer_version == 7
            &&& p.reader_features is Some ==> p.writer_features is Some
            &&& forall|f: FeatureView| #[trigger]
                listed_for_readers(p, f) ==> !concerns_writers_alone(f) && listed_for_writers(p, f)
            &&& forall|f: FeatureView| #[trigger]
                listed_for_writers(p, f) && !concerns_writers_alone(f) && !(f is Unknown)
                    ==> listed_for_readers(p, f) || (p.min_reader_version == 2 && f is ColumnMapping)
        },
{
    if let Some(w) = p.writer_features {
        if let Some(r) = p.reader_features {
            if actions::protocol_fault(p) is None {
                assert forall|f: FeatureView| #[trigger] listed_for_readers(p, f) implies
                    !concerns_writers_alone(f) && listed_for_writers(p, f) by {
                    let i = choose|i: int| 0 <= i < r.len() && r[i] == f;
                    assert(table_features::feature_type_of(r[i]) != FeatureType::WriterOnly);
                }
                assert forall|f: FeatureView| #[trigger] listed_for_writers(p, f)
                    && !concerns_writers_alone(f) && !(f is Unknown) implies listed_for_readers(
                    p,
                    f,
                ) || (p.min_reader_version == 2 && f is ColumnMapping) by {
                    let i = choose|i: int| 0 <= i < w.len() && w[i] == f;
                    assert(table_features::feature_type_of(w[i]) == FeatureType::ReaderWriter);
                }
            }
            assert forall|i: int| 0 <= i < r.len() implies listed_for_readers(
                p,
                #[trigger] r[i],
            ) by {
                assert(r.contains(r[i]));
            }
            assert forall|i: int| 0 <= i < w.len() implies listed_for_writers(
                p,
                #[trigger] w[i],
            ) by {
                assert(w.contains(w[i]));
            }
        } else {
            if actions::protocol_fault(p) is None {
                assert forall|f: FeatureView| #[trigger] listed_for_writers(p, f)
                    && !concerns_writers_alone(f) && !(f is Unknown) implies listed_for_readers(
                    p,
                    f,
                ) || (p.min_reader_version == 2 && f is ColumnMapping) by {
                    let i = choose|i: int| 0 <= i < w.len() && w[i] == f;
                    assert(table_features::feature_type_of(w[i]) == FeatureType::ReaderWriter);
                }
            }
            assert forall|i: int| 0 <= i < w.len() implies listed_for_writers(
                p,
                #[trigger] w[i],
            ) by {
                assert(w.contains(w[i]));
            }
        }
    }
}

/// The data columns of a table are those that are not partition columns, all of them and in order: at
/// each place stands the next one that is none.
pub proof fn data_columns_are_those_not_partitioned(
    logical: Seq<FieldView>,
    kept: Seq<FieldView>,
    names: Seq<Seq<char>>,
)
    requires
        logical.len() == kept.len(),
    ensures
        ({
            let t = table_configuration::fields_not_named(logical, kept, names);
            &&& forall|i: int|
                0 <= i < logical.len() && !names.contains((#[trigger] logical[i]).name)
                    ==> t.contains(kept[i])
            &&& forall|k: int|
                0 <= k < t.len() ==> exists|i: int|
                    0 <= i < logical.len() && !names.contains((#[trigger] logical[i]).name)
                        && kept[i] == #[trigger] t[k]
            &&& (forall|i: int|
                0 <= i < logical.len() ==> !names.contains((#[trigger] logical[i]).name)) ==> t
                == kept
        }),
    decreases logical.len(),
{
    let t = table_configuration::fields_not_named(logical, kept, names);
    if logical.len() > 0 {
        let a = logical.drop_last();
        let b = kept.drop_last();
        let n = logical.len() - 1;
        data_columns_are_those_not_partitioned(a, b, names);
        let before = table_configuration::fields_not_named(a, b, names);
        assert forall|i: int| 0 <= i < logical.len() && !names.contains(
            (#[trigger] logical[i]).name,
        ) implies t.contains(kept[i]) by {
            if i < n {
                assert(a[i] == logical[i]);
                assert(before.contains(b[i]));
                let k = choose|k: int| 0 <= k < before.len() && before[k] == b[i];
                assert(t[k] == kept[i]);
            } else {
                assert(t[t.len() - 1] == kept[i]);
            }
        }
        assert forall|k: int| 0 <= k < t.len() implies exists|i: int|
            0 <= i < logical.len() && !names.contains((#[trigger] logical[i]).name) && kept[i]
                == #[trigger] t[k] by {
            if k < before.len() {
                let i = choose|i: int|
                    0 <= i < a.len() && !names.contains((#[trigger] a[i]).name) && b[i] == before[k];
                assert(logical[i] == a[i]);
                assert(kept[i] == t[k]);
            } else {
                assert(!names.contains(logical[n].name) && kept[n] == t[k]);
            }
        }
        if forall|i: int|
            0 <= i < logical.len() ==> !names.contains((#[trigger] logical[i]).name) {
            assert(!names.contains(logical[n].name));
            assert forall|i: int| 0 <= i < a.len() implies !names.contains(
                (#[trigger] a[i]).name,
            ) by {
                assert(logical[i] == a[i]);
            }
            assert(kept =~= b.push(kept.last()));
        }
    } else {
        assert(t =~= kept);
    }
}

/// The parsed values of partition columns have a field for each partition column that the table has,
/// in order, under the name that data files use, with the type of the column.
pub proof fn partition_values_have_the_columns_types(
    s: Seq<FieldView>,
    names: Seq<Seq<char>>,
    mode: ColumnMappingMode,
)
    requires
        forall|i: int|
            0 <= i < names.len() ==> schema::find_field(s, #[trigger] names[i]) is Some,
    ensures
        ({
            let t = table_configuration::partition_value_fields(s, names, mode);
            &&& t.len() == names.len()
            &&& forall|i: int|
                0 <= i < names.len() ==> {
                    let f = schema::find_field(s, #[trigger] names[i])->0;
                    &&& t[i].name == schema_transform::physical_name_of(f, mode)
                    &&& t[i].data_type == f.data_type
                    &&& t[i].nullable == f.nullable
                }
        }),
    decreases names.len(),
{
    if names.len() > 0 {
        let front = names.drop_last();
        assert forall|i: int| 0 <= i < front.len() implies schema::find_field(
            s,
            #[trigger] front[i],
        ) is Some by {
            assert(front[i] == names[i]);
        }
        partition_values_have_the_columns_types(s, front, mode);
        assert(schema::find_field(s, names[names.len() - 1]) is Some);
        let t = table_configuration::partition_value_fields(s, names, mode);
        assert forall|i: int| 0 <= i < names.len() implies ({
            let f = schema::find_field(s, #[trigger] names[i])->0;
            &&& t[i].name == schema_transform::physical_name_of(f, mode)
            &&& t[i].data_type == f.data_type
            &&& t[i].nullable == f.nullable
        }) by {
            if i < front.len() {
                assert(front[i] == names[i]);
            }
        }
    }
}

/// Data files have all columns where partition columns are materialised, and otherwise all but those.
pub proof fn data_files_have_the_data_columns(c: ConfigView)
    requires
        c.physical.len() == c.logical.len(),
        schema::field_names(
            table_configuration::fields_not_named(
                c.logical,
                c.physical,
                c.metadata.partition_columns,
            ),
        ).no_duplicates(),
    ensures
        table_configuration::feature_supported(
            c.protocol,
            FeatureView::MaterializePartitionColumns,
        ) ==> table_configuration::write_fields(c) == c.physical,
        !table_configuration::feature_supported(
            c.protocol,
            FeatureView::MaterializePartitionColumns,
        ) ==> {
            let t = table_configuration::write_fields(c);
            &&& forall|i: int|
                0 <= i < c.logical.len() ==> (t.contains(#[trigger] c.physical[i])
                    <== !c.metadata.partition_columns.contains(c.logical[i].name))
            &&& forall|k: int|
                0 <= k < t.len() ==> exists|i: int|
                    0 <= i < c.logical.len() && !c.metadata.partition_columns.contains(
                        (#[trigger] c.logical[i]).name,
                    ) && c.physical[i] == #[trigger] t[k]
        },
{
    data_columns_are_those_not_partitioned(c.logical, c.physical, c.metadata.partition_columns);
    schema::lemma_keyed_distinct(
        table_configuration::fields_not_named(
            c.logical,
            c.physical,
            c.metadata.partition_columns,
        ),
    );
    let t = table_configuration::fields_not_named(
        c.logical,
        c.physical,
        c.metadata.partition_columns,
    );
    assert forall|i: int| 0 <= i < c.logical.len() && !c.metadata.partition_columns.contains(
        c.logical[i].name,
    ) implies t.contains(#[trigger] c.physical[i]) by {
        assert(!c.metadata.partition_columns.contains(c.logical[i].name));
    }
}

/// Whether a property is set to false.
pub open spec fn flag_unset(m: Map<Seq<char>, Seq<char>>, key: Seq<char>) -> bool {
    m.dom().contains(key) && m[key] == "false"@
}

/// Whether a property reads as a flag: true where it is set to true, false where it is set to false,
/// and else nothing.
pub open spec fn reads_as_flag(
    m: Map<Seq<char>, Seq<char>>,
    key: Seq<char>,
    value: Option<bool>,
) -> bool {
    &&& value == Some(true) <==> create_table_laws::flag_set(m, key)
    &&& value == Some(false) <==> flag_unset(m, key)
}

/// The properties of a table are read from the configuration, each under its own name.
pub proof fn properties_are_read_under_their_names(m: Map<Seq<char>, Seq<char>>)
    ensures
        ({
            let p = table_properties::properties_of(m);
            &&& reads_as_flag(m, "delta.appendOnly"@, p.append_only)
            &&& reads_as_flag(
                m,
                "delta.checkpoint.writeStatsAsJson"@,
                p.checkpoint_write_stats_as_json,
            )
            &&& reads_as_flag(
                m,
                "delta.checkpoint.writeStatsAsStruct"@,
                p.checkpoint_write_stats_as_struct,
            )
            &&& reads_as_flag(m, "delta.enableChangeDataFeed"@, p.enable_change_data_feed)
            &&& reads_as_flag(m, "delta.enableDeletionVectors"@, p.enable_deletion_vectors)
            &&& reads_as_flag(m, "delta.enableInCommitTimestamps"@, p.enable_in_commit_timestamps)
            &&& reads_as_flag(m, "delta.enableRowTracking"@, p.enable_row_tracking)
            &&& reads_as_flag(m, "delta.rowTrackingSuspended"@, p.row_tracking_suspended)
            &&& reads_as_flag(m, "delta.enableTypeWidening"@, p.enable_type_widening)
        }),
{
    reveal_strlit("true");
    reveal_strlit("false");
    assert("true"@.len() == 4 && "false"@.len() == 5);
}

/// Numbers that are set as properties are read back: how many columns have statistics, where minus one
/// stands for all of them and no other number below zero for any, and since which version and time
/// there are in-commit timestamps. What is not set is not there.
pub proof fn numbers_are_read_under_their_names(
    m: Map<Seq<char>, Seq<char>>,
    columns: i64,
    version: u64,
    time: i64,
)
    ensures
        ({
            let p = table_properties::properties_of(m);
            let c = "delta.dataSkippingNumIndexedCols"@;
            let v = "delta.inCommitTimestampEnablementVersion"@;
            let t = "delta.inCommitTimestampEnablementTimestamp"@;
            &&& m.dom().contains(c) && m[c] == text::signed_decimal(columns as int) ==> (
            if columns == -1 {
                p.data_skipping_num_indexed_cols == Some(DataSkippingNumIndexedCols::AllColumns)
            } else if columns < 0 {
                p.data_skipping_num_indexed_cols is None
            } else {
                p.data_skipping_num_indexed_cols matches Some(
                    DataSkippingNumIndexedCols::NumColumns(n),
                ) && n == columns
            })
            &&& m.dom().contains(v) && m[v] == text::decimal(version as nat)
                ==> p.in_commit_timestamp_enablement_version == Some(version)
            &&& m.dom().contains(t) && m[t] == text::signed_decimal(time as int)
                ==> p.in_commit_timestamp_enablement_timestamp == Some(time)
            &&& !m.dom().contains(c) ==> p.data_skipping_num_indexed_cols is None
            &&& !m.dom().contains(v) ==> p.in_commit_timestamp_enablement_version is None
            &&& !m.dom().contains(t) ==> p.in_commit_timestamp_enablement_timestamp is None
        }),
{
    commit_path::numbers_are_read_back(columns, version);
    commit_path::numbers_are_read_back(time, version);
}

/// Readers have to understand the features that are listed for them, or column mapping where version
/// two includes it; writers those that are listed for them, or those that their version includes.
pub proof fn clients_have_to_understand_these_features(p: ProtocolView, f: FeatureView)
    ensures
        table_configuration::enabled_reader_features(p).contains(f) <==> if p.min_reader_version == 3 {
            listed_for_readers(p, f)
        } else {
            f is ColumnMapping && p.min_reader_version == 2
        },
        table_configuration::enabled_writer_features(p).contains(f) <==> if p.min_writer_version == 7 {
            listed_for_writers(p, f)
        } else {
            first_writer_version(f) <= p.min_writer_version < 7
        },
{
    let r = table_configuration::legacy_reader_features();
    let w = table_configuration::legacy_writer_features();
    lemma_included_features(r, p.min_reader_version, false, f);
    lemma_included_features(w, p.min_writer_version, true, f);
    assert(r[0] is ColumnMapping);
    assert(w[0] is AppendOnly && w[1] is Invariants && w[2] is CheckConstraints);
    assert(w[3] is ChangeDataFeed && w[4] is GeneratedColumns && w[5] is ColumnMapping);
    assert(w[6] is IdentityColumns);
}

/// A version includes those features of a list whose first version it has reached.
proof fn lemma_included_features(s: Seq<FeatureView>, version: i32, writer: bool, f: FeatureView)
    ensures
        table_configuration::included_features(s, version, writer).contains(f) <==> s.contains(f) && (
        table_features::legacy_versions_of(f) matches Some((r, w)) && version >= (if writer {
            w
        } else {
            r
        })),
    decreases s.len(),
{
    if s.len() > 0 {
        let front = s.drop_last();
        lemma_included_features(front, version, writer, f);
        let before = table_configuration::included_features(front, version, writer);
        let after = table_configuration::included_features(s, version, writer);
        assert(s[s.len() - 1] == s.last());
        if s.contains(f) {
            let i = choose|i: int| 0 <= i < s.len() && s[i] == f;
            if i < front.len() {
                assert(front[i] == f);
            }
        }
        if front.contains(f) {
            let i = choose|i: int| 0 <= i < front.len() && front[i] == f;
            assert(s[i] == f);
        }
        if before.contains(f) {
            let i = choose|i: int| 0 <= i < before.len() && before[i] == f;
            assert(after[i] == f);
        }
        if after.contains(f) {
            let i = choose|i: int| 0 <= i < after.len() && after[i] == f;
            if i < before.len() {
                assert(before[i] == f);
            }
        }
        if after.len() > before.len() {
            assert(after[after.len() - 1] == s.last());
        }
    }
}

/// Whether a column of a list leads, in a schema, to a path of physical names.
pub open spec fn one_leads_to(
    s: Seq<FieldView>,
    columns: Seq<Seq<Seq<char>>>,
    mode: ColumnMappingMode,
    path: Seq<Seq<char>>,
) -> bool {
    exists|i: int|
        0 <= i < columns.len() && (schema_transform::walked(
            s,
            #[trigger] columns[i],
            mode,
        ) matches Some((_, names)) && names == path)
}

/// The columns of a list that are in a schema are resolved, the others are left out.
proof fn lemma_resolved_columns(
    s: Seq<FieldView>,
    columns: Seq<Seq<Seq<char>>>,
    mode: ColumnMappingMode,
    path: Seq<Seq<char>>,
)
    ensures
        table_configuration::resolved_columns(s, columns, mode).contains(path) <==> one_leads_to(
            s,
            columns,
            mode,
            path,
        ),
    decreases columns.len(),
{
    if columns.len() > 0 {
        let front = columns.drop_last();
        lemma_resolved_columns(s, front, mode, path);
        let before = table_configuration::resolved_columns(s, front, mode);
        let after = table_configuration::resolved_columns(s, columns, mode);
        assert(columns[columns.len() - 1] == columns.last());
        if one_leads_to(s, columns, mode, path) {
            let i = choose|i: int|
                0 <= i < columns.len() && (schema_transform::walked(
                    s,
                    #[trigger] columns[i],
                    mode,
                ) matches Some((_, names)) && names == path);
            if i < front.len() {
                assert(front[i] == columns[i]);
            } else {
                assert(after[after.len() - 1] == path);
            }
        }
        if one_leads_to(s, front, mode, path) {
            let i = choose|i: int|
                0 <= i < front.len() && (schema_transform::walked(
                    s,
                    #[trigger] front[i],
                    mode,
                ) matches Some((_, names)) && names == path);
            assert(columns[i] == front[i]);
        }
        if before.contains(path) {
            let i = choose|i: int| 0 <= i < before.len() && before[i] == path;
            assert(after[i] == path);
        }
        if after.contains(path) {
            let i = choose|i: int| 0 <= i < after.len() && after[i] == path;
            if i < before.len() {
                assert(before[i] == path);
            }
        }
    }
}

/// Which columns have statistics is as the properties of the table say: as many as they say, or, where
/// they list columns, exactly those data columns that the list leads to, by their physical names.
pub proof fn properties_say_which_columns_have_stats(c: ConfigView, path: Seq<Seq<char>>)
    ensures
        ({
            let config = table_configuration::stats_config_of(c);
            &&& config.num_indexed_cols == c.properties.data_skipping_num_indexed_cols
            &&& config.columns is Some <==> c.properties.data_skipping_stats_columns is Some
            &&& c.properties.data_skipping_stats_columns matches Some(columns) ==> (
            config.columns->0.contains(path) <==> one_leads_to(
                table_configuration::logical_data_fields(c),
                columns,
                c.mode,
                path,
            ))
        }),
{
    if let Some(columns) = c.properties.data_skipping_stats_columns {
        lemma_resolved_columns(
            table_configuration::logical_data_fields(c),
            columns,
            c.mode,
            path,
        );
    }
}

/// A catalog manages a table exactly where the protocol lists, for readers and for writers, the feature
/// of catalog management or the preview of it.
pub proof fn catalogs_manage_tables_that_list_them(p: ProtocolView)
    requires
        p.min_reader_version >= 3,
        p.min_writer_version >= 7,
    ensures
        table_configuration::catalog_managed(p) <==> (listed_for_writers(
            p,
            FeatureView::CatalogManaged,
        ) && listed_for_readers(p, FeatureView::CatalogManaged)) || (listed_for_writers(
            p,
            FeatureView::CatalogOwnedPreview,
        ) && listed_for_readers(p, FeatureView::CatalogOwnedPreview)),
{
    features_are_supported_by_version_or_list(p, FeatureView::CatalogManaged);
    features_are_supported_by_version_or_list(p, FeatureView::CatalogOwnedPreview);
}

/// Whether a name is that of a property that is read as a flag.
pub open spec fn is_flag_name(key: Seq<char>) -> bool {
    key == "delta.appendOnly"@ || key == "delta.checkpoint.writeStatsAsJson"@ || key
        == "delta.checkpoint.writeStatsAsStruct"@ || key == "delta.enableChangeDataFeed"@ || key
        == "delta.enableDeletionVectors"@ || key == "delta.enableInCommitTimestamps"@ || key
        == "delta.enableRowTracking"@ || key == "delta.rowTrackingSuspended"@ || key
        == "delta.enableTypeWidening"@
}

/// Whether a name is that of a property that is read as something else than a flag.
pub open spec fn is_value_name(key: Seq<char>) -> bool {
    key == "delta.columnMapping.mode"@ || key == "delta.dataSkippingNumIndexedCols"@ || key
        == "delta.inCommitTimestampEnablementVersion"@ || key
        == "delta.inCommitTimestampEnablementTimestamp"@ || key == "delta.dataSkippingStatsColumns"@
}

/// What is set under a name that the library does not know is kept as it is, and so is a flag that is
/// neither true nor false. A flag that is one of them is not.
pub proof fn unknown_properties_are_kept(m: Map<Seq<char>, Seq<char>>, key: Seq<char>)
    ensures
        ({
            let kept = table_properties::properties_of(m).unknown_properties;
            &&& kept.dom().contains(key) ==> m.dom().contains(key) && kept[key] == m[key]
            &&& m.dom().contains(key) && !is_flag_name(key) && !is_value_name(key)
                ==> kept.dom().contains(key)
            &&& m.dom().contains(key) && is_flag_name(key) ==> (kept.dom().contains(key) <==> m[key]
                != "true"@ && m[key] != "false"@)
        }),
{
}

/// A protocol has the features that a schema needs exactly where timestamps without time zone and
/// variants, at any depth, come with support for them; a preview of variants is enough.
pub proof fn schemas_need_features_for_their_types(p: ProtocolView, s: Seq<FieldView>)
    ensures
        table_configuration::schema_feature_fault(p, s) is None <==> {
            &&& schema_transform::fields_have(SpecialType::TimestampNtz, s)
                ==> table_configuration::feature_supported(p, FeatureView::TimestampWithoutTimezone)
            &&& schema_transform::fields_have(SpecialType::Variant, s)
                ==> table_configuration::feature_supported(p, FeatureView::VariantType)
                || table_configuration::feature_supported(p, FeatureView::VariantTypePreview)
        },
{
}

/// Metadata, schema and protocol make up a configuration exactly where the schema can be mapped as they
/// say and the protocol has the features that the schema needs.
pub proof fn configurations_are_made_exactly_if(
    m: MetadataView,
    s: Seq<FieldView>,
    p: ProtocolView,
)
    ensures
        table_configuration::config_fault(m, s, p) is None <==> {
            &&& schema_transform::physical_schema_fault(
                s,
                table_configuration::mapping_mode_of(
                    p,
                    table_properties::properties_of(m.configuration),
                ),
            ) is None
            &&& table_configuration::schema_feature_fault(p, s) is None
        },
{
}

} // verus!
