use delta_kernel::action_schemas::{get_commit_schema, get_log_txn_schema};
use delta_kernel::actions::{
    Add, DeletionVectorDescriptor, DeletionVectorStorageType, DomainMetadata, Metadata,
    SetTransaction,
};
use delta_kernel::create_table::add_feature_to_lists;
use delta_kernel::error::Error;
use delta_kernel::expressions::{parse_column_list, ColumnName};
use delta_kernel::path::FileMeta;
use delta_kernel::row_literals::nested_row;
use delta_kernel::scalars::Scalar;
use delta_kernel::schema::{
    DataType, DecimalType, MetadataValue, PrimitiveType, StructField, StructType,
};
use delta_kernel::string_map::StringMap;
use delta_kernel::table_features::TableFeature;
use delta_kernel::table_properties::{DataSkippingNumIndexedCols, TableProperties};
use delta_kernel::text::{parse_signed, parse_unsigned, text_order, TextOrder};

fn one(name: &str, data_type: DataType) -> DataType {
    DataType::struct_type_unchecked(vec![StructField::nullable(name, data_type)])
}

#[test]
fn schemas_are_written_as_json() {
    let mut field = StructField::not_null("a\"b", DataType::array(DataType::long(), true));
    field.metadata.insert("n".to_string(), MetadataValue::Number(-7));
    field.metadata.insert("s".to_string(), MetadataValue::String("x\\y".to_string()));
    field.metadata.insert("t".to_string(), MetadataValue::Boolean(true));
    let decimal = DataType::Primitive(PrimitiveType::Decimal(DecimalType { precision: 10, scale: 2 }));
    let schema = StructType::new_unchecked(vec![
        field,
        StructField::nullable("m", DataType::mapping(DataType::string(), decimal, false)),
        StructField::nullable("s", one("i", DataType::integer())),
    ]);
    let json: serde_json::Value = serde_json::from_str(&schema.to_json()).unwrap();
    assert_eq!(json["type"], "struct");
    assert_eq!(json["fields"][0]["name"], "a\"b");
    assert_eq!(json["fields"][0]["nullable"], false);
    assert_eq!(json["fields"][0]["type"]["type"], "array");
    assert_eq!(json["fields"][0]["type"]["elementType"], "long");
    assert_eq!(json["fields"][0]["type"]["containsNull"], true);
    assert_eq!(json["fields"][0]["metadata"]["n"], -7);
    assert_eq!(json["fields"][0]["metadata"]["s"], "x\\y");
    assert_eq!(json["fields"][0]["metadata"]["t"], true);
    assert_eq!(json["fields"][1]["type"]["valueType"], "decimal(10,2)");
    assert_eq!(json["fields"][1]["type"]["valueContainsNull"], false);
    assert_eq!(json["fields"][2]["type"]["fields"][0]["name"], "i");
}

#[test]
fn columns_that_differ_in_case_only_are_not_told_apart() {
    let two = |a: &str, b: &str| {
        DataType::struct_type_unchecked(vec![
            StructField::nullable(a, DataType::integer()),
            StructField::nullable(b, DataType::integer()),
        ])
    };
    assert!(two("größe", "breite").can_read_as(&two("größe", "breite")));
    assert!(!two("größe", "GRÖßE").can_read_as(&two("größe", "GRÖßE")));
    let have = one("a", DataType::integer());
    assert!(have.can_read_as(&one("a", DataType::long())));
    assert!(have.can_read_as(&two("a", "b")));
    assert!(!have.can_read_as(&two("a", "A")));
    assert!(!have.can_read_as(&one("A", DataType::integer())));
    assert!(!have.can_read_as(&one("b", DataType::integer())));
    assert!(!have.can_read_as(&one("a", DataType::string())));
}

#[test]
fn nullability_may_only_be_relaxed() {
    let strict = DataType::struct_type_unchecked(vec![StructField::not_null("a", DataType::long())]);
    let loose = one("a", DataType::long());
    assert!(strict.can_read_as(&loose));
    assert!(!loose.can_read_as(&strict));
    assert!(loose.can_read_as(&loose));
}

#[test]
fn numbers_widen() {
    assert!(PrimitiveType::Byte.can_widen_to(&PrimitiveType::Short));
    assert!(PrimitiveType::Integer.can_widen_to(&PrimitiveType::Long));
    assert!(PrimitiveType::Float.can_widen_to(&PrimitiveType::Double));
    assert!(!PrimitiveType::Long.can_widen_to(&PrimitiveType::Integer));
    assert!(!PrimitiveType::String.can_widen_to(&PrimitiveType::Long));
}

#[test]
fn duplicate_fields_are_refused() {
    let fields = vec![
        StructField::nullable("a", DataType::long()),
        StructField::nullable("A", DataType::long()),
    ];
    let _ = StructType::new_unchecked(fields);
    let result = StructType::try_new(vec![
        StructField::nullable("a", DataType::long()),
        StructField::nullable("a", DataType::string()),
    ]);
    assert!(matches!(result, Err(Error::Schema(m)) if m.contains('a')));
}

#[test]
fn column_lists_are_parsed() {
    assert_eq!(
        parse_column_list("id, info.name,`a.b`"),
        Some(vec![
            ColumnName::new(["id"]),
            ColumnName::new(["info", "name"]),
            ColumnName::new(["a.b"]),
        ])
    );
    assert_eq!(parse_column_list("a..b"), None);
}

#[test]
fn properties_are_parsed() {
    let mut map = StringMap::new();
    for (k, v) in [
        ("delta.appendOnly", "true"),
        ("delta.enableDeletionVectors", "maybe"),
        ("delta.dataSkippingNumIndexedCols", "-1"),
        ("delta.inCommitTimestampEnablementVersion", "7"),
        ("custom", "x"),
    ] {
        map.insert(k.to_string(), v.to_string());
    }
    let p = TableProperties::from(&map);
    assert_eq!(p.append_only, Some(true));
    assert_eq!(p.enable_deletion_vectors, None);
    assert_eq!(p.data_skipping_num_indexed_cols, Some(DataSkippingNumIndexedCols::AllColumns));
    assert_eq!(p.in_commit_timestamp_enablement_version, Some(7));
    assert_eq!(p.unknown_properties.len(), 2);
    assert_eq!(p.unknown_properties.get("custom"), Some(&"x".to_string()));
    assert_eq!(
        p.unknown_properties.get("delta.enableDeletionVectors"),
        Some(&"maybe".to_string())
    );
}

#[test]
fn numbers_are_read_exactly() {
    assert_eq!(parse_signed("-9223372036854775808"), Some(i64::MIN));
    assert_eq!(parse_signed("9223372036854775808"), None);
    assert_eq!(parse_unsigned("18446744073709551615"), Some(u64::MAX));
    assert_eq!(parse_unsigned("18446744073709551616"), None);
    assert_eq!(parse_unsigned(""), None);
    assert_eq!(parse_unsigned("1x"), None);
}

#[test]
fn maps_keep_the_last_value_of_a_key() {
    let mut a = StringMap::new();
    a.insert("x".to_string(), "1".to_string());
    a.insert("y".to_string(), "2".to_string());
    a.insert("x".to_string(), "3".to_string());
    assert_eq!(a.len(), 2);
    assert_eq!(a.get("x"), Some(&"3".to_string()));
    let mut b = StringMap::new();
    b.insert("y".to_string(), "2".to_string());
    b.insert("x".to_string(), "3".to_string());
    assert_eq!(a, b);
    b.insert("z".to_string(), "4".to_string());
    assert_ne!(a, b);
}

#[test]
fn files_are_ordered_by_location() {
    let file = |location: &str, size: u64| FileMeta::new(location.to_string(), 0, size);
    assert!(file("a", 2) < file("b", 1));
    assert!(file("a", 2) < file("aa", 1));
    assert!(!(file("a", 2) < file("a", 1)));
    assert_eq!(text_order("a", "b"), TextOrder::Before);
    assert_eq!(text_order("b", "a"), TextOrder::After);
    assert_eq!(text_order("a", "a"), TextOrder::Same);
}

#[test]
fn deletion_vectors_have_unique_identifiers() {
    let dv = |offset: Option<i32>| DeletionVectorDescriptor {
        storage_type: DeletionVectorStorageType::PersistedRelative,
        path_or_inline_dv: "vBn[lx{q8@P<9BNH/isA".to_string(),
        offset,
        size_in_bytes: 36,
        cardinality: 2,
    };
    assert_eq!(dv(Some(1)).unique_id(), "uvBn[lx{q8@P<9BNH/isA@1");
    assert_eq!(dv(None).unique_id(), "uvBn[lx{q8@P<9BNH/isA");
}

#[test]
fn added_files_are_told_apart_by_their_deletion_vectors() {
    let add = |deletion_vector: Option<DeletionVectorDescriptor>| Add {
        path: "a".to_string(),
        partition_values: StringMap::new(),
        size: 1,
        modification_time: 2,
        data_change: true,
        stats: None,
        tags: None,
        deletion_vector,
        base_row_id: None,
        default_row_commit_version: None,
        clustering_provider: None,
    };
    assert_eq!(add(None).dv_unique_id(), None);
    let dv = DeletionVectorDescriptor {
        storage_type: DeletionVectorStorageType::Inline,
        path_or_inline_dv: "x".to_string(),
        offset: None,
        size_in_bytes: 1,
        cardinality: 1,
    };
    assert_eq!(add(Some(dv)).dv_unique_id(), Some("ix".to_string()));
}

#[test]
fn internal_domains_have_the_prefix() {
    assert!(DomainMetadata::new("delta.x".to_string(), String::new()).is_internal());
    assert!(!DomainMetadata::new("deltax".to_string(), String::new()).is_internal());
}

#[test]
fn leaf_values_make_up_rows() {
    let action = SetTransaction::new("app".to_string(), 3, Some(4));
    let row = nested_row(&get_log_txn_schema(), action.row_values()).unwrap();
    assert_eq!(row.len(), 1);
    let Scalar::Struct(txn) = &row[0] else {
        panic!("not a struct");
    };
    assert_eq!(txn.values().len(), 3);
    assert_eq!(txn.values()[0], Scalar::String("app".to_string()));
    assert_eq!(txn.values()[2], Scalar::Long(4));

    let schema = StructType::new_unchecked(vec![StructField::nullable("id", DataType::long())]);
    let metadata =
        Metadata::try_new(None, None, &schema, vec![], 7, StringMap::new()).unwrap();
    let log_schema = get_commit_schema().project(&["metaData"]).unwrap();
    let row = nested_row(&log_schema, metadata.row_values()).unwrap();
    let Scalar::Struct(outer) = &row[0] else {
        panic!("not a struct");
    };
    assert_eq!(outer.values().len(), 8);
    let Scalar::Struct(format) = &outer.values()[3] else {
        panic!("not a struct");
    };
    assert_eq!(format.values()[0], Scalar::String("parquet".to_string()));
    assert_eq!(outer.values()[6], Scalar::Long(7));

    assert!(nested_row(&log_schema, vec![]).is_err());
    assert!(nested_row(&schema, vec![Scalar::Long(1), Scalar::Long(2)]).is_err());
    assert_eq!(nested_row(&schema, vec![Scalar::Long(1)]), Ok(vec![Scalar::Long(1)]));
}

#[test]
fn features_are_added_once() {
    let mut reader = vec![];
    let mut writer = vec![];
    for _ in 0..2 {
        add_feature_to_lists(&TableFeature::DeletionVectors, &mut reader, &mut writer);
        add_feature_to_lists(&TableFeature::AppendOnly, &mut reader, &mut writer);
    }
    assert_eq!(reader, vec![TableFeature::DeletionVectors]);
    assert_eq!(writer, vec![TableFeature::DeletionVectors, TableFeature::AppendOnly]);
}

#[test]
fn feature_names_are_read_back() {
    for feature in [
        TableFeature::AppendOnly,
        TableFeature::TimestampWithoutTimezone,
        TableFeature::VariantShreddingPreview,
        TableFeature::ClusteredTable,
        TableFeature::unknown("later"),
    ] {
        assert_eq!(TableFeature::parse(feature.name()), feature);
    }
    assert_eq!(TableFeature::TimestampWithoutTimezone.name(), "timestampNtz");
}
