//! What column mapping does to columns, and what it leaves alone.
use vstd::prelude::*;

use crate::column_mapping;
use crate::schema::{self, DataTypeView, FieldView, MetadataValueView};
use crate::schema_transform;

verus! {

/// The metadata of a field but for the identifier and the physical name.
pub open spec fn other_metadata(f: FieldView) -> Map<Seq<char>, MetadataValueView> {
    f.metadata.remove("delta.columnMapping.id"@).remove("delta.columnMapping.physicalName"@)
}

/// Whether two fields are the same but for identifiers and physical names, their own and those of the
/// fields inside them.
pub open spec fn field_agrees(f: FieldView, g: FieldView) -> bool
    decreases f,
{
    &&& g.name == f.name
    &&& g.nullable == f.nullable
    &&& other_metadata(g) == other_metadata(f)
    &&& type_agrees(f.data_type, g.data_type)
}

/// Whether two types are the same but for the identifiers and physical names of the fields inside
/// them.
pub open spec fn type_agrees(t: DataTypeView, u: DataTypeView) -> bool
    decreases t,
{
    match t {
        DataTypeView::Primitive(_) => u == t,
        DataTypeView::Array(e, n) => match u {
            DataTypeView::Array(f, m) => n == m && type_agrees(*e, *f),
            _ => false,
        },
        DataTypeView::Mapping(k, v, n) => match u {
            DataTypeView::Mapping(l, w, m) => n == m && type_agrees(*k, *l) && type_agrees(*v, *w),
            _ => false,
        },
        DataTypeView::Struct(s) => match u {
            DataTypeView::Struct(r) => fields_agree(s, r),
            _ => false,
        },
        DataTypeView::Variant(_) => u == t,
    }
}

/// Whether two lists of fields are the same but for identifiers and physical names.
pub open spec fn fields_agree(s: Seq<FieldView>, r: Seq<FieldView>) -> bool
    decreases s,
{
    &&& r.len() == s.len()
    &&& s.len() > 0 ==> fields_agree(s.drop_last(), r.drop_last()) && field_agrees(
        s.last(),
        r.last(),
    )
}

/// Giving a column an identifier and a physical name leaves everything else of it alone: its name,
/// whether it holds nulls, its other metadata, and its type, in which again only identifiers and
/// physical names are new.
pub proof fn mapping_only_annotates_columns(
    f: FieldView,
    last: int,
    base: int,
    names: Seq<Seq<char>>,
)
    ensures
        field_agrees(f, column_mapping::mapped_field(f, last, base, names)),
    decreases f,
{
    let g = column_mapping::mapped_field(f, last, base, names);
    mapping_only_annotates_types(f.data_type, last + 1, base, names);
    column_mapping::lemma_annotation_keys_differ();
    assert(other_metadata(g) =~= other_metadata(f));
}

/// Giving the columns inside a type identifiers and physical names leaves everything else of the type
/// alone.
pub proof fn mapping_only_annotates_types(
    t: DataTypeView,
    last: int,
    base: int,
    names: Seq<Seq<char>>,
)
    ensures
        type_agrees(t, column_mapping::mapped_type(t, last, base, names)),
    decreases t,
{
    match t {
        DataTypeView::Primitive(_) => {},
        DataTypeView::Array(e, _) => {
            mapping_only_annotates_types(*e, last, base, names);
        },
        DataTypeView::Mapping(k, v, _) => {
            mapping_only_annotates_types(*k, last, base, names);
            mapping_only_annotates_types(
                *v,
                last + column_mapping::type_field_count(*k),
                base,
                names,
            );
        },
        DataTypeView::Struct(s) => {
            mapping_only_annotates_schemas(s, last, base, names);
        },
        DataTypeView::Variant(_) => {},
    }
}

/// Giving the columns of a schema identifiers and physical names leaves everything else of them
/// alone: there are as many, in the same order, and each agrees with what it was.
pub proof fn mapping_only_annotates_schemas(
    s: Seq<FieldView>,
    last: int,
    base: int,
    names: Seq<Seq<char>>,
)
    ensures
        fields_agree(s, column_mapping::mapped_fields(s, last, base, names)),
    decreases s,
{
    let r = column_mapping::mapped_fields(s, last, base, names);
    if s.len() > 0 {
        let front = s.drop_last();
        mapping_only_annotates_schemas(front, last, base, names);
        mapping_only_annotates_columns(
            s.last(),
            last + column_mapping::field_count(front),
            base,
            names,
        );
        assert(r.drop_last() =~= column_mapping::mapped_fields(front, last, base, names));
        assert(r.last() == column_mapping::mapped_field(
            s.last(),
            last + column_mapping::field_count(front),
            base,
            names,
        ));
    }
}

/// The physical name that a field holds; empty where it holds none.
pub open spec fn held_physical_name(f: FieldView) -> Seq<char> {
    if f.metadata.dom().contains("delta.columnMapping.physicalName"@) {
        match f.metadata["delta.columnMapping.physicalName"@] {
            MetadataValueView::String(s) => s,
            _ => Seq::empty(),
        }
    } else {
        Seq::empty()
    }
}

/// The physical names of the fields inside a type, each field before those inside it.
pub open spec fn type_physical_names(t: DataTypeView) -> Seq<Seq<char>>
    decreases t,
{
    match t {
        DataTypeView::Primitive(_) => Seq::empty(),
        DataTypeView::Array(e, _) => type_physical_names(*e),
        DataTypeView::Mapping(k, v, _) => type_physical_names(*k) + type_physical_names(*v),
        DataTypeView::Struct(s) => physical_names(s),
        DataTypeView::Variant(_) => Seq::empty(),
    }
}

/// The physical names of fields and of those inside them, each field before those inside it.
pub open spec fn physical_names(s: Seq<FieldView>) -> Seq<Seq<char>>
    decreases s,
{
    if s.len() == 0 {
        Seq::empty()
    } else {
        physical_names(s.drop_last()).push(held_physical_name(s.last())) + type_physical_names(
            s.last().data_type,
        )
    }
}

/// The physical names that are made of given texts, from one of them on.
pub open spec fn made_names(names: Seq<Seq<char>>, from: int, n: nat) -> Seq<Seq<char>> {
    Seq::new(n, |i: int| "col-"@ + names[from + i])
}

/// Every column, at every depth, gets a physical name made of a text of its own.
pub proof fn physical_names_are_made_of_the_texts(
    s: Seq<FieldView>,
    last: int,
    base: int,
    names: Seq<Seq<char>>,
)
    ensures
        physical_names(column_mapping::mapped_fields(s, last, base, names)) == made_names(
            names,
            last - base,
            column_mapping::field_count(s),
        ),
    decreases s,
{
    let all = column_mapping::mapped_fields(s, last, base, names);
    let want = made_names(names, last - base, column_mapping::field_count(s));
    if s.len() > 0 {
        let front = s.drop_last();
        let f = s.last();
        let at = last + column_mapping::field_count(front);
        physical_names_are_made_of_the_texts(front, last, base, names);
        lemma_type_physical_names(f.data_type, at + 1, base, names);
        let new = column_mapping::mapped_field(f, at, base, names);
        assert(all.drop_last() =~= column_mapping::mapped_fields(front, last, base, names));
        assert(all.last() == new);
        assert(new.data_type == column_mapping::mapped_type(f.data_type, at + 1, base, names));
        assert(held_physical_name(new) == "col-"@ + names[at - base]);
        assert(physical_names(all) =~= want);
    } else {
        assert(physical_names(all) =~= want);
    }
}

/// Every column inside a type gets a physical name made of a text of its own.
proof fn lemma_type_physical_names(t: DataTypeView, last: int, base: int, names: Seq<Seq<char>>)
    ensures
        type_physical_names(column_mapping::mapped_type(t, last, base, names)) == made_names(
            names,
            last - base,
            column_mapping::type_field_count(t),
        ),
    decreases t,
{
    let n = column_mapping::type_field_count(t);
    match t {
        DataTypeView::Primitive(_) => {
            assert(made_names(names, last - base, 0) =~= Seq::empty());
        },
        DataTypeView::Array(e, _) => {
            lemma_type_physical_names(*e, last, base, names);
        },
        DataTypeView::Mapping(k, v, _) => {
            let m = column_mapping::type_field_count(*k);
            lemma_type_physical_names(*k, last, base, names);
            lemma_type_physical_names(*v, last + m, base, names);
            assert(made_names(names, last - base, m) + made_names(
                names,
                last + m - base,
                column_mapping::type_field_count(*v),
            ) =~= made_names(names, last - base, n));
        },
        DataTypeView::Struct(s) => {
            physical_names_are_made_of_the_texts(s, last, base, names);
        },
        DataTypeView::Variant(_) => {
            assert(made_names(names, last - base, 0) =~= Seq::empty());
        },
    }
}

/// Whether a field can get an identifier and a physical name: in a new table it has neither yet, and
/// neither has a field inside it; and no struct inside it holds a name twice.
pub open spec fn can_be_mapped(f: FieldView, fresh: bool) -> bool
    decreases f,
{
    &&& fresh ==> !f.metadata.dom().contains("delta.columnMapping.id"@) && !f.metadata.dom().contains(
        "delta.columnMapping.physicalName"@,
    )
    &&& type_can_be_mapped(f.data_type, fresh)
}

/// Whether the fields inside a type can get identifiers and physical names.
pub open spec fn type_can_be_mapped(t: DataTypeView, fresh: bool) -> bool
    decreases t,
{
    match t {
        DataTypeView::Primitive(_) => true,
        DataTypeView::Array(e, _) => type_can_be_mapped(*e, fresh),
        DataTypeView::Mapping(k, v, _) => type_can_be_mapped(*k, fresh) && type_can_be_mapped(
            *v,
            fresh,
        ),
        DataTypeView::Struct(s) => can_all_be_mapped(s, fresh) && schema::field_names(
            s,
        ).no_duplicates(),
        DataTypeView::Variant(_) => true,
    }
}

/// Whether fields can get identifiers and physical names.
pub open spec fn can_all_be_mapped(s: Seq<FieldView>, fresh: bool) -> bool
    decreases s,
{
    forall|i: int| 0 <= i < s.len() ==> can_be_mapped(#[trigger] s[i], fresh)
}

/// Columns are refused identifiers and physical names exactly where they cannot get them.
pub proof fn columns_are_mapped_exactly_if_they_can_be(s: Seq<FieldView>, fresh: bool)
    ensures
        column_mapping::fields_assign_fault(s, fresh) is None <==> can_all_be_mapped(s, fresh),
    decreases s,
{
    if s.len() > 0 {
        let front = s.drop_last();
        columns_are_mapped_exactly_if_they_can_be(front, fresh);
        lemma_field_assign_fault(s.last(), fresh);
        if can_all_be_mapped(front, fresh) && can_be_mapped(s.last(), fresh) {
            assert forall|i: int| 0 <= i < s.len() implies can_be_mapped(#[trigger] s[i], fresh) by {
                if i < front.len() {
                    assert(front[i] == s[i]);
                }
            }
        }
        if can_all_be_mapped(s, fresh) {
            assert(can_be_mapped(s[s.len() - 1], fresh));
            assert forall|i: int| 0 <= i < front.len() implies can_be_mapped(
                #[trigger] front[i],
                fresh,
            ) by {
                assert(front[i] == s[i]);
            }
        }
    }
}

/// A column is refused an identifier and a physical name exactly where it cannot get them.
pub proof fn lemma_field_assign_fault(f: FieldView, fresh: bool)
    ensures
        column_mapping::field_assign_fault(f, fresh) is None <==> can_be_mapped(f, fresh),
    decreases f,
{
    lemma_type_assign_fault(f.data_type, fresh);
}

proof fn lemma_type_assign_fault(t: DataTypeView, fresh: bool)
    ensures
        column_mapping::type_assign_fault(t, fresh) is None <==> type_can_be_mapped(t, fresh),
    decreases t,
{
    match t {
        DataTypeView::Primitive(_) => {},
        DataTypeView::Array(e, _) => {
            lemma_type_assign_fault(*e, fresh);
        },
        DataTypeView::Mapping(k, v, _) => {
            lemma_type_assign_fault(*k, fresh);
            lemma_type_assign_fault(*v, fresh);
        },
        DataTypeView::Struct(s) => {
            columns_are_mapped_exactly_if_they_can_be(s, fresh);
            schema_transform::lemma_repeated_iff_duplicates(s);
        },
        DataTypeView::Variant(_) => {},
    }
}

} // verus!
