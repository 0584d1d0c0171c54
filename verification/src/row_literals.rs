//! Rows made of leaf values.
use vstd::prelude::*;

use crate::error::{self, DeltaResult, Error, ErrorView};
use crate::scalars::{self, Scalar, ScalarView, StructData};
use crate::schema::{self, clone_fields, DataType, DataTypeView, FieldView, StructField, StructType};

verus! {

/// How many leaf values make up a value of a type: those of its fields for a struct, one for any
/// other type.
pub open spec fn leaf_count(t: DataTypeView) -> nat
    decreases t,
{
    match t {
        DataTypeView::Struct(s) => leaves_in(s),
        _ => 1,
    }
}

/// How many leaf values make up values of a list of fields.
pub open spec fn leaves_in(s: Seq<FieldView>) -> nat
    decreases s,
{
    if s.len() == 0 {
        0
    } else {
        leaves_in(s.drop_last()) + leaf_count(s.last().data_type)
    }
}

/// The value of a type that leaf values make up.
pub open spec fn nested_value(t: DataTypeView, leaves: Seq<ScalarView>) -> ScalarView
    decreases t,
{
    match t {
        DataTypeView::Struct(s) => ScalarView::Struct(s, nested_values(s, leaves)),
        _ => leaves[0],
    }
}

/// The values of a list of fields that leaf values make up, taken in order.
pub open spec fn nested_values(s: Seq<FieldView>, leaves: Seq<ScalarView>) -> Seq<ScalarView>
    decreases s,
{
    if s.len() == 0 {
        Seq::empty()
    } else {
        let t = s.last().data_type;
        let rest = leaves.len() - leaf_count(t);
        nested_values(s.drop_last(), leaves.take(rest)).push(nested_value(t, leaves.skip(rest)))
    }
}

/// The leaf values of a value of a type.
pub open spec fn leaves_of(t: DataTypeView, v: ScalarView) -> Seq<ScalarView>
    decreases t,
{
    match (t, v) {
        (DataTypeView::Struct(s), ScalarView::Struct(_, values)) => row_leaves(s, values),
        _ => seq![v],
    }
}

/// The leaf values of the values of a list of fields.
pub open spec fn row_leaves(s: Seq<FieldView>, values: Seq<ScalarView>) -> Seq<ScalarView>
    decreases s,
{
    if s.len() == 0 {
        Seq::empty()
    } else {
        row_leaves(s.drop_last(), values.drop_last()) + leaves_of(s.last().data_type, values.last())
    }
}

/// The leaf values of a row are those that it was made of, in the same order.
pub proof fn rows_hold_their_leaves(s: Seq<FieldView>, leaves: Seq<ScalarView>)
    requires
        leaves.len() == leaves_in(s),
    ensures
        nested_values(s, leaves).len() == s.len(),
        row_leaves(s, nested_values(s, leaves)) == leaves,
    decreases s,
{
    if s.len() > 0 {
        let t = s.last().data_type;
        let rest = leaves.len() - leaf_count(t);
        let front = nested_values(s.drop_last(), leaves.take(rest));
        rows_hold_their_leaves(s.drop_last(), leaves.take(rest));
        lemma_value_leaves(t, leaves.skip(rest));
        let values = nested_values(s, leaves);
        assert(values.drop_last() =~= front);
        assert(leaves.take(rest) + leaves.skip(rest) =~= leaves);
    } else {
        assert(leaves =~= Seq::<ScalarView>::empty());
    }
}

/// The leaf values of a value are those that it was made of.
proof fn lemma_value_leaves(t: DataTypeView, leaves: Seq<ScalarView>)
    requires
        leaves.len() == leaf_count(t),
    ensures
        leaves_of(t, nested_value(t, leaves)) == leaves,
    decreases t,
{
    match t {
        DataTypeView::Struct(s) => {
            rows_hold_their_leaves(s, leaves);
        },
        _ => {
            assert(seq![leaves[0]] =~= leaves);
        },
    }
}

/// Makes a value of a type of the last of some leaf values, which leave the list.
fn take_value(t: &DataType, leaves: &mut Vec<Scalar>) -> (r: Option<Scalar>)
    ensures
        leaf_count(t@) > old(leaves)@.len() ==> r is None,
        leaf_count(t@) <= old(leaves)@.len() ==> {
            let all = scalars::scalars_view(old(leaves)@);
            let rest = all.len() - leaf_count(t@);
            &&& r matches Some(v)
            &&& v@ == nested_value(t@, all.skip(rest))
            &&& scalars::scalars_view(final(leaves)@) == all.take(rest)
        },
    decreases *t,
{
    match t {
        DataType::Struct(s) => match take_values(&s.fields, leaves) {
            Some(values) => Some(Scalar::Struct(StructData { fields: clone_fields(&s.fields), values })),
            None => None,
        },
        _ => {
            let ghost all = scalars::scalars_view(leaves@);
            let last = leaves.pop();
            assert(leaves@.len() < all.len() ==> scalars::scalars_view(leaves@) =~= all.take(all.len() - 1));
            assert(all.len() > 0 ==> all.skip(all.len() - 1)[0] == all[all.len() - 1]);
            last
        },
    }
}

/// Makes values of fields of the last of some leaf values, which leave the list.
fn take_values(fields: &Vec<StructField>, leaves: &mut Vec<Scalar>) -> (r: Option<Vec<Scalar>>)
    ensures
        leaves_in(schema::fields_view(fields@)) > old(leaves)@.len() ==> r is None,
        leaves_in(schema::fields_view(fields@)) <= old(leaves)@.len() ==> {
            let all = scalars::scalars_view(old(leaves)@);
            let rest = all.len() - leaves_in(schema::fields_view(fields@));
            &&& r matches Some(v)
            &&& scalars::scalars_view(v@) == nested_values(schema::fields_view(fields@), all.skip(rest))
            &&& scalars::scalars_view(final(leaves)@) == all.take(rest)
        },
    decreases fields@,
{
    let ghost s = schema::fields_view(fields@);
    let ghost all = scalars::scalars_view(leaves@);
    let ghost rest = all.len() - leaves_in(s);
    let ghost needed = all.skip(rest);
    let mut out: Vec<Scalar> = Vec::new();
    let mut i: usize = fields.len();
    assert(s.take(s.len() as int) =~= s);
    assert(all.take(all.len() as int) =~= all);
    assert(rest >= 0 ==> needed.take(all.len() - rest) =~= needed);
    assert(scalars::scalars_view(out@) =~= Seq::<ScalarView>::empty());
    assert(nested_values(s, needed) + scalars::scalars_view(out@) =~= nested_values(s, needed));
    while i > 0
        invariant
            i <= fields@.len(),
            s == schema::fields_view(fields@),
            all == scalars::scalars_view(old(leaves)@),
            rest == all.len() - leaves_in(s),
            needed == all.skip(rest),
            leaves@.len() <= all.len(),
            scalars::scalars_view(leaves@) == all.take(leaves@.len() as int),
            leaves_in(s.take(i as int)) == leaves@.len() - rest,
            rest >= 0 ==> nested_values(s, needed) == nested_values(
                s.take(i as int),
                needed.take(leaves@.len() - rest),
            ) + scalars::scalars_view(out@),
        decreases i,
    {
        i -= 1;
        let ghost before = scalars::scalars_view(leaves@);
        let ghost done = scalars::scalars_view(out@);
        let ghost t = s[i as int].data_type;
        assert(s[i as int] == schema::field_view(fields@[i as int]));
        assert(s.take(i + 1).drop_last() =~= s.take(i as int));
        assert(s.take(i + 1).last() == s[i as int]);
        assert(leaves_in(s.take(i + 1)) == leaves_in(s.take(i as int)) + leaf_count(t));
        match take_value(&fields[i].data_type, leaves) {
            Some(value) => {
                proof {
                    if leaf_count(t) <= before.len() {
                        let left = before.len() - leaf_count(t);
                        assert(before.take(left) =~= all.take(left));
                        if rest >= 0 {
                            let have = needed.take(before.len() - rest);
                            assert(have.take(left - rest) =~= needed.take(left - rest));
                            assert(have.skip(left - rest) =~= before.skip(left));
                            assert(scalars::scalars_view(out@.insert(0, value)) =~= seq![value@] + done);
                            assert(nested_values(s.take(i + 1), have) + done =~= nested_values(
                                s.take(i as int),
                                needed.take(left - rest),
                            ) + (seq![value@] + done));
                        }
                    }
                }
                out.insert(0, value);
            },
            None => {
                return None;
            },
        }
    }
    proof {
        if rest >= 0 {
            assert(nested_values(s.take(0), needed.take(leaves@.len() - rest)) + scalars::scalars_view(out@)
                =~= scalars::scalars_view(out@));
        }
    }
    Some(out)
}

/// The values of a row of a schema that leaf values make up. Fails where there are not as many leaf
/// values as the schema has leaves.
pub fn nested_row(schema: &StructType, leaves: Vec<Scalar>) -> (r: DeltaResult<Vec<Scalar>>)
    ensures
        leaves@.len() == leaves_in(schema@) ==> (r matches Ok(v) && scalars::scalars_view(v@)
            == nested_values(schema@, scalars::scalars_view(leaves@))),
        leaves@.len() != leaves_in(schema@) ==> error::failure(r) == Some(
            ErrorView::Generic("The number of leaf values does not match the schema"@),
        ),
{
    let mut leaves = leaves;
    let ghost all = scalars::scalars_view(leaves@);
    let values = take_values(&schema.fields, &mut leaves);
    assert(values is Some ==> scalars::scalars_view(leaves@).len() == all.len() - leaves_in(schema@));
    assert(all.skip(0) =~= all);
    match values {
        Some(values) => if leaves.len() == 0 {
            Ok(values)
        } else {
            Err(Error::generic("The number of leaf values does not match the schema"))
        },
        None => Err(Error::generic("The number of leaf values does not match the schema")),
    }
}

} // verus!
