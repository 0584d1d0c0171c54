//! Picking columns of a schema, and what a Parquet footer tells.
use vstd::prelude::*;

use crate::error::{self, DeltaResult, Error, ErrorView};
use crate::schema::{self, FieldView, StructField, StructType};

verus! {

/// The identifier that is reserved for the column with the name of the data file.
pub const FILE_NAME_FIELD_ID: i64 = 2147483646;

/// What the footer of a Parquet file tells.
#[derive(Debug, PartialEq, Eq)]
pub struct ParquetFooter {
    /// The schema of the file.
    pub schema: StructType,
}

/// The fields of the given names, in the order of the names, or the error for the first name that
/// is not there.
pub open spec fn projected(s: Seq<FieldView>, names: Seq<Seq<char>>) -> Result<
    Seq<FieldView>,
    ErrorView,
>
    decreases names.len(),
{
    if names.len() == 0 {
        Ok(Seq::empty())
    } else {
        match projected(s, names.drop_last()) {
            Err(e) => Err(e),
            Ok(front) => match schema::find_field(s, names.last()) {
                Some(f) => Ok(front.push(f)),
                None => Err(ErrorView::MissingColumn(names.last())),
            },
        }
    }
}

/// An error among the first names is the error of all of them.
proof fn lemma_projected_error(s: Seq<FieldView>, names: Seq<Seq<char>>, n: int)
    requires
        0 <= n <= names.len(),
        projected(s, names.take(n)) is Err,
    ensures
        projected(s, names) == projected(s, names.take(n)),
    decreases names.len(),
{
    if n == names.len() {
        assert(names.take(n) =~= names);
    } else {
        assert(names.drop_last().take(n) =~= names.take(n));
        lemma_projected_error(s, names.drop_last(), n);
    }
}

/// The values of names.
pub open spec fn names_view(names: Seq<&str>) -> Seq<Seq<char>> {
    Seq::new(names.len(), |i: int| names[i]@)
}

impl StructType {
    /// The fields of the given names, in the order of the names. A name that comes twice counts
    /// once. Fails where a field is not there.
    pub fn project<const N: usize>(&self, names: &[&str; N]) -> (r: DeltaResult<StructType>)
        ensures
            projected(self@, names_view(names@)) matches Ok(s) ==> (r matches Ok(t) && t@ == schema::keyed(s)),
            projected(self@, names_view(names@)) matches Err(e) ==> error::failure(r) == Some(e),
    {
        let ghost all = names_view(names@);
        let mut fields: Vec<StructField> = Vec::new();
        let mut i: usize = 0;
        assert(all.take(0) =~= Seq::<Seq<char>>::empty());
        assert(schema::fields_view(fields@) =~= Seq::<FieldView>::empty());
        while i < N
            invariant
                i <= N,
                all == names_view(names@),
                all.len() == N,
                projected(self@, all.take(i as int)) == Ok::<Seq<FieldView>, ErrorView>(
                    schema::fields_view(fields@),
                ),
            decreases N - i,
        {
            let ghost before = schema::fields_view(fields@);
            assert(all.take(i + 1).drop_last() =~= all.take(i as int));
            assert(all.take(i + 1).last() == all[i as int]);
            match self.field(names[i]) {
                Some(f) => {
                    let copy = f.clone();
                    fields.push(copy);
                    assert(schema::fields_view(fields@) =~= before.push(copy@));
                },
                None => {
                    proof {
                        lemma_projected_error(self@, all, i + 1);
                    }
                    return Err(Error::MissingColumn(names[i].to_owned()));
                },
            }
            i += 1;
        }
        assert(all.take(N as int) =~= all);
        Ok(StructType::new_unchecked(fields))
    }
}

} // verus!
