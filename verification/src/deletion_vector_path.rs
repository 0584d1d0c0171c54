//! Where new deletion vectors are stored.
use vstd::prelude::*;

use crate::bindings::{self, join_url};
use crate::error::{self, DeltaResult, Error, ErrorView};
use crate::text::{text3, text5};

verus! {

/// The place of a new deletion vector below a table.
#[derive(Debug, PartialEq, Eq)]
pub struct DeletionVectorPath {
    /// The URL of the table.
    pub table_path: String,
    /// The directory below the table: none where this is empty.
    pub prefix: String,
    /// What makes the place unique.
    pub uuid: String,
}

/// The path of a deletion vector file below the table.
pub open spec fn dv_relative_path(prefix: Seq<char>, uuid: Seq<char>) -> Seq<char> {
    if prefix.len() == 0 {
        "deletion_vector_"@ + uuid + ".bin"@
    } else {
        prefix + "/"@ + "deletion_vector_"@ + uuid + ".bin"@
    }
}

/// Different identifiers give different paths, whatever the directory.
pub proof fn dv_paths_are_unique(prefix: Seq<char>, a: Seq<char>, b: Seq<char>)
    requires
        a != b,
    ensures
        dv_relative_path(prefix, a) != dv_relative_path(prefix, b),
{
    let head = if prefix.len() == 0 {
        "deletion_vector_"@
    } else {
        prefix + "/"@ + "deletion_vector_"@
    };
    let pa = dv_relative_path(prefix, a);
    let pb = dv_relative_path(prefix, b);
    assert(pa =~= head + a + ".bin"@);
    assert(pb =~= head + b + ".bin"@);
    if pa == pb {
        assert(a =~= pa.subrange(head.len() as int, pa.len() - ".bin"@.len()));
        assert(b =~= pb.subrange(head.len() as int, pb.len() - ".bin"@.len()));
    }
}

impl DeletionVectorPath {
    /// The path below the table.
    pub fn relative_path(&self) -> (r: String)
        ensures
            r@ == dv_relative_path(self.prefix@, self.uuid@),
    {
        if self.prefix.as_str().unicode_len() == 0 {
            text3("deletion_vector_", self.uuid.as_str(), ".bin")
        } else {
            text5(
                self.prefix.as_str(),
                "/",
                "deletion_vector_",
                self.uuid.as_str(),
                ".bin",
            )
        }
    }

    /// The URL of the file. Fails where the table or the path is not a URL.
    pub fn absolute_path(&self) -> (r: DeltaResult<String>)
        ensures
            bindings::joined_url(self.table_path@, dv_relative_path(self.prefix@, self.uuid@)) matches Ok(u)
                ==> (r matches Ok(v) && v@ == u),
            bindings::joined_url(self.table_path@, dv_relative_path(self.prefix@, self.uuid@)) matches Err(e)
                ==> error::failure(r) == Some(ErrorView::InvalidUrl(e)),
    {
        let relative = self.relative_path();
        match join_url(self.table_path.as_str(), relative.as_str()) {
            Ok(u) => Ok(u),
            Err(e) => Err(Error::InvalidUrl(e)),
        }
    }
}

/// Without a directory, the path of a deletion vector file is its name, which holds the identifier
/// between `deletion_vector_` and `.bin`; with a directory, that name comes after it and a slash.
pub proof fn dv_files_are_named_by_their_identifiers(prefix: Seq<char>, uuid: Seq<char>)
    ensures
        ({
            let name = dv_relative_path(Seq::empty(), uuid);
            &&& name.len() == 20 + uuid.len()
            &&& name.subrange(0, 16) == "deletion_vector_"@
            &&& name.subrange(16, 16 + uuid.len() as int) == uuid
            &&& name.skip(16 + uuid.len() as int) == ".bin"@
            &&& prefix.len() > 0 ==> dv_relative_path(prefix, uuid) == prefix + seq!['/'] + name
        }),
{
    reveal_strlit("deletion_vector_");
    reveal_strlit(".bin");
    reveal_strlit("/");
    let name = dv_relative_path(Seq::empty(), uuid);
    assert(name.subrange(0, 16) =~= "deletion_vector_"@);
    assert(name.subrange(16, 16 + uuid.len() as int) =~= uuid);
    assert(name.skip(16 + uuid.len() as int) =~= ".bin"@);
    if prefix.len() > 0 {
        assert(dv_relative_path(prefix, uuid) =~= prefix + seq!['/'] + name);
    }
}

} // verus!
