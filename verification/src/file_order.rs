//! The order of files: by location.
use vstd::prelude::*;

use core::cmp::Ordering;
use crate::path::{FileMeta, FileMetaView};
use crate::text::{self, text_order, TextOrder};

verus! {

/// How two files stand to each other.
pub open spec fn file_order(a: FileMetaView, b: FileMetaView) -> Ordering {
    match text::text_order_of(a.location, b.location) {
        TextOrder::Before => Ordering::Less,
        TextOrder::Same => Ordering::Equal,
        TextOrder::After => Ordering::Greater,
    }
}

impl vstd::std_specs::cmp::PartialOrdSpecImpl for FileMeta {
    open spec fn obeys_partial_cmp_spec() -> bool {
        true
    }

    open spec fn partial_cmp_spec(&self, other: &FileMeta) -> Option<Ordering> {
        Some(file_order(self@, other@))
    }
}

impl PartialOrd for FileMeta {
    fn partial_cmp(&self, other: &FileMeta) -> (r: Option<Ordering>) {
        match text_order(self.location.as_str(), other.location.as_str()) {
            TextOrder::Before => Some(Ordering::Less),
            TextOrder::Same => Some(Ordering::Equal),
            TextOrder::After => Some(Ordering::Greater),
        }
    }
}

/// Files are ordered by their locations alone: two files are equal in it exactly where they have the
/// same location, and else the one whose location comes first is the smaller.
pub proof fn files_are_ordered_by_location(a: FileMetaView, b: FileMetaView)
    ensures
        file_order(a, b) is Equal <==> a.location == b.location,
        file_order(a, b) is Less <==> text::comes_before(a.location, b.location),
        file_order(a, b) is Greater <==> text::comes_before(b.location, a.location),
{
    text::text_order_is_total(a.location, b.location);
    text::text_order_is_total(b.location, a.location);
    text::texts_are_ordered_by_their_first_difference(a.location, b.location);
    text::texts_are_ordered_by_their_first_difference(b.location, a.location);
}

} // verus!
