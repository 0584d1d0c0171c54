//! What a commit changes in the checksum of a table.
use vstd::prelude::*;

use crate::actions::{
    self, DomainMetadata, DomainMetadataView, Metadata, MetadataView, Protocol, ProtocolView,
    SetTransaction, SetTransactionView,
};
use crate::schema::{FieldView, StructType};
use crate::table_configuration;
use crate::text::{self, clone_opt};
use crate::transaction;

verus! {

/// How many files there are of which sizes, and how many bytes they have: a bin starts at a boundary
/// and ends before the next one, and the last bin has no end.
#[derive(Debug, PartialEq, Eq)]
pub struct FileSizeHistogram {
    /// Where the bins start, in ascending order from zero.
    pub sorted_bin_boundaries: Vec<i64>,
    /// The number of files in each bin.
    pub file_counts: Vec<i64>,
    /// The bytes of the files in each bin.
    pub total_bytes: Vec<i64>,
}

/// The mathematical value of a [`FileSizeHistogram`].
pub struct HistogramView {
    pub boundaries: Seq<i64>,
    pub counts: Seq<i64>,
    pub bytes: Seq<i64>,
}

impl View for FileSizeHistogram {
    type V = HistogramView;

    open spec fn view(&self) -> HistogramView {
        HistogramView {
            boundaries: self.sorted_bin_boundaries@,
            counts: self.file_counts@,
            bytes: self.total_bytes@,
        }
    }
}

/// The value of an optional histogram.
pub open spec fn opt_histogram(h: Option<FileSizeHistogram>) -> Option<HistogramView> {
    match h {
        Some(h) => Some(h@),
        None => None,
    }
}

/// A copy of a list of numbers.
fn clone_numbers(list: &Vec<i64>) -> (r: Vec<i64>)
    ensures
        r@ == list@,
{
    let mut out: Vec<i64> = Vec::new();
    let mut i: usize = 0;
    while i < list.len()
        invariant
            i <= list@.len(),
            out@ == list@.take(i as int),
        decreases list.len() - i,
    {
        out.push(list[i]);
        assert(list@.take(i + 1) =~= list@.take(i as int).push(list@[i as int]));
        i += 1;
    }
    assert(list@.take(i as int) =~= list@);
    out
}

impl Clone for FileSizeHistogram {
    fn clone(&self) -> (r: FileSizeHistogram)
        ensures
            r@ == self@,
    {
        FileSizeHistogram {
            sorted_bin_boundaries: clone_numbers(&self.sorted_bin_boundaries),
            file_counts: clone_numbers(&self.file_counts),
            total_bytes: clone_numbers(&self.total_bytes),
        }
    }
}

/// How many files and bytes a commit adds, less those that it removes.
#[derive(Debug, PartialEq, Eq)]
pub struct FileStatsDelta {
    pub net_files: i64,
    pub net_bytes: i64,
    /// The same for each bin, where the table has a histogram.
    pub net_histogram: Option<FileSizeHistogram>,
}

/// The mathematical value of a [`FileStatsDelta`].
pub struct FileStatsDeltaView {
    pub net_files: i64,
    pub net_bytes: i64,
    pub histogram: Option<HistogramView>,
}

impl View for FileStatsDelta {
    type V = FileStatsDeltaView;

    open spec fn view(&self) -> FileStatsDeltaView {
        FileStatsDeltaView {
            net_files: self.net_files,
            net_bytes: self.net_bytes,
            histogram: opt_histogram(self.net_histogram),
        }
    }
}

impl Clone for FileStatsDelta {
    fn clone(&self) -> (r: FileStatsDelta)
        ensures
            r@ == self@,
    {
        FileStatsDelta {
            net_files: self.net_files,
            net_bytes: self.net_bytes,
            net_histogram: match &self.net_histogram {
                Some(h) => Some(h.clone()),
                None => None,
            },
        }
    }
}

/// What a commit changes in the checksum of a table.
#[derive(Debug, PartialEq, Eq)]
pub struct CrcDelta {
    pub file_stats: FileStatsDelta,
    pub protocol: Option<Protocol>,
    /// The new metadata and the schema that they hold.
    pub metadata: Option<(Metadata, StructType)>,
    pub domain_metadata_changes: Vec<DomainMetadata>,
    pub set_transaction_changes: Vec<SetTransaction>,
    pub in_commit_timestamp: Option<i64>,
    pub operation: Option<String>,
    pub has_missing_file_size: bool,
}

/// The mathematical value of a [`CrcDelta`].
pub struct CrcDeltaView {
    pub file_stats: FileStatsDeltaView,
    pub protocol: Option<ProtocolView>,
    pub metadata: Option<(MetadataView, Seq<FieldView>)>,
    pub domains: Seq<DomainMetadataView>,
    pub set_transactions: Seq<SetTransactionView>,
    pub in_commit_timestamp: Option<i64>,
    pub operation: Option<Seq<char>>,
    pub has_missing_file_size: bool,
}

impl View for CrcDelta {
    type V = CrcDeltaView;

    open spec fn view(&self) -> CrcDeltaView {
        CrcDeltaView {
            file_stats: self.file_stats@,
            protocol: table_configuration::opt_protocol(self.protocol),
            metadata: table_configuration::opt_metadata(self.metadata),
            domains: actions::domains_view(self.domain_metadata_changes@),
            set_transactions: transaction::set_transactions_view(self.set_transaction_changes@),
            in_commit_timestamp: self.in_commit_timestamp,
            operation: text::opt_text(self.operation),
            has_missing_file_size: self.has_missing_file_size,
        }
    }
}

/// The value of an optional change.
pub open spec fn opt_crc_delta(d: Option<CrcDelta>) -> Option<CrcDeltaView> {
    match d {
        Some(d) => Some(d@),
        None => None,
    }
}

/// A copy of a list of transaction identifiers.
pub fn clone_set_transactions(list: &Vec<SetTransaction>) -> (r: Vec<SetTransaction>)
    ensures
        transaction::set_transactions_view(r@) == transaction::set_transactions_view(list@),
{
    let ghost all = transaction::set_transactions_view(list@);
    let mut out: Vec<SetTransaction> = Vec::new();
    let mut i: usize = 0;
    assert(all.take(0) =~= transaction::set_transactions_view(out@));
    while i < list.len()
        invariant
            i <= list@.len(),
            all == transaction::set_transactions_view(list@),
            transaction::set_transactions_view(out@) == all.take(i as int),
        decreases list.len() - i,
    {
        let ghost before = transaction::set_transactions_view(out@);
        let action = list[i].clone();
        out.push(action);
        assert(transaction::set_transactions_view(out@) =~= before.push(action@));
        assert(all.take(i + 1) =~= before.push(action@));
        i += 1;
    }
    assert(all.take(i as int) =~= all);
    out
}

/// A copy of a list of domain metadata.
fn clone_domain_list(list: &Vec<DomainMetadata>) -> (r: Vec<DomainMetadata>)
    ensures
        actions::domains_view(r@) == actions::domains_view(list@),
{
    let ghost all = actions::domains_view(list@);
    let mut out: Vec<DomainMetadata> = Vec::new();
    let mut i: usize = 0;
    assert(all.take(0) =~= actions::domains_view(out@));
    while i < list.len()
        invariant
            i <= list@.len(),
            all == actions::domains_view(list@),
            actions::domains_view(out@) == all.take(i as int),
        decreases list.len() - i,
    {
        let ghost before = actions::domains_view(out@);
        let action = list[i].clone();
        out.push(action);
        assert(actions::domains_view(out@) =~= before.push(action@));
        assert(all.take(i + 1) =~= before.push(action@));
        i += 1;
    }
    assert(all.take(i as int) =~= all);
    out
}

impl Clone for CrcDelta {
    fn clone(&self) -> (r: CrcDelta)
        ensures
            r@ == self@,
    {
        CrcDelta {
            file_stats: self.file_stats.clone(),
            protocol: match &self.protocol {
                Some(p) => Some(p.clone()),
                None => None,
            },
            metadata: match &self.metadata {
                Some((m, s)) => Some((m.clone(), s.clone())),
                None => None,
            },
            domain_metadata_changes: clone_domain_list(&self.domain_metadata_changes),
            set_transaction_changes: clone_set_transactions(&self.set_transaction_changes),
            in_commit_timestamp: self.in_commit_timestamp,
            operation: clone_opt(&self.operation),
            has_missing_file_size: self.has_missing_file_size,
        }
    }
}

} // verus!
