use delta_kernel::action_schemas::{get_commit_schema, get_all_actions_schema};
use delta_kernel::actions::Sidecar;
use delta_kernel::checkpoint_read::{
    action_identifying_column, effective_predicate, CheckpointFormat, CheckpointReadInfo,
    SchemaSearch,
};
use delta_kernel::commit_cover::published_name;
use delta_kernel::error::{DeltaResult, Error};
use delta_kernel::expressions::{ColumnName, Predicate};
use delta_kernel::log_segment::{LogSegment, LogSegmentFiles};
use delta_kernel::path::{FileMeta, LogPathFileType, ParsedLogPath};
use delta_kernel::schema::{DataType, StructField, StructType};
use delta_kernel::segment_listing::{LastCheckpointHint, SnapshotListing};

const LOG_ROOT: &str = "memory:///table/_delta_log/";

fn log_file(name: String, version: u64, file_type: LogPathFileType) -> ParsedLogPath {
    let extension = name.rsplit('.').next().unwrap_or("").to_string();
    ParsedLogPath {
        location: FileMeta::new(format!("{LOG_ROOT}{name}"), 0, 1),
        filename: name,
        extension,
        version,
        file_type,
    }
}

fn commit(version: u64) -> ParsedLogPath {
    log_file(format!("{version:020}.json"), version, LogPathFileType::Commit)
}

fn staged(version: u64) -> ParsedLogPath {
    let mut file = log_file(
        format!("_staged_commits/{version:020}.uuid.json"),
        version,
        LogPathFileType::StagedCommit,
    );
    file.filename = format!("{version:020}.uuid.json");
    file
}

fn compaction(lo: u64, hi: u64) -> ParsedLogPath {
    log_file(
        format!("{lo:020}.{hi:020}.compacted.json"),
        lo,
        LogPathFileType::CompactedCommit { hi },
    )
}

fn checkpoint(version: u64) -> ParsedLogPath {
    log_file(
        format!("{version:020}.checkpoint.parquet"),
        version,
        LogPathFileType::SinglePartCheckpoint,
    )
}

fn part(version: u64, part_num: u32, num_parts: u32) -> ParsedLogPath {
    log_file(
        format!("{version:020}.checkpoint.{part_num:010}.{num_parts:010}.parquet"),
        version,
        LogPathFileType::MultiPartCheckpoint { part_num, num_parts },
    )
}

fn json_checkpoint(version: u64) -> ParsedLogPath {
    log_file(
        format!("{version:020}.checkpoint.uuid.json"),
        version,
        LogPathFileType::UuidCheckpoint,
    )
}

fn crc(version: u64) -> ParsedLogPath {
    log_file(format!("{version:020}.crc"), version, LogPathFileType::Crc)
}

fn listed(
    commits: Vec<ParsedLogPath>,
    compactions: Vec<ParsedLogPath>,
    parts: Vec<ParsedLogPath>,
) -> LogSegmentFiles {
    let latest_commit_file = commits.last().cloned();
    let max_published_version = commits
        .iter()
        .filter(|c| c.file_type == LogPathFileType::Commit)
        .map(|c| c.version)
        .max();
    LogSegmentFiles {
        ascending_commit_files: commits,
        ascending_compaction_files: compactions,
        checkpoint_parts: parts,
        latest_crc_file: None,
        latest_commit_file,
        max_published_version,
    }
}

fn segment(
    commits: Vec<ParsedLogPath>,
    compactions: Vec<ParsedLogPath>,
    parts: Vec<ParsedLogPath>,
    end: Option<u64>,
) -> DeltaResult<LogSegment> {
    LogSegment::try_new(listed(commits, compactions, parts), LOG_ROOT.to_string(), end, None)
}

fn commits(from: u64, to: u64) -> Vec<ParsedLogPath> {
    (from..=to).map(commit).collect()
}

fn names(files: &[FileMeta]) -> Vec<String> {
    files.iter().map(|f| f.location[LOG_ROOT.len()..].to_string()).collect()
}

#[test]
fn segments_end_at_their_last_commit() {
    let s = segment(commits(0, 3), vec![], vec![], None).unwrap();
    assert_eq!(s.end_version, 3);
    assert_eq!(s.checkpoint_version, None);
    assert_eq!(s.commits_since_checkpoint(), 3);
    assert_eq!(s.commits_since_log_compaction_or_checkpoint(), 3);
}

#[test]
fn segments_drop_what_a_checkpoint_covers() {
    let s = segment(commits(1, 4), vec![], vec![checkpoint(2)], None).unwrap();
    assert_eq!(s.checkpoint_version, Some(2));
    assert_eq!(s.end_version, 4);
    let versions: Vec<u64> = s.listed.ascending_commit_files.iter().map(|c| c.version).collect();
    assert_eq!(versions, vec![3, 4]);
    assert_eq!(s.commits_since_checkpoint(), 2);
}

#[test]
fn a_checkpoint_alone_is_a_segment() {
    let s = segment(vec![], vec![], vec![part(7, 1, 2), part(7, 2, 2)], None).unwrap();
    assert_eq!(s.end_version, 7);
    assert_eq!(s.commits_since_checkpoint(), 0);
    assert!(s.find_commit_cover().is_empty());
}

#[test]
fn checkpoints_have_all_their_parts_once() {
    let missing = Error::generic("multi-part checkpoint does not have all its parts");
    let refused = |parts: Vec<ParsedLogPath>| segment(vec![], vec![], parts, None).unwrap_err();
    assert_eq!(refused(vec![part(7, 1, 2), part(7, 1, 2)]), missing);
    assert_eq!(refused(vec![part(7, 2, 2), part(7, 3, 2)]), missing);
    assert_eq!(refused(vec![part(7, 0, 2), part(7, 1, 2)]), missing);
    assert_eq!(refused(vec![part(7, 2, 1)]), missing);
    assert!(refused(vec![part(7, 3, 2), part(8, 3, 2)]).to_string().contains("different versions"));
    assert!(refused(vec![part(7, 1, 2)]).to_string().contains("part count mismatch"));
    let any_order = vec![part(7, 3, 3), part(7, 1, 3), part(7, 2, 3)];
    assert_eq!(segment(vec![], vec![], any_order, None).unwrap().checkpoint_version, Some(7));
    assert!(segment(vec![], vec![], vec![part(7, 1, 1)], None).is_ok());
}

#[test]
fn bad_segments_are_refused() {
    assert!(segment(vec![], vec![], vec![], None).is_err());
    assert!(segment(vec![commit(0), commit(2)], vec![], vec![], None).is_err());
    assert!(segment(commits(0, 2), vec![], vec![], Some(5)).is_err());
    assert!(segment(commits(5, 6), vec![], vec![checkpoint(2)], None).is_err());
    assert!(segment(vec![], vec![], vec![part(7, 1, 2)], None).is_err());
    assert!(segment(vec![], vec![], vec![part(7, 1, 2), part(8, 2, 2)], None).is_err());
    assert!(segment(vec![checkpoint(0)], vec![], vec![], None).is_err());
    assert!(segment(commits(0, 2), vec![compaction(2, 1)], vec![], None).is_err());
    assert!(
        segment(commits(0, 2), vec![compaction(1, 2), compaction(0, 2)], vec![], None).is_err()
    );
}

#[test]
fn the_cover_prefers_compactions_that_reach_furthest() {
    let s = segment(
        commits(0, 6),
        vec![compaction(1, 2), compaction(1, 4), compaction(3, 5)],
        vec![],
        None,
    )
    .unwrap();
    assert_eq!(
        names(&s.find_commit_cover()),
        vec![
            format!("{:020}.json", 6),
            format!("{:020}.json", 5),
            format!("{:020}.{:020}.compacted.json", 1, 4),
            format!("{:020}.json", 0),
        ]
    );
    assert_eq!(s.commits_since_log_compaction_or_checkpoint(), 1);
}

#[test]
fn the_cover_of_plain_commits_is_newest_first() {
    let s = segment(commits(0, 2), vec![], vec![], None).unwrap();
    assert_eq!(
        names(&s.find_commit_cover()),
        vec![published_name(2), published_name(1), published_name(0)]
    );
}

#[test]
fn version_zero_makes_the_first_segment() {
    let s = LogSegment::new_for_version_zero(LOG_ROOT.to_string(), commit(0)).unwrap();
    assert_eq!(s.end_version, 0);
    assert_eq!(s.listed.max_published_version, Some(0));
    assert!(LogSegment::new_for_version_zero(LOG_ROOT.to_string(), commit(1)).is_err());
    assert!(LogSegment::new_for_version_zero(LOG_ROOT.to_string(), checkpoint(0)).is_err());
}

#[test]
fn segments_grow_commit_by_commit() {
    let s = segment(commits(0, 2), vec![], vec![], None).unwrap();
    let t = s.new_with_commit_appended(commit(3)).unwrap();
    assert_eq!(t.end_version, 3);
    assert_eq!(t.listed.ascending_commit_files.len(), 4);
    assert_eq!(t.listed.latest_commit_file, Some(commit(3)));
    assert_eq!(t.listed.max_published_version, Some(3));
    let u = s.new_with_commit_appended(staged(3)).unwrap();
    assert_eq!(u.listed.max_published_version, Some(2));
    assert!(s.new_with_commit_appended(commit(4)).is_err());
    assert!(s.new_with_commit_appended(checkpoint(3)).is_err());
}

#[test]
fn checkpoints_and_checksums_are_taken_over() {
    let s = segment(commits(0, 3), vec![compaction(0, 1)], vec![], None).unwrap();
    let t = s.try_new_with_checkpoint(checkpoint(3)).unwrap();
    assert_eq!(t.checkpoint_version, Some(3));
    assert!(t.listed.ascending_commit_files.is_empty());
    assert!(t.listed.ascending_compaction_files.is_empty());
    assert_eq!(t.listed.checkpoint_parts, vec![checkpoint(3)]);
    assert!(s.try_new_with_checkpoint(checkpoint(2)).is_err());
    assert!(s.try_new_with_checkpoint(commit(3)).is_err());

    let u = s.try_new_with_crc_file(crc(3)).unwrap();
    let mut placeholder = crc(3);
    placeholder.location.size = 0;
    assert_eq!(u.listed.latest_crc_file, Some(placeholder));
    assert!(s.try_new_with_crc_file(crc(2)).is_err());
    assert!(s.try_new_with_crc_file(commit(3)).is_err());
}

#[test]
fn staged_commits_are_published_in_place() {
    let mut files = commits(0, 1);
    files.push(staged(2));
    files.push(staged(3));
    let s = segment(files, vec![], vec![], None).unwrap();
    assert!(s.validate_published().is_err());
    let unpublished = s.get_unpublished_catalog_commits().unwrap();
    assert_eq!(unpublished.len(), 2);
    assert_eq!(unpublished[0].version, 2);
    assert_eq!(
        unpublished[0].published_location,
        format!("{LOG_ROOT}{:020}.json", 2)
    );
    assert_eq!(unpublished[1].location, staged(3).location.location);

    let p = s.new_as_published().unwrap();
    assert_eq!(p.listed.max_published_version, Some(3));
    assert!(p.validate_published().is_ok());
    assert!(p.get_unpublished_catalog_commits().unwrap().is_empty());
}

#[test]
fn unpublished_commits_need_a_valid_log_root() {
    let s = LogSegment::try_new(
        listed(vec![staged(0)], vec![], vec![]),
        "no url".to_string(),
        None,
        None,
    )
    .unwrap();
    assert!(matches!(s.get_unpublished_catalog_commits(), Err(Error::InvalidUrl(_))));
}

#[test]
fn checksums_split_a_segment() {
    let s = segment(commits(0, 5), vec![compaction(1, 2), compaction(4, 5)], vec![], None).unwrap();
    let after = s.segment_after_crc(3);
    let versions: Vec<u64> =
        after.listed.ascending_commit_files.iter().map(|c| c.version).collect();
    assert_eq!(versions, vec![4, 5]);
    assert_eq!(after.listed.ascending_compaction_files, vec![compaction(4, 5)]);
    let through = s.segment_through_crc(3);
    let versions: Vec<u64> =
        through.listed.ascending_commit_files.iter().map(|c| c.version).collect();
    assert_eq!(versions, vec![0, 1, 2, 3]);
    assert_eq!(through.listed.ascending_compaction_files, vec![compaction(1, 2)]);
}

#[test]
fn snapshots_are_listed_from_the_hint() {
    let hint = |version: u64| Some(LastCheckpointHint { version, checkpoint_schema: None });
    assert_eq!(
        LogSegment::snapshot_listing(&hint(4), None),
        SnapshotListing::FromCheckpoint { version: 4, end_version: None }
    );
    assert_eq!(
        LogSegment::snapshot_listing(&hint(4), Some(6)),
        SnapshotListing::FromCheckpoint { version: 4, end_version: Some(6) }
    );
    assert_eq!(
        LogSegment::snapshot_listing(&hint(4), Some(3)),
        SnapshotListing::BackwardScan { end_version: 3 }
    );
    assert_eq!(
        LogSegment::snapshot_listing(&None, Some(3)),
        SnapshotListing::BackwardScan { end_version: 3 }
    );
    assert_eq!(LogSegment::snapshot_listing(&None, None), SnapshotListing::FromStart);

    let s = LogSegment::for_snapshot_impl(
        listed(commits(0, 3), vec![], vec![]),
        LOG_ROOT.to_string(),
        hint(9),
        Some(3),
    )
    .unwrap();
    assert_eq!(s.end_version, 3);
    assert_eq!(s.last_checkpoint_metadata.unwrap().version, 9);
}

#[test]
fn table_changes_begin_at_their_start() {
    let changes = |files: Vec<ParsedLogPath>, start: u64, end: Option<u64>| {
        LogSegment::for_table_changes(
            listed(files, vec![], vec![]),
            LOG_ROOT.to_string(),
            start,
            end,
        )
    };
    assert_eq!(changes(commits(2, 5), 2, Some(5)).unwrap().end_version, 5);
    assert_eq!(
        changes(commits(2, 5), 6, Some(5)).unwrap_err(),
        Error::generic(
            "Failed to build LogSegment: start_version cannot be greater than end_version"
        )
    );
    assert_eq!(
        changes(commits(3, 5), 2, Some(5)).unwrap_err(),
        Error::generic("Expected the first commit to have version 2, got Some(3)")
    );
    assert_eq!(
        changes(vec![], 2, Some(5)).unwrap_err(),
        Error::generic("Expected the first commit to have version 2, got None")
    );
}

#[test]
fn timestamps_are_converted_over_the_last_run() {
    assert_eq!(LogSegment::timestamp_conversion_start(10, Some(3)), Some(8));
    assert_eq!(LogSegment::timestamp_conversion_start(1, Some(3)), Some(0));
    assert_eq!(LogSegment::timestamp_conversion_start(10, None), None);
    let mut files = commits(0, 2);
    files.extend(commits(5, 7));
    let s = LogSegment::for_timestamp_conversion(
        listed(files, vec![], vec![]),
        LOG_ROOT.to_string(),
        7,
    )
    .unwrap();
    let versions: Vec<u64> = s.listed.ascending_commit_files.iter().map(|c| c.version).collect();
    assert_eq!(versions, vec![5, 6, 7]);
}

#[test]
fn commit_names_are_read_back() {
    assert_eq!(published_name(12), "00000000000000000012.json");
    let read = |location: String| ParsedLogPath::parse_commit(FileMeta::new(location, 3, 4));
    let file = read(format!("{LOG_ROOT}{}", published_name(12))).unwrap();
    assert_eq!(file.version, 12);
    assert_eq!(file.file_type, LogPathFileType::Commit);
    assert_eq!(file.filename, "00000000000000000012.json");
    assert_eq!(file.extension, "json");
    let uuid = "3a0d65cd-4056-49b8-937b-95f9e3ee90e5";
    let file = read(format!("{LOG_ROOT}_staged_commits/{:020}.{uuid}.json", 2)).unwrap();
    assert_eq!(file.version, 2);
    assert_eq!(file.file_type, LogPathFileType::StagedCommit);
    assert!(read(format!("{LOG_ROOT}12.json")).is_err());
    assert!(read(format!("{LOG_ROOT}{:020}.crc", 2)).is_err());
    assert!(read(format!("{LOG_ROOT}{:020}.checkpoint.parquet", 2)).is_err());
}

#[test]
fn segments_describe_themselves() {
    let s = segment(commits(1, 4), vec![], vec![checkpoint(2)], None).unwrap();
    let text = s.summary();
    assert!(text.contains('4') && text.contains('2'), "{text}");
}

#[test]
fn known_actions_have_identifying_columns() {
    assert_eq!(
        action_identifying_column("metaData"),
        Some(ColumnName::new(["metaData", "id"]))
    );
    assert_eq!(
        action_identifying_column("protocol"),
        Some(ColumnName::new(["protocol", "minReaderVersion"]))
    );
    assert_eq!(action_identifying_column("txn"), Some(ColumnName::new(["txn", "appId"])));
    assert_eq!(
        action_identifying_column("domainMetadata"),
        Some(ColumnName::new(["domainMetadata", "domain"]))
    );
    assert_eq!(action_identifying_column("add"), None);
}

#[test]
fn predicates_are_combined() {
    let not_null = |a: &str, b: &str| Predicate::IsNotNull(ColumnName::new([a, b]));
    let schema = get_commit_schema().project(&["protocol", "metaData"]).unwrap();
    let both = || {
        Predicate::Or(
            Box::new(not_null("protocol", "minReaderVersion")),
            Box::new(not_null("metaData", "id")),
        )
    };
    assert_eq!(effective_predicate::<u8>(&schema, None), Some(both()));
    assert_eq!(
        effective_predicate(&schema, Some(7u8)),
        Some(Predicate::And(Box::new(both()), Box::new(Predicate::Given(7u8))))
    );
    let adds = get_commit_schema().project(&["protocol", "add"]).unwrap();
    assert_eq!(effective_predicate::<u8>(&adds, None), None);
    assert_eq!(effective_predicate(&adds, Some(7u8)), Some(Predicate::Given(7u8)));
}

fn checkpoint_segment(part: ParsedLogPath) -> LogSegment {
    segment(vec![], vec![], vec![part], None).unwrap()
}

fn sidecar(path: &str) -> Sidecar {
    Sidecar { path: path.to_string(), size_in_bytes: 5, modification_time: 6, tags: None }
}

#[test]
fn json_checkpoints_have_their_files_in_sidecars() {
    let s = checkpoint_segment(json_checkpoint(3));
    let state = s.begin_schema_search();
    assert_eq!(
        state,
        SchemaSearch::NeedSidecarRefs {
            checkpoint: json_checkpoint(3).location,
            format: CheckpointFormat::Json,
            checkpoint_schema: None,
        }
    );
    let state = s.schema_search_sidecars(state, &vec![sidecar("a"), sidecar("b")]).unwrap();
    let SchemaSearch::NeedSidecarFooter { first, sidecars } = &state else {
        panic!("Expected a sidecar to be read: {state:?}");
    };
    assert_eq!(first.location, format!("{LOG_ROOT}_sidecars/a"));
    assert_eq!(sidecars.len(), 2);
    let schema = get_commit_schema().project(&["add"]).unwrap();
    let state = s.schema_search_footer(state, schema.clone());
    assert!(matches!(&state, SchemaSearch::Found { schema: Some(found), sidecars }
        if *found == schema && sidecars.len() == 2));
}

#[test]
fn the_footer_tells_of_sidecars() {
    let s = checkpoint_segment(checkpoint(3));
    let state = s.begin_schema_search();
    assert_eq!(state, SchemaSearch::NeedFooter { checkpoint: checkpoint(3).location });
    let plain = get_commit_schema().project(&["add", "metaData"]).unwrap();
    let found = s.schema_search_footer(state, plain.clone());
    assert!(matches!(&found, SchemaSearch::Found { schema: Some(f), sidecars }
        if *f == plain && sidecars.is_empty()));

    let with_sidecar = get_all_actions_schema();
    let state = s.schema_search_footer(s.begin_schema_search(), with_sidecar);
    assert!(matches!(&state, SchemaSearch::NeedSidecarRefs { format, .. }
        if *format == CheckpointFormat::Parquet));
    let found = s.schema_search_sidecars(state, &vec![]).unwrap();
    assert!(matches!(&found, SchemaSearch::Found { schema: Some(_), sidecars }
        if sidecars.is_empty()));
}

#[test]
fn segments_without_checkpoint_need_no_search() {
    let s = segment(commits(0, 1), vec![], vec![], None).unwrap();
    assert_eq!(
        s.begin_schema_search(),
        SchemaSearch::Found { schema: None, sidecars: vec![] }
    );
    let schema = get_commit_schema().project(&["protocol"]).unwrap();
    let plan = s.checkpoint_read_plan(&schema, None, &vec![], None, None).unwrap();
    assert_eq!(plan.format, None);
    assert!(plan.checkpoint_files.is_empty());
    assert_eq!(plan.info.checkpoint_read_schema, schema);
}

fn parsed(name: &str, inner: DataType) -> StructField {
    let bounds = |n: &str| {
        StructField::nullable(
            n,
            DataType::struct_type_unchecked(vec![StructField::nullable("c", inner.clone())]),
        )
    };
    StructField::nullable(
        name,
        DataType::struct_type_unchecked(vec![bounds("minValues"), bounds("maxValues")]),
    )
}

fn stats_schema(inner: DataType) -> StructType {
    let DataType::Struct(s) = parsed("stats", inner).data_type().clone() else {
        panic!("not a struct");
    };
    *s
}

#[test]
fn parsed_statistics_are_used_where_they_fit() {
    let checkpoint_schema = |inner: DataType| {
        StructType::new_unchecked(vec![StructField::nullable(
            "add",
            DataType::struct_type_unchecked(vec![parsed("stats_parsed", inner)]),
        )])
    };
    let fits = |have: DataType, need: DataType| {
        LogSegment::schema_has_compatible_stats_parsed(
            &checkpoint_schema(have),
            &stats_schema(need),
        )
    };
    assert!(fits(DataType::long(), DataType::long()));
    assert!(fits(DataType::integer(), DataType::long()));
    assert!(!fits(DataType::string(), DataType::long()));
    let none = get_commit_schema().project(&["add"]).unwrap();
    assert!(!LogSegment::schema_has_compatible_stats_parsed(
        &none,
        &stats_schema(DataType::long())
    ));

    let s = checkpoint_segment(checkpoint(3));
    let actions = get_commit_schema().project(&["add", "remove"]).unwrap();
    let need = stats_schema(DataType::long());
    let have = checkpoint_schema(DataType::long());
    let plan = s
        .checkpoint_read_plan(&actions, Some(&have), &vec![], Some(&need), None)
        .unwrap();
    assert!(plan.info.has_stats_parsed);
    assert!(!plan.info.has_partition_values_parsed);
    assert_eq!(plan.format, Some(CheckpointFormat::Parquet));
    assert_eq!(names(&plan.checkpoint_files), vec![format!("{:020}.checkpoint.parquet", 3)]);
    let DataType::Struct(add) =
        plan.info.checkpoint_read_schema.field("add").unwrap().data_type()
    else {
        panic!("not a struct");
    };
    assert!(add.contains("stats_parsed"));
    let plan = s.checkpoint_read_plan(&actions, None, &vec![], Some(&need), None).unwrap();
    assert!(!plan.info.has_stats_parsed);
    assert!(!CheckpointReadInfo::without_stats_parsed().has_stats_parsed);
}

#[test]
fn sidecars_are_read_with_the_checkpoint() {
    let s = checkpoint_segment(json_checkpoint(3));
    let actions = get_commit_schema().project(&["add"]).unwrap();
    let sidecars = vec![FileMeta::new(format!("{LOG_ROOT}_sidecars/a"), 0, 1)];
    let plan = s.checkpoint_read_plan(&actions, None, &sidecars, None, None).unwrap();
    assert_eq!(plan.format, Some(CheckpointFormat::Json));
    assert_eq!(plan.sidecar_files, sidecars);
    assert!(plan.info.checkpoint_read_schema.contains("sidecar"));
    let metadata = get_commit_schema().project(&["metaData"]).unwrap();
    let plan = s.checkpoint_read_plan(&metadata, None, &sidecars, None, None).unwrap();
    assert!(plan.sidecar_files.is_empty());
}

#[test]
fn unknown_checkpoint_encodings_are_refused() {
    let odd = log_file(
        format!("{:020}.checkpoint.uuid.avro", 3),
        3,
        LogPathFileType::UuidCheckpoint,
    );
    let s = checkpoint_segment(odd);
    let actions = get_commit_schema().project(&["add"]).unwrap();
    assert!(s.checkpoint_read_plan(&actions, None, &vec![], None, None).is_err());
}

#[test]
fn directory_entries_become_files() {
    let file = FileMeta::try_from_entry("memory:///a".to_string(), 12, 3).unwrap();
    assert_eq!(file, FileMeta::new("memory:///a".to_string(), 12, 3));
    assert!(FileMeta::try_from_entry("memory:///a".to_string(), u128::MAX, 3).is_err());
}
