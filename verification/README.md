# delta_kernel

The table logic of [Delta Lake](https://delta.io): protocol and metadata, log segments, table
configurations, and the transactions that create, write and alter tables. It is written in Verus,
and what each function does is stated in its contract and proved.

## Layout

- `src/` is the verified library.
  - `schema`, `scalars`, `expressions`, `string_map`, `text`, `error` hold the values that everything
    else is about; `schema_json`, `schema_compare`, `schema_project`, `schema_transform`,
    `row_literals` work on schemas and rows.
  - `actions`, `action_schemas` are the actions of the log; `table_features`, `table_properties`,
    `table_configuration` say what a table supports and how it is set up; `stats_schema`,
    `file_stats`, `column_mapping`, `row_tracking`, `data_layout` are its rules for statistics,
    physical names, row identifiers and layout.
  - `path`, `commit_path`, `log_validation`, `log_segment`, `segment_listing`, `commit_cover`,
    `checkpoint_read` decide which files of the log make up a table and how they are read.
  - `create_table`, `create_table_builder`, `update_table`, `alter_table`, `transaction`,
    `dv_update`, `evaluation`, `domain_changes`, `commit_info`, `commit_plan`, `commit`,
    `commit_result`, `file_sizes`, `crc`, `snapshot` take a transaction from its beginning to the
    table after its commit.
  - `commit_laws`, `alter_laws`, `evaluation_laws` state what holds across functions; other laws
    stand beside the functions that they are about.
  - `bindings` holds the few calls whose contracts are trusted: random identifiers, joining URLs,
    lower-case forms and the JSON text of a string.
- `tests/` runs the library on concrete values.
- `app/` is ordinary Rust around the library: the interfaces of engines and committers, JSON, and
  the loops that read and write files as the library decides.
