use source_cli::command::{CliError, SourceCliCommand};
use source_cli::execute::{describe_source_cli, describe_source_rows, list_sources_cli,
    list_sources_rows};
use source_cli::json::JsonValue;
use source_cli::metadata::{IndexMetadata, SourceDescriptor};

fn sample_metadata() -> IndexMetadata {
    IndexMetadata {
        sources: vec![
            SourceDescriptor {
                source_id: "b".to_string(),
                source_type: "kafka".to_string(),
                params: JsonValue::Object(vec![(
                    "topic".to_string(),
                    JsonValue::Leaf("t1".to_string()),
                )]),
            },
            SourceDescriptor {
                source_id: "a".to_string(),
                source_type: "file".to_string(),
                params: JsonValue::Object(vec![]),
            },
        ],
        checkpoint: vec![
            ("p2".to_string(), "10".to_string()),
            ("p1".to_string(), "5".to_string()),
        ],
    }
}

#[test]
fn describe_returns_exactly_the_matching_source() {
    let report = describe_source_rows(sample_metadata(), "b").unwrap();
    assert_eq!(report.source_rows, vec![("b".to_string(), "kafka".to_string())]);
    assert_eq!(report.params_rows, vec![("topic".to_string(), "t1".to_string())]);
}

#[test]
fn describe_unknown_source_fails_with_source_not_found() {
    let err = describe_source_rows(sample_metadata(), "c").unwrap_err();
    assert_eq!(err, CliError::SourceNotFound("c".to_string()));
    assert_eq!(err.message(), "Source `c` does not exist.");
}

#[test]
fn checkpoint_rows_are_sorted_by_partition() {
    let report = describe_source_rows(sample_metadata(), "b").unwrap();
    assert_eq!(
        report.checkpoint_rows,
        vec![("p1".to_string(), "5".to_string()), ("p2".to_string(), "10".to_string())]
    );
}

#[test]
fn list_orders_sources_by_identifier() {
    let rows = list_sources_rows(sample_metadata());
    assert_eq!(
        rows,
        vec![("a".to_string(), "file".to_string()), ("b".to_string(), "kafka".to_string())]
    );
}

#[test]
fn describe_text_holds_three_rendered_tables() {
    let text = describe_source_cli(sample_metadata(), "b").unwrap();
    assert!(text.contains("Source"));
    assert!(text.contains("Parameters"));
    assert!(text.contains("Checkpoint"));
    assert!(text.contains("Partition ID"));
    assert!(text.contains("kafka"));
    assert!(text.contains("t1"));
    assert!(text.contains("p1"));
    assert!(text.contains("\n\n"));
    assert!(text.contains('|'));
}

#[test]
fn list_text_holds_the_sources_table() {
    let text = list_sources_cli(sample_metadata());
    assert!(text.contains("Sources"));
    assert!(text.contains("file"));
    assert!(text.contains("kafka"));
    let a_at = text.find("a").unwrap();
    let b_at = text.rfind("b").unwrap();
    assert!(a_at < b_at);
}

#[test]
fn missing_index_id_is_an_argument_error() {
    let err = SourceCliCommand::parse_cli_args(
        Some("describe"),
        Some("file:///indexes"),
        None,
        Some("b"),
    )
    .unwrap_err();
    assert_eq!(err, CliError::ArgumentError("index-id".to_string()));
}

#[test]
fn missing_metastore_uri_is_an_argument_error() {
    let err = SourceCliCommand::parse_cli_args(Some("list"), None, Some("idx"), None).unwrap_err();
    assert_eq!(err, CliError::ArgumentError("metastore-uri".to_string()));
}

#[test]
fn missing_source_id_is_an_argument_error() {
    let err = SourceCliCommand::parse_cli_args(
        Some("describe"),
        Some("file:///indexes"),
        Some("idx"),
        None,
    )
    .unwrap_err();
    assert_eq!(err, CliError::ArgumentError("source-id".to_string()));
}

#[test]
fn unknown_subcommand_is_an_argument_error() {
    let err =
        SourceCliCommand::parse_cli_args(Some("create"), Some("file:///x"), Some("idx"), None)
            .unwrap_err();
    assert_eq!(err, CliError::ArgumentError("create".to_string()));
}

#[test]
fn empty_metastore_uri_is_rejected() {
    let err = SourceCliCommand::parse_cli_args(Some("list"), Some(""), Some("idx"), None)
        .unwrap_err();
    assert_eq!(err, CliError::ArgumentError("metastore-uri".to_string()));
}

#[test]
fn parse_normalizes_the_metastore_uri() {
    let cmd = SourceCliCommand::parse_cli_args(
        Some("describe"),
        Some("s3://bucket/indexes"),
        Some("idx"),
        Some("src"),
    )
    .unwrap();
    match cmd {
        SourceCliCommand::DescribeSource(args) => {
            assert_eq!(args.metastore_uri, "s3://bucket/indexes");
            assert_eq!(args.index_id, "idx");
            assert_eq!(args.source_id, "src");
        },
        SourceCliCommand::ListSources(_) => panic!("parsed the wrong command"),
    }
}

#[test]
fn parse_list_builds_a_list_command() {
    let cmd = SourceCliCommand::parse_cli_args(
        Some("list"),
        Some("postgres://localhost/db"),
        Some("idx"),
        None,
    )
    .unwrap();
    assert_eq!(
        cmd,
        SourceCliCommand::ListSources(source_cli::command::ListSourcesArgs {
            metastore_uri: "postgres://localhost/db".to_string(),
            index_id: "idx".to_string(),
        })
    );
}

#[test]
fn relative_file_uris_are_resolved() {
    let cmd =
        SourceCliCommand::parse_cli_args(Some("list"), Some("qwdata"), Some("idx"), None).unwrap();
    match cmd {
        SourceCliCommand::ListSources(args) => {
            assert!(args.metastore_uri.starts_with("file://"));
            assert!(args.metastore_uri.ends_with("/qwdata"));
        },
        SourceCliCommand::DescribeSource(_) => panic!("parsed the wrong command"),
    }
}

#[test]
fn error_messages_name_their_subject() {
    assert_eq!(
        CliError::ArgumentError("index-id".to_string()).message(),
        "invalid or missing argument `index-id`."
    );
    assert_eq!(
        CliError::MetastoreUnavailable("s3://m".to_string()).message(),
        "failed to resolve metastore URI `s3://m`."
    );
    assert_eq!(
        CliError::IndexNotFound("idx".to_string()).message(),
        "Index `idx` does not exist."
    );
    assert_eq!(
        CliError::SourceNotFound("src".to_string()).message(),
        "Source `src` does not exist."
    );
}

#[test]
fn describe_on_empty_params_renders_an_empty_parameters_table() {
    let metadata = IndexMetadata {
        sources: vec![SourceDescriptor {
            source_id: "only".to_string(),
            source_type: "file".to_string(),
            params: JsonValue::Object(vec![]),
        }],
        checkpoint: vec![],
    };
    let report = describe_source_rows(metadata, "only").unwrap();
    assert_eq!(report.params_rows.len(), 0);
    assert_eq!(report.checkpoint_rows.len(), 0);
}

#[test]
fn describe_picks_the_first_match_when_identifiers_repeat() {
    let metadata = IndexMetadata {
        sources: vec![
            SourceDescriptor {
                source_id: "x".to_string(),
                source_type: "file".to_string(),
                params: JsonValue::Object(vec![]),
            },
            SourceDescriptor {
                source_id: "x".to_string(),
                source_type: "kafka".to_string(),
                params: JsonValue::Object(vec![]),
            },
        ],
        checkpoint: vec![],
    };
    let report = describe_source_rows(metadata, "x").unwrap();
    assert_eq!(report.source_rows, vec![("x".to_string(), "file".to_string())]);
}

#[test]
fn empty_index_id_is_an_argument_error() {
    let err = SourceCliCommand::parse_cli_args(Some("list"), Some("file:///x"), Some(""), None)
        .unwrap_err();
    assert_eq!(err, CliError::ArgumentError("index-id".to_string()));
}

#[test]
fn empty_source_id_is_an_argument_error() {
    let err =
        SourceCliCommand::parse_cli_args(Some("describe"), Some("file:///x"), Some("idx"), Some(""))
            .unwrap_err();
    assert_eq!(err, CliError::ArgumentError("source-id".to_string()));
}
