use fourree::config::{Config, LogType, OutputMode, parse_output_mode};
use fourree::logger::init_logger;
use fourree::util::{plan_run, split_object_location, ConfigError, SinkPlan};

fn config(num_rows: u64, batch_size: u64, num_threads: u64, mode: OutputMode) -> Config {
    Config {
        num_rows,
        batch_size,
        log_type: LogType::File,
        num_threads,
        output_mode: mode,
        input_file: "schema.json".to_string(),
        output_file: None,
        display_header: false,
    }
}

#[test]
fn uneven_batches_are_rejected_before_any_work() {
    let c = config(100, 10, 3, OutputMode::Stdout);
    assert!(matches!(plan_run(&c), Err(ConfigError::UnevenBatches)));
}

#[test]
fn even_batches_are_planned() {
    let c = config(100, 10, 5, OutputMode::Stdout);
    let plan = plan_run(&c).unwrap();
    assert_eq!(plan.num_batches, 10);
    assert_eq!(plan.batches_per_thread, 2);
    assert!(matches!(plan.sink, SinkPlan::Console));
}

#[test]
fn single_thread_takes_every_batch() {
    let c = config(1000, 1, 1, OutputMode::Stdout);
    let plan = plan_run(&c).unwrap();
    assert_eq!(plan.num_batches, 1000);
    assert_eq!(plan.batches_per_thread, 1000);
}

#[test]
fn file_mode_requires_an_output_file() {
    let c = config(10, 10, 1, OutputMode::File);
    assert!(matches!(plan_run(&c), Err(ConfigError::MissingOutputFile)));
    let mut c = config(10, 10, 1, OutputMode::File);
    c.output_file = Some("out.txt".to_string());
    let plan = plan_run(&c).unwrap();
    match plan.sink {
        SinkPlan::File { path } => assert_eq!(path, "out.txt"),
        _ => panic!("expected a file sink"),
    }
}

#[test]
fn object_store_location_is_split_at_colons() {
    let mut c = config(10, 10, 1, OutputMode::S3);
    c.output_file = Some("mybucket:some/key.txt".to_string());
    let plan = plan_run(&c).unwrap();
    match plan.sink {
        SinkPlan::ObjectStore { bucket, key } => {
            assert_eq!(bucket, "mybucket");
            assert_eq!(key, "some/key.txt");
        },
        _ => panic!("expected an object-store sink"),
    }
}

#[test]
fn object_store_location_without_colon_is_rejected() {
    let mut c = config(10, 10, 1, OutputMode::S3);
    c.output_file = Some("nocolon".to_string());
    assert!(matches!(plan_run(&c), Err(ConfigError::BadObjectLocation)));
    let c2 = config(10, 10, 1, OutputMode::S3);
    assert!(matches!(plan_run(&c2), Err(ConfigError::MissingOutputFile)));
}

#[test]
fn database_output_is_unimplemented() {
    let c = config(10, 10, 1, OutputMode::PostgreSQL);
    assert!(matches!(plan_run(&c), Err(ConfigError::UnimplementedOutput)));
}

#[test]
fn unrecognized_output_is_invalid() {
    let c = config(10, 10, 1, OutputMode::Unrecognized);
    assert!(matches!(plan_run(&c), Err(ConfigError::InvalidOutput)));
}

#[test]
fn location_split_takes_the_first_two_components() {
    assert_eq!(
        split_object_location("a:b:c"),
        Some(("a".to_string(), "b".to_string()))
    );
    assert_eq!(
        split_object_location("bucket:"),
        Some(("bucket".to_string(), "".to_string()))
    );
    assert_eq!(
        split_object_location(":key"),
        Some(("".to_string(), "key".to_string()))
    );
    assert_eq!(split_object_location("plain"), None);
}

#[test]
fn output_mode_names() {
    assert_eq!(parse_output_mode("stdout"), OutputMode::Stdout);
    assert_eq!(parse_output_mode("file"), OutputMode::File);
    assert_eq!(parse_output_mode("postgresql"), OutputMode::PostgreSQL);
    assert_eq!(parse_output_mode("s3"), OutputMode::S3);
    assert_eq!(parse_output_mode("carrier-pigeon"), OutputMode::Unrecognized);
}

#[test]
fn logging_backend_follows_the_path_option() {
    assert_eq!(init_logger(&Some("run.log".to_string())), LogType::File);
    assert_eq!(init_logger(&None), LogType::Console);
}

#[test]
fn config_error_messages() {
    assert_eq!(
        ConfigError::UnevenBatches.message(),
        "number of batches must be evenly divisible by number of threads"
    );
    assert_eq!(
        ConfigError::InvalidOutput.message(),
        "an invalid output mode was specified"
    );
}
