//! Paths, settings and pipelines.

use dial9::config::{
    build_pipeline, dir_or_current, stem_or_default, BackgroundTaskConfig, Interval, Processor,
    S3Config,
};

fn dummy_s3() -> S3Config {
    S3Config {
        bucket: "b".to_string(),
        service_name: "s".to_string(),
        instance_path: "i".to_string(),
        boot_id: "b".to_string(),
        region: None,
    }
}

fn config_with_s3(trace_path: &str) -> BackgroundTaskConfig {
    let mut config = BackgroundTaskConfig::new(trace_path);
    config.s3 = Some(dummy_s3());
    config
}

#[test]
fn trace_dir_for_bare_relative_path_defaults_to_current_directory() {
    let config = BackgroundTaskConfig::new("trace.bin");
    assert_eq!(config.trace_dir(), ".");
}

#[test]
fn trace_stem_normal_path() {
    let config = config_with_s3("/tmp/traces/trace.bin");
    assert_eq!(config.trace_stem(), "trace");
}

#[test]
fn trace_stem_directory_path() {
    let config = config_with_s3("/tmp/traces/");
    assert_eq!(config.trace_stem(), "traces");
}

#[test]
fn trace_stem_root_path() {
    let config = config_with_s3("/");
    assert_eq!(config.trace_stem(), "trace");
}

#[test]
fn trace_dir_for_directory_path() {
    let config = config_with_s3("/tmp/traces/");
    assert_eq!(config.trace_dir(), "/tmp");
}

#[test]
fn dir_and_stem_of_odd_paths() {
    assert_eq!(BackgroundTaskConfig::new("").trace_dir(), ".");
    assert_eq!(BackgroundTaskConfig::new("").trace_stem(), "trace");
    assert_eq!(BackgroundTaskConfig::new("/").trace_dir(), ".");
    assert_eq!(BackgroundTaskConfig::new("/trace.bin").trace_dir(), "/");
    assert_eq!(BackgroundTaskConfig::new("a/b/trace.0.bin").trace_stem(), "trace.0");
    assert_eq!(BackgroundTaskConfig::new("a//b/./c/trace.0.bin/").trace_dir(), "a//b/./c");
    assert_eq!(BackgroundTaskConfig::new("./a/trace.bin").trace_dir(), "./a");
    assert_eq!(BackgroundTaskConfig::new("/trace.bin/").trace_dir(), "/");
    assert_eq!(BackgroundTaskConfig::new("..").trace_stem(), "trace");
    assert_eq!(BackgroundTaskConfig::new(".").trace_dir(), ".");
}

#[test]
fn stem_of_a_file_name_ends_at_its_last_dot() {
    for (name, stem) in [
        ("trace", "trace"),
        ("trace.bin", "trace"),
        ("trace.0.bin", "trace.0"),
        (".hidden", ".hidden"),
        (".hidden.bin", ".hidden"),
        ("trace.", "trace"),
        ("..a", "."),
    ] {
        let config = BackgroundTaskConfig::new(name);
        assert_eq!(config.trace_stem(), stem);
        assert_eq!(config.trace_dir(), ".");
    }
}

#[test]
fn missing_and_empty_parts_have_defaults() {
    assert_eq!(dir_or_current(None), ".");
    assert_eq!(dir_or_current(Some("")), ".");
    assert_eq!(dir_or_current(Some("/tmp")), "/tmp");
    assert_eq!(stem_or_default(None), "trace");
    assert_eq!(stem_or_default(Some("")), "trace");
    assert_eq!(stem_or_default(Some("run")), "run");
}

#[test]
fn settings_default_to_one_second_and_no_upload() {
    let config = BackgroundTaskConfig::new("/tmp/traces/trace.bin");
    assert_eq!(config.trace_path, "/tmp/traces/trace.bin");
    assert_eq!(config.poll_interval(), Interval { secs: 1, nanos: 0 });
    assert!(config.s3().is_none());
    assert!(!config.symbolize);
}

#[test]
fn s3_settings_can_be_read() {
    let config = config_with_s3("trace.bin");
    assert_eq!(config.s3().map(|s3| s3.service_name.as_str()), Some("s"));
}

#[test]
fn pipeline_without_s3_writes_back() {
    let mut config = BackgroundTaskConfig::new("trace.bin");
    let pipeline = build_pipeline(&mut config);
    assert_eq!(pipeline.processors, vec![Processor::Gzip, Processor::WriteBack]);
    assert!(pipeline.upload.is_none());
}

#[test]
fn pipeline_with_s3_uploads_and_takes_the_settings() {
    let mut config = config_with_s3("trace.bin");
    config.symbolize = true;
    let pipeline = build_pipeline(&mut config);
    assert_eq!(
        pipeline.processors,
        vec![Processor::Symbolize, Processor::Gzip, Processor::S3Upload]
    );
    assert_eq!(pipeline.upload.map(|s3| s3.instance_path), Some("i".to_string()));
    assert!(config.s3().is_none());
    assert!(config.symbolize);
    assert_eq!(config.trace_path, "trace.bin");
}

#[test]
fn processors_have_names() {
    assert_eq!(Processor::Symbolize.name(), "Symbolize");
    assert_eq!(Processor::Gzip.name(), "Gzip");
    assert_eq!(Processor::S3Upload.name(), "S3Upload");
    assert_eq!(Processor::WriteBack.name(), "WriteBack");
}
