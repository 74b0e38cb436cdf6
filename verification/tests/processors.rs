//! Compression, symbolization, regions and notes.

use dial9::config::S3Config;
use dial9::error::IoFailure;
use dial9::gzip::{starts_as_gzip, GzipCompressor, GzipStep, JobOutcome};
use dial9::metadata::Metadata;
use dial9::segment::{ProcessError, SealedSegment, SegmentData, StageResult};
use dial9::symbolize::{SymbolizeOutcome, SymbolizeProcessor, SymbolizeStep};
use dial9::text::decimal_text;
use dial9::upload::{detect_bucket_region, BucketReply, SetupStep};

fn data(bytes: &[u8]) -> SegmentData {
    let segment = SealedSegment { path: "trace.0.bin".to_string(), index: 0 };
    SegmentData::new(&segment, bytes.to_vec(), 12, true)
}

fn done(result: StageResult) -> SegmentData {
    match result {
        Ok(data) => data,
        Err(error) => panic!("{}", error.message()),
    }
}

fn failed(result: StageResult) -> ProcessError {
    match result {
        Ok(_) => panic!("the processor fails"),
        Err(error) => error,
    }
}

fn note<'a>(data: &'a SegmentData, key: &str) -> Option<&'a str> {
    data.metadata.get(key).map(|value| value.as_str())
}

fn unzip(bytes: &[u8]) -> Vec<u8> {
    let mut plain = Vec::new();
    let mut decoder = flate2::read::GzDecoder::new(bytes);
    std::io::Read::read_to_end(&mut decoder, &mut plain).unwrap();
    plain
}

#[test]
fn compression_can_be_undone() {
    let plain: Vec<u8> = (0..5000u32).map(|i| (i % 7) as u8).collect();
    let done = done(GzipCompressor.process(data(&plain)));
    assert_ne!(done.bytes, plain);
    assert!(starts_as_gzip(&done.bytes));
    assert_eq!(unzip(&done.bytes), plain);
    assert_eq!(done.metrics.compressed_size, Some(done.bytes.len() as u64));
    assert_eq!(note(&done, "content_encoding"), Some("gzip"));
    assert_eq!(note(&done, "write_back_extension"), Some(".gz"));
    assert_eq!(note(&done, "epoch_secs"), Some("12"));
}

#[test]
fn compression_is_the_encoder_at_its_fast_level() {
    let plain = b"some trace data, some trace data, some trace data".to_vec();
    let mut encoder = flate2::write::GzEncoder::new(Vec::new(), flate2::Compression::fast());
    std::io::Write::write_all(&mut encoder, &plain).unwrap();
    let expected = encoder.finish().unwrap();
    match GzipCompressor.run(&plain) {
        JobOutcome::Done(bytes) => assert_eq!(bytes, expected),
        _ => panic!("compression succeeds"),
    }
}

#[test]
fn large_segments_of_all_sorts_are_compressed() {
    let mut state: u64 = 0x2545_f491_4f6c_dd1d;
    let mut next = || {
        state ^= state << 13;
        state ^= state >> 7;
        state ^= state << 17;
        state
    };
    let noise: Vec<u8> = (0..600_000).map(|_| (next() >> 32) as u8).collect();
    let zeros = vec![0u8; 600_000];
    // Short matches at long distances, and frequencies that differ widely.
    let mut matches = noise[..30_000].to_vec();
    while matches.len() < 600_000 {
        let at = (next() % 29_000) as usize;
        let len = 3 + (next() % 3) as usize;
        matches.extend_from_slice(&noise[at..at + len]);
    }
    let skewed: Vec<u8> = (0..600_000).map(|_| next().trailing_zeros() as u8).collect();
    for plain in [noise, zeros, matches, skewed] {
        let result = done(GzipCompressor.process(data(&plain)));
        assert_eq!(unzip(&result.bytes), plain);
    }
}

#[test]
fn empty_segment_is_compressed() {
    let done = done(GzipCompressor.process(data(b"")));
    assert!(done.bytes.len() >= 18);
    assert_eq!(unzip(&done.bytes), Vec::<u8>::new());
}

#[test]
fn compressing_twice_changes_nothing() {
    let once = done(GzipCompressor.process(data(b"abc")));
    let bytes = once.bytes.clone();
    let size = once.metrics.compressed_size;
    let twice = done(GzipCompressor.process(once));
    assert_eq!(twice.bytes, bytes);
    assert_eq!(twice.metrics.compressed_size, size);
    assert_eq!(twice.metadata.entries().len(), 4);
}

#[test]
fn already_compressed_bytes_have_no_compressed_size() {
    match GzipCompressor.begin(data(&[0x1f, 0x8b, 8])) {
        GzipStep::Ready(ready) => {
            assert_eq!(ready.bytes, vec![0x1f, 0x8b, 8]);
            assert_eq!(ready.metrics.compressed_size, None);
            assert_eq!(note(&ready, "content_encoding"), Some("gzip"));
        }
        GzipStep::Compress { .. } => panic!("nothing is to be compressed"),
    }
}

#[test]
fn magic_number_needs_both_bytes() {
    assert!(starts_as_gzip(&[0x1f, 0x8b]));
    assert!(!starts_as_gzip(&[0x1f]));
    assert!(!starts_as_gzip(&[0x1f, 0x8c]));
    assert!(!starts_as_gzip(&[0x8b, 0x1f]));
    assert!(!starts_as_gzip(&[]));
}

#[test]
fn failed_compression_gives_back_no_bytes() {
    let failure = IoFailure::other("encoder failed".to_string());
    let error = failed(GzipCompressor.complete(data(b"abc"), JobOutcome::Failed(failure)));
    assert_eq!(error.message(), "I/O error: encoder failed");
    assert!(error.data.bytes.is_empty());
    let lost = JobOutcome::Lost("task panicked".to_string());
    let error = failed(GzipCompressor.complete(data(b"abc"), lost));
    assert_eq!(error.source(), "task panicked");
    assert!(error.data.bytes.is_empty());
    assert_eq!(note(&error.data, "content_encoding"), None);
}

#[test]
fn symbols_follow_the_trace() {
    match SymbolizeProcessor.begin(data(b"trace")) {
        SymbolizeStep::Symbolize { data, input } => {
            assert!(data.bytes.is_empty());
            let combined = SymbolizeProcessor.append_symbols(input, b"-symbols".to_vec());
            let done = done(SymbolizeProcessor.complete(data, SymbolizeOutcome::Done(combined)));
            assert_eq!(done.bytes, b"trace-symbols".to_vec());
        }
        SymbolizeStep::Skip(_) => panic!("the trace is symbolized"),
    }
    assert_eq!(SymbolizeProcessor.name(), "Symbolize");
}

#[test]
fn compressed_segment_is_not_symbolized() {
    match SymbolizeProcessor.begin(data(&[0x1f, 0x8b, 1])) {
        SymbolizeStep::Skip(skipped) => assert_eq!(skipped.bytes, vec![0x1f, 0x8b, 1]),
        SymbolizeStep::Symbolize { .. } => panic!("the segment is passed over"),
    }
}

fn taken_for_symbolization(bytes: &[u8]) -> (SegmentData, Vec<u8>) {
    match SymbolizeProcessor.begin(data(bytes)) {
        SymbolizeStep::Symbolize { data, input } => (data, input),
        SymbolizeStep::Skip(_) => panic!("the trace is symbolized"),
    }
}

#[test]
fn failed_symbolization_ends_the_segment() {
    let (waiting, input) = taken_for_symbolization(b"");
    let failure = IoFailure::other("no maps".to_string());
    let outcome = SymbolizeOutcome::Failed { input, failure };
    let error = failed(SymbolizeProcessor.complete(waiting, outcome));
    assert_eq!(error.source(), "no maps");
    let (waiting, _) = taken_for_symbolization(b"trace");
    let lost = SymbolizeOutcome::Lost("cancelled".to_string());
    let error = failed(SymbolizeProcessor.complete(waiting, lost));
    assert_eq!(error.message(), "I/O error: cancelled");
    assert!(error.data.bytes.is_empty());
}

#[test]
fn failed_symbolization_preserves_original_bytes() {
    let (waiting, input) = taken_for_symbolization(b"trace");
    let failure = IoFailure::other("no maps".to_string());
    let outcome = SymbolizeOutcome::Failed { input, failure };
    let error = failed(SymbolizeProcessor.complete(waiting, outcome));
    assert_eq!(error.data.bytes, b"trace".to_vec());
    assert_eq!(error.data.segment.path, "trace.0.bin");
    assert_eq!(note(&error.data, "epoch_secs"), Some("12"));
    assert_eq!(error.message(), "I/O error: no maps");
}

#[test]
fn region_falls_back_where_none_is_named() {
    let eu = || Some("eu-west-1".to_string());
    assert_eq!(detect_bucket_region(BucketReply::Found { region: eu() }), "eu-west-1");
    assert_eq!(detect_bucket_region(BucketReply::Found { region: None }), "us-east-1");
    assert_eq!(detect_bucket_region(BucketReply::Failed { region_header: eu() }), "eu-west-1");
    assert_eq!(detect_bucket_region(BucketReply::Failed { region_header: None }), "us-east-1");
}

fn settings(region: Option<&str>) -> S3Config {
    S3Config {
        bucket: "traces".to_string(),
        service_name: "s".to_string(),
        instance_path: "i".to_string(),
        boot_id: "b".to_string(),
        region: region.map(|region| region.to_string()),
    }
}

#[test]
fn bucket_is_asked_only_without_a_region() {
    assert!(matches!(settings(None).begin_setup(false), SetupStep::LoadClient));
    match settings(None).begin_setup(true) {
        SetupStep::AskRegion { bucket } => assert_eq!(bucket, "traces"),
        _ => panic!("the region is to be asked for"),
    }
    match settings(Some("eu-north-1")).client_ready() {
        SetupStep::Build { region } => assert_eq!(region, "eu-north-1"),
        _ => panic!("the region is known"),
    }
    match settings(None).bucket_replied(BucketReply::Failed { region_header: None }) {
        SetupStep::Build { region } => assert_eq!(region, "us-east-1"),
        _ => panic!("the region is known"),
    }
}

#[test]
fn notes_keep_the_last_value_of_a_key() {
    let mut notes = Metadata::new();
    assert_eq!(notes.get("a"), None);
    notes.insert("a", "1");
    notes.insert("b", "2");
    notes.insert("a", "3");
    assert_eq!(notes.get("a").map(|v| v.as_str()), Some("3"));
    assert_eq!(notes.get("b").map(|v| v.as_str()), Some("2"));
    assert_eq!(notes.get("c"), None);
    assert_eq!(notes.entries().len(), 2);
}

#[test]
fn numbers_are_written_in_decimal() {
    for number in [0u64, 7, 9, 10, 99, 100, 1_741_209_000, u64::MAX] {
        assert_eq!(decimal_text(number), format!("{number}"));
    }
}
