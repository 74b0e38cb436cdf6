//! Segments on their way through the processors.

use std::collections::BTreeMap;

use dial9::config::{BackgroundTaskConfig, Interval};
use dial9::error::{
    Disposition, IoErrorKind, IoFailure, ProcessErrorKind, TransferErrorKind, TransferFailure,
};
use dial9::gzip::GzipCompressor;
use dial9::segment::{
    Outcome, ProcessError, SealedSegment, SegmentData, SegmentMetrics, StageResult,
};
use dial9::upload::{BreakerSignal, S3PipelineUploader, UploadStep};
use dial9::worker::{process_segments, Next};
use dial9::worker_loop::{CycleState, Ending, TaskEvent, TaskState, WorkerLoop};
use dial9::write_back::{WriteBackProcessor, WriteBackStep, WriteOutcome};

type Disk = BTreeMap<String, Vec<u8>>;

fn not_found() -> IoFailure {
    IoFailure { kind: IoErrorKind::NotFound, message: "no such file".to_string() }
}

fn segment(path: &str, index: u32) -> SealedSegment {
    SealedSegment { path: path.to_string(), index }
}

fn disk_of(files: &[(&str, &[u8])]) -> Disk {
    files.iter().map(|(path, bytes)| (path.to_string(), bytes.to_vec())).collect()
}

/// The files called `<stem>.<index>.bin`, in the order of their indices.
fn scan(disk: &Disk, stem: &str) -> Vec<SealedSegment> {
    let mut found: Vec<SealedSegment> = Vec::new();
    for path in disk.keys() {
        let parts: Vec<&str> = path.split('.').collect();
        if parts.len() == 3 && parts[0] == stem && parts[2] == "bin" {
            found.push(segment(path, parts[1].parse().unwrap()));
        }
    }
    found.sort_by_key(|segment| segment.index);
    found
}

fn remove(disk: &mut Disk, path: &str) -> Result<(), IoFailure> {
    match disk.remove(path) {
        Some(_) => Ok(()),
        None => Err(not_found()),
    }
}

trait Stage {
    fn name(&self) -> &'static str;
    fn process(&mut self, data: SegmentData, disk: &mut Disk) -> StageResult;
}

struct Gzip;

impl Stage for Gzip {
    fn name(&self) -> &'static str {
        GzipCompressor.name()
    }
    fn process(&mut self, data: SegmentData, _disk: &mut Disk) -> StageResult {
        GzipCompressor.process(data)
    }
}

fn write_back(data: SegmentData, disk: &mut Disk) -> StageResult {
    let writing = WriteBackProcessor.begin(data);
    disk.insert(writing.destination().to_string(), writing.bytes().to_vec());
    let mut step = writing.attempted(WriteOutcome::Written);
    loop {
        step = match step {
            WriteBackStep::Write(_) => unreachable!("the file is written once"),
            WriteBackStep::RemoveOriginal(pending) => {
                let result = remove(disk, pending.path());
                pending.attempted(result)
            }
            WriteBackStep::RemoveCopy(pending) => {
                let _ = remove(disk, pending.path());
                return pending.attempted();
            }
            WriteBackStep::Done(result) => return result,
        };
    }
}

struct WriteBack;

impl Stage for WriteBack {
    fn name(&self) -> &'static str {
        WriteBackProcessor.name()
    }
    fn process(&mut self, data: SegmentData, disk: &mut Disk) -> StageResult {
        write_back(data, disk)
    }
}

/// Uploads to a client that always gives the same answer.
struct Upload {
    open: bool,
    answer: fn() -> Result<String, ProcessErrorKind>,
    signals: Vec<BreakerSignal>,
}

impl Stage for Upload {
    fn name(&self) -> &'static str {
        S3PipelineUploader.name()
    }
    fn process(&mut self, data: SegmentData, disk: &mut Disk) -> StageResult {
        match S3PipelineUploader.begin(data, !self.open) {
            UploadStep::Refused(error) => Err(error),
            UploadStep::Upload { data, bytes: _ } => {
                let answer = (self.answer)();
                if answer.is_ok() {
                    let _ = remove(disk, &data.segment.path);
                }
                let (result, signal) = S3PipelineUploader.complete(data, answer);
                self.signals.push(signal);
                result
            }
        }
    }
}

/// Answers as told, once for each call; renames the file on success.
struct Scripted {
    label: &'static str,
    errors: Vec<Option<ProcessErrorKind>>,
    calls: usize,
    done: usize,
    seen: Vec<Vec<u8>>,
}

impl Scripted {
    fn new(label: &'static str, errors: Vec<Option<ProcessErrorKind>>) -> Scripted {
        Scripted { label, errors, calls: 0, done: 0, seen: Vec::new() }
    }
}

impl Stage for Scripted {
    fn name(&self) -> &'static str {
        self.label
    }
    fn process(&mut self, data: SegmentData, disk: &mut Disk) -> StageResult {
        self.seen.push(data.bytes.clone());
        let error = if self.calls < self.errors.len() {
            self.errors[self.calls].take()
        } else {
            None
        };
        self.calls += 1;
        match error {
            Some(kind) => Err(ProcessError { data, kind }),
            None => {
                self.done += 1;
                if let Some(bytes) = disk.remove(&data.segment.path) {
                    disk.insert(format!("{}.done", data.segment.path), bytes);
                }
                Ok(data)
            }
        }
    }
}

/// Carries out every step and gathers the reports.
fn drive(mut next: Next, stages: &mut [&mut dyn Stage], disk: &mut Disk) -> Vec<SegmentMetrics> {
    let mut reports = Vec::new();
    loop {
        next = match next {
            Next::Read(pending) => match disk.get(pending.path()).cloned() {
                Some(bytes) => pending.loaded(bytes, 1_741_209_000, true),
                None => pending.unreadable(),
            },
            Next::Stage(pending, data) => {
                let result = stages[pending.stage()].process(data, disk);
                let (following, report) = pending.finished(result);
                reports.extend(report);
                following
            }
            Next::Remove(pending) => {
                let _ = remove(disk, pending.path());
                let (following, report) = pending.attempted();
                reports.push(report);
                following
            }
            Next::Finished => return reports,
        };
    }
}

fn names(stages: &[&mut dyn Stage]) -> Vec<&'static str> {
    stages.iter().map(|stage| stage.name()).collect()
}

fn worker(stages: &[&mut dyn Stage]) -> WorkerLoop {
    WorkerLoop::new(&BackgroundTaskConfig::new("trace.bin"), names(stages))
}

fn process_open_segments(stages: &mut [&mut dyn Stage], disk: &mut Disk) -> bool {
    let worker = worker(stages);
    let (found, next) = worker.process_open_segments(Ok(scan(disk, &worker.stem)));
    drive(next, stages, disk);
    found
}

/// Runs a worker whose stop signal has come before it starts; gives the number
/// of scans.
fn run_stopped(stages: &mut [&mut dyn Stage], disk: &mut Disk) -> usize {
    let mut state = CycleState::Scan;
    let mut scans = 0;
    loop {
        let mut found = false;
        match state {
            CycleState::Scan | CycleState::FinalScan => {
                scans += 1;
                found = process_open_segments(stages, disk);
            }
            CycleState::Wait => panic!("a stopped worker does not wait"),
            CycleState::Exit => return scans,
        }
        state = state.next(found, true);
    }
}

fn injected_500() -> Result<String, ProcessErrorKind> {
    Err(ProcessErrorKind::from(TransferFailure {
        kind: TransferErrorKind::ChunkFailed,
        message: "injected 500".to_string(),
    }))
}

fn evicted() -> Result<String, ProcessErrorKind> {
    Err(ProcessErrorKind::from(not_found()))
}

fn uploaded() -> Result<String, ProcessErrorKind> {
    Ok("traces/0".to_string())
}

#[test]
fn evicted_file_does_not_trip_circuit_breaker() {
    let mut disk = disk_of(&[("trace.0.bin", b"data")]);
    let mut upload = Upload { open: false, answer: evicted, signals: Vec::new() };
    process_open_segments(&mut [&mut upload], &mut disk);
    assert_eq!(upload.signals, vec![BreakerSignal::Unchanged]);
}

#[test]
fn missing_file_is_passed_over() {
    let mut disk = disk_of(&[("trace.1.bin", b"segment1")]);
    let mut count = Scripted::new("Counter", Vec::new());
    let segments = vec![segment("trace.0.bin", 0), segment("trace.1.bin", 1)];
    let next = process_segments(segments, vec!["Counter"]);
    let reports = drive(next, &mut [&mut count], &mut disk);
    assert_eq!(count.done, 1);
    assert_eq!(reports.len(), 1);
    assert_eq!(reports[0].segment_index, 1);
}

#[test]
fn compressed_size_metric_is_nonzero_after_pipeline() {
    let data = vec![42u8; 4096];
    let mut disk = Disk::new();
    disk.insert("trace.0.bin".to_string(), data);
    let mut upload = Upload { open: false, answer: uploaded, signals: Vec::new() };
    let mut gzip = Gzip;
    let mut stages: Vec<&mut dyn Stage> = vec![&mut gzip, &mut upload];
    let next = process_segments(scan(&disk, "trace"), names(&stages));
    let reports = drive(next, &mut stages, &mut disk);
    assert_eq!(reports.len(), 1);
    let compressed = reports[0].compressed_size.unwrap();
    assert!(compressed > 0);
    assert!(compressed < 4096);
    assert_eq!(reports[0].uncompressed_size, 4096);
    assert_eq!(reports[0].status, Some(Outcome::Success));
    let ran: Vec<&str> = reports[0].pipeline.iter().map(|stage| stage.name).collect();
    assert_eq!(ran, vec!["Gzip", "S3Upload"]);
    assert_eq!(upload.signals, vec![BreakerSignal::Success]);
}

#[test]
fn uncompressed_size_matches_bytes_len() {
    let bytes = vec![0u8; 1234];
    let data = SegmentData::new(&segment("trace.0.bin", 0), bytes, 0, true);
    assert_eq!(data.metrics.uncompressed_size, data.bytes.len() as u64);
    assert_eq!(data.bytes.len(), 1234);
}

#[test]
fn data_starts_with_its_notes() {
    let data = SegmentData::new(&segment("trace.7.bin", 7), b"abc".to_vec(), 1_741_209_000, false);
    assert_eq!(data.metadata.get("epoch_secs").map(|v| v.as_str()), Some("1741209000"));
    assert_eq!(data.metadata.get("segment_index").map(|v| v.as_str()), Some("7"));
    assert_eq!(data.metadata.entries().len(), 2);
    assert_eq!(data.metadata.get("content_encoding"), None);
    assert!(data.metrics.invalid_file_header);
    assert_eq!(data.metrics.segment_index, 7);
    assert_eq!(data.metrics.status, None);
    assert_eq!(data.metrics.compressed_size, None);
    assert!(data.metrics.pipeline.is_empty());
}

#[test]
fn worker_loop_drains_on_stop() {
    let mut disk = disk_of(&[("trace.0.bin", b"segment0"), ("trace.1.bin", b"segment1")]);
    let mut count = Scripted::new("Counter", Vec::new());
    let scans = run_stopped(&mut [&mut count], &mut disk);
    assert_eq!(count.calls, 2);
    assert_eq!(scans, 2);
}

#[test]
fn worker_loop_continues_after_processor_error() {
    let mut disk = disk_of(&[("trace.0.bin", b"fail"), ("trace.1.bin", b"succeed")]);
    let failure = ProcessErrorKind::from(IoFailure::other("test failure".to_string()));
    let mut fail_first = Scripted::new("FailFirst", vec![Some(failure)]);
    run_stopped(&mut [&mut fail_first], &mut disk);
    assert_eq!(fail_first.done, 1);
    assert_eq!(disk, disk_of(&[("trace.1.bin.done", b"succeed")]));
}

#[test]
fn failed_segment_kept_on_transient_error() {
    let mut disk = disk_of(&[("trace.0.bin", b"bad data")]);
    let mut upload = Upload { open: false, answer: injected_500, signals: Vec::new() };
    process_open_segments(&mut [&mut upload], &mut disk);
    assert!(
        disk.contains_key("trace.0.bin"),
        "segment should be kept on disk after transient S3 error"
    );
    assert_eq!(upload.signals, vec![BreakerSignal::Failure]);
}

#[test]
fn circuit_breaker_open_keeps_segment() {
    let mut disk = disk_of(&[("trace.0.bin", b"trace data")]);
    let mut upload = Upload { open: true, answer: injected_500, signals: Vec::new() };
    process_open_segments(&mut [&mut upload], &mut disk);
    assert!(
        disk.contains_key("trace.0.bin"),
        "segment should be kept when circuit breaker is open"
    );
    assert!(upload.signals.is_empty());
}

#[test]
fn not_found_error_skips_cleanly() {
    let mut disk = disk_of(&[("trace.0.bin", b"data")]);
    let failure = IoFailure { kind: IoErrorKind::NotFound, message: "evicted".to_string() };
    let mut stage = Scripted::new("NotFound", vec![Some(ProcessErrorKind::Io(failure))]);
    process_open_segments(&mut [&mut stage], &mut disk);
    assert!(
        disk.contains_key("trace.0.bin"),
        "segment should not be deleted on NotFound (eviction)"
    );
}

#[test]
fn permanent_io_error_deletes_segment() {
    let mut disk = disk_of(&[("trace.0.bin", b"bad data")]);
    let failure = IoFailure::other("corrupt data".to_string());
    let mut stage = Scripted::new("PermanentFail", vec![Some(ProcessErrorKind::Io(failure))]);
    process_open_segments(&mut [&mut stage], &mut disk);
    assert!(
        !disk.contains_key("trace.0.bin"),
        "segment should be deleted after permanent IO error"
    );
}

#[test]
fn gzip_segment_not_double_compressed() {
    let gzip_data = {
        let mut enc = flate2::write::GzEncoder::new(Vec::new(), flate2::Compression::fast());
        std::io::Write::write_all(&mut enc, b"already compressed").unwrap();
        enc.finish().unwrap()
    };
    let mut disk = Disk::new();
    disk.insert("trace.0.bin".to_string(), gzip_data.clone());
    let mut capture = Scripted::new("Capture", Vec::new());
    let mut gzip = Gzip;
    run_stopped(&mut [&mut gzip, &mut capture], &mut disk);
    assert_eq!(capture.seen, vec![gzip_data]);
}

#[test]
fn write_back_renames_when_extension_metadata_set() {
    let mut disk = disk_of(&[("trace.0.bin", b"payload")]);
    let mut data = SegmentData::new(&segment("trace.0.bin", 0), b"payload".to_vec(), 0, true);
    data.metadata.insert("write_back_extension", ".gz");
    assert!(write_back(data, &mut disk).is_ok());
    assert_eq!(disk, disk_of(&[("trace.0.bin.gz", b"payload")]));
}

#[test]
fn write_back_overwrites_in_place_without_extension() {
    let mut disk = disk_of(&[("trace.0.bin", b"old")]);
    let data = SegmentData::new(&segment("trace.0.bin", 0), b"new".to_vec(), 0, true);
    assert!(write_back(data, &mut disk).is_ok());
    assert_eq!(disk, disk_of(&[("trace.0.bin", b"new")]));
}

#[test]
fn write_back_of_evicted_original_leaves_no_copy() {
    let mut disk = disk_of(&[("other.bin", b"other")]);
    let mut data = SegmentData::new(&segment("trace.0.bin", 0), b"payload".to_vec(), 0, true);
    data.metadata.insert("write_back_extension", ".gz");
    assert!(write_back(data, &mut disk).is_ok());
    assert_eq!(disk, disk_of(&[("other.bin", b"other")]));
}

#[test]
fn gzip_write_back_pipeline_prevents_rediscovery() {
    let mut disk = disk_of(&[("trace.0.bin", b"raw trace data")]);
    run_stopped(&mut [&mut Gzip, &mut WriteBack], &mut disk);
    assert!(!disk.contains_key("trace.0.bin"));
    assert!(disk.contains_key("trace.0.bin.gz"));
    assert!(scan(&disk, "trace").is_empty());
}

#[test]
fn write_errors_end_the_segment() {
    let data = SegmentData::new(&segment("a.bin", 0), b"x".to_vec(), 0, true);
    let full = IoFailure::other("disk full".to_string());
    match WriteBackProcessor.begin(data).attempted(WriteOutcome::Failed(full)) {
        WriteBackStep::Done(Err(error)) => {
            assert_eq!(error.message(), "I/O error: disk full");
            assert_eq!(error.source(), "disk full");
            assert_eq!(error.data.bytes, b"x".to_vec());
        }
        _ => panic!("the segment is done with"),
    }
    let data = SegmentData::new(&segment("a.bin", 0), b"x".to_vec(), 0, true);
    match WriteBackProcessor.begin(data).attempted(WriteOutcome::Lost("panicked".to_string())) {
        WriteBackStep::Done(Err(error)) => assert_eq!(error.source(), "panicked"),
        _ => panic!("the segment is done with"),
    }
}

#[test]
fn original_that_cannot_be_removed_stays_beside_its_copy() {
    let mut data = SegmentData::new(&segment("a.bin", 0), b"x".to_vec(), 0, true);
    data.metadata.insert("write_back_extension", ".gz");
    let writing = WriteBackProcessor.begin(data);
    assert_eq!(writing.destination(), "a.bin.gz");
    assert_eq!(writing.bytes(), b"x");
    match writing.attempted(WriteOutcome::Written) {
        WriteBackStep::RemoveOriginal(pending) => {
            assert_eq!(pending.path(), "a.bin");
            let denied = Err(IoFailure::other("denied".to_string()));
            assert!(matches!(pending.attempted(denied), WriteBackStep::Done(Ok(_))));
        }
        _ => panic!("the original is to be removed"),
    }
}

#[test]
fn same_path_written_otherwise_is_not_removed() {
    let mut data = SegmentData::new(&segment("a.bin", 0), b"x".to_vec(), 0, true);
    data.metadata.insert("write_back_extension", "/");
    let writing = WriteBackProcessor.begin(data);
    assert_eq!(writing.destination(), "a.bin/");
    assert!(matches!(writing.attempted(WriteOutcome::Written), WriteBackStep::Done(Ok(_))));
}

#[test]
fn refused_upload_keeps_bytes_and_is_retryable() {
    let data = SegmentData::new(&segment("a.bin", 0), b"x".to_vec(), 0, true);
    match S3PipelineUploader.begin(data, false) {
        UploadStep::Refused(error) => {
            assert_eq!(error.message(), "S3 transfer error: circuit breaker open");
            assert!(error.kind.retryable());
            assert_eq!(error.data.bytes, b"x".to_vec());
        }
        UploadStep::Upload { .. } => panic!("no upload is attempted"),
    }
}

#[test]
fn scan_errors_count_as_nothing_found() {
    let worker = WorkerLoop::new(&BackgroundTaskConfig::new("/a/run.bin"), vec!["Gzip"]);
    assert_eq!(worker.dir, "/a");
    assert_eq!(worker.stem, "run");
    assert_eq!(worker.poll_interval, Interval { secs: 1, nanos: 0 });
    let (found, next) = worker.process_open_segments(Err(not_found()));
    assert!(!found);
    assert!(matches!(next, Next::Finished));
    let (found, next) = worker.process_open_segments(Ok(Vec::new()));
    assert!(!found);
    assert!(matches!(next, Next::Finished));
}

#[test]
fn without_processors_nothing_is_read() {
    let worker = WorkerLoop::new(&BackgroundTaskConfig::new("trace.bin"), Vec::new());
    let (found, next) = worker.process_open_segments(Ok(vec![segment("trace.0.bin", 0)]));
    assert!(found);
    assert!(matches!(next, Next::Finished));
}

#[test]
fn report_of_a_failure_ends_at_the_processor_that_failed() {
    let mut disk = disk_of(&[("trace.0.bin", b"x")]);
    let failure = ProcessErrorKind::from(IoFailure::other("bad".to_string()));
    let mut first = Scripted::new("First", Vec::new());
    let mut second = Scripted::new("Second", vec![Some(failure)]);
    let mut third = Scripted::new("Third", Vec::new());
    let mut stages: Vec<&mut dyn Stage> = vec![&mut first, &mut second, &mut third];
    let next = process_segments(vec![segment("trace.0.bin", 0)], names(&stages));
    let reports = drive(next, &mut stages, &mut disk);
    assert_eq!(reports.len(), 1);
    assert_eq!(reports[0].status, Some(Outcome::Failure));
    assert_eq!(reports[0].pipeline.len(), 2);
    assert_eq!(reports[0].pipeline[0].name, "First");
    assert_eq!(reports[0].pipeline[0].outcome, Outcome::Success);
    assert_eq!(reports[0].pipeline[1].name, "Second");
    assert_eq!(reports[0].pipeline[1].outcome, Outcome::Failure);
    assert_eq!(third.calls, 0);
}

#[test]
fn cycle_waits_only_after_an_empty_scan() {
    assert_eq!(CycleState::Scan.next(true, false), CycleState::Scan);
    assert_eq!(CycleState::Scan.next(false, false), CycleState::Wait);
    assert_eq!(CycleState::Wait.next(false, false), CycleState::Scan);
    assert_eq!(CycleState::Wait.next(false, true), CycleState::Scan);
    assert_eq!(CycleState::Scan.next(true, true), CycleState::FinalScan);
    assert_eq!(CycleState::Scan.next(false, true), CycleState::FinalScan);
    assert_eq!(CycleState::FinalScan.next(true, true), CycleState::Exit);
    assert_eq!(CycleState::Exit.next(true, false), CycleState::Exit);
}

#[test]
fn task_drains_before_it_stops() {
    let timeout = Interval { secs: 5, nanos: 7 };
    let running = TaskState::Running;
    assert_eq!(
        running.next(TaskEvent::WorkerReturned),
        TaskState::Stopped { ending: Ending::Finished }
    );
    assert_eq!(running.next(TaskEvent::DrainTimeout), running);
    let draining = running.next(TaskEvent::Shutdown { drain_timeout: Some(timeout) });
    assert_eq!(draining, TaskState::Draining { timeout });
    assert_eq!(
        running.next(TaskEvent::Shutdown { drain_timeout: None }),
        TaskState::Draining { timeout: Interval { secs: 0, nanos: 0 } }
    );
    assert_eq!(
        draining.next(TaskEvent::WorkerReturned),
        TaskState::Stopped { ending: Ending::Drained }
    );
    let timed_out = draining.next(TaskEvent::DrainTimeout);
    assert_eq!(timed_out, TaskState::Stopped { ending: Ending::TimedOut });
    assert_eq!(timed_out.next(TaskEvent::WorkerReturned), timed_out);
}

#[test]
fn errors_decide_what_becomes_of_the_file() {
    let gone = ProcessErrorKind::from(not_found());
    assert!(gone.already_deleted());
    assert!(!gone.retryable());
    assert_eq!(gone.disposition(), Disposition::Gone);
    let broken = ProcessErrorKind::from(IoFailure::other("bad".to_string()));
    assert!(!broken.already_deleted());
    assert_eq!(broken.disposition(), Disposition::Remove);
    assert_eq!(broken.message(), "I/O error: bad");
}

#[test]
fn transfer_categories_decide_on_a_retry() {
    for (kind, disposition) in [
        (TransferErrorKind::IoError, Disposition::Keep),
        (TransferErrorKind::RuntimeError, Disposition::Keep),
        (TransferErrorKind::ChildOperationFailed, Disposition::Keep),
        (TransferErrorKind::ChunkFailed, Disposition::Keep),
        (TransferErrorKind::InputInvalid, Disposition::Remove),
        (TransferErrorKind::ObjectNotDiscoverable, Disposition::Remove),
        (TransferErrorKind::NotFound, Disposition::Remove),
        (TransferErrorKind::OperationCancelled, Disposition::Remove),
        (TransferErrorKind::Unknown, Disposition::Remove),
    ] {
        let error = ProcessErrorKind::from(TransferFailure { kind, message: "m".to_string() });
        assert_eq!(error.disposition(), disposition);
        assert_eq!(error.retryable(), disposition == Disposition::Keep);
        assert_eq!(error.source(), "m");
        assert_eq!(error.message(), "S3 transfer error: m");
    }
}
