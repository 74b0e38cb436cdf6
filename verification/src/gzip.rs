//! Compression of segments.

use crate::error::{IoErrorKind, IoFailure, IoFailureView, ProcessErrorKind, ProcessErrorKindView};
use crate::segment::{
    stage_result_view, ProcessError, ProcessErrorView, SegmentData, SegmentDataView,
    SegmentMetricsView, StageResult,
};
use vstd::prelude::*;

verus! {

/// The bytes start as every gzip stream does.
pub open spec fn is_gzip(bytes: Seq<u8>) -> bool {
    bytes.len() >= 2 && bytes[0] == 0x1f && bytes[1] == 0x8b
}

/// Whether the bytes start as every gzip stream does.
pub fn starts_as_gzip(bytes: &[u8]) -> (res: bool)
    ensures
        res == is_gzip(bytes@),
        res <==> bytes@.len() >= 2 && bytes@[0] == 0x1f && bytes@[1] == 0x8b,
{
    bytes.len() >= 2 && bytes[0] == 0x1f && bytes[1] == 0x8b
}

/// What [`flate2::write::GzEncoder`] at its fast level makes of the bytes.
pub uninterp spec fn gzip_fast(raw: Seq<u8>) -> Seq<u8>;

/// Writes `raw` to a [`flate2::write::GzEncoder`] at its fast level, over a
/// vector, and finishes the stream. This succeeds: a vector takes every write, the
/// stream is finished once and after all writes, and the compressor's own buffer
/// has room for the largest block. The stream depends on `raw` alone: its header
/// holds no time stamp and no file name. It consists of a header of ten bytes that
/// starts with the gzip magic number, the compressed data and a trailer of eight
/// bytes.
#[verifier::external_body]
fn compress(raw: &[u8]) -> (res: Result<Vec<u8>, IoFailure>)
    ensures
        res is Ok,
        res->Ok_0@ == gzip_fast(raw@),
        is_gzip(res->Ok_0@),
        res->Ok_0@.len() >= 18,
{
    let failure = |error: std::io::Error| IoFailure {
        kind: match error.kind() {
            std::io::ErrorKind::NotFound => IoErrorKind::NotFound,
            _ => IoErrorKind::Other,
        },
        message: error.to_string(),
    };
    let mut encoder = flate2::write::GzEncoder::new(Vec::new(), flate2::Compression::fast());
    std::io::Write::write_all(&mut encoder, raw).map_err(failure)?;
    encoder.finish().map_err(failure)
}

/// What a job that ran apart from the worker came to.
#[derive(Debug)]
pub enum JobOutcome {
    /// It gave bytes.
    Done(Vec<u8>),
    /// It gave an I/O error.
    Failed(IoFailure),
    /// It did not return: it panicked or was cancelled.
    Lost(String),
}

pub enum JobOutcomeView {
    Done(Seq<u8>),
    Failed(IoFailureView),
    Lost(Seq<char>),
}

impl View for JobOutcome {
    type V = JobOutcomeView;

    open spec fn view(&self) -> JobOutcomeView {
        match *self {
            JobOutcome::Done(bytes) => JobOutcomeView::Done(bytes@),
            JobOutcome::Failed(failure) => JobOutcomeView::Failed(failure@),
            JobOutcome::Lost(message) => JobOutcomeView::Lost(message@),
        }
    }
}

/// The error that a job which gave no bytes leaves the segment with.
pub open spec fn job_error(data: SegmentDataView, failure: IoFailureView) -> ProcessErrorView {
    ProcessErrorView { data, kind: ProcessErrorKindView::Io(failure) }
}

/// The data with the notes that a compressed segment carries.
pub open spec fn marked(data: SegmentDataView) -> SegmentDataView {
    SegmentDataView {
        metadata: data.metadata.insert("content_encoding"@, "gzip"@).insert(
            "write_back_extension"@,
            ".gz"@,
        ),
        ..data
    }
}

/// What compression makes of a segment, given what the compression job came to
/// on its bytes.
pub open spec fn compressed(data: SegmentDataView, outcome: JobOutcomeView) -> Result<
    SegmentDataView,
    ProcessErrorView,
> {
    match outcome {
        JobOutcomeView::Done(bytes) => Ok(
            marked(
                SegmentDataView {
                    bytes,
                    metrics: SegmentMetricsView {
                        compressed_size: Some(bytes.len() as u64),
                        ..data.metrics
                    },
                    ..data
                },
            ),
        ),
        JobOutcomeView::Failed(failure) => Err(job_error(data.with_bytes(Seq::empty()), failure)),
        JobOutcomeView::Lost(message) => Err(
            job_error(
                data.with_bytes(Seq::empty()),
                IoFailureView { kind: IoErrorKind::Other, message },
            ),
        ),
    }
}

/// Where compression of a segment stands.
pub enum GzipStep {
    /// The segment is compressed already: there is nothing to do.
    Ready(SegmentData),
    /// The bytes are to be compressed; the data waits without them.
    Compress { data: SegmentData, raw: Vec<u8> },
}

/// Compresses segment bytes in memory.
#[derive(Clone, Copy, Debug)]
pub struct GzipCompressor;

impl GzipCompressor {
    /// Human-readable name, used in metrics.
    pub fn name(&self) -> (res: &'static str)
        ensures
            res@ == "Gzip"@,
    {
        "Gzip"
    }

    fn mark(data: SegmentData) -> (res: SegmentData)
        ensures
            res@ == marked(data@),
    {
        let mut data = data;
        data.metadata.insert("content_encoding", "gzip");
        data.metadata.insert("write_back_extension", ".gz");
        data
    }

    /// Takes the bytes out for compression, unless they are compressed already.
    pub fn begin(&self, data: SegmentData) -> (res: GzipStep)
        ensures
            match res {
                GzipStep::Ready(ready) => is_gzip(data@.bytes) && ready@ == marked(data@),
                GzipStep::Compress { data: waiting, raw } => {
                    &&& !is_gzip(data@.bytes)
                    &&& raw@ == data@.bytes
                    &&& waiting@ == data@.with_bytes(Seq::empty())
                },
            },
    {
        if starts_as_gzip(data.bytes.as_slice()) {
            GzipStep::Ready(Self::mark(data))
        } else {
            let mut data = data;
            let mut raw: Vec<u8> = Vec::new();
            std::mem::swap(&mut raw, &mut data.bytes);
            GzipStep::Compress { data, raw }
        }
    }

    /// Compresses bytes to a gzip stream.
    pub fn run(&self, raw: &[u8]) -> (res: JobOutcome)
        ensures
            res@ == JobOutcomeView::Done(gzip_fast(raw@)),
            is_gzip(gzip_fast(raw@)),
            gzip_fast(raw@).len() >= 18,
    {
        match compress(raw) {
            Ok(bytes) => JobOutcome::Done(bytes),
            Err(failure) => JobOutcome::Failed(failure),
        }
    }

    /// Puts the compressed bytes in place and notes their size and encoding. A
    /// job that gave none ends the segment's processing.
    pub fn complete(&self, data: SegmentData, outcome: JobOutcome) -> (res: StageResult)
        ensures
            stage_result_view(res) == compressed(data@, outcome@),
    {
        let mut data = data;
        match outcome {
            JobOutcome::Done(bytes) => {
                data.metrics.compressed_size = Some(bytes.len() as u64);
                data.bytes = bytes;
                Ok(Self::mark(data))
            },
            JobOutcome::Failed(failure) => {
                data.bytes = Vec::new();
                assert(data@.bytes =~= Seq::empty());
                Err(ProcessError { data, kind: ProcessErrorKind::from(failure) })
            },
            JobOutcome::Lost(message) => {
                data.bytes = Vec::new();
                assert(data@.bytes =~= Seq::empty());
                Err(ProcessError { data, kind: ProcessErrorKind::from(IoFailure::other(message)) })
            },
        }
    }

    /// Compresses a segment, which always succeeds. One that is compressed already
    /// passes through with its bytes unchanged.
    pub fn process(&self, data: SegmentData) -> (res: StageResult)
        ensures
            is_gzip(data@.bytes) ==> stage_result_view(res) == Ok::<
                SegmentDataView,
                ProcessErrorView,
            >(marked(data@)),
            !is_gzip(data@.bytes) ==> stage_result_view(res) == compressed(
                data@,
                JobOutcomeView::Done(gzip_fast(data@.bytes)),
            ),
            res is Ok,
            is_gzip(res->Ok_0@.bytes),
            res->Ok_0@.bytes.len() >= 2,
            res->Ok_0@.bytes[0] == 0x1f,
            res->Ok_0@.bytes[1] == 0x8b,
            res->Ok_0@.segment == data@.segment,
            res->Ok_0@.metadata.contains_key("content_encoding"@),
            res->Ok_0@.metadata["content_encoding"@] == "gzip"@,
            res->Ok_0@.metadata.contains_key("write_back_extension"@),
            res->Ok_0@.metadata["write_back_extension"@] == ".gz"@,
            !is_gzip(data@.bytes) ==> res->Ok_0@.metrics.compressed_size is Some
                && res->Ok_0@.metrics.compressed_size->0 == res->Ok_0@.bytes.len()
                && res->Ok_0@.bytes.len() >= 18,
    {
        proof {
            law_marks_are_added(data@);
        }
        match self.begin(data) {
            GzipStep::Ready(ready) => Ok(ready),
            GzipStep::Compress { data: waiting, raw } => {
                let outcome = self.run(raw.as_slice());
                assert(waiting@.with_bytes(Seq::empty()) =~= data@.with_bytes(Seq::empty()));
                assert(outcome matches JobOutcome::Done(bytes) ==> (bytes.len() as u64) == bytes@.len());
                self.complete(waiting, outcome)
            },
        }
    }
}

/// Compressing is done once: a segment that carries compressed bytes and their
/// notes comes out of another pass as it went in.
pub proof fn law_compression_is_idempotent(data: SegmentDataView, bytes: Seq<u8>)
    requires
        is_gzip(bytes),
    ensures
        ({
            let once = compressed(data, JobOutcomeView::Done(bytes));
            &&& once matches Ok(done) && is_gzip(done.bytes) && marked(done) == done
        }),
        marked(marked(data)) == marked(data),
{
    let once = compressed(data, JobOutcomeView::Done(bytes))->Ok_0;
    assert(marked(once).metadata =~= once.metadata);
    assert(marked(marked(data)).metadata =~= marked(data).metadata);
}

/// Bytes count as compressed exactly where the first two are the magic number of
/// gzip. Whatever stands behind them makes no difference.
pub proof fn law_magic_number_decides(bytes: Seq<u8>, tail: Seq<u8>)
    ensures
        is_gzip(bytes) <==> bytes.len() >= 2 && bytes[0] == 0x1f && bytes[1] == 0x8b,
        is_gzip(seq![0x1fu8, 0x8bu8] + tail),
        bytes.len() >= 2 ==> (is_gzip(bytes + tail) <==> is_gzip(bytes)),
        bytes.len() >= 1 && bytes[0] != 0x1f ==> !is_gzip(bytes + tail),
        bytes.len() >= 2 && bytes[1] != 0x8b ==> !is_gzip(bytes + tail),
{
}

/// Two notes are set on a compressed segment, and nothing else of it changes.
pub proof fn law_marks_are_added(data: SegmentDataView)
    ensures
        ({
            let after = marked(data);
            &&& after.metadata.contains_key("content_encoding"@)
            &&& after.metadata["content_encoding"@] == "gzip"@
            &&& after.metadata.contains_key("write_back_extension"@)
            &&& after.metadata["write_back_extension"@] == ".gz"@
            &&& forall|key: Seq<char>|
                key != "content_encoding"@ && key != "write_back_extension"@ ==> {
                    &&& #[trigger] after.metadata.contains_key(key) <==> data.metadata.contains_key(
                        key,
                    )
                    &&& after.metadata[key] == data.metadata[key]
                }
            &&& after.segment == data.segment
            &&& after.bytes == data.bytes
            &&& after.metrics == data.metrics
        }),
{
    reveal_strlit("content_encoding");
    reveal_strlit("write_back_extension");
    assert("content_encoding"@.len() == 16);
    assert("write_back_extension"@.len() == 20);
}

/// A segment whose bytes were compressed carries the new bytes and their number,
/// and is otherwise as it was but for its notes. One whose compression gave none
/// has no bytes, carries the error as it came, and is otherwise as it was.
pub proof fn law_compression_outcome(data: SegmentDataView, outcome: JobOutcomeView)
    ensures
        match outcome {
            JobOutcomeView::Done(bytes) => {
                &&& compressed(data, outcome) is Ok
                &&& compressed(data, outcome)->Ok_0.bytes == bytes
                &&& bytes.len() <= u64::MAX
                    ==> compressed(data, outcome)->Ok_0.metrics.compressed_size is Some
                    && compressed(data, outcome)->Ok_0.metrics.compressed_size->0 == bytes.len()
                &&& compressed(data, outcome)->Ok_0.segment == data.segment
                &&& compressed(data, outcome)->Ok_0.metrics.status == data.metrics.status
                &&& compressed(data, outcome)->Ok_0.metrics.segment_index
                    == data.metrics.segment_index
                &&& compressed(data, outcome)->Ok_0.metrics.uncompressed_size
                    == data.metrics.uncompressed_size
                &&& compressed(data, outcome)->Ok_0.metrics.invalid_file_header
                    == data.metrics.invalid_file_header
                &&& compressed(data, outcome)->Ok_0.metrics.pipeline == data.metrics.pipeline
                &&& compressed(data, outcome)->Ok_0.metadata == marked(data).metadata
            },
            JobOutcomeView::Failed(failure) => {
                &&& compressed(data, outcome) is Err
                &&& compressed(data, outcome)->Err_0.kind == ProcessErrorKindView::Io(failure)
                &&& compressed(data, outcome)->Err_0.data.bytes.len() == 0
                &&& compressed(data, outcome)->Err_0.data.segment == data.segment
                &&& compressed(data, outcome)->Err_0.data.metadata == data.metadata
                &&& compressed(data, outcome)->Err_0.data.metrics == data.metrics
            },
            JobOutcomeView::Lost(message) => {
                &&& compressed(data, outcome) is Err
                &&& compressed(data, outcome)->Err_0.kind is Io
                &&& compressed(data, outcome)->Err_0.kind->Io_0.kind == IoErrorKind::Other
                &&& compressed(data, outcome)->Err_0.kind->Io_0.message == message
                &&& compressed(data, outcome)->Err_0.data.bytes.len() == 0
                &&& compressed(data, outcome)->Err_0.data.segment == data.segment
                &&& compressed(data, outcome)->Err_0.data.metadata == data.metadata
                &&& compressed(data, outcome)->Err_0.data.metrics == data.metrics
            },
        },
{
}

/// The view of a job's outcome shows what it gave.
pub proof fn law_view_shows_job(outcome: JobOutcome)
    ensures
        match outcome {
            JobOutcome::Done(bytes) => outcome@ == JobOutcomeView::Done(bytes@),
            JobOutcome::Failed(failure) => {
                &&& outcome@ is Failed
                &&& outcome@->Failed_0.kind == failure.kind
                &&& outcome@->Failed_0.message == failure.message@
            },
            JobOutcome::Lost(message) => outcome@ == JobOutcomeView::Lost(message@),
        },
{
}

} // verus!
