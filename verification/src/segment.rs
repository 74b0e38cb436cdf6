//! Sealed segments and the data that flows through the processors.

use crate::error::{ProcessErrorKind, ProcessErrorKindView};
use crate::metadata::Metadata;
use crate::text::{decimal, decimal_text};
use vstd::prelude::*;

verus! {

/// A segment file that the writer has closed.
#[derive(Debug)]
pub struct SealedSegment {
    pub path: String,
    pub index: u32,
}

pub struct SealedSegmentView {
    pub path: Seq<char>,
    pub index: u32,
}

impl View for SealedSegment {
    type V = SealedSegmentView;

    open spec fn view(&self) -> SealedSegmentView {
        SealedSegmentView { path: self.path@, index: self.index }
    }
}

/// How the processing of a segment ended.
#[derive(Clone, Copy, Debug, PartialEq, Eq, Structural)]
pub enum Outcome {
    Success,
    Failure,
}

/// One processor's run on a segment.
#[derive(Clone, Copy, Debug)]
pub struct StageRecord {
    pub name: &'static str,
    pub outcome: Outcome,
}

pub struct StageRecordView {
    pub name: Seq<char>,
    pub outcome: Outcome,
}

impl View for StageRecord {
    type V = StageRecordView;

    open spec fn view(&self) -> StageRecordView {
        StageRecordView { name: self.name@, outcome: self.outcome }
    }
}

/// What is measured of one segment on its way through the pipeline.
#[derive(Debug)]
pub struct SegmentMetrics {
    /// `None` while the segment is under way.
    pub status: Option<Outcome>,
    pub segment_index: u32,
    /// Bytes read from the segment's file.
    pub uncompressed_size: u64,
    /// Bytes after compression, if the pipeline compressed the segment.
    pub compressed_size: Option<u64>,
    pub invalid_file_header: bool,
    /// The processors that ran, in order.
    pub pipeline: Vec<StageRecord>,
}

#[verifier::ext_equal]
pub struct SegmentMetricsView {
    pub status: Option<Outcome>,
    pub segment_index: u32,
    pub uncompressed_size: u64,
    pub compressed_size: Option<u64>,
    pub invalid_file_header: bool,
    pub pipeline: Seq<StageRecordView>,
}

pub open spec fn stage_views(stages: Seq<StageRecord>) -> Seq<StageRecordView> {
    Seq::new(stages.len(), |i: int| stages[i]@)
}

impl View for SegmentMetrics {
    type V = SegmentMetricsView;

    open spec fn view(&self) -> SegmentMetricsView {
        SegmentMetricsView {
            status: self.status,
            segment_index: self.segment_index,
            uncompressed_size: self.uncompressed_size,
            compressed_size: self.compressed_size,
            invalid_file_header: self.invalid_file_header,
            pipeline: stage_views(self.pipeline@),
        }
    }
}

impl SegmentMetricsView {
    /// The metrics with one more processor's run.
    pub open spec fn recorded(self, name: Seq<char>, outcome: Outcome) -> SegmentMetricsView {
        SegmentMetricsView {
            pipeline: self.pipeline.push(StageRecordView { name, outcome }),
            ..self
        }
    }

    /// The metrics of a segment that is done.
    pub open spec fn ended(self, outcome: Outcome) -> SegmentMetricsView {
        SegmentMetricsView { status: Some(outcome), ..self }
    }
}

impl SegmentMetrics {
    /// Notes that the processor called `name` ran.
    pub fn record(&mut self, name: &'static str, outcome: Outcome)
        ensures
            final(self)@ == old(self)@.recorded(name@, outcome),
    {
        self.pipeline.push(StageRecord { name, outcome });
        assert(self@ =~= old(self)@.recorded(name@, outcome));
    }

    /// Notes how the segment ended.
    pub fn end(&mut self, outcome: Outcome)
        ensures
            final(self)@ == old(self)@.ended(outcome),
    {
        self.status = Some(outcome);
    }
}

/// Data flowing through the processor pipeline.
pub struct SegmentData {
    /// The segment as it was found.
    pub segment: SealedSegment,
    /// The payload: raw, symbolized or compressed.
    pub bytes: Vec<u8>,
    /// Notes gathered by the processors.
    pub metadata: Metadata,
    pub metrics: SegmentMetrics,
}

#[verifier::ext_equal]
pub struct SegmentDataView {
    pub segment: SealedSegmentView,
    pub bytes: Seq<u8>,
    pub metadata: Map<Seq<char>, Seq<char>>,
    pub metrics: SegmentMetricsView,
}

impl View for SegmentData {
    type V = SegmentDataView;

    open spec fn view(&self) -> SegmentDataView {
        SegmentDataView {
            segment: self.segment@,
            bytes: self.bytes@,
            metadata: self.metadata@,
            metrics: self.metrics@,
        }
    }
}

impl SegmentDataView {
    pub open spec fn with_bytes(self, bytes: Seq<u8>) -> SegmentDataView {
        SegmentDataView { bytes, ..self }
    }

    pub open spec fn with_metrics(self, metrics: SegmentMetricsView) -> SegmentDataView {
        SegmentDataView { metrics, ..self }
    }
}

/// Error returned by a processor.
///
/// Carries the data back, so that the caller can still record its metrics and pass
/// it on to what handles the error.
pub struct ProcessError {
    pub data: SegmentData,
    pub kind: ProcessErrorKind,
}

pub struct ProcessErrorView {
    pub data: SegmentDataView,
    pub kind: ProcessErrorKindView,
}

impl View for ProcessError {
    type V = ProcessErrorView;

    open spec fn view(&self) -> ProcessErrorView {
        ProcessErrorView { data: self.data@, kind: self.kind@ }
    }
}

impl ProcessError {
    /// The error in words.
    pub fn message(&self) -> (res: String)
        ensures
            res@ == self@.kind.message(),
    {
        self.kind.message()
    }

    /// The text of the underlying error.
    pub fn source(&self) -> (res: &str)
        ensures
            res@ == self@.kind.source(),
    {
        self.kind.source()
    }
}

/// What a processor made of a segment.
pub type StageResult = Result<SegmentData, ProcessError>;

/// The view of what a processor made of a segment.
pub open spec fn stage_result_view(result: StageResult) -> Result<
    SegmentDataView,
    ProcessErrorView,
> {
    match result {
        Ok(data) => Ok(data@),
        Err(error) => Err(error@),
    }
}

/// The notes that every segment starts with.
pub open spec fn initial_metadata(epoch_secs: u64, index: u32) -> Map<Seq<char>, Seq<char>> {
    Map::<Seq<char>, Seq<char>>::empty().insert(
        "epoch_secs"@,
        decimal(epoch_secs as nat),
    ).insert("segment_index"@, decimal(index as nat))
}

/// What enters the pipeline for a segment whose file holds `bytes`.
pub open spec fn initial_data(
    segment: SealedSegmentView,
    bytes: Seq<u8>,
    epoch_secs: u64,
    header_valid: bool,
) -> SegmentDataView {
    SegmentDataView {
        segment,
        bytes,
        metadata: initial_metadata(epoch_secs, segment.index),
        metrics: SegmentMetricsView {
            status: None,
            segment_index: segment.index,
            uncompressed_size: bytes.len() as u64,
            compressed_size: None,
            invalid_file_header: !header_valid,
            pipeline: Seq::empty(),
        },
    }
}

impl SegmentData {
    /// What enters the pipeline for a segment whose file holds `bytes`.
    pub fn new(segment: &SealedSegment, bytes: Vec<u8>, epoch_secs: u64, header_valid: bool) -> (res:
        SegmentData)
        ensures
            res@ == initial_data(segment@, bytes@, epoch_secs, header_valid),
            res@.metrics.uncompressed_size == bytes@.len(),
    {
        let mut metadata = Metadata::new();
        metadata.insert("epoch_secs", decimal_text(epoch_secs).as_str());
        metadata.insert("segment_index", decimal_text(segment.index as u64).as_str());
        let size: u64 = bytes.len() as u64;
        let metrics = SegmentMetrics {
            status: None,
            segment_index: segment.index,
            uncompressed_size: size,
            compressed_size: None,
            invalid_file_header: !header_valid,
            pipeline: Vec::new(),
        };
        assert(stage_views(metrics.pipeline@) =~= Seq::empty());
        SegmentData {
            segment: SealedSegment { path: segment.path.clone(), index: segment.index },
            bytes,
            metadata,
            metrics,
        }
    }
}

/// Every segment starts with its creation time and its index as notes, in decimal,
/// and with no other.
pub proof fn law_initial_notes(epoch_secs: u64, index: u32)
    ensures
        ({
            let notes = initial_metadata(epoch_secs, index);
            &&& notes.dom() == set!["epoch_secs"@, "segment_index"@]
            &&& notes["epoch_secs"@] == decimal(epoch_secs as nat)
            &&& notes["segment_index"@] == decimal(index as nat)
        }),
{
    reveal_strlit("epoch_secs");
    reveal_strlit("segment_index");
    assert("epoch_secs"@.len() != "segment_index"@.len());
    assert(initial_metadata(epoch_secs, index).dom() =~= set!["epoch_secs"@, "segment_index"@]);
}

/// The view of a segment's data shows all of it as it is.
pub proof fn law_view_shows_data(data: SegmentData)
    ensures
        data@.segment.path == data.segment.path@,
        data@.segment.index == data.segment.index,
        data@.bytes == data.bytes@,
        data@.metadata == data.metadata@,
        data@.metrics == data.metrics@,
        data.metrics@.status == data.metrics.status,
        data.metrics@.segment_index == data.metrics.segment_index,
        data.metrics@.uncompressed_size == data.metrics.uncompressed_size,
        data.metrics@.compressed_size == data.metrics.compressed_size,
        data.metrics@.invalid_file_header == data.metrics.invalid_file_header,
        data.metrics@.pipeline.len() == data.metrics.pipeline@.len(),
        forall|i: int|
            0 <= i < data.metrics.pipeline@.len() ==> {
                let stage = #[trigger] data.metrics.pipeline@[i];
                &&& data.metrics@.pipeline[i].name == stage.name@
                &&& data.metrics@.pipeline[i].outcome == stage.outcome
            },
{
}

/// The view of a processor's result tells success from error and shows what either
/// carries.
pub proof fn law_view_shows_result(result: StageResult)
    ensures
        match result {
            Ok(data) => stage_result_view(result) == Ok::<SegmentDataView, ProcessErrorView>(data@),
            Err(error) => {
                &&& stage_result_view(result) is Err
                &&& stage_result_view(result)->Err_0.data == error.data@
                &&& stage_result_view(result)->Err_0.kind == error.kind@
            },
        },
{
}

/// A recorded run stands behind the ones before it, under its name and with its
/// outcome; how the segment ended is noted apart. Nothing else changes.
pub proof fn law_record_is_appended(
    metrics: SegmentMetricsView,
    name: Seq<char>,
    outcome: Outcome,
)
    ensures
        ({
            let after = metrics.recorded(name, outcome);
            &&& after.pipeline.len() == metrics.pipeline.len() + 1
            &&& metrics.pipeline.is_prefix_of(after.pipeline)
            &&& after.pipeline.last().name == name
            &&& after.pipeline.last().outcome == outcome
            &&& after.status == metrics.status
            &&& after.segment_index == metrics.segment_index
            &&& after.uncompressed_size == metrics.uncompressed_size
            &&& after.compressed_size == metrics.compressed_size
            &&& after.invalid_file_header == metrics.invalid_file_header
        }),
        ({
            let after = metrics.ended(outcome);
            &&& after.status == Some(outcome)
            &&& after.segment_index == metrics.segment_index
            &&& after.uncompressed_size == metrics.uncompressed_size
            &&& after.compressed_size == metrics.compressed_size
            &&& after.invalid_file_header == metrics.invalid_file_header
            &&& after.pipeline == metrics.pipeline
        }),
{
}

/// A part that is replaced is the new one, and the other parts stay.
pub proof fn law_replacement_keeps_rest(
    data: SegmentDataView,
    bytes: Seq<u8>,
    metrics: SegmentMetricsView,
)
    ensures
        data.with_bytes(bytes).bytes == bytes,
        data.with_bytes(bytes).segment == data.segment,
        data.with_bytes(bytes).metadata == data.metadata,
        data.with_bytes(bytes).metrics == data.metrics,
        data.with_metrics(metrics).metrics == metrics,
        data.with_metrics(metrics).segment == data.segment,
        data.with_metrics(metrics).bytes == data.bytes,
        data.with_metrics(metrics).metadata == data.metadata,
{
}

/// What enters the pipeline is the segment with the bytes that were read, their
/// number as its size, and a record on which nothing has happened yet.
pub proof fn law_data_enters_as_read(
    segment: SealedSegmentView,
    bytes: Seq<u8>,
    epoch_secs: u64,
    header_valid: bool,
)
    requires
        bytes.len() <= u64::MAX,
    ensures
        ({
            let data = initial_data(segment, bytes, epoch_secs, header_valid);
            &&& data.segment == segment
            &&& data.bytes == bytes
            &&& data.metadata.dom() == set!["epoch_secs"@, "segment_index"@]
            &&& data.metadata["epoch_secs"@] == decimal(epoch_secs as nat)
            &&& data.metadata["segment_index"@] == decimal(segment.index as nat)
            &&& data.metrics.uncompressed_size == bytes.len()
            &&& data.metrics.segment_index == segment.index
            &&& data.metrics.invalid_file_header <==> !header_valid
            &&& data.metrics.status is None
            &&& data.metrics.compressed_size is None
            &&& data.metrics.pipeline.len() == 0
        }),
{
    law_initial_notes(epoch_secs, segment.index);
}

} // verus!
