//! The worker: which segments are read, which processors run on them, and what
//! happens to their files.
//!
//! Reading files, running processors and removing files is left to the caller.
//! Each value of [`Next`] says what is to be done, and takes back what came of it.

use crate::error::Disposition;
use crate::segment::{
    initial_data, stage_result_view, Outcome, ProcessErrorView, SealedSegment, SealedSegmentView,
    SegmentData, SegmentDataView, SegmentMetrics, SegmentMetricsView, StageResult,
};
use vstd::prelude::*;

verus! {

/// The segments of one scan, the processors' names and the segment under way.
#[derive(Debug)]
struct Batch {
    segments: Vec<SealedSegment>,
    processors: Vec<&'static str>,
    at: usize,
}

#[verifier::ext_equal]
pub struct BatchView {
    pub segments: Seq<SealedSegmentView>,
    pub processors: Seq<Seq<char>>,
    pub at: int,
}

pub open spec fn segment_views(segments: Seq<SealedSegment>) -> Seq<SealedSegmentView> {
    Seq::new(segments.len(), |i: int| segments[i]@)
}

pub open spec fn name_views(names: Seq<&'static str>) -> Seq<Seq<char>> {
    Seq::new(names.len(), |i: int| names[i]@)
}

impl BatchView {
    /// There is a segment under way and a processor to run on it.
    pub open spec fn valid(self) -> bool {
        &&& 0 <= self.at < self.segments.len()
        &&& self.processors.len() > 0
    }

    /// The segment under way.
    pub open spec fn current(self) -> SealedSegmentView {
        self.segments[self.at]
    }

    /// What follows when the segment under way is done with.
    pub open spec fn advance(self) -> NextView {
        if self.at + 1 < self.segments.len() {
            NextView::Read { batch: BatchView { at: self.at + 1, ..self } }
        } else {
            NextView::Finished
        }
    }
}

impl Batch {
    #[verifier::type_invariant]
    spec fn inv(self) -> bool {
        &&& self.at < self.segments@.len()
        &&& self.processors@.len() > 0
    }

    spec fn model(self) -> BatchView {
        BatchView {
            segments: segment_views(self.segments@),
            processors: name_views(self.processors@),
            at: self.at as int,
        }
    }

    fn advance(self) -> (res: Next)
        ensures
            res@ == self.model().advance(),
    {
        proof {
            use_type_invariant(&self);
        }
        if self.at < self.segments.len() - 1 {
            let at: usize = self.at + 1;
            Next::Read(
                AwaitingContents {
                    batch: Batch { segments: self.segments, processors: self.processors, at },
                },
            )
        } else {
            Next::Finished
        }
    }
}

/// What the worker does next with the segments of a scan.
pub enum Next {
    /// The file of a segment is to be read.
    Read(AwaitingContents),
    /// A processor is to run on the data.
    Stage(AwaitingStage, SegmentData),
    /// The file of a segment is to be removed.
    Remove(AwaitingRemoval),
    /// All segments are done with.
    Finished,
}

#[verifier::ext_equal]
pub enum NextView {
    Read { batch: BatchView },
    Stage { batch: BatchView, stage: int, data: SegmentDataView },
    Remove { batch: BatchView, metrics: SegmentMetricsView },
    Finished,
}

impl View for Next {
    type V = NextView;

    open spec fn view(&self) -> NextView {
        match *self {
            Next::Read(pending) => NextView::Read { batch: pending@ },
            Next::Stage(pending, data) => NextView::Stage {
                batch: pending@.0,
                stage: pending@.1,
                data: data@,
            },
            Next::Remove(pending) => NextView::Remove { batch: pending@.0, metrics: pending@.1 },
            Next::Finished => NextView::Finished,
        }
    }
}

/// A segment whose contents are not there yet.
#[derive(Debug)]
pub struct AwaitingContents {
    batch: Batch,
}

impl View for AwaitingContents {
    type V = BatchView;

    closed spec fn view(&self) -> BatchView {
        self.batch.model()
    }
}

/// A segment on which a processor runs.
#[derive(Debug)]
pub struct AwaitingStage {
    batch: Batch,
    stage: usize,
}

impl View for AwaitingStage {
    type V = (BatchView, int);

    closed spec fn view(&self) -> (BatchView, int) {
        (self.batch.model(), self.stage as int)
    }
}

/// A segment whose file is to be removed, with its metrics.
#[derive(Debug)]
pub struct AwaitingRemoval {
    batch: Batch,
    metrics: SegmentMetrics,
}

impl View for AwaitingRemoval {
    type V = (BatchView, SegmentMetricsView);

    closed spec fn view(&self) -> (BatchView, SegmentMetricsView) {
        (self.batch.model(), self.metrics@)
    }
}

/// What a scan leads to: nothing without processors or segments, else the first
/// segment's file is read.
pub open spec fn begun(segments: Seq<SealedSegmentView>, processors: Seq<Seq<char>>) -> NextView {
    if processors.len() == 0 || segments.len() == 0 {
        NextView::Finished
    } else {
        NextView::Read { batch: BatchView { segments, processors, at: 0 } }
    }
}

/// What a processor's result leads to, and the metrics that are complete with it.
pub open spec fn after_stage(
    batch: BatchView,
    stage: int,
    result: Result<SegmentDataView, ProcessErrorView>,
) -> (NextView, Option<SegmentMetricsView>) {
    let name = batch.processors[stage];
    match result {
        Ok(data) => {
            let metrics = data.metrics.recorded(name, Outcome::Success);
            if stage + 1 < batch.processors.len() {
                (
                    NextView::Stage {
                        batch,
                        stage: stage + 1,
                        data: data.with_metrics(metrics),
                    },
                    None,
                )
            } else {
                (batch.advance(), Some(metrics.ended(Outcome::Success)))
            }
        },
        Err(error) => {
            let metrics = error.data.metrics.recorded(name, Outcome::Failure).ended(
                Outcome::Failure,
            );
            match error.kind.disposition() {
                Disposition::Remove => (NextView::Remove { batch, metrics }, None),
                _ => (batch.advance(), Some(metrics)),
            }
        },
    }
}

/// The view of metrics that may be complete.
pub open spec fn report_view(report: Option<SegmentMetrics>) -> Option<SegmentMetricsView> {
    match report {
        Some(metrics) => Some(metrics@),
        None => None,
    }
}

/// Starts on the segments of a scan, to be run through `processors` in order.
pub fn process_segments(segments: Vec<SealedSegment>, processors: Vec<&'static str>) -> (res: Next)
    ensures
        res@ == begun(segment_views(segments@), name_views(processors@)),
{
    if processors.len() == 0 || segments.len() == 0 {
        Next::Finished
    } else {
        Next::Read(AwaitingContents { batch: Batch { segments, processors, at: 0 } })
    }
}

impl AwaitingContents {
    /// The file to read.
    pub fn path(&self) -> (res: &str)
        ensures
            self@.valid(),
            res@ == self@.current().path,
    {
        proof {
            use_type_invariant(&self.batch);
        }
        self.batch.segments[self.batch.at].path.as_str()
    }

    /// The file was read: the first processor runs on its contents.
    pub fn loaded(self, bytes: Vec<u8>, epoch_secs: u64, header_valid: bool) -> (res: Next)
        ensures
            self@.valid(),
            res@ == (NextView::Stage {
                batch: self@,
                stage: 0,
                data: initial_data(self@.current(), bytes@, epoch_secs, header_valid),
            }),
    {
        proof {
            use_type_invariant(&self.batch);
        }
        let data = SegmentData::new(
            &self.batch.segments[self.batch.at],
            bytes,
            epoch_secs,
            header_valid,
        );
        Next::Stage(AwaitingStage { batch: self.batch, stage: 0 }, data)
    }

    /// The file could not be read, be it that it was evicted or for another
    /// reason: the segment is passed over.
    pub fn unreadable(self) -> (res: Next)
        ensures
            self@.valid(),
            res@ == self@.advance(),
    {
        proof {
            use_type_invariant(&self.batch);
        }
        self.batch.advance()
    }
}

impl AwaitingStage {
    #[verifier::type_invariant]
    spec fn inv(self) -> bool {
        self.stage < self.batch.processors@.len()
    }

    /// Which processor is to run.
    pub fn stage(&self) -> (res: usize)
        ensures
            self@.0.valid(),
            res == self@.1,
            res < self@.0.processors.len(),
    {
        proof {
            use_type_invariant(self);
            use_type_invariant(&self.batch);
        }
        self.stage
    }

    /// The processor has run.
    ///
    /// A result moves on to the next processor, or completes the segment. An
    /// error ends the segment's processing; its file is removed unless it is
    /// already gone or the error is transient.
    pub fn finished(self, result: StageResult) -> (res: (Next, Option<SegmentMetrics>))
        ensures
            self@.0.valid(),
            0 <= self@.1 < self@.0.processors.len(),
            (res.0@, report_view(res.1)) == after_stage(
                self@.0,
                self@.1,
                stage_result_view(result),
            ),
    {
        proof {
            use_type_invariant(&self);
            use_type_invariant(&self.batch);
        }
        let name: &'static str = self.batch.processors[self.stage];
        match result {
            Ok(data) => {
                let mut data = data;
                data.metrics.record(name, Outcome::Success);
                if self.stage < self.batch.processors.len() - 1 {
                    let stage: usize = self.stage + 1;
                    (Next::Stage(AwaitingStage { batch: self.batch, stage }, data), None)
                } else {
                    data.metrics.end(Outcome::Success);
                    (self.batch.advance(), Some(data.metrics))
                }
            },
            Err(error) => {
                let mut metrics = error.data.metrics;
                metrics.record(name, Outcome::Failure);
                metrics.end(Outcome::Failure);
                match error.kind.disposition() {
                    Disposition::Remove => (
                        Next::Remove(AwaitingRemoval { batch: self.batch, metrics }),
                        None,
                    ),
                    _ => (self.batch.advance(), Some(metrics)),
                }
            },
        }
    }
}

impl AwaitingRemoval {
    /// The file to remove.
    pub fn path(&self) -> (res: &str)
        ensures
            self@.0.valid(),
            res@ == self@.0.current().path,
    {
        proof {
            use_type_invariant(&self.batch);
        }
        self.batch.segments[self.batch.at].path.as_str()
    }

    /// The removal was attempted. Whether it succeeded makes no difference: the
    /// segment's metrics are complete and the next segment follows.
    pub fn attempted(self) -> (res: (Next, SegmentMetrics))
        ensures
            self@.0.valid(),
            res.0@ == self@.0.advance(),
            res.1@ == self@.1,
    {
        proof {
            use_type_invariant(&self.batch);
        }
        (self.batch.advance(), self.metrics)
    }
}

/// A scan with segments, for a worker with processors, leads to the first segment
/// being read, with all segments and all processors in their order, however many
/// there are.
pub proof fn law_batch_holds_everything(
    segments: Seq<SealedSegment>,
    processors: Seq<&'static str>,
)
    requires
        segments.len() > 0,
        processors.len() > 0,
    ensures
        ({
            let next = begun(segment_views(segments), name_views(processors));
            &&& next is Read
            &&& next->Read_batch.at == 0
            &&& next->Read_batch.segments.len() == segments.len()
            &&& next->Read_batch.processors.len() == processors.len()
            &&& forall|i: int|
                0 <= i < segments.len() ==> {
                    &&& (#[trigger] next->Read_batch.segments[i]).path == segments[i].path@
                    &&& next->Read_batch.segments[i].index == segments[i].index
                }
            &&& forall|i: int|
                0 <= i < processors.len() ==> #[trigger] next->Read_batch.processors[i]
                    == processors[i]@
        }),
{
}

/// Without segments or without processors nothing is done.
pub proof fn law_nothing_to_do(segments: Seq<SealedSegmentView>, processors: Seq<Seq<char>>)
    requires
        segments.len() == 0 || processors.len() == 0,
    ensures
        begun(segments, processors) is Finished,
{
}

/// The segments follow each other without a gap: the next one is read with the same
/// segments and processors, and behind the last one the batch is finished.
pub proof fn law_next_segment_follows(batch: BatchView)
    ensures
        batch.at < batch.segments.len() - 1 ==> {
            &&& batch.advance() is Read
            &&& batch.advance()->Read_batch.at == batch.at + 1
            &&& batch.advance()->Read_batch.segments == batch.segments
            &&& batch.advance()->Read_batch.processors == batch.processors
        },
        batch.at >= batch.segments.len() - 1 ==> batch.advance() is Finished,
        0 <= batch.at < batch.segments.len() ==> batch.current() == batch.segments[batch.at],
{
}

/// The processors follow each other without a gap: a result goes to the next one as
/// it is, but for the record of the run. Behind the last one the segment is reported
/// as a success, with that run recorded, and is done with.
pub proof fn law_result_goes_to_next_processor(batch: BatchView, stage: int, data: SegmentDataView)
    requires
        0 <= stage < batch.processors.len(),
    ensures
        ({
            let (next, report) = after_stage(batch, stage, Ok(data));
            stage < batch.processors.len() - 1 ==> {
                &&& report is None
                &&& next is Stage
                &&& next->Stage_batch == batch
                &&& next->stage == stage + 1
                &&& next->data.segment == data.segment
                &&& next->data.bytes == data.bytes
                &&& next->data.metadata == data.metadata
                &&& next->data.metrics.status == data.metrics.status
                &&& next->data.metrics.compressed_size == data.metrics.compressed_size
                &&& next->data.metrics.uncompressed_size == data.metrics.uncompressed_size
                &&& next->data.metrics.segment_index == data.metrics.segment_index
                &&& next->data.metrics.invalid_file_header == data.metrics.invalid_file_header
                &&& data.metrics.pipeline.is_prefix_of(next->data.metrics.pipeline)
                &&& next->data.metrics.pipeline.len() == data.metrics.pipeline.len() + 1
                &&& next->data.metrics.pipeline.last().name == batch.processors[stage]
                &&& next->data.metrics.pipeline.last().outcome == Outcome::Success
            }
        }),
        ({
            let (next, report) = after_stage(batch, stage, Ok(data));
            stage == batch.processors.len() - 1 ==> {
                &&& next == batch.advance()
                &&& report is Some
                &&& report->0.status == Some(Outcome::Success)
                &&& report->0.compressed_size == data.metrics.compressed_size
                &&& report->0.uncompressed_size == data.metrics.uncompressed_size
                &&& report->0.segment_index == data.metrics.segment_index
                &&& report->0.invalid_file_header == data.metrics.invalid_file_header
                &&& data.metrics.pipeline.is_prefix_of(report->0.pipeline)
                &&& report->0.pipeline.len() == data.metrics.pipeline.len() + 1
                &&& report->0.pipeline.last().name == batch.processors[stage]
                &&& report->0.pipeline.last().outcome == Outcome::Success
            }
        }),
{
}

/// An error ends a segment's processing, at whatever processor. Its file is removed
/// unless it is missing or the transfer may be tried again; either way the metrics
/// say that this processor, and with it the segment, failed.
pub proof fn law_error_ends_segment(batch: BatchView, stage: int, error: ProcessErrorView)
    requires
        0 <= stage < batch.processors.len(),
    ensures
        ({
            let (next, report) = after_stage(batch, stage, Err(error));
            let keeps = match error.kind {
                crate::error::ProcessErrorKindView::Io(failure) => failure.kind
                    == crate::error::IoErrorKind::NotFound,
                crate::error::ProcessErrorKindView::Transfer { retryable, .. } => retryable,
            };
            let metrics = if keeps {
                report->0
            } else {
                next->metrics
            };
            &&& keeps ==> next == batch.advance() && report is Some
            &&& !keeps ==> next is Remove && next->Remove_batch == batch && report is None
            &&& metrics.status == Some(Outcome::Failure)
            &&& metrics.compressed_size == error.data.metrics.compressed_size
            &&& metrics.uncompressed_size == error.data.metrics.uncompressed_size
            &&& metrics.segment_index == error.data.metrics.segment_index
            &&& metrics.invalid_file_header == error.data.metrics.invalid_file_header
            &&& error.data.metrics.pipeline.is_prefix_of(metrics.pipeline)
            &&& metrics.pipeline.len() == error.data.metrics.pipeline.len() + 1
            &&& metrics.pipeline.last().name == batch.processors[stage]
            &&& metrics.pipeline.last().outcome == Outcome::Failure
        }),
{
}

/// The view of a report shows it where there is one.
pub proof fn law_view_shows_report(metrics: SegmentMetrics)
    ensures
        report_view(Some(metrics)) == Some(metrics@),
        report_view(None) is None,
{
}

/// The view of a step tells the steps apart and shows what each waits for.
pub proof fn law_view_shows_step(next: Next)
    ensures
        match next {
            Next::Read(pending) => next@ is Read && next@->Read_batch == pending@,
            Next::Stage(pending, data) => {
                &&& next@ is Stage
                &&& next@->Stage_batch == pending@.0
                &&& next@->stage == pending@.1
                &&& next@->data == data@
            },
            Next::Remove(pending) => {
                &&& next@ is Remove
                &&& next@->Remove_batch == pending@.0
                &&& next@->metrics == pending@.1
            },
            Next::Finished => next@ is Finished,
        },
{
}

} // verus!
