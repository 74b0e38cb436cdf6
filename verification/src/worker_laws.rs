//! What a whole batch of segments comes to, whatever the files hold and whatever
//! the processors make of them.

use crate::error::Disposition;
use crate::segment::{
    initial_data, Outcome, ProcessErrorView, SealedSegment, SealedSegmentView, SegmentDataView,
    SegmentMetricsView, StageRecordView,
};
use crate::worker::{after_stage, begun, name_views, segment_views, BatchView, NextView};
use crate::worker_loop::scanned;
use vstd::prelude::*;

verus! {

/// What the segment's file gives when read: its bytes, the creation time and
/// whether its header is valid; `None` where it cannot be read.
pub type Contents = spec_fn(int) -> Option<(Seq<u8>, u64, bool)>;

/// What a processor makes of a segment's data: by segment, processor and data.
pub type Processing = spec_fn(int, int, SegmentDataView) -> Result<
    SegmentDataView,
    ProcessErrorView,
>;

/// What the worker does to the outside.
pub enum Effect {
    /// A segment's file is removed.
    Removed { path: Seq<char> },
    /// A segment's metrics are complete.
    Reported { metrics: SegmentMetricsView },
}

/// The effects of the processors from `stage` on, on the segment under way.
pub open spec fn stage_effects(
    batch: BatchView,
    stage: int,
    data: SegmentDataView,
    processing: Processing,
) -> Seq<Effect>
    decreases batch.processors.len() - stage,
{
    if !(0 <= stage < batch.processors.len()) {
        seq![]
    } else {
        match processing(batch.at, stage, data) {
            Ok(next) => {
                let metrics = next.metrics.recorded(batch.processors[stage], Outcome::Success);
                if stage + 1 < batch.processors.len() {
                    stage_effects(batch, stage + 1, next.with_metrics(metrics), processing)
                } else {
                    seq![Effect::Reported { metrics: metrics.ended(Outcome::Success) }]
                }
            },
            Err(error) => {
                let metrics = error.data.metrics.recorded(
                    batch.processors[stage],
                    Outcome::Failure,
                ).ended(Outcome::Failure);
                if error.kind.disposition() == Disposition::Remove {
                    seq![
                        Effect::Removed { path: batch.current().path },
                        Effect::Reported { metrics },
                    ]
                } else {
                    seq![Effect::Reported { metrics }]
                }
            },
        }
    }
}

/// The effects of the segment under way.
pub open spec fn segment_effects(
    batch: BatchView,
    contents: Contents,
    processing: Processing,
) -> Seq<Effect> {
    match contents(batch.at) {
        None => seq![],
        Some((bytes, epoch_secs, header_valid)) => stage_effects(
            batch,
            0,
            initial_data(batch.current(), bytes, epoch_secs, header_valid),
            processing,
        ),
    }
}

/// The effects of the segments from `at` on, one segment after the other.
pub open spec fn effects_from(
    segments: Seq<SealedSegmentView>,
    processors: Seq<Seq<char>>,
    at: int,
    contents: Contents,
    processing: Processing,
) -> Seq<Effect>
    decreases segments.len() - at,
{
    if 0 <= at < segments.len() {
        segment_effects(BatchView { segments, processors, at }, contents, processing)
            + effects_from(segments, processors, at + 1, contents, processing)
    } else {
        seq![]
    }
}

/// How many segments are not done with.
pub open spec fn segments_left(next: NextView) -> int {
    match next {
        NextView::Read { batch } => batch.segments.len() - batch.at,
        NextView::Stage { batch, .. } => batch.segments.len() - batch.at,
        NextView::Remove { batch, .. } => batch.segments.len() - batch.at,
        NextView::Finished => 0,
    }
}

/// How many steps the segment under way can still take.
pub open spec fn steps_left(next: NextView) -> int {
    match next {
        NextView::Read { batch } => batch.processors.len() as int + 2,
        NextView::Stage { batch, stage, .. } => batch.processors.len() - stage + 1,
        NextView::Remove { .. } => 0,
        NextView::Finished => 0,
    }
}

/// The step stands for a segment and a processor that exist.
pub open spec fn sound(next: NextView) -> bool {
    match next {
        NextView::Read { batch } => batch.valid(),
        NextView::Stage { batch, stage, .. } => batch.valid() && 0 <= stage
            < batch.processors.len(),
        NextView::Remove { batch, .. } => batch.valid(),
        NextView::Finished => true,
    }
}

/// The effects of carrying out every step from `next` on.
pub open spec fn carried_out(
    next: NextView,
    contents: Contents,
    processing: Processing,
) -> Seq<Effect>
    decreases segments_left(next), steps_left(next),
{
    if !sound(next) {
        seq![]
    } else {
        match next {
            NextView::Read { batch } => match contents(batch.at) {
                None => carried_out(batch.advance(), contents, processing),
                Some((bytes, epoch_secs, header_valid)) => carried_out(
                    NextView::Stage {
                        batch,
                        stage: 0,
                        data: initial_data(batch.current(), bytes, epoch_secs, header_valid),
                    },
                    contents,
                    processing,
                ),
            },
            NextView::Stage { batch, stage, data } => {
                let (following, report) = after_stage(
                    batch,
                    stage,
                    processing(batch.at, stage, data),
                );
                let reported = match report {
                    Some(metrics) => seq![Effect::Reported { metrics }],
                    None => seq![],
                };
                reported + carried_out(following, contents, processing)
            },
            NextView::Remove { batch, metrics } => seq![
                Effect::Removed { path: batch.current().path },
                Effect::Reported { metrics },
            ] + carried_out(batch.advance(), contents, processing),
            NextView::Finished => seq![],
        }
    }
}

proof fn lemma_stages_carried_out(
    batch: BatchView,
    stage: int,
    data: SegmentDataView,
    contents: Contents,
    processing: Processing,
)
    requires
        batch.valid(),
        0 <= stage < batch.processors.len(),
    ensures
        carried_out(NextView::Stage { batch, stage, data }, contents, processing) == stage_effects(
            batch,
            stage,
            data,
            processing,
        ) + carried_out(batch.advance(), contents, processing),
    decreases batch.processors.len() - stage,
{
    reveal_with_fuel(carried_out, 2);
    let next = NextView::Stage { batch, stage, data };
    let rest = carried_out(batch.advance(), contents, processing);
    let (following, report) = after_stage(batch, stage, processing(batch.at, stage, data));
    match processing(batch.at, stage, data) {
        Ok(result) => {
            let metrics = result.metrics.recorded(batch.processors[stage], Outcome::Success);
            if stage + 1 < batch.processors.len() {
                lemma_stages_carried_out(
                    batch,
                    stage + 1,
                    result.with_metrics(metrics),
                    contents,
                    processing,
                );
                assert(carried_out(next, contents, processing) =~= carried_out(
                    following,
                    contents,
                    processing,
                ));
            } else {
                assert(carried_out(next, contents, processing) =~= stage_effects(
                    batch,
                    stage,
                    data,
                    processing,
                ) + rest);
            }
        },
        Err(error) => {
            assert(carried_out(next, contents, processing) =~= stage_effects(
                batch,
                stage,
                data,
                processing,
            ) + rest);
        },
    }
}

proof fn lemma_batch_carried_out(batch: BatchView, contents: Contents, processing: Processing)
    requires
        batch.valid(),
    ensures
        carried_out(NextView::Read { batch }, contents, processing) == effects_from(
            batch.segments,
            batch.processors,
            batch.at,
            contents,
            processing,
        ),
    decreases batch.segments.len() - batch.at,
{
    let rest = carried_out(batch.advance(), contents, processing);
    let following = BatchView { at: batch.at + 1, ..batch };
    if batch.at + 1 < batch.segments.len() {
        lemma_batch_carried_out(following, contents, processing);
    }
    assert(rest == effects_from(
        batch.segments,
        batch.processors,
        batch.at + 1,
        contents,
        processing,
    ));
    assert(batch == BatchView {
        segments: batch.segments,
        processors: batch.processors,
        at: batch.at,
    });
    match contents(batch.at) {
        None => {
            assert(carried_out(NextView::Read { batch }, contents, processing) =~= segment_effects(
                batch,
                contents,
                processing,
            ) + rest);
        },
        Some((bytes, epoch_secs, header_valid)) => {
            lemma_stages_carried_out(
                batch,
                0,
                initial_data(batch.current(), bytes, epoch_secs, header_valid),
                contents,
                processing,
            );
        },
    }
}

/// Segments are processed one after the other and independently: what is done
/// for a segment is what is done for it alone, whatever became of the ones
/// before it. No failure keeps a later segment from being processed.
pub proof fn law_segments_are_independent(
    segments: Seq<SealedSegmentView>,
    processors: Seq<Seq<char>>,
    contents: Contents,
    processing: Processing,
)
    requires
        processors.len() > 0,
    ensures
        carried_out(begun(segments, processors), contents, processing) == effects_from(
            segments,
            processors,
            0,
            contents,
            processing,
        ),
{
    if segments.len() > 0 {
        lemma_batch_carried_out(
            BatchView { segments, processors, at: 0 },
            contents,
            processing,
        );
    }
}

/// Without processors nothing is read, removed or reported.
pub proof fn law_no_processors_no_effects(
    segments: Seq<SealedSegmentView>,
    contents: Contents,
    processing: Processing,
)
    ensures
        begun(segments, Seq::empty()) == NextView::Finished,
        carried_out(begun(segments, Seq::empty()), contents, processing) == Seq::<Effect>::empty(),
{
}

/// A processor up to `stage` failed for good, all before it having succeeded.
pub open spec fn fails_for_good(
    batch: BatchView,
    stage: int,
    data: SegmentDataView,
    processing: Processing,
) -> bool
    decreases batch.processors.len() - stage,
{
    0 <= stage < batch.processors.len() && match processing(batch.at, stage, data) {
        Ok(next) => fails_for_good(
            batch,
            stage + 1,
            next.with_metrics(
                next.metrics.recorded(batch.processors[stage], Outcome::Success),
            ),
            processing,
        ),
        Err(error) => !error.kind.already_deleted() && !error.kind.retryable(),
    }
}

/// A segment that was read is reported exactly once, as the last thing done for
/// it. Its file is removed exactly when a processor failed on it for good: not
/// when the file was evicted, and not when the failure was transient. No other
/// file is touched.
pub proof fn law_removed_only_on_permanent_failure(
    batch: BatchView,
    stage: int,
    data: SegmentDataView,
    processing: Processing,
)
    requires
        batch.valid(),
        0 <= stage < batch.processors.len(),
    ensures
        ({
            let effects = stage_effects(batch, stage, data, processing);
            &&& effects.len() > 0
            &&& effects.last() is Reported
            &&& fails_for_good(batch, stage, data, processing) ==> effects.len() == 2 && effects[0]
                == (Effect::Removed { path: batch.current().path })
            &&& !fails_for_good(batch, stage, data, processing) ==> effects.len() == 1
        }),
    decreases batch.processors.len() - stage,
{
    reveal_with_fuel(fails_for_good, 2);
    match processing(batch.at, stage, data) {
        Ok(next) => {
            if stage + 1 < batch.processors.len() {
                law_removed_only_on_permanent_failure(
                    batch,
                    stage + 1,
                    next.with_metrics(
                        next.metrics.recorded(batch.processors[stage], Outcome::Success),
                    ),
                    processing,
                );
            }
        },
        Err(error) => {},
    }
}

/// The processors leave the record of the ones before them alone.
pub open spec fn keeps_record(processing: Processing) -> bool {
    forall|at: int, stage: int, data: SegmentDataView|
        match #[trigger] processing(at, stage, data) {
            Ok(next) => next.metrics.pipeline == data.metrics.pipeline,
            Err(error) => error.data.metrics.pipeline == data.metrics.pipeline,
        }
}

/// The record names the first processors in order, each of which succeeded but
/// for the last, which ended as `outcome` says.
pub open spec fn records(
    pipeline: Seq<StageRecordView>,
    processors: Seq<Seq<char>>,
    outcome: Outcome,
) -> bool {
    &&& 0 < pipeline.len() <= processors.len()
    &&& forall|i: int|
        #![trigger pipeline[i]]
        0 <= i < pipeline.len() ==> pipeline[i].name == processors[i]
    &&& forall|i: int|
        #![trigger pipeline[i]]
        0 <= i < pipeline.len() - 1 ==> pipeline[i].outcome == Outcome::Success
    &&& pipeline.last().outcome == outcome
}

/// A report says how the segment ended and lists the processors that ran: all of
/// them where it succeeded; where it failed, those up to the one that failed.
pub proof fn law_report_lists_processors(
    batch: BatchView,
    stage: int,
    data: SegmentDataView,
    processing: Processing,
)
    requires
        batch.valid(),
        0 <= stage < batch.processors.len(),
        keeps_record(processing),
        data.metrics.pipeline.len() == stage,
        forall|i: int|
            #![trigger data.metrics.pipeline[i]]
            0 <= i < stage ==> data.metrics.pipeline[i] == (StageRecordView {
                name: batch.processors[i],
                outcome: Outcome::Success,
            }),
    ensures
        ({
            let report = stage_effects(batch, stage, data, processing).last();
            &&& report is Reported
            &&& report->metrics.status matches Some(outcome) && records(
                report->metrics.pipeline,
                batch.processors,
                outcome,
            )
            &&& report->metrics.status == Some(Outcome::Success)
                ==> report->metrics.pipeline.len() == batch.processors.len()
        }),
    decreases batch.processors.len() - stage,
{
    match processing(batch.at, stage, data) {
        Ok(next) => {
            let metrics = next.metrics.recorded(batch.processors[stage], Outcome::Success);
            if stage + 1 < batch.processors.len() {
                law_report_lists_processors(
                    batch,
                    stage + 1,
                    next.with_metrics(metrics),
                    processing,
                );
            } else {
                assert(records(metrics.pipeline, batch.processors, Outcome::Success));
            }
        },
        Err(error) => {
            let metrics = error.data.metrics.recorded(batch.processors[stage], Outcome::Failure);
            assert(records(metrics.pipeline, batch.processors, Outcome::Failure));
        },
    }
}

/// Every processor succeeds on every segment and leaves the record of the ones
/// before it alone.
pub open spec fn always_succeeds(processing: Processing) -> bool {
    forall|at: int, stage: int, data: SegmentDataView|
        match #[trigger] processing(at, stage, data) {
            Ok(next) => next.metrics.pipeline == data.metrics.pipeline,
            Err(_) => false,
        }
}

/// The effect is the report of a success with one record for each of the worker's
/// processors, in order.
pub open spec fn reports_all(effect: Effect, processors: Seq<&'static str>) -> bool {
    &&& effect is Reported
    &&& effect->metrics.status == Some(Outcome::Success)
    &&& effect->metrics.pipeline.len() == processors.len()
    &&& forall|i: int|
        0 <= i < processors.len() ==> {
            &&& (#[trigger] effect->metrics.pipeline[i]).name == processors[i]@
            &&& effect->metrics.pipeline[i].outcome == Outcome::Success
        }
}

proof fn lemma_success_is_reported(
    batch: BatchView,
    stage: int,
    data: SegmentDataView,
    processing: Processing,
)
    requires
        batch.valid(),
        0 <= stage < batch.processors.len(),
        always_succeeds(processing),
        data.metrics.pipeline.len() == stage,
    ensures
        stage_effects(batch, stage, data, processing).len() == 1,
        stage_effects(batch, stage, data, processing)[0] is Reported,
        stage_effects(batch, stage, data, processing)[0]->metrics.status == Some(
            Outcome::Success,
        ),
    decreases batch.processors.len() - stage,
{
    if let Ok(next) = processing(batch.at, stage, data) {
        let metrics = next.metrics.recorded(batch.processors[stage], Outcome::Success);
        if stage + 1 < batch.processors.len() {
            lemma_success_is_reported(batch, stage + 1, next.with_metrics(metrics), processing);
        }
    }
}

proof fn lemma_all_reported(
    segments: Seq<SealedSegment>,
    processors: Seq<&'static str>,
    at: int,
    contents: Contents,
    processing: Processing,
)
    requires
        processors.len() > 0,
        0 <= at <= segments.len(),
        always_succeeds(processing),
        forall|i: int| 0 <= i < segments.len() ==> #[trigger] contents(i) is Some,
    ensures
        ({
            let effects = effects_from(
                segment_views(segments),
                name_views(processors),
                at,
                contents,
                processing,
            );
            &&& effects.len() == segments.len() - at
            &&& forall|i: int|
                0 <= i < effects.len() ==> reports_all(#[trigger] effects[i], processors)
        }),
    decreases segments.len() - at,
{
    if at < segments.len() {
        lemma_all_reported(segments, processors, at + 1, contents, processing);
        let batch = BatchView {
            segments: segment_views(segments),
            processors: name_views(processors),
            at,
        };
        let (bytes, epoch_secs, header_valid) = contents(at)->0;
        let data = initial_data(batch.current(), bytes, epoch_secs, header_valid);
        lemma_success_is_reported(batch, 0, data, processing);
        assert(keeps_record(processing));
        law_report_lists_processors(batch, 0, data, processing);
        let effects = stage_effects(batch, 0, data, processing);
        assert(effects.last() == effects[0]);
        let pipeline = effects[0]->metrics.pipeline;
        assert(records(pipeline, batch.processors, Outcome::Success));
        assert forall|i: int| 0 <= i < processors.len() implies {
            &&& (#[trigger] pipeline[i]).name == processors[i]@
            &&& pipeline[i].outcome == Outcome::Success
        } by {}
        assert(reports_all(effects[0], processors));
    }
}

/// Where every file can be read and every processor succeeds, every segment of a
/// scan is reported exactly once and in order, as a success with one record for each
/// of the worker's processors. Nothing is removed.
pub proof fn law_success_runs_every_processor(
    segments: Seq<SealedSegment>,
    processors: Seq<&'static str>,
    contents: Contents,
    processing: Processing,
)
    requires
        processors.len() > 0,
        always_succeeds(processing),
        forall|i: int| 0 <= i < segments.len() ==> #[trigger] contents(i) is Some,
    ensures
        ({
            let next = scanned(Some(segments), processors).1;
            let effects = carried_out(next, contents, processing);
            &&& effects.len() == segments.len()
            &&& forall|i: int|
                0 <= i < effects.len() ==> reports_all(#[trigger] effects[i], processors)
        }),
{
    law_segments_are_independent(
        segment_views(segments),
        name_views(processors),
        contents,
        processing,
    );
    lemma_all_reported(segments, processors, 0, contents, processing);
}

} // verus!
