//! Symbolization of segments: symbol tables are appended to the trace.

use crate::error::{IoErrorKind, IoFailure, IoFailureView, ProcessErrorKind};
use crate::gzip::{is_gzip, job_error, starts_as_gzip};
use crate::segment::{
    stage_result_view, ProcessError, ProcessErrorView, SegmentData, SegmentDataView, StageResult,
};
use vstd::prelude::*;

verus! {

/// Where symbolization of a segment stands.
pub enum SymbolizeStep {
    /// The segment is compressed, so it is passed over.
    Skip(SegmentData),
    /// The trace is to be symbolized; the data waits without it.
    Symbolize { data: SegmentData, input: Vec<u8> },
}

/// What the symbolization job came to.
#[derive(Debug)]
pub enum SymbolizeOutcome {
    /// It gave the trace with the symbol tables behind it.
    Done(Vec<u8>),
    /// It gave an I/O error, and the trace back as it was.
    Failed { input: Vec<u8>, failure: IoFailure },
    /// It did not return: it panicked or was cancelled. The trace is gone with it.
    Lost(String),
}

pub enum SymbolizeOutcomeView {
    Done(Seq<u8>),
    Failed { input: Seq<u8>, failure: IoFailureView },
    Lost(Seq<char>),
}

impl View for SymbolizeOutcome {
    type V = SymbolizeOutcomeView;

    open spec fn view(&self) -> SymbolizeOutcomeView {
        match *self {
            SymbolizeOutcome::Done(bytes) => SymbolizeOutcomeView::Done(bytes@),
            SymbolizeOutcome::Failed { input, failure } => SymbolizeOutcomeView::Failed {
                input: input@,
                failure: failure@,
            },
            SymbolizeOutcome::Lost(message) => SymbolizeOutcomeView::Lost(message@),
        }
    }
}

/// What symbolization makes of a segment, given the data that waited without its
/// bytes and what the symbolization job came to. A failure preserves the original
/// bytes; only a job that did not return leaves the segment without any.
pub open spec fn symbolized(waiting: SegmentDataView, outcome: SymbolizeOutcomeView) -> Result<
    SegmentDataView,
    ProcessErrorView,
> {
    match outcome {
        SymbolizeOutcomeView::Done(bytes) => Ok(waiting.with_bytes(bytes)),
        SymbolizeOutcomeView::Failed { input, failure } => Err(
            job_error(waiting.with_bytes(input), failure),
        ),
        SymbolizeOutcomeView::Lost(message) => Err(
            job_error(waiting, IoFailureView { kind: IoErrorKind::Other, message }),
        ),
    }
}

/// Resolves stack frame addresses to symbol names.
#[derive(Clone, Copy, Debug)]
pub struct SymbolizeProcessor;

impl SymbolizeProcessor {
    /// Human-readable name, used in metrics.
    pub fn name(&self) -> (res: &'static str)
        ensures
            res@ == "Symbolize"@,
    {
        "Symbolize"
    }

    /// Takes the trace out for symbolization, unless it is compressed.
    pub fn begin(&self, data: SegmentData) -> (res: SymbolizeStep)
        ensures
            match res {
                SymbolizeStep::Skip(skipped) => {
                    &&& is_gzip(data@.bytes)
                    &&& data@.bytes.len() >= 2 && data@.bytes[0] == 0x1f && data@.bytes[1] == 0x8b
                    &&& skipped == data
                },
                SymbolizeStep::Symbolize { data: waiting, input } => {
                    &&& !is_gzip(data@.bytes)
                    &&& data@.bytes.len() < 2 || data@.bytes[0] != 0x1f || data@.bytes[1] != 0x8b
                    &&& input@ == data@.bytes
                    &&& waiting@ == data@.with_bytes(Seq::empty())
                },
            },
    {
        if starts_as_gzip(data.bytes.as_slice()) {
            SymbolizeStep::Skip(data)
        } else {
            let mut data = data;
            let mut input: Vec<u8> = Vec::new();
            std::mem::swap(&mut input, &mut data.bytes);
            SymbolizeStep::Symbolize { data, input }
        }
    }

    /// Puts the symbol tables behind the trace they belong to.
    pub fn append_symbols(&self, input: Vec<u8>, symbols: Vec<u8>) -> (res: Vec<u8>)
        ensures
            res@ == input@ + symbols@,
    {
        let mut combined = input;
        let mut symbols = symbols;
        combined.append(&mut symbols);
        combined
    }

    /// Takes up what the symbolization job came to. The segment on which it failed
    /// has its original bytes again; the one whose job did not return has none.
    pub fn complete(&self, data: SegmentData, outcome: SymbolizeOutcome) -> (res: StageResult)
        ensures
            stage_result_view(res) == symbolized(data@, outcome@),
    {
        let mut data = data;
        match outcome {
            SymbolizeOutcome::Done(bytes) => {
                data.bytes = bytes;
                Ok(data)
            },
            SymbolizeOutcome::Failed { input, failure } => {
                data.bytes = input;
                Err(ProcessError { data, kind: ProcessErrorKind::from(failure) })
            },
            SymbolizeOutcome::Lost(message) => Err(
                ProcessError { data, kind: ProcessErrorKind::from(IoFailure::other(message)) },
            ),
        }
    }
}

/// Symbolization keeps the trace: the segment's bytes are the trace as it was,
/// with the symbol tables behind it, and nothing else of the data changes.
pub proof fn law_symbolization_keeps_trace(data: SegmentDataView, symbols: Seq<u8>)
    ensures
        ({
            let waiting = data.with_bytes(Seq::empty());
            let done = symbolized(waiting, SymbolizeOutcomeView::Done(data.bytes + symbols));
            &&& done matches Ok(result) && result == data.with_bytes(data.bytes + symbols)
                && data.bytes.is_prefix_of(result.bytes)
        }),
{
    assert(data.bytes =~= (data.bytes + symbols).subrange(0, data.bytes.len() as int));
}

/// A failed symbolization preserves the segment: the error carries the data as it
/// was before, its original bytes included.
pub proof fn law_failed_symbolization_preserves_segment(
    data: SegmentDataView,
    failure: IoFailureView,
)
    ensures
        ({
            let waiting = data.with_bytes(Seq::empty());
            let outcome = SymbolizeOutcomeView::Failed { input: data.bytes, failure };
            symbolized(waiting, outcome) == Err::<SegmentDataView, ProcessErrorView>(
                job_error(data, failure),
            )
        }),
{
}

/// Whatever symbolization came to, segment, notes and metrics are as they were.
/// Bytes come back where the job gave some, and an error's kind and text are those
/// of the job.
pub proof fn law_symbolization_outcome(waiting: SegmentDataView, outcome: SymbolizeOutcomeView)
    ensures
        match outcome {
            SymbolizeOutcomeView::Done(bytes) => {
                &&& symbolized(waiting, outcome) is Ok
                &&& symbolized(waiting, outcome)->Ok_0.bytes == bytes
                &&& symbolized(waiting, outcome)->Ok_0.segment == waiting.segment
                &&& symbolized(waiting, outcome)->Ok_0.metadata == waiting.metadata
                &&& symbolized(waiting, outcome)->Ok_0.metrics == waiting.metrics
            },
            SymbolizeOutcomeView::Failed { input, failure } => {
                &&& symbolized(waiting, outcome) is Err
                &&& symbolized(waiting, outcome)->Err_0.data.bytes == input
                &&& symbolized(waiting, outcome)->Err_0.data.segment == waiting.segment
                &&& symbolized(waiting, outcome)->Err_0.data.metadata == waiting.metadata
                &&& symbolized(waiting, outcome)->Err_0.data.metrics == waiting.metrics
                &&& symbolized(waiting, outcome)->Err_0.kind is Io
                &&& symbolized(waiting, outcome)->Err_0.kind->Io_0 == failure
            },
            SymbolizeOutcomeView::Lost(message) => {
                &&& symbolized(waiting, outcome) is Err
                &&& symbolized(waiting, outcome)->Err_0.data == waiting
                &&& symbolized(waiting, outcome)->Err_0.kind is Io
                &&& symbolized(waiting, outcome)->Err_0.kind->Io_0.kind == IoErrorKind::Other
                &&& symbolized(waiting, outcome)->Err_0.kind->Io_0.message == message
            },
        },
{
}

/// The view of an outcome shows what the job gave.
pub proof fn law_view_shows_symbolization(outcome: SymbolizeOutcome)
    ensures
        match outcome {
            SymbolizeOutcome::Done(bytes) => outcome@ == SymbolizeOutcomeView::Done(bytes@),
            SymbolizeOutcome::Failed { input, failure } => {
                &&& outcome@ is Failed
                &&& outcome@->input == input@
                &&& outcome@->failure.kind == failure.kind
                &&& outcome@->failure.message == failure.message@
            },
            SymbolizeOutcome::Lost(message) => outcome@ == SymbolizeOutcomeView::Lost(message@),
        },
{
}

} // verus!
