//! Why a segment could not be processed, and what follows for its file.

use vstd::prelude::*;

verus! {

/// The part of an I/O error's kind that the pipeline acts on.
#[derive(Clone, Copy, Debug, PartialEq, Eq, Structural)]
pub enum IoErrorKind {
    /// The file is not there.
    NotFound,
    /// Any other kind.
    Other,
}

/// An I/O error: its kind and its text.
#[derive(Debug)]
pub struct IoFailure {
    pub kind: IoErrorKind,
    pub message: String,
}

pub struct IoFailureView {
    pub kind: IoErrorKind,
    pub message: Seq<char>,
}

impl View for IoFailure {
    type V = IoFailureView;

    open spec fn view(&self) -> IoFailureView {
        IoFailureView { kind: self.kind, message: self.message@ }
    }
}

impl IoFailure {
    /// An error that is no missing file.
    pub fn other(message: String) -> (res: IoFailure)
        ensures
            res@ == (IoFailureView { kind: IoErrorKind::Other, message: message@ }),
    {
        IoFailure { kind: IoErrorKind::Other, message }
    }
}

/// The category that the S3 transfer client gives an error.
#[derive(Clone, Copy, Debug, PartialEq, Eq, Structural)]
pub enum TransferErrorKind {
    InputInvalid,
    IoError,
    RuntimeError,
    ObjectNotDiscoverable,
    ChunkFailed,
    NotFound,
    ChildOperationFailed,
    OperationCancelled,
    /// A category that is not listed here.
    Unknown,
}

/// An error of the S3 transfer client: its category and its text.
#[derive(Debug)]
pub struct TransferFailure {
    pub kind: TransferErrorKind,
    pub message: String,
}

/// A transfer that failed this way may succeed when tried again.
pub open spec fn transient(kind: TransferErrorKind) -> bool {
    ||| kind == TransferErrorKind::IoError
    ||| kind == TransferErrorKind::RuntimeError
    ||| kind == TransferErrorKind::ChildOperationFailed
    ||| kind == TransferErrorKind::ChunkFailed
}

/// Why a processor failed.
#[derive(Debug)]
pub enum ProcessErrorKind {
    /// Reading, writing or compressing failed.
    Io(IoFailure),
    /// The upload failed, or was not attempted.
    Transfer { source: String, retryable: bool },
}

pub enum ProcessErrorKindView {
    Io(IoFailureView),
    Transfer { source: Seq<char>, retryable: bool },
}

impl View for ProcessErrorKind {
    type V = ProcessErrorKindView;

    open spec fn view(&self) -> ProcessErrorKindView {
        match *self {
            ProcessErrorKind::Io(failure) => ProcessErrorKindView::Io(failure@),
            ProcessErrorKind::Transfer { source, retryable } => ProcessErrorKindView::Transfer {
                source: source@,
                retryable,
            },
        }
    }
}

/// What becomes of a segment's file after a processor failed on it.
#[derive(Clone, Copy, Debug, PartialEq, Eq, Structural)]
pub enum Disposition {
    /// The file is already gone.
    Gone,
    /// The file stays, to be tried again.
    Keep,
    /// The file is removed.
    Remove,
}

impl ProcessErrorKindView {
    /// The segment's file was evicted.
    pub open spec fn already_deleted(self) -> bool {
        self matches ProcessErrorKindView::Io(failure) && failure.kind == IoErrorKind::NotFound
    }

    /// The failure is transient.
    pub open spec fn retryable(self) -> bool {
        self matches ProcessErrorKindView::Transfer { retryable, .. } && retryable
    }

    /// What becomes of the segment's file.
    pub open spec fn disposition(self) -> Disposition {
        if self.already_deleted() {
            Disposition::Gone
        } else if self.retryable() {
            Disposition::Keep
        } else {
            Disposition::Remove
        }
    }

    /// The text of the underlying error.
    pub open spec fn source(self) -> Seq<char> {
        match self {
            ProcessErrorKindView::Io(failure) => failure.message,
            ProcessErrorKindView::Transfer { source, .. } => source,
        }
    }

    /// The error in words.
    pub open spec fn message(self) -> Seq<char> {
        match self {
            ProcessErrorKindView::Io(failure) => "I/O error: "@ + failure.message,
            ProcessErrorKindView::Transfer { source, .. } => "S3 transfer error: "@ + source,
        }
    }
}

impl ProcessErrorKind {
    /// Whether the segment's file was evicted before it could be processed.
    pub fn already_deleted(&self) -> (res: bool)
        ensures
            res == self@.already_deleted(),
    {
        match self {
            ProcessErrorKind::Io(failure) => match failure.kind {
                IoErrorKind::NotFound => true,
                IoErrorKind::Other => false,
            },
            ProcessErrorKind::Transfer { .. } => false,
        }
    }

    /// Whether this error is transient and the segment should be kept on disk
    /// for retry.
    pub fn retryable(&self) -> (res: bool)
        ensures
            res == self@.retryable(),
    {
        match self {
            ProcessErrorKind::Io(_) => false,
            ProcessErrorKind::Transfer { retryable, .. } => *retryable,
        }
    }

    /// What becomes of the segment's file.
    pub fn disposition(&self) -> (res: Disposition)
        ensures
            res == self@.disposition(),
    {
        if self.already_deleted() {
            Disposition::Gone
        } else if self.retryable() {
            Disposition::Keep
        } else {
            Disposition::Remove
        }
    }

    /// The text of the underlying error.
    pub fn source(&self) -> (res: &str)
        ensures
            res@ == self@.source(),
    {
        match self {
            ProcessErrorKind::Io(failure) => failure.message.as_str(),
            ProcessErrorKind::Transfer { source, .. } => source.as_str(),
        }
    }

    /// The error in words.
    pub fn message(&self) -> (res: String)
        ensures
            res@ == self@.message(),
    {
        match self {
            ProcessErrorKind::Io(failure) => "I/O error: ".to_owned().concat(
                failure.message.as_str(),
            ),
            ProcessErrorKind::Transfer { source, .. } => "S3 transfer error: ".to_owned().concat(
                source.as_str(),
            ),
        }
    }
}

impl From<IoFailure> for ProcessErrorKind {
    fn from(failure: IoFailure) -> (res: ProcessErrorKind) {
        ProcessErrorKind::Io(failure)
    }
}

impl vstd::std_specs::convert::FromSpecImpl<IoFailure> for ProcessErrorKind {
    open spec fn obeys_from_spec() -> bool {
        true
    }

    open spec fn from_spec(failure: IoFailure) -> ProcessErrorKind {
        ProcessErrorKind::Io(failure)
    }
}

impl From<TransferFailure> for ProcessErrorKind {
    fn from(failure: TransferFailure) -> (res: ProcessErrorKind) {
        let retryable: bool = match failure.kind {
            TransferErrorKind::IoError => true,
            TransferErrorKind::RuntimeError => true,
            TransferErrorKind::ChildOperationFailed => true,
            TransferErrorKind::ChunkFailed => true,
            _ => false,
        };
        ProcessErrorKind::Transfer { source: failure.message, retryable }
    }
}

impl vstd::std_specs::convert::FromSpecImpl<TransferFailure> for ProcessErrorKind {
    open spec fn obeys_from_spec() -> bool {
        true
    }

    open spec fn from_spec(failure: TransferFailure) -> ProcessErrorKind {
        ProcessErrorKind::Transfer { source: failure.message, retryable: transient(failure.kind) }
    }
}

/// An evicted segment is never one to retry: the two answers exclude each other.
pub proof fn law_deleted_is_not_retryable(kind: ProcessErrorKindView)
    ensures
        !(kind.already_deleted() && kind.retryable()),
{
}

/// A segment's file is removed exactly when the error is permanent: no eviction
/// and no failure that a later attempt may mend.
pub proof fn law_removed_iff_permanent(kind: ProcessErrorKindView)
    ensures
        kind.disposition() == Disposition::Remove <==> !kind.already_deleted()
            && !kind.retryable(),
        kind.disposition() == Disposition::Keep <==> kind.retryable(),
        kind.disposition() == Disposition::Gone <==> kind.already_deleted(),
{
}

/// A transient failure of a transfer keeps the segment on disk; any other
/// failure of a transfer removes it.
pub proof fn law_transient_transfer_keeps_segment(failure: TransferFailure)
    ensures
        ({
            let kind = <ProcessErrorKind as vstd::std_specs::convert::FromSpec<
                TransferFailure,
            >>::from_spec(failure);
            kind@.disposition() == if transient(failure.kind) {
                Disposition::Keep
            } else {
                Disposition::Remove
            }
        }),
{
}

/// Only a missing file counts as evicted, and only a transfer that is marked so
/// counts as one to retry. The file is removed in every other case.
pub proof fn law_error_decides_on_file(kind: ProcessErrorKind)
    ensures
        match kind {
            ProcessErrorKind::Io(failure) => {
                &&& kind@.already_deleted() <==> failure.kind == IoErrorKind::NotFound
                &&& !kind@.retryable()
                &&& kind@.disposition() == Disposition::Gone <==> failure.kind
                    == IoErrorKind::NotFound
                &&& kind@.disposition() == Disposition::Remove <==> failure.kind
                    == IoErrorKind::Other
            },
            ProcessErrorKind::Transfer { retryable, .. } => {
                &&& !kind@.already_deleted()
                &&& kind@.retryable() <==> retryable
                &&& kind@.disposition() == Disposition::Keep <==> retryable
                &&& kind@.disposition() == Disposition::Remove <==> !retryable
            },
        },
{
}

/// An error's message is a word on where it came from and then, unchanged, the
/// text of the underlying error.
pub proof fn law_message_ends_with_source(kind: ProcessErrorKind)
    ensures
        match kind {
            ProcessErrorKind::Io(failure) => {
                &&& kind@.source() == failure.message@
                &&& kind@.message().take(11) == "I/O error: "@
                &&& kind@.message().skip(11) == failure.message@
            },
            ProcessErrorKind::Transfer { source, .. } => {
                &&& kind@.source() == source@
                &&& kind@.message().take(19) == "S3 transfer error: "@
                &&& kind@.message().skip(19) == source@
            },
        },
{
    reveal_strlit("I/O error: ");
    reveal_strlit("S3 transfer error: ");
    match kind {
        ProcessErrorKind::Io(failure) => {
            assert(kind@.message().take(11) =~= "I/O error: "@);
            assert(kind@.message().skip(11) =~= failure.message@);
        },
        ProcessErrorKind::Transfer { source, .. } => {
            assert(kind@.message().take(19) =~= "S3 transfer error: "@);
            assert(kind@.message().skip(19) =~= source@);
        },
    }
}

/// A converted error keeps the text and, of an I/O error, the kind. A transfer is
/// one to retry exactly where a chunk, a child operation, the runtime or I/O failed.
pub proof fn law_conversion_keeps_error(io: IoFailure, transfer: TransferFailure)
    ensures
        ({
            let kind = <ProcessErrorKind as vstd::std_specs::convert::FromSpec<
                IoFailure,
            >>::from_spec(io);
            kind == ProcessErrorKind::Io(io)
        }),
        ({
            let kind = <ProcessErrorKind as vstd::std_specs::convert::FromSpec<
                TransferFailure,
            >>::from_spec(transfer);
            &&& kind is Transfer
            &&& kind->source == transfer.message
            &&& kind->retryable <==> {
                ||| transfer.kind == TransferErrorKind::IoError
                ||| transfer.kind == TransferErrorKind::RuntimeError
                ||| transfer.kind == TransferErrorKind::ChildOperationFailed
                ||| transfer.kind == TransferErrorKind::ChunkFailed
            }
        }),
{
}

/// The view of an error shows its kind and its text.
pub proof fn law_view_shows_error(kind: ProcessErrorKind)
    ensures
        match kind {
            ProcessErrorKind::Io(failure) => {
                &&& kind@ is Io
                &&& kind@->Io_0.kind == failure.kind
                &&& kind@->Io_0.message == failure.message@
            },
            ProcessErrorKind::Transfer { source, retryable } => {
                &&& kind@ is Transfer
                &&& kind@->source == source@
                &&& kind@->retryable == retryable
            },
        },
{
}

} // verus!
