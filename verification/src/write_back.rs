//! Writing processed segments back to disk.
//!
//! The caller writes and removes the files; each [`WriteBackStep`] says what is
//! to be done, and takes back what came of it.

use crate::error::{IoErrorKind, IoFailure, IoFailureView, ProcessErrorKind};
use crate::gzip::{compressed, job_error, marked, JobOutcomeView};
use crate::path::{is_file_name, paths_differ, same_path};
use crate::segment::{
    stage_result_view, ProcessError, ProcessErrorView, SegmentData, SegmentDataView, StageResult,
};
use vstd::prelude::*;

verus! {

/// Where the processed bytes go: beside the original with the noted extension
/// behind its name, or in its place where no extension is noted.
pub open spec fn destination(data: SegmentDataView) -> Seq<char> {
    if data.metadata.contains_key("write_back_extension"@) {
        data.segment.path + data.metadata["write_back_extension"@]
    } else {
        data.segment.path
    }
}

/// What writing the file came to.
#[derive(Debug)]
pub enum WriteOutcome {
    /// The file is written.
    Written,
    /// Writing gave an I/O error.
    Failed(IoFailure),
    /// The job that wrote did not return: it panicked or was cancelled.
    Lost(String),
}

pub enum WriteOutcomeView {
    Written,
    Failed(IoFailureView),
    Lost(Seq<char>),
}

impl View for WriteOutcome {
    type V = WriteOutcomeView;

    open spec fn view(&self) -> WriteOutcomeView {
        match *self {
            WriteOutcome::Written => WriteOutcomeView::Written,
            WriteOutcome::Failed(failure) => WriteOutcomeView::Failed(failure@),
            WriteOutcome::Lost(message) => WriteOutcomeView::Lost(message@),
        }
    }
}

/// A segment and where its processed bytes go.
struct Target {
    data: SegmentData,
    dest: String,
}

impl Target {
    #[verifier::type_invariant]
    spec fn inv(self) -> bool {
        self.dest@ == destination(self.data@)
    }
}

/// The processed bytes are to be written to their destination.
pub struct Writing {
    target: Target,
}

/// The original is to be removed, its processed copy being on disk.
pub struct RemovingOriginal {
    target: Target,
}

/// The processed copy is to be removed, the original having been evicted.
pub struct RemovingCopy {
    target: Target,
}

impl View for Writing {
    type V = SegmentDataView;

    closed spec fn view(&self) -> SegmentDataView {
        self.target.data@
    }
}

impl View for RemovingOriginal {
    type V = SegmentDataView;

    closed spec fn view(&self) -> SegmentDataView {
        self.target.data@
    }
}

impl View for RemovingCopy {
    type V = SegmentDataView;

    closed spec fn view(&self) -> SegmentDataView {
        self.target.data@
    }
}

/// What is done next to write a segment back.
pub enum WriteBackStep {
    Write(Writing),
    RemoveOriginal(RemovingOriginal),
    RemoveCopy(RemovingCopy),
    Done(StageResult),
}

pub enum WriteBackView {
    Write(SegmentDataView),
    RemoveOriginal(SegmentDataView),
    RemoveCopy(SegmentDataView),
    Done(Result<SegmentDataView, ProcessErrorView>),
}

impl View for WriteBackStep {
    type V = WriteBackView;

    open spec fn view(&self) -> WriteBackView {
        match *self {
            WriteBackStep::Write(pending) => WriteBackView::Write(pending@),
            WriteBackStep::RemoveOriginal(pending) => WriteBackView::RemoveOriginal(pending@),
            WriteBackStep::RemoveCopy(pending) => WriteBackView::RemoveCopy(pending@),
            WriteBackStep::Done(result) => WriteBackView::Done(stage_result_view(result)),
        }
    }
}

/// What follows the attempt to write the processed bytes.
pub open spec fn after_write(data: SegmentDataView, outcome: WriteOutcomeView) -> WriteBackView {
    match outcome {
        WriteOutcomeView::Written => if paths_differ(destination(data), data.segment.path) {
            WriteBackView::RemoveOriginal(data)
        } else {
            WriteBackView::Done(Ok(data))
        },
        WriteOutcomeView::Failed(failure) => WriteBackView::Done(Err(job_error(data, failure))),
        WriteOutcomeView::Lost(message) => WriteBackView::Done(
            Err(job_error(data, IoFailureView { kind: IoErrorKind::Other, message })),
        ),
    }
}

/// What follows the attempt to remove the original, which ended with the given
/// kind of error or none.
pub open spec fn after_removal(data: SegmentDataView, error: Option<IoErrorKind>) -> WriteBackView {
    if error == Some(IoErrorKind::NotFound) {
        WriteBackView::RemoveCopy(data)
    } else {
        WriteBackView::Done(Ok(data))
    }
}

/// Writes processed bytes back to disk.
#[derive(Clone, Copy, Debug)]
pub struct WriteBackProcessor;

impl WriteBackProcessor {
    /// Human-readable name, used in metrics.
    pub fn name(&self) -> (res: &'static str)
        ensures
            res@ == "WriteBack"@,
    {
        "WriteBack"
    }

    /// Starts to write a segment back.
    pub fn begin(&self, data: SegmentData) -> (res: Writing)
        ensures
            res@ == data@,
    {
        let dest: String = match data.metadata.get("write_back_extension") {
            Some(extension) => data.segment.path.clone().concat(extension.as_str()),
            None => data.segment.path.clone(),
        };
        Writing { target: Target { data, dest } }
    }
}

impl Writing {
    /// The file to write.
    pub fn destination(&self) -> (res: &str)
        ensures
            res@ == destination(self@),
    {
        proof {
            use_type_invariant(&self.target);
        }
        self.target.dest.as_str()
    }

    /// The bytes to write.
    pub fn bytes(&self) -> (res: &[u8])
        ensures
            res@ == self@.bytes,
    {
        self.target.data.bytes.as_slice()
    }

    /// The file was written, or not.
    pub fn attempted(self, outcome: WriteOutcome) -> (res: WriteBackStep)
        ensures
            res@ == after_write(self@, outcome@),
    {
        proof {
            use_type_invariant(&self.target);
        }
        match outcome {
            WriteOutcome::Written => if !same_path(
                self.target.dest.as_str(),
                self.target.data.segment.path.as_str(),
            ) {
                WriteBackStep::RemoveOriginal(RemovingOriginal { target: self.target })
            } else {
                WriteBackStep::Done(Ok(self.target.data))
            },
            WriteOutcome::Failed(failure) => WriteBackStep::Done(
                Err(
                    ProcessError {
                        data: self.target.data,
                        kind: ProcessErrorKind::from(failure),
                    },
                ),
            ),
            WriteOutcome::Lost(message) => WriteBackStep::Done(
                Err(
                    ProcessError {
                        data: self.target.data,
                        kind: ProcessErrorKind::from(IoFailure::other(message)),
                    },
                ),
            ),
        }
    }
}

impl RemovingOriginal {
    /// The file to remove.
    pub fn path(&self) -> (res: &str)
        ensures
            res@ == self@.segment.path,
    {
        self.target.data.segment.path.as_str()
    }

    /// The removal was attempted. Where the original was already evicted, its
    /// copy goes too, so that it does not stay on disk unseen; any other error
    /// leaves both files.
    pub fn attempted(self, result: Result<(), IoFailure>) -> (res: WriteBackStep)
        ensures
            res@ == after_removal(
                self@,
                match result {
                    Ok(_) => None,
                    Err(failure) => Some(failure@.kind),
                },
            ),
    {
        match result {
            Ok(_) => WriteBackStep::Done(Ok(self.target.data)),
            Err(failure) => match failure.kind {
                IoErrorKind::NotFound => WriteBackStep::RemoveCopy(
                    RemovingCopy { target: self.target },
                ),
                IoErrorKind::Other => WriteBackStep::Done(Ok(self.target.data)),
            },
        }
    }
}

impl RemovingCopy {
    /// The file to remove.
    pub fn path(&self) -> (res: &str)
        ensures
            res@ == destination(self@),
    {
        proof {
            use_type_invariant(&self.target);
        }
        self.target.dest.as_str()
    }

    /// The removal was attempted, with whatever result.
    pub fn attempted(self) -> (res: StageResult)
        ensures
            stage_result_view(res) == Ok::<SegmentDataView, ProcessErrorView>(self@),
    {
        Ok(self.target.data)
    }
}

/// Files on disk: what each path holds.
pub type Disk = Map<Seq<char>, Seq<u8>>;

/// How many steps can follow.
pub open spec fn steps_left(step: WriteBackView) -> nat {
    match step {
        WriteBackView::Write(_) => 3,
        WriteBackView::RemoveOriginal(_) => 2,
        WriteBackView::RemoveCopy(_) => 1,
        WriteBackView::Done(_) => 0,
    }
}

/// The disk and the result after every step from `step` on, on a disk where
/// writing succeeds and removing fails exactly for a file that is not there.
pub open spec fn carried_out(step: WriteBackView, disk: Disk) -> (
    Disk,
    Result<SegmentDataView, ProcessErrorView>,
)
    decreases steps_left(step),
{
    match step {
        WriteBackView::Write(data) => carried_out(
            after_write(data, WriteOutcomeView::Written),
            disk.insert(destination(data), data.bytes),
        ),
        WriteBackView::RemoveOriginal(data) => if disk.contains_key(data.segment.path) {
            carried_out(after_removal(data, None), disk.remove(data.segment.path))
        } else {
            carried_out(after_removal(data, Some(IoErrorKind::NotFound)), disk)
        },
        WriteBackView::RemoveCopy(data) => carried_out(
            WriteBackView::Done(Ok(data)),
            disk.remove(destination(data)),
        ),
        WriteBackView::Done(result) => (disk, result),
    }
}

/// With an extension noted, the original is replaced by a file under the extended
/// name that holds the processed bytes: the next scan does not find the original
/// again. No other file changes.
pub proof fn law_extension_replaces_original(data: SegmentDataView, disk: Disk)
    requires
        paths_differ(destination(data), data.segment.path),
        disk.contains_key(data.segment.path),
    ensures
        ({
            let (after, result) = carried_out(WriteBackView::Write(data), disk);
            &&& result == Ok::<SegmentDataView, ProcessErrorView>(data)
            &&& after == disk.insert(destination(data), data.bytes).remove(data.segment.path)
            &&& !after.contains_key(data.segment.path)
            &&& after.contains_key(destination(data)) && after[destination(data)] == data.bytes
        }),
{
    reveal_with_fuel(carried_out, 4);
}

/// With an extension noted and the original evicted meanwhile, no copy of it is
/// left on disk. No other file changes.
pub proof fn law_evicted_original_leaves_no_copy(data: SegmentDataView, disk: Disk)
    requires
        paths_differ(destination(data), data.segment.path),
        !disk.contains_key(data.segment.path),
    ensures
        ({
            let (after, result) = carried_out(WriteBackView::Write(data), disk);
            &&& result == Ok::<SegmentDataView, ProcessErrorView>(data)
            &&& after == disk.remove(destination(data))
        }),
{
    reveal_with_fuel(carried_out, 4);
    let (after, result) = carried_out(WriteBackView::Write(data), disk);
    assert(after =~= disk.remove(destination(data)));
}

/// With no extension noted, the processed bytes take the place of the original's
/// and no file is removed.
pub proof fn law_no_extension_overwrites_in_place(data: SegmentDataView, disk: Disk)
    requires
        destination(data) == data.segment.path,
    ensures
        carried_out(WriteBackView::Write(data), disk) == (
            disk.insert(data.segment.path, data.bytes),
            Ok::<SegmentDataView, ProcessErrorView>(data),
        ),
{
    reveal_with_fuel(carried_out, 4);
}

/// A compressed segment goes to the original's name with `.gz` behind it, which
/// is another file.
pub proof fn law_compressed_goes_to_gz(data: SegmentDataView)
    ensures
        destination(marked(data)) == data.segment.path + ".gz"@,
        paths_differ(destination(marked(data)), data.segment.path),
{
    reveal_strlit(".gz");
    assert(".gz"@[1] != '.');
    assert(is_file_name(".gz"@));
    assert(destination(marked(data)).len() == data.segment.path.len() + 3);
}

/// Compressing a segment and writing it back leaves the compressed bytes under
/// the `.gz` name and takes the original away, so that the next scan does not
/// find it again. No other file changes.
pub proof fn law_compressed_write_back_prevents_rediscovery(
    data: SegmentDataView,
    bytes: Seq<u8>,
    disk: Disk,
)
    requires
        disk.contains_key(data.segment.path),
    ensures
        ({
            let done = compressed(data, JobOutcomeView::Done(bytes))->Ok_0;
            let (after, result) = carried_out(WriteBackView::Write(done), disk);
            &&& result == Ok::<SegmentDataView, ProcessErrorView>(done)
            &&& after == disk.insert(data.segment.path + ".gz"@, bytes).remove(data.segment.path)
            &&& !after.contains_key(data.segment.path)
            &&& after[data.segment.path + ".gz"@] == bytes
        }),
{
    let done = compressed(data, JobOutcomeView::Done(bytes))->Ok_0;
    law_compressed_goes_to_gz(done);
    assert(marked(done).metadata =~= done.metadata);
    law_compressed_goes_to_gz(data);
    law_extension_replaces_original(done, disk);
}

/// A noted extension is put behind the original's path, whatever it is; without one
/// the destination is the original.
pub proof fn law_destination_extends_original(data: SegmentDataView)
    ensures
        ({
            let n = data.segment.path.len() as int;
            &&& destination(data).len() >= n
            &&& destination(data).take(n) == data.segment.path
            &&& data.metadata.contains_key("write_back_extension"@) ==> destination(data).skip(n)
                == data.metadata["write_back_extension"@]
            &&& !data.metadata.contains_key("write_back_extension"@) ==> destination(data).len()
                == n
        }),
{
    let n = data.segment.path.len() as int;
    assert(destination(data).take(n) =~= data.segment.path);
    if data.metadata.contains_key("write_back_extension"@) {
        assert(destination(data).skip(n) =~= data.metadata["write_back_extension"@]);
    }
}

/// The original is removed only after its bytes were written to another path. A
/// write that failed or did not return ends the segment with that error and removes
/// nothing. The data stays as it is throughout.
pub proof fn law_original_is_removed_after_write(data: SegmentDataView, outcome: WriteOutcomeView)
    ensures
        match outcome {
            WriteOutcomeView::Written => {
                &&& after_write(data, outcome) is RemoveOriginal <==> paths_differ(
                    destination(data),
                    data.segment.path,
                )
                &&& after_write(data, outcome) is RemoveOriginal
                    ==> after_write(data, outcome)->RemoveOriginal_0 == data
                &&& !(after_write(data, outcome) is RemoveOriginal) ==> after_write(data, outcome)
                    == WriteBackView::Done(Ok(data))
            },
            WriteOutcomeView::Failed(failure) => {
                &&& after_write(data, outcome) is Done
                &&& after_write(data, outcome)->Done_0 is Err
                &&& after_write(data, outcome)->Done_0->Err_0.data == data
                &&& after_write(data, outcome)->Done_0->Err_0.kind is Io
                &&& after_write(data, outcome)->Done_0->Err_0.kind->Io_0 == failure
            },
            WriteOutcomeView::Lost(message) => {
                &&& after_write(data, outcome) is Done
                &&& after_write(data, outcome)->Done_0 is Err
                &&& after_write(data, outcome)->Done_0->Err_0.data == data
                &&& after_write(data, outcome)->Done_0->Err_0.kind is Io
                &&& after_write(data, outcome)->Done_0->Err_0.kind->Io_0.kind == IoErrorKind::Other
                &&& after_write(data, outcome)->Done_0->Err_0.kind->Io_0.message == message
            },
        },
{
}

/// The copy is removed exactly where the original turned out to be gone; in every
/// other case the segment is done with, and succeeded.
pub proof fn law_copy_is_removed_iff_original_is_gone(
    data: SegmentDataView,
    error: Option<IoErrorKind>,
)
    ensures
        error == Some(IoErrorKind::NotFound) ==> after_removal(data, error)
            == WriteBackView::RemoveCopy(data),
        error == Some(IoErrorKind::Other) ==> after_removal(data, error) == WriteBackView::Done(
            Ok(data),
        ),
        error is None ==> after_removal(data, error) == WriteBackView::Done(Ok(data)),
{
}

/// The view of an outcome shows what writing came to.
pub proof fn law_view_shows_write(outcome: WriteOutcome)
    ensures
        match outcome {
            WriteOutcome::Written => outcome@ == WriteOutcomeView::Written,
            WriteOutcome::Failed(failure) => {
                &&& outcome@ is Failed
                &&& outcome@->Failed_0.kind == failure.kind
                &&& outcome@->Failed_0.message == failure.message@
            },
            WriteOutcome::Lost(message) => outcome@ == WriteOutcomeView::Lost(message@),
        },
{
}

/// The view of a step tells the steps apart and shows the segment, or the result.
pub proof fn law_view_shows_write_back(step: WriteBackStep)
    ensures
        match step {
            WriteBackStep::Write(pending) => step@ == WriteBackView::Write(pending@),
            WriteBackStep::RemoveOriginal(pending) => step@ == WriteBackView::RemoveOriginal(
                pending@,
            ),
            WriteBackStep::RemoveCopy(pending) => step@ == WriteBackView::RemoveCopy(pending@),
            WriteBackStep::Done(Ok(data)) => step@ is Done && step@->Done_0 is Ok
                && step@->Done_0->Ok_0 == data@,
            WriteBackStep::Done(Err(error)) => step@ is Done && step@->Done_0 is Err
                && step@->Done_0->Err_0 == error@,
        },
{
}

} // verus!
