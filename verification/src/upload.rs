//! Uploading segments to S3: when an upload is attempted, what its result means
//! for the segment and for the circuit breaker, and which region is used.

use crate::config::S3Config;
use crate::error::{ProcessErrorKind, ProcessErrorKindView};
use crate::segment::{
    stage_result_view, ProcessError, ProcessErrorView, SegmentData, SegmentDataView, StageResult,
};
use vstd::prelude::*;

verus! {

/// What an upload means for the circuit breaker.
#[derive(Clone, Copy, Debug, PartialEq, Eq, Structural)]
pub enum BreakerSignal {
    /// The upload succeeded.
    Success,
    /// The upload failed for a reason that may lie with S3.
    Failure,
    /// The upload says nothing about S3: the segment was evicted.
    Unchanged,
}

/// Where the upload of a segment stands.
pub enum UploadStep {
    /// The circuit breaker is open: no upload is attempted.
    Refused(ProcessError),
    /// The bytes are to be uploaded; the data waits without them.
    Upload { data: SegmentData, bytes: Vec<u8> },
}

/// The error of a segment whose upload was not attempted.
pub open spec fn refused(data: SegmentDataView) -> ProcessErrorView {
    ProcessErrorView {
        data,
        kind: ProcessErrorKindView::Transfer {
            source: "circuit breaker open"@,
            retryable: true,
        },
    }
}

/// What the result of an upload means for the circuit breaker.
pub open spec fn signal_of(error: Option<ProcessErrorKindView>) -> BreakerSignal {
    match error {
        None => BreakerSignal::Success,
        Some(kind) => if kind.already_deleted() {
            BreakerSignal::Unchanged
        } else {
            BreakerSignal::Failure
        },
    }
}

/// Uploads segments to S3.
#[derive(Clone, Copy, Debug)]
pub struct S3PipelineUploader;

impl S3PipelineUploader {
    /// Human-readable name, used in metrics.
    pub fn name(&self) -> (res: &'static str)
        ensures
            res@ == "S3Upload"@,
    {
        "S3Upload"
    }

    /// Takes the bytes out for an upload, if the circuit breaker allows one.
    pub fn begin(&self, data: SegmentData, attempt: bool) -> (res: UploadStep)
        ensures
            match res {
                UploadStep::Refused(error) => !attempt && error@ == refused(data@),
                UploadStep::Upload { data: waiting, bytes } => {
                    &&& attempt
                    &&& bytes@ == data@.bytes
                    &&& waiting@ == data@.with_bytes(Seq::empty())
                },
            },
    {
        if !attempt {
            UploadStep::Refused(
                ProcessError {
                    data,
                    kind: ProcessErrorKind::Transfer {
                        source: "circuit breaker open".to_owned(),
                        retryable: true,
                    },
                },
            )
        } else {
            let mut data = data;
            let mut bytes: Vec<u8> = Vec::new();
            std::mem::swap(&mut bytes, &mut data.bytes);
            UploadStep::Upload { data, bytes }
        }
    }

    /// Takes up the result of the upload: the key of the object, or the error.
    pub fn complete(&self, data: SegmentData, result: Result<String, ProcessErrorKind>) -> (res: (
        StageResult,
        BreakerSignal,
    ))
        ensures
            match result {
                Ok(_) => {
                    &&& stage_result_view(res.0) == Ok::<SegmentDataView, ProcessErrorView>(data@)
                    &&& res.1 == signal_of(None)
                },
                Err(kind) => {
                    &&& stage_result_view(res.0) == Err::<SegmentDataView, ProcessErrorView>(
                        ProcessErrorView { data: data@, kind: kind@ },
                    )
                    &&& res.1 == signal_of(Some(kind@))
                },
            },
    {
        match result {
            Ok(_) => (Ok(data), BreakerSignal::Success),
            Err(kind) => {
                let signal = if kind.already_deleted() {
                    BreakerSignal::Unchanged
                } else {
                    BreakerSignal::Failure
                };
                (Err(ProcessError { data, kind }), signal)
            },
        }
    }
}

/// An evicted segment does not trip the circuit breaker, and no other failed
/// upload goes unnoticed by it.
pub proof fn law_eviction_does_not_trip_breaker(kind: ProcessErrorKindView)
    ensures
        kind.already_deleted() ==> signal_of(Some(kind)) == BreakerSignal::Unchanged,
        !kind.already_deleted() ==> signal_of(Some(kind)) == BreakerSignal::Failure,
{
}

/// A segment whose upload the circuit breaker refuses is kept for a later
/// attempt, with its bytes.
pub proof fn law_refused_segment_is_kept(data: SegmentDataView)
    ensures
        refused(data).kind.disposition() == crate::error::Disposition::Keep,
        refused(data).data == data,
{
}

/// The region where none is given and none can be detected.
pub open spec fn fallback_region() -> Seq<char> {
    "us-east-1"@
}

/// What S3 said of a bucket.
#[derive(Debug)]
pub enum BucketReply {
    /// The bucket is accessible; its region, if the reply held one.
    Found { region: Option<String> },
    /// The request failed; the region in the header of the raw response, if
    /// there was one.
    Failed { region_header: Option<String> },
}

/// The region that a reply names, if any.
pub open spec fn named_region(reply: BucketReply) -> Option<Seq<char>> {
    match reply {
        BucketReply::Found { region: Some(region) } => Some(region@),
        BucketReply::Failed { region_header: Some(region) } => Some(region@),
        _ => None,
    }
}

/// The region to use, given the one that is named, if any.
pub open spec fn region_choice(named: Option<Seq<char>>) -> Seq<char> {
    match named {
        Some(region) => region,
        None => fallback_region(),
    }
}

/// The region of an S3 bucket, from what S3 said of it.
pub fn detect_bucket_region(reply: BucketReply) -> (res: String)
    ensures
        res@ == region_choice(named_region(reply)),
        match reply {
            BucketReply::Found { region: Some(region) } => res@ == region@,
            BucketReply::Failed { region_header: Some(region) } => res@ == region@,
            BucketReply::Found { region: None } => res@ == "us-east-1"@,
            BucketReply::Failed { region_header: None } => res@ == "us-east-1"@,
        },
{
    match reply {
        BucketReply::Found { region } => match region {
            Some(region) => region,
            None => "us-east-1".to_owned(),
        },
        BucketReply::Failed { region_header } => match region_header {
            Some(region) => region,
            None => "us-east-1".to_owned(),
        },
    }
}

/// What is still to be done before segments can be uploaded.
#[derive(Debug)]
pub enum SetupStep {
    /// No client was given: one is to be made from the environment.
    LoadClient,
    /// The region of the bucket is to be asked for.
    AskRegion { bucket: String },
    /// The client is to be rebuilt for this region.
    Build { region: String },
}

pub enum SetupView {
    LoadClient,
    AskRegion { bucket: Seq<char> },
    Build { region: Seq<char> },
}

impl View for SetupStep {
    type V = SetupView;

    open spec fn view(&self) -> SetupView {
        match *self {
            SetupStep::LoadClient => SetupView::LoadClient,
            SetupStep::AskRegion { bucket } => SetupView::AskRegion { bucket: bucket@ },
            SetupStep::Build { region } => SetupView::Build { region: region@ },
        }
    }
}

/// What is to be done once there is a client: the configured region is used, and
/// the bucket's is asked for where none is configured.
pub open spec fn with_client(config: S3Config) -> SetupView {
    match config.region {
        Some(region) => SetupView::Build { region: region@ },
        None => SetupView::AskRegion { bucket: config.bucket@ },
    }
}

impl S3Config {
    /// What is to be done first.
    pub fn begin_setup(&self, client_given: bool) -> (res: SetupStep)
        ensures
            res@ == if client_given {
                with_client(*self)
            } else {
                SetupView::LoadClient
            },
    {
        if client_given {
            self.client_ready()
        } else {
            SetupStep::LoadClient
        }
    }

    /// What is to be done once there is a client.
    pub fn client_ready(&self) -> (res: SetupStep)
        ensures
            res@ == with_client(*self),
    {
        match &self.region {
            Some(region) => SetupStep::Build { region: region.clone() },
            None => SetupStep::AskRegion { bucket: self.bucket.clone() },
        }
    }

    /// What is to be done once S3 has said something of the bucket.
    pub fn bucket_replied(&self, reply: BucketReply) -> (res: SetupStep)
        ensures
            res@ == (SetupView::Build { region: region_choice(named_region(reply)) }),
            res is Build,
            match reply {
                BucketReply::Found { region: Some(region) } => res->region@ == region@,
                BucketReply::Failed { region_header: Some(region) } => res->region@ == region@,
                BucketReply::Found { region: None } => res->region@ == "us-east-1"@,
                BucketReply::Failed { region_header: None } => res->region@ == "us-east-1"@,
            },
    {
        SetupStep::Build { region: detect_bucket_region(reply) }
    }
}

/// A configured region is used as it is: the bucket is not asked for its own,
/// whether or not a client was given.
pub proof fn law_configured_region_wins(config: S3Config)
    ensures
        config.region is Some <==> with_client(config) is Build,
        config.region matches Some(region) ==> with_client(config) == (SetupView::Build {
            region: region@,
        }),
{
}

/// The region that a reply names is used unchanged, whether it stood in the answer
/// or in the header of a refusal. Only a reply that names none falls back, and then
/// it does not matter whether it was an answer or a refusal.
pub proof fn law_named_region_is_used(region: String)
    ensures
        region_choice(named_region(BucketReply::Found { region: Some(region) })) == region@,
        region_choice(named_region(BucketReply::Failed { region_header: Some(region) }))
            == region@,
        region_choice(named_region(BucketReply::Found { region: None })) == "us-east-1"@,
        region_choice(named_region(BucketReply::Failed { region_header: None })) == "us-east-1"@,
{
}

/// Different names lead to different regions, and a name leads to the region of a
/// reply without one only where it is the name of that region.
pub proof fn law_regions_are_told_apart(one: Seq<char>, other: Seq<char>)
    ensures
        region_choice(Some(one)) == region_choice(Some(other)) <==> one == other,
        region_choice(Some(one)) == region_choice(None) <==> one == "us-east-1"@,
{
}

/// With a client, the configured region is built for at once and unchanged; without
/// a region, the configured bucket is the one that is asked for.
pub proof fn law_setup_follows_settings(config: S3Config)
    ensures
        match config.region {
            Some(region) => with_client(config) is Build && with_client(config)->region == region@,
            None => with_client(config) is AskRegion && with_client(config)->bucket
                == config.bucket@,
        },
{
}

/// A refused upload carries the segment back as it is, with an error that says why
/// and that it may be tried again.
pub proof fn law_refusal_is_retryable(data: SegmentDataView)
    ensures
        refused(data).data == data,
        refused(data).kind is Transfer,
        refused(data).kind->source == "circuit breaker open"@,
        refused(data).kind->retryable,
{
}

/// The circuit breaker hears of success, of nothing where the file was missing, and
/// of failure otherwise.
pub proof fn law_breaker_signal(error: Option<ProcessErrorKindView>)
    ensures
        error is None <==> signal_of(error) == BreakerSignal::Success,
        error matches Some(ProcessErrorKindView::Transfer { .. }) ==> signal_of(error)
            == BreakerSignal::Failure,
        error matches Some(ProcessErrorKindView::Io(failure)) ==> (signal_of(error)
            == BreakerSignal::Unchanged <==> failure.kind == crate::error::IoErrorKind::NotFound)
            && (signal_of(error) == BreakerSignal::Failure <==> failure.kind
            == crate::error::IoErrorKind::Other),
{
}

/// The view of a setup step shows its text.
pub proof fn law_view_shows_setup(step: SetupStep)
    ensures
        match step {
            SetupStep::LoadClient => step@ is LoadClient,
            SetupStep::AskRegion { bucket } => step@ is AskRegion && step@->bucket == bucket@,
            SetupStep::Build { region } => step@ is Build && step@->region == region@,
        },
{
}

} // verus!
