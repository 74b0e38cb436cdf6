//! Settings of the background worker and the pipeline they call for.

use crate::path::{
    dir_text, file_stem, is_bare, is_below, is_file_name, is_plain_dir, law_stem_begins_name,
    name_stem, parent, path_file_stem, path_parent, text_view,
};
use vstd::prelude::*;

verus! {

/// A span of time.
#[derive(Clone, Copy, Debug, PartialEq, Eq, Structural)]
pub struct Interval {
    pub secs: u64,
    /// The part below a second, in nanoseconds.
    pub nanos: u32,
}

impl Interval {
    /// No time at all.
    pub fn zero() -> (res: Interval)
        ensures
            res == (Interval { secs: 0, nanos: 0 }),
    {
        Interval { secs: 0, nanos: 0 }
    }
}

/// How often the worker looks for sealed segments, in seconds, unless told
/// otherwise.
pub const DEFAULT_POLL_INTERVAL_SECS: u64 = 1;

/// Where segments are uploaded to.
#[derive(Debug)]
pub struct S3Config {
    pub bucket: String,
    pub service_name: String,
    pub instance_path: String,
    pub boot_id: String,
    /// Detected from the bucket where missing.
    pub region: Option<String>,
}

/// Configuration for the in-process worker pipeline.
///
/// Only the trace path is required. Without S3 settings the worker writes the
/// compressed segments back to disk.
pub struct BackgroundTaskConfig {
    /// The trace base path, as given to the trace writer.
    pub trace_path: String,
    pub poll_interval: Interval,
    pub s3: Option<S3Config>,
    /// Whether stack frames are symbolized.
    pub symbolize: bool,
}

/// The directory to scan, given the trace path's parent.
pub open spec fn dir_choice(parent: Option<Seq<char>>) -> Seq<char> {
    match parent {
        Some(parent) => if parent.len() > 0 {
            parent
        } else {
            "."@
        },
        None => "."@,
    }
}

/// The file stem to look for, given the trace path's own.
pub open spec fn stem_choice(stem: Option<Seq<char>>) -> Seq<char> {
    match stem {
        Some(stem) => if stem.len() > 0 {
            stem
        } else {
            "trace"@
        },
        None => "trace"@,
    }
}

/// The directory to scan: the trace path's parent, or the current directory
/// where there is none or it is empty.
pub fn dir_or_current<'a>(parent: Option<&'a str>) -> (res: &'a str)
    ensures
        res@ == dir_choice(text_view(parent)),
{
    match parent {
        Some(parent) => if parent.is_empty() {
            "."
        } else {
            parent
        },
        None => ".",
    }
}

/// The file stem to look for: the trace path's own, or "trace" where there is
/// none or it is empty.
pub fn stem_or_default<'a>(stem: Option<&'a str>) -> (res: &'a str)
    ensures
        res@ == stem_choice(text_view(stem)),
{
    match stem {
        Some(stem) => if stem.is_empty() {
            "trace"
        } else {
            stem
        },
        None => "trace",
    }
}

impl BackgroundTaskConfig {
    /// Settings for a trace path: a poll every second, no upload and no
    /// symbolization.
    pub fn new(trace_path: &str) -> (res: BackgroundTaskConfig)
        ensures
            res.trace_path@ == trace_path@,
            res.poll_interval == (Interval { secs: DEFAULT_POLL_INTERVAL_SECS, nanos: 0 }),
            res.s3 is None,
            !res.symbolize,
    {
        BackgroundTaskConfig {
            trace_path: trace_path.to_owned(),
            poll_interval: Interval { secs: DEFAULT_POLL_INTERVAL_SECS, nanos: 0 },
            s3: None,
            symbolize: false,
        }
    }

    /// How often the worker checks for sealed segments.
    pub fn poll_interval(&self) -> (res: Interval)
        ensures
            res == self.poll_interval,
    {
        self.poll_interval
    }

    /// Directory containing trace segments: the current directory for a bare file
    /// name.
    pub fn trace_dir(&self) -> (res: &str)
        ensures
            res@ == dir_choice(path_parent(self.trace_path@)),
            res@.len() > 0,
            self.trace_path@.len() == 0 || self.trace_path@ == seq!['/'] || is_bare(
                self.trace_path@,
            ) ==> res@ == "."@,
            forall|dir: Seq<char>, name: Seq<char>| #[trigger]
                is_below(self.trace_path@, dir, name) && is_plain_dir(dir) ==> res@ == dir_text(
                    dir,
                ),
    {
        proof {
            law_dir_and_stem_are_named(path_parent(self.trace_path@), None);
        }
        dir_or_current(parent(self.trace_path.as_str()))
    }

    /// File stem used for segment matching (e.g. "trace" for "trace.0.bin").
    pub fn trace_stem(&self) -> (res: &str)
        ensures
            res@ == stem_choice(path_file_stem(self.trace_path@)),
            res@.len() > 0,
            self.trace_path@.len() == 0 || self.trace_path@ == seq!['/'] ==> res@ == "trace"@,
            is_file_name(self.trace_path@) ==> res@ == name_stem(self.trace_path@),
            forall|dir: Seq<char>, name: Seq<char>| #[trigger]
                is_below(self.trace_path@, dir, name) ==> res@ == name_stem(name),
    {
        proof {
            law_dir_and_stem_are_named(None, path_file_stem(self.trace_path@));
            if is_file_name(self.trace_path@) {
                law_stem_begins_name(self.trace_path@);
            }
            assert forall|dir: Seq<char>, name: Seq<char>| #[trigger]
                is_below(self.trace_path@, dir, name) implies name_stem(name).len() > 0 by {
                law_stem_begins_name(name);
            }
        }
        stem_or_default(file_stem(self.trace_path.as_str()))
    }

    /// S3 upload configuration.
    pub fn s3(&self) -> (res: Option<&S3Config>)
        ensures
            match res {
                Some(s3) => self.s3 == Some(*s3),
                None => self.s3 is None,
            },
    {
        match &self.s3 {
            Some(s3) => Some(s3),
            None => None,
        }
    }
}

/// The directory to scan and the stem to look for are never empty.
pub proof fn law_dir_and_stem_are_named(parent: Option<Seq<char>>, stem: Option<Seq<char>>)
    ensures
        dir_choice(parent).len() > 0,
        stem_choice(stem).len() > 0,
{
    reveal_strlit(".");
    reveal_strlit("trace");
}

/// A processor of the pipeline.
#[derive(Clone, Copy, Debug, PartialEq, Eq, Structural)]
pub enum Processor {
    Symbolize,
    Gzip,
    S3Upload,
    WriteBack,
}

/// The name under which a processor is recorded.
pub open spec fn processor_name(processor: Processor) -> Seq<char> {
    match processor {
        Processor::Symbolize => "Symbolize"@,
        Processor::Gzip => "Gzip"@,
        Processor::S3Upload => "S3Upload"@,
        Processor::WriteBack => "WriteBack"@,
    }
}

impl Processor {
    /// Human-readable name, used in metrics.
    pub fn name(self) -> (res: &'static str)
        ensures
            res@ == processor_name(self),
    {
        match self {
            Processor::Symbolize => "Symbolize",
            Processor::Gzip => "Gzip",
            Processor::S3Upload => "S3Upload",
            Processor::WriteBack => "WriteBack",
        }
    }
}

/// The processors that the settings call for, in order.
pub open spec fn pipeline_for(symbolize: bool, upload: bool) -> Seq<Processor> {
    let symbolizing = if symbolize {
        seq![Processor::Symbolize]
    } else {
        seq![]
    };
    let storing = if upload {
        Processor::S3Upload
    } else {
        Processor::WriteBack
    };
    symbolizing + seq![Processor::Gzip, storing]
}

/// The processors to run and, where they upload, where to.
#[derive(Debug)]
pub struct Pipeline {
    pub processors: Vec<Processor>,
    pub upload: Option<S3Config>,
}

/// Builds the processor pipeline. The S3 settings move from the configuration to
/// the pipeline.
pub fn build_pipeline(config: &mut BackgroundTaskConfig) -> (res: Pipeline)
    ensures
        res.processors@ == pipeline_for(old(config).symbolize, old(config).s3 is Some),
        res.upload == old(config).s3,
        final(config).s3 is None,
        final(config).trace_path == old(config).trace_path,
        final(config).poll_interval == old(config).poll_interval,
        final(config).symbolize == old(config).symbolize,
{
    let mut processors: Vec<Processor> = Vec::new();
    if config.symbolize {
        processors.push(Processor::Symbolize);
    }
    processors.push(Processor::Gzip);
    let mut upload: Option<S3Config> = None;
    std::mem::swap(&mut upload, &mut config.s3);
    if upload.is_some() {
        processors.push(Processor::S3Upload);
    } else {
        processors.push(Processor::WriteBack);
    }
    assert(processors@ =~= pipeline_for(old(config).symbolize, old(config).s3 is Some));
    Pipeline { processors, upload }
}

/// Whatever the settings, a segment is compressed once and then stored once, by
/// an upload exactly where S3 settings are given; symbolization comes first.
pub proof fn law_pipeline_compresses_then_stores(symbolize: bool, upload: bool)
    ensures
        ({
            let processors = pipeline_for(symbolize, upload);
            let n = processors.len() as int;
            &&& n == if symbolize {
                3int
            } else {
                2int
            }
            &&& symbolize ==> processors[0] == Processor::Symbolize
            &&& processors[n - 2] == Processor::Gzip
            &&& processors[n - 1] == if upload {
                Processor::S3Upload
            } else {
                Processor::WriteBack
            }
        }),
{
}

/// A parent that is there is scanned as it is, and so is a stem that is there
/// looked for; only what is missing or empty gives way to a default.
pub proof fn law_named_parts_are_used(part: Seq<char>)
    ensures
        part.len() > 0 ==> dir_choice(Some(part)) == part,
        part.len() > 0 ==> stem_choice(Some(part)) == part,
        part.len() == 0 ==> dir_choice(Some(part)) == "."@,
        part.len() == 0 ==> stem_choice(Some(part)) == "trace"@,
        dir_choice(None) == "."@,
        stem_choice(None) == "trace"@,
{
}

/// The processors are recorded under four names of their own.
pub proof fn law_processor_names(processor: Processor)
    ensures
        processor == Processor::Symbolize ==> processor_name(processor) == "Symbolize"@,
        processor == Processor::Gzip ==> processor_name(processor) == "Gzip"@,
        processor == Processor::S3Upload ==> processor_name(processor) == "S3Upload"@,
        processor == Processor::WriteBack ==> processor_name(processor) == "WriteBack"@,
        forall|other: Processor| #[trigger]
            processor_name(other) == processor_name(processor) ==> other == processor,
{
    reveal_strlit("Symbolize");
    reveal_strlit("Gzip");
    reveal_strlit("S3Upload");
    reveal_strlit("WriteBack");
    assert("Symbolize"@.len() == 9 && "Gzip"@.len() == 4 && "S3Upload"@.len() == 8);
    assert("WriteBack"@.len() == 9 && "WriteBack"@[0] == 'W' && "Symbolize"@[0] == 'S');
}

} // verus!
