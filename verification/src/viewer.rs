//! Settings of the trace viewer and where it finds its static files.

use crate::path::{join, parent, path_join, path_parent, text_view};
use vstd::prelude::*;

verus! {

/// The port that the viewer listens on unless told otherwise.
pub const DEFAULT_PORT: u16 = 3000;

/// Settings of the viewer.
#[derive(Debug)]
pub struct Cli {
    /// Port to listen on.
    pub port: u16,
    /// S3 bucket name; if missing, each request names its bucket.
    pub bucket: Option<String>,
    /// S3 key prefix to filter traces.
    pub prefix: Option<String>,
    /// Directory containing UI static files.
    pub ui_dir: String,
}

impl Default for Cli {
    /// The settings where no option is given.
    fn default() -> (res: Cli)
        ensures
            res.port == DEFAULT_PORT,
            res.bucket is None,
            res.prefix is None,
            res.ui_dir@ == "ui"@,
    {
        Cli { port: DEFAULT_PORT, bucket: None, prefix: None, ui_dir: "ui".to_owned() }
    }
}

/// The directory of the running program, given the program's path: its parent,
/// or the path itself where it has none.
pub open spec fn program_dir(exe: Seq<char>, exe_parent: Option<Seq<char>>) -> Seq<char> {
    match exe_parent {
        Some(parent) => parent,
        None => exe,
    }
}

/// The directory of the running program, given its path and that path's parent.
pub fn dir_of_program<'a>(exe: &'a str, exe_parent: Option<&'a str>) -> (res: &'a str)
    ensures
        res@ == program_dir(exe@, text_view(exe_parent)),
{
    match exe_parent {
        Some(parent) => parent,
        None => exe,
    }
}

/// Where the static files are looked for.
#[derive(Debug)]
pub enum UiDir {
    /// They are here.
    Use(String),
    /// They are here if this directory exists.
    Probe(String),
}

pub enum UiDirView {
    Use(Seq<char>),
    Probe(Seq<char>),
}

impl View for UiDir {
    type V = UiDirView;

    open spec fn view(&self) -> UiDirView {
        match *self {
            UiDir::Use(dir) => UiDirView::Use(dir@),
            UiDir::Probe(dir) => UiDirView::Probe(dir@),
        }
    }
}

/// Where to look, given whether the configured directory exists and the place of
/// the running program where it is known.
pub open spec fn ui_dir_search(
    ui_dir: Seq<char>,
    exists: bool,
    exe: Option<Seq<char>>,
) -> UiDirView {
    match exe {
        Some(exe) => if exists {
            UiDirView::Use(ui_dir)
        } else {
            UiDirView::Probe(path_join(program_dir(exe, path_parent(exe)), ui_dir))
        },
        None => UiDirView::Use(ui_dir),
    }
}

/// The directory that is used in the end, given whether the probed one exists.
pub open spec fn ui_dir_choice(ui_dir: Seq<char>, probed: Seq<char>, exists: bool) -> Seq<char> {
    if exists {
        probed
    } else {
        ui_dir
    }
}

impl Cli {
    /// Where to look for the static files: in the configured directory, or, if
    /// it does not exist, beside the running program.
    pub fn locate_ui_dir(&self, exists: bool, exe: Option<&str>) -> (res: UiDir)
        ensures
            res@ == ui_dir_search(self.ui_dir@, exists, text_view(exe)),
    {
        if exists {
            return UiDir::Use(self.ui_dir.clone());
        }
        match exe {
            Some(exe) => UiDir::Probe(
                join(dir_of_program(exe, parent(exe)), self.ui_dir.as_str()),
            ),
            None => UiDir::Use(self.ui_dir.clone()),
        }
    }

    /// The directory to use once the one beside the program was looked for.
    pub fn resolve_ui_dir(&self, probed: String, exists: bool) -> (res: String)
        ensures
            res@ == ui_dir_choice(self.ui_dir@, probed@, exists),
    {
        if exists {
            probed
        } else {
            self.ui_dir.clone()
        }
    }
}

/// A configured directory that exists is used, wherever the program is; and
/// where neither it nor one beside the program exists, it is used all the same.
pub proof fn law_configured_ui_dir_wins(
    ui_dir: Seq<char>,
    exe: Option<Seq<char>>,
    probed: Seq<char>,
)
    ensures
        ui_dir_search(ui_dir, true, exe) == UiDirView::Use(ui_dir),
        ui_dir_choice(ui_dir, probed, false) == ui_dir,
{
}

/// A program is in its path's parent, or in the path itself where there is none.
pub proof fn law_program_is_in_its_parent(exe: Seq<char>, parent: Seq<char>)
    ensures
        program_dir(exe, Some(parent)) == parent,
        program_dir(exe, None) == exe,
{
}

/// The directory beside the program is looked for exactly where the configured one
/// does not exist and the program's place is known. It is the configured one, joined
/// to the program's directory. If it exists it is used, else the configured one.
pub proof fn law_missing_ui_dir_is_probed_beside_program(
    ui_dir: Seq<char>,
    exe: Seq<char>,
    probed: Seq<char>,
)
    ensures
        ui_dir_search(ui_dir, true, Some(exe)) == UiDirView::Use(ui_dir),
        ui_dir_search(ui_dir, true, None) == UiDirView::Use(ui_dir),
        ui_dir_search(ui_dir, false, None) == UiDirView::Use(ui_dir),
        ui_dir_search(ui_dir, false, Some(exe)) is Probe,
        path_parent(exe) matches Some(parent) ==> ui_dir_search(
            ui_dir,
            false,
            Some(exe),
        )->Probe_0 == path_join(parent, ui_dir),
        path_parent(exe) is None ==> ui_dir_search(ui_dir, false, Some(exe))->Probe_0 == path_join(
            exe,
            ui_dir,
        ),
        ui_dir_choice(ui_dir, probed, true) == probed,
        ui_dir_choice(ui_dir, probed, false) == ui_dir,
{
}

/// The view of a search shows the directory.
pub proof fn law_view_shows_search(found: UiDir)
    ensures
        match found {
            UiDir::Use(dir) => found@ == UiDirView::Use(dir@),
            UiDir::Probe(dir) => found@ == UiDirView::Probe(dir@),
        },
{
}

} // verus!
