//! Exit statuses and the reports that end a program.
use crate::path_model::text_of;
use crate::pathmod::{PathBuf, PathMod};
use crate::prog::Prog;
use crate::styled::{color_style, rendered_text, Color, Styled};
use vstd::prelude::*;

verus! {

/// How a program ends.
#[derive(Clone, Copy, Debug, PartialEq, Eq)]
pub enum ExitStatus {
    Success,
    Error,
    OptError,
    ArgError,
}

/// The process exit code of each status.
pub open spec fn exit_code(status: ExitStatus) -> int {
    match status {
        ExitStatus::Success => 0,
        ExitStatus::Error => 1,
        ExitStatus::OptError => 2,
        ExitStatus::ArgError => 3,
    }
}

impl ExitStatus {
    /// The process exit code of this status.
    pub fn code(self) -> (r: i32)
        ensures
            r == exit_code(self),
    {
        match self {
            ExitStatus::Success => 0,
            ExitStatus::Error => 1,
            ExitStatus::OptError => 2,
            ExitStatus::ArgError => 3,
        }
    }
}

/// What to print before a program ends, and the status to end it with.
#[derive(Clone, Debug, PartialEq, Eq)]
pub struct Report {
    pub message: String,
    pub status: ExitStatus,
}

/// `text` rendered in red.
pub open spec fn red(text: Seq<char>) -> Seq<char> {
    rendered_text(text, color_style(Color::Red))
}

/// An error line: the label, a colon, a space and the message, label, colon
/// and message each in red.
pub open spec fn error_line(label: Seq<char>, mesg: Seq<char>) -> Seq<char> {
    red(label) + red(seq![':']) + seq![' '] + red(mesg)
}

/// The error line for `label` and `mesg`.
fn error_text(label: &str, mesg: &str) -> (r: String)
    ensures
        r@ == error_line(label@, mesg@),
{
    let colon = ":";
    let space = " ";
    proof {
        reveal_strlit(":");
        reveal_strlit(" ");
    }
    let mut out = label.paint(Color::Red).to_text();
    out.append(colon.paint(Color::Red).to_text().as_str());
    out.append(space);
    out.append(mesg.paint(Color::Red).to_text().as_str());
    assert(colon@ =~= seq![':']);
    assert(space@ =~= seq![' ']);
    out
}

/// Reports that end a program on an error.
pub trait Exit {
    /// The name that error lines start with.
    spec fn label(&self) -> Seq<char>;

    /// The report of an error: the name and the message in red, and `status`.
    fn error(&self, mesg: &str, status: ExitStatus) -> (r: Report)
        ensures
            r.message@ == error_line(self.label(), mesg@),
            r.status == status,
    ;

    /// The report of an error on a path: the path and the message in red,
    /// and the status `Error`.
    fn path_error(&self, mesg: &str, item: &PathBuf) -> (r: Report)
        ensures
            r.message@ == error_line(text_of(item@), mesg@),
            r.status == ExitStatus::Error,
    ;
}

impl Exit for Prog {
    open spec fn label(&self) -> Seq<char> {
        self.name@
    }

    fn error(&self, mesg: &str, status: ExitStatus) -> (r: Report) {
        Report { message: error_text(self.name, mesg), status }
    }

    fn path_error(&self, mesg: &str, item: &PathBuf) -> (r: Report) {
        Report { message: error_text(item.as_str(), mesg), status: ExitStatus::Error }
    }
}

} // verus!
