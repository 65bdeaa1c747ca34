//! The decisions and report lines of a file-system harness for tests. The
//! harness itself (creating and removing entries) acts on the file system;
//! what it does to an entry of each kind, and what it prints, is decided here.
use crate::path_model::text_of;
use crate::pathmod::{PathBuf, PathMod};
use crate::styled::{color_style, rendered_text, Color, Style, Styled};
use vstd::prelude::*;

verus! {

/// The kind of an existing file-system entry, as its own metadata gives it
/// (a symbolic link is not followed).
#[derive(Clone, Copy, Debug, PartialEq, Eq)]
pub enum EntryKind {
    File,
    Dir,
    Symlink,
    Other,
}

/// How an entry is removed.
#[derive(Clone, Copy, Debug, PartialEq, Eq)]
pub enum Removal {
    /// The directory and everything under it.
    Tree,
    /// The single entry.
    Entry,
}

/// Which primitive makes a symbolic link where files and directories need
/// different ones.
#[derive(Clone, Copy, Debug, PartialEq, Eq)]
pub enum LinkKind {
    File,
    Dir,
}

/// A harness action whose outcome is reported.
#[derive(Clone, Copy, Debug, PartialEq, Eq)]
pub enum Action {
    CreateFile,
    CreateDir,
    RemoveFile,
    RemoveDir,
}

/// A directory is removed with its contents; any other entry (a file, a
/// symbolic link or a special entry) is removed alone.
pub open spec fn removal_spec(kind: EntryKind) -> Removal {
    match kind {
        EntryKind::Dir => Removal::Tree,
        EntryKind::File | EntryKind::Symlink | EntryKind::Other => Removal::Entry,
    }
}

/// How to remove an entry of the kind `kind`.
pub fn removal_for(kind: EntryKind) -> (r: Removal)
    ensures
        r == removal_spec(kind),
{
    match kind {
        EntryKind::Dir => Removal::Tree,
        EntryKind::File | EntryKind::Symlink | EntryKind::Other => Removal::Entry,
    }
}

/// Which primitive links to a target of the kind `target`: the file one for a
/// file, the directory one for a directory, none for anything else.
pub fn link_kind_for(target: EntryKind) -> (r: Option<LinkKind>)
    ensures
        target == EntryKind::File ==> r == Some(LinkKind::File),
        target == EntryKind::Dir ==> r == Some(LinkKind::Dir),
        target != EntryKind::File && target != EntryKind::Dir ==> r is None,
{
    match target {
        EntryKind::File => Some(LinkKind::File),
        EntryKind::Dir => Some(LinkKind::Dir),
        _ => None,
    }
}

/// Whether an entry counts as a symbolic link: it exists, and is neither a
/// regular file nor a directory. An absent entry (`None`) does not.
pub fn is_symlink_kind(kind: Option<EntryKind>) -> (r: bool)
    ensures
        r == (kind is Some && kind.unwrap() != EntryKind::File && kind.unwrap() != EntryKind::Dir),
{
    match kind {
        Some(EntryKind::File) | Some(EntryKind::Dir) | None => false,
        Some(_) => true,
    }
}

/// What an action did, in the past tense.
pub open spec fn done_words(action: Action) -> Seq<char> {
    match action {
        Action::CreateFile => "created file"@,
        Action::CreateDir => "created directory"@,
        Action::RemoveFile => "removed file"@,
        Action::RemoveDir => "removed directory"@,
    }
}

/// What an action tried to do.
pub open spec fn attempt_words(action: Action) -> Seq<char> {
    match action {
        Action::CreateFile => "create file"@,
        Action::CreateDir => "create directory"@,
        Action::RemoveFile => "remove file"@,
        Action::RemoveDir => "remove directory"@,
    }
}

/// The report of an action on the path text `path`: what was done, with the
/// path in green, or what could not be done, with the path in red.
pub open spec fn outcome_text(action: Action, path: Seq<char>, succeeded: bool) -> Seq<char> {
    if succeeded {
        "test: "@ + done_words(action) + " '"@ + rendered_text(path, color_style(Color::Green)) + "'"@
    } else {
        "test: unable to "@ + attempt_words(action) + " '"@ + rendered_text(
            path,
            color_style(Color::Red),
        ) + "'"@
    }
}

/// The bold style.
pub open spec fn bold_style() -> Style {
    Style { bold: true, underline: false, color: None }
}

/// The report of a new symbolic link: the target and the link, both bold.
pub open spec fn link_text(target: Seq<char>, link: Seq<char>) -> Seq<char> {
    rendered_text(target, bold_style()) + " symlinked to "@ + rendered_text(link, bold_style())
}

/// The line that reports the outcome of `action` on `path`.
pub fn outcome_line(action: Action, path: &PathBuf, succeeded: bool) -> (r: String)
    ensures
        r@ == outcome_text(action, text_of(path@), succeeded),
{
    let mut out = if succeeded {
        "test: ".to_owned()
    } else {
        "test: unable to ".to_owned()
    };
    let words = match (action, succeeded) {
        (Action::CreateFile, true) => "created file",
        (Action::CreateDir, true) => "created directory",
        (Action::RemoveFile, true) => "removed file",
        (Action::RemoveDir, true) => "removed directory",
        (Action::CreateFile, false) => "create file",
        (Action::CreateDir, false) => "create directory",
        (Action::RemoveFile, false) => "remove file",
        (Action::RemoveDir, false) => "remove directory",
    };
    out.append(words);
    out.append(" '");
    let color = if succeeded {
        Color::Green
    } else {
        Color::Red
    };
    out.append(path.as_str().paint(color).to_text().as_str());
    out.append("'");
    out
}

/// The line that reports a new symbolic link at `link` to `target`.
pub fn link_line(target: &PathBuf, link: &PathBuf) -> (r: String)
    ensures
        r@ == link_text(text_of(target@), text_of(link@)),
{
    let mut out = target.as_str().bold().to_text();
    out.append(" symlinked to ");
    out.append(link.as_str().bold().to_text().as_str());
    out
}

} // verus!
