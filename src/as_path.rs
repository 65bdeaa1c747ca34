//! Treating text as a path.
use crate::pathmod::{Path, PathBuf};
use vstd::prelude::*;
use vstd::utf8::encode_utf8;

verus! {

/// Text that can be read as a path: the path's bytes are the text's UTF-8
/// encoding.
pub trait AsPath: View<V = Seq<char>> {
    /// A path that borrows the text.
    fn as_path(&self) -> (r: Path<'_>)
        ensures
            r@ == encode_utf8(self@),
    ;

    /// A path that owns a copy of the text.
    fn as_pathbuf(&self) -> (r: PathBuf)
        ensures
            r@ == encode_utf8(self@),
    ;
}

impl AsPath for String {
    fn as_path(&self) -> (r: Path<'_>) {
        Path::new(self.as_str())
    }

    fn as_pathbuf(&self) -> (r: PathBuf) {
        PathBuf::from(self.as_str())
    }
}

impl AsPath for str {
    fn as_path(&self) -> (r: Path<'_>) {
        Path::new(self)
    }

    fn as_pathbuf(&self) -> (r: PathBuf) {
        PathBuf::from(self)
    }
}

} // verus!
