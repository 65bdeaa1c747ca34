//! Helpers for command-line programs: lexical path decomposition, styled
//! terminal text, and the messages and exit codes of a uniform exit protocol.

pub mod as_path;
pub mod harness;
pub mod path_model;
pub mod pathmod;
pub mod prog;
pub mod status;
pub mod styled;

pub use as_path::AsPath;
pub use pathmod::{Path, PathBuf, PathMod};
pub use prog::Prog;
pub use status::{Exit, ExitStatus, Report};
pub use styled::{Color, Style, Styled, StyledText};
