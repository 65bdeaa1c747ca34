//! A program's identity and the texts it prints about itself.
use crate::status::{ExitStatus, Report};
use vstd::prelude::*;

verus! {

/// A program's name, version and year of copyright.
#[derive(Clone, Copy, Debug, PartialEq, Eq)]
pub struct Prog {
    /// Name of the program.
    pub name: &'static str,
    /// Version of the program.
    pub vers: &'static str,
    /// Year of copyright of the program.
    pub yr: &'static str,
}

/// Names joined by single spaces.
pub open spec fn joined_names(names: Seq<&str>) -> Seq<char>
    decreases names.len(),
{
    if names.len() == 0 {
        Seq::empty()
    } else if names.len() == 1 {
        names[0]@
    } else {
        joined_names(names.drop_last()) + seq![' '] + names.last()@
    }
}

/// The copyright notice: name and version, the license text, then the
/// authors.
pub open spec fn copyright_text(name: Seq<char>, vers: Seq<char>, license: Seq<char>, auth: Seq<&str>) -> Seq<char> {
    name + seq![' '] + vers + seq!['\n'] + license + "Written by "@ + joined_names(auth) + seq!['\n']
}

/// The two lines printed when a program gets no arguments.
pub open spec fn missing_arguments_text(name: Seq<char>) -> Seq<char> {
    name + ": Missing arguments\nTry '"@ + name + " --help' for more information"@
}

impl Prog {
    /// The copyright notice: `"{name} {vers}\n{license}Written by {authors}\n"`,
    /// the authors joined by single spaces.
    pub fn copyright(&self, license: &str, auth: &[&str]) -> (r: String)
        ensures
            r@ == copyright_text(self.name@, self.vers@, license@, auth@),
    {
        let space = " ";
        let newline = "\n";
        proof {
            reveal_strlit(" ");
            reveal_strlit("\n");
        }
        let mut out = self.name.to_owned();
        out.append(space);
        out.append(self.vers);
        out.append(newline);
        out.append(license);
        out.append("Written by ");
        let ghost head = out@;
        let mut i: usize = 0;
        while i < auth.len()
            invariant
                0 <= i <= auth@.len(),
                space@ == seq![' '],
                out@ == head + joined_names(auth@.take(i as int)),
            decreases auth@.len() - i,
        {
            if i > 0 {
                out.append(space);
            }
            out.append(auth[i]);
            assert(auth@.take(i + 1).drop_last() =~= auth@.take(i as int));
            i = i + 1;
        }
        assert(auth@.take(auth@.len() as int) =~= auth@);
        out.append(newline);
        assert(space@ =~= seq![' ']);
        assert(newline@ =~= seq!['\n']);
        out
    }

    /// The report for a program that got no arguments: two lines that name
    /// the program and point to `--help`, and the status `ArgError`.
    pub fn prog_try(&self) -> (r: Report)
        ensures
            r.message@ == missing_arguments_text(self.name@),
            r.status == ExitStatus::ArgError,
    {
        let mut out = self.name.to_owned();
        out.append(": Missing arguments\nTry '");
        out.append(self.name);
        out.append(" --help' for more information");
        Report { message: out, status: ExitStatus::ArgError }
    }
}

} // verus!
