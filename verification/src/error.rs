//! The error type shared by the compiler and the virtual machine.
//!
//! Every fallible operation returns immediately to its caller; there is no
//! recovery or retry. A compile-time failure aborts compilation before any
//! machine is constructed, and a runtime failure aborts the run.
use vstd::prelude::*;

verus! {

use vstd::string::StringExecFns;

/// The user-facing text of a phase.
pub open spec fn kind_text(k: ErrorKind) -> Seq<char> {
    match k {
        ErrorKind::Parser => "Parser error"@,
        ErrorKind::Compiler => "Compiler error"@,
        ErrorKind::Eval => "Eval error"@,
    }
}

/// Which phase of the toolchain an [`Error`] came from.
#[derive(Clone, Copy, PartialEq, Eq, Structural, Debug)]
pub enum ErrorKind {
    /// The front end rejected the source text.
    Parser,
    /// The syntax tree did not match a construct the compiler accepts.
    Compiler,
    /// The virtual machine failed while executing an instruction.
    Eval,
}

/// A failure, tagged with its phase and a short description of the
/// construct or instruction that caused it.
#[derive(Clone, Copy, Debug)]
pub struct Error {
    location: &'static str,
    kind: ErrorKind,
}

impl Error {
    /// The phase this error came from.
    pub closed spec fn kind_spec(&self) -> ErrorKind {
        self.kind
    }

    /// The short description this error carries.
    pub closed spec fn location_spec(&self) -> &'static str {
        self.location
    }

    pub fn kind(&self) -> (k: ErrorKind)
        ensures
            k == self.kind_spec(),
    {
        self.kind
    }

    pub fn location(&self) -> (l: &'static str)
        ensures
            l == self.location_spec(),
    {
        self.location
    }

    /// The report for a user: the phase's text, an `@`, and the place.
    pub fn describe(&self) -> (s: String)
        ensures
            s@ == kind_text(self.kind_spec()) + "@"@ + self.location_spec()@,
    {
        proof {
            reveal_strlit("Parser error");
            reveal_strlit("Compiler error");
            reveal_strlit("Eval error");
            reveal_strlit("@");
        }
        let mut s: String = match self.kind {
            ErrorKind::Parser => "Parser error".to_owned(),
            ErrorKind::Compiler => "Compiler error".to_owned(),
            ErrorKind::Eval => "Eval error".to_owned(),
        };
        s.append("@");
        s.append(self.location);
        s
    }

    /// A front-end failure at the described place.
    pub fn parser(location: &'static str) -> (e: Error)
        ensures
            e.kind_spec() == ErrorKind::Parser,
            e.location_spec() == location,
    {
        Error { location, kind: ErrorKind::Parser }
    }

    /// A compile-time failure at the described construct.
    pub fn compiler(location: &'static str) -> (e: Error)
        ensures
            e.kind_spec() == ErrorKind::Compiler,
            e.location_spec() == location,
    {
        Error { location, kind: ErrorKind::Compiler }
    }

    /// A runtime failure at the described instruction.
    pub fn eval(location: &'static str) -> (e: Error)
        ensures
            e.kind_spec() == ErrorKind::Eval,
            e.location_spec() == location,
    {
        Error { location, kind: ErrorKind::Eval }
    }
}

} // verus!
