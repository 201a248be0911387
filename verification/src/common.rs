//! Shared names and the error type of the library.
use vstd::prelude::*;

verus! {

/// Product name shown everywhere (boot screen, `--version`, UI).
pub const NAME: &'static str = "ZenvX OS";

/// The error every fallible operation of the library reports: a human-readable message.
#[derive(Debug, PartialEq, Eq)]
pub enum Error {
    /// A subsystem failed with a human-readable message.
    Msg(String),
}

impl Error {
    /// The message text, as an error display shows it.
    pub fn message(&self) -> (m: String)
        ensures
            m@ == self.msg_view(),
    {
        match self {
            Error::Msg(m) => m.clone(),
        }
    }

    /// The characters of the message.
    pub open spec fn msg_view(&self) -> Seq<char> {
        match self {
            Error::Msg(m) => m@,
        }
    }
}

} // verus!
