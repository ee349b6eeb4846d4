use vstd::prelude::*;

verus! {

/// An error raised while obtaining data from the conference backend.
/// It carries a human-readable description.
#[derive(Debug)]
pub struct Error {
    inner: String,
}

impl View for Error {
    type V = Seq<char>;

    /// The description the error was created with.
    closed spec fn view(&self) -> Seq<char> {
        self.inner@
    }
}

impl Error {
    /// Creates an error with the given description.
    pub fn new(msg: &str) -> (e: Error)
        ensures
            e@ == msg@,
    {
        Error { inner: String::from_str(msg) }
    }

    /// The description the error was created with.
    pub fn description(&self) -> (d: &str)
        ensures
            d@ == self@,
    {
        self.inner.as_str()
    }

    /// The text shown to a user for any such error; it does not depend on
    /// the description.
    pub fn to_string(&self) -> (s: String)
        ensures
            s@ == display_text(),
    {
        String::from_str("Error obtaining data from backend")
    }
}

/// The fixed text that every [`Error`] displays as.
pub open spec fn display_text() -> Seq<char> {
    "Error obtaining data from backend"@
}

} // verus!
