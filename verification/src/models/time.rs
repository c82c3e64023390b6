//! Points in time.
use vstd::prelude::*;

verus! {

/// A point in time, held as its RFC 3339 text (the form the database stores
/// and `chrono::DateTime::to_rfc3339` writes).
#[derive(Debug, Clone)]
pub struct Timestamp(pub String);

impl View for Timestamp {
    type V = Seq<char>;

    open spec fn view(&self) -> Seq<char> {
        self.0@
    }
}

impl Timestamp {
    /// The RFC 3339 text.
    pub fn rfc3339(&self) -> (s: String)
        ensures
            s@ == self@,
    {
        self.0.clone()
    }
}

} // verus!
