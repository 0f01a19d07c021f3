//! The identifier that MPD gives to an entry of its queue.

use crate::text::same_text;
use vstd::prelude::*;
use vstd::std_specs::cmp::PartialEqSpecImpl;

verus! {

/// The identifier of an entry of MPD's queue: text that only MPD reads.
#[derive(Debug)]
pub struct Id(pub String);

impl View for Id {
    type V = Seq<char>;

    open spec fn view(&self) -> Seq<char> {
        self.0@
    }
}

impl Id {
    /// The identifier that `s` writes. Every text is one.
    pub fn from_text(s: &str) -> (id: Self)
        ensures
            id@ == s@,
    {
        Id(s.to_owned())
    }

    /// The text of this identifier.
    pub fn as_str(&self) -> (s: &str)
        ensures
            s@ == self@,
    {
        self.0.as_str()
    }
}

impl Clone for Id {
    fn clone(&self) -> (id: Self)
        ensures
            id@ == self@,
    {
        Id(self.0.clone())
    }
}

impl PartialEq for Id {
    fn eq(&self, other: &Self) -> (r: bool) {
        same_text(self.0.as_str(), other.0.as_str())
    }
}

impl PartialEqSpecImpl for Id {
    open spec fn obeys_eq_spec() -> bool {
        true
    }

    open spec fn eq_spec(&self, other: &Self) -> bool {
        self@ == other@
    }
}

impl Eq for Id {

}

impl std::str::FromStr for Id {
    type Err = std::convert::Infallible;

    /// Reads an identifier: every text is one, so this never fails.
    fn from_str(s: &str) -> (r: Result<Self, std::convert::Infallible>)
        ensures
            r is Ok,
            r->Ok_0@ == s@,
    {
        Ok(Id::from_text(s))
    }
}

} // verus!
