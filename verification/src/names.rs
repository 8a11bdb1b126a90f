//! Interned identifiers: package names, import paths, function names.

use vstd::prelude::*;

verus! {

/// An immutable identifier compared by content; its view is the sequence
/// of characters it holds.
#[derive(Clone, Debug, PartialEq, Eq, Hash)]
pub struct Name {
    text: String,
}

impl View for Name {
    type V = Seq<char>;

    closed spec fn view(&self) -> Seq<char> {
        self.text@
    }
}

impl Name {
    /// Interns a string slice.
    pub fn new(s: &str) -> (res: Name)
        ensures
            res@ == s@,
    {
        Name { text: s.to_owned() }
    }

    /// The name's content as a string slice.
    pub fn as_str(&self) -> (res: &str)
        ensures
            res@ == self@,
    {
        self.text.as_str()
    }

    /// Content equality against a string slice.
    pub fn eq_str(&self, other: &str) -> (res: bool)
        ensures
            res == (self@ == other@),
    {
        let owned: String = other.to_owned();
        self.text == owned
    }

    /// Content equality against another name.
    pub fn eq_name(&self, other: &Name) -> (res: bool)
        ensures
            res == (self@ == other@),
    {
        self.text == other.text
    }
}

} // verus!
