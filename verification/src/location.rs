//! Where a part lies in the archive, and the receipt that staging it yields.

use crate::rtype::RType;
use vstd::prelude::*;
use vstd::std_specs::convert::FromSpecImpl;
use vstd::string::*;

verus! {

/// A location inside the archive: a well-known one, or one that was computed.
#[derive(Debug, Clone)]
pub enum FileLocation {
    /// A fixed location.
    Ptr(&'static str),
    /// A computed location.
    Owned(String),
}

impl View for FileLocation {
    type V = Seq<char>;

    open spec fn view(&self) -> Seq<char> {
        match self {
            FileLocation::Ptr(s) => s@,
            FileLocation::Owned(s) => s@,
        }
    }
}

impl FileLocation {
    /// The location as text.
    pub fn as_str(&self) -> (s: &str)
        ensures
            s@ == self@,
    {
        match self {
            FileLocation::Ptr(s) => s,
            FileLocation::Owned(s) => s.as_str(),
        }
    }

    /// An independent copy of the location.
    pub fn duplicate(&self) -> (r: FileLocation)
        ensures
            r@ == self@,
    {
        match self {
            FileLocation::Ptr(s) => FileLocation::Ptr(s),
            FileLocation::Owned(s) => FileLocation::Owned(s.clone()),
        }
    }
}

impl From<String> for FileLocation {
    fn from(s: String) -> (r: FileLocation) {
        FileLocation::Owned(s)
    }
}

impl FromSpecImpl<String> for FileLocation {
    open spec fn obeys_from_spec() -> bool {
        true
    }

    open spec fn from_spec(s: String) -> FileLocation {
        FileLocation::Owned(s)
    }
}

impl From<&'static str> for FileLocation {
    fn from(s: &'static str) -> (r: FileLocation) {
        FileLocation::Ptr(s)
    }
}

impl FromSpecImpl<&'static str> for FileLocation {
    open spec fn obeys_from_spec() -> bool {
        true
    }

    open spec fn from_spec(s: &'static str) -> FileLocation {
        FileLocation::Ptr(s)
    }
}

impl From<FileLocation> for String {
    fn from(s: FileLocation) -> (r: String)
        ensures
            r@ == s@,
    {
        match s {
            FileLocation::Ptr(s) => String::from_str(s),
            FileLocation::Owned(s) => s,
        }
    }
}

impl FromSpecImpl<FileLocation> for String {
    /// No `String` can be named in a contract by its characters alone: the
    /// conversion states the text of its result itself.
    open spec fn obeys_from_spec() -> bool {
        false
    }

    open spec fn from_spec(s: FileLocation) -> String {
        match s {
            FileLocation::Ptr(_) => arbitrary(),
            FileLocation::Owned(s) => s,
        }
    }
}

/// The text of a location as an owned string.
pub fn location_text(s: FileLocation) -> (r: String)
    ensures
        r@ == s@,
{
    match s {
        FileLocation::Ptr(s) => String::from_str(s),
        FileLocation::Owned(s) => s,
    }
}

/// The receipt of a staged part: where it lies and of what kind it is.
pub struct WriteProof {
    pub path: FileLocation,
    pub rtype: RType,
}

impl View for WriteProof {
    type V = (Seq<char>, RType);

    open spec fn view(&self) -> (Seq<char>, RType) {
        (self.path@, self.rtype)
    }
}

/// The receipts of a list, in order.
pub open spec fn receipts_view(proofs: Seq<WriteProof>) -> Seq<(Seq<char>, RType)> {
    Seq::new(proofs.len(), |i: int| proofs[i]@)
}

} // verus!
