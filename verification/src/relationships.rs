//! The relationships of one scope: the references that one part makes to
//! others, with the ids under which it makes them.

use crate::decimal::{decimal, to_decimal};
use crate::rtype::{get_relationship_type, relationship_type, RType};
use crate::xml::{attribute, declaration, push_attribute};
use vstd::prelude::*;
use vstd::string::*;

verus! {

/// Whether a relationship's target lies inside the package.
#[derive(Clone, Copy, Debug, PartialEq, Eq, Structural)]
pub enum StTargetMode {
    Internal,
    External,
}

/// One relationship.
#[derive(Debug)]
pub struct CtRelationship {
    pub id: String,
    pub ty: String,
    pub target: String,
    pub target_mode: StTargetMode,
}

/// A relationship as contracts see it.
pub struct Relationship {
    pub id: Seq<char>,
    pub ty: Seq<char>,
    pub target: Seq<char>,
    pub target_mode: StTargetMode,
}

impl View for CtRelationship {
    type V = Relationship;

    open spec fn view(&self) -> Relationship {
        Relationship {
            id: self.id@,
            ty: self.ty@,
            target: self.target@,
            target_mode: self.target_mode,
        }
    }
}

/// The relationships of one scope, in the order in which they were added.
#[derive(Debug)]
pub struct Relationships {
    pub relationships: Vec<CtRelationship>,
}

impl View for Relationships {
    type V = Seq<Relationship>;

    open spec fn view(&self) -> Seq<Relationship> {
        Seq::new(self.relationships@.len(), |i: int| self.relationships@[i]@)
    }
}

/// The id of the `n`-th relationship of a scope, counted from one.
pub open spec fn relationship_id(n: nat) -> Seq<char> {
    "rId"@ + decimal(n)
}

/// The relationship that `add` makes as the `n`-th of its scope.
pub open spec fn internal_relationship(n: nat, rtype: RType, target: Seq<char>) -> Relationship {
    Relationship {
        id: relationship_id(n),
        ty: relationship_type(rtype),
        target: target,
        target_mode: StTargetMode::Internal,
    }
}

/// Whether every relationship carries the id of its position: the first
/// `rId1`, the second `rId2`, and so on without a gap.
pub open spec fn sequential(rels: Seq<Relationship>) -> bool {
    forall|i: int| 0 <= i < rels.len() ==> (#[trigger] rels[i]).id == relationship_id((i + 1) as nat)
}

/// The element of one relationship. The target mode is written only where
/// the target lies outside the package.
pub open spec fn relationship_element(r: Relationship) -> Seq<char> {
    "<Relationship"@ + attribute("Id"@, r.id) + attribute("Type"@, r.ty) + attribute(
        "Target"@,
        r.target,
    ) + (if r.target_mode == StTargetMode::External {
        attribute("TargetMode"@, "External"@)
    } else {
        Seq::<char>::empty()
    }) + "/>"@
}

/// The elements of all relationships, in order.
pub open spec fn relationship_elements(rels: Seq<Relationship>) -> Seq<char>
    decreases rels.len(),
{
    if rels.len() == 0 {
        Seq::<char>::empty()
    } else {
        relationship_elements(rels.drop_last()) + relationship_element(rels.last())
    }
}

/// The text of a relationship part. An empty list still gives a part: the
/// root element with nothing inside.
pub open spec fn relationships_text(rels: Seq<Relationship>) -> Seq<char> {
    declaration()
        + "<Relationships xmlns=\"http://schemas.openxmlformats.org/package/2006/relationships\">"@
        + relationship_elements(rels) + "</Relationships>"@
}

/// Appends the element of one relationship.
fn push_relationship(out: &mut String, r: &CtRelationship)
    ensures
        final(out)@ == old(out)@ + relationship_element(r@),
{
    let ghost before = out@;
    out.append("<Relationship");
    push_attribute(out, "Id", r.id.as_str());
    push_attribute(out, "Type", r.ty.as_str());
    push_attribute(out, "Target", r.target.as_str());
    match r.target_mode {
        StTargetMode::External => {
            push_attribute(out, "TargetMode", "External");
        },
        StTargetMode::Internal => {},
    }
    out.append("/>");
    assert(out@ =~= before + relationship_element(r@));
}

impl Relationships {
    /// A scope without relationships.
    pub fn new() -> (r: Relationships)
        ensures
            r@.len() == 0,
            sequential(r@),
    {
        Relationships { relationships: Vec::new() }
    }

    /// How many relationships the scope holds.
    pub fn len(&self) -> (n: usize)
        ensures
            n == self@.len(),
    {
        self.relationships.len()
    }

    /// Adds a relationship of kind `rtype` to a part inside the package. It
    /// gets the next id of this scope: the one of its position, counted from
    /// one. A scope whose ids were sequential stays so.
    pub fn add(&mut self, rtype: RType, target: String)
        ensures
            final(self)@ == old(self)@.push(
                internal_relationship((old(self)@.len() + 1) as nat, rtype, target@),
            ),
            sequential(old(self)@) ==> sequential(final(self)@),
    {
        let ghost before = self@;
        let n: usize = self.relationships.len();
        let mut id = String::from_str("rId");
        let digits = to_decimal(n as u128 + 1);
        id.append(digits.as_str());
        let entry = CtRelationship {
            id,
            ty: String::from_str(get_relationship_type(rtype)),
            target,
            target_mode: StTargetMode::Internal,
        };
        self.relationships.push(entry);
        assert(self@ =~= before.push(
            internal_relationship((before.len() + 1) as nat, rtype, target@),
        ));
    }

    /// Renders the relationship part of the scope.
    pub fn to_xml(&self) -> (s: String)
        ensures
            s@ == relationships_text(self@),
    {
        let mut out = String::from_str("<?xml version=\"1.0\" encoding=\"UTF-8\" standalone=\"yes\"?>");
        out.append("<Relationships xmlns=\"http://schemas.openxmlformats.org/package/2006/relationships\">");
        let ghost head = out@;
        let n: usize = self.relationships.len();
        let mut i: usize = 0;
        while i < n
            invariant
                i <= n,
                n == self.relationships@.len(),
                out@ == head + relationship_elements(self@.take(i as int)),
            decreases n - i,
        {
            let ghost prev = out@;
            push_relationship(&mut out, &self.relationships[i]);
            proof {
                let next = self@.take(i as int + 1);
                assert(next.drop_last() =~= self@.take(i as int));
                assert(next.last() == self.relationships@[i as int]@);
                assert(out@ =~= head + relationship_elements(next));
            }
            i += 1;
        }
        assert(self@.take(n as int) =~= self@);
        out.append("</Relationships>");
        assert(out@ =~= relationships_text(self@));
        out
    }
}

} // verus!
