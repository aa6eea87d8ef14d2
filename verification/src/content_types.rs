//! The manifest that declares the content type of every part of a package.

use crate::location::{location_text, receipts_view, WriteProof};
use crate::rtype::{content_type, get_content_type, RType};
use crate::xml::{attribute, declaration, push_attribute};
use vstd::prelude::*;
use vstd::string::*;

verus! {

/// The content type of every file with a given extension.
#[derive(Debug)]
pub struct CtDefault {
    pub extension: String,
    pub content_type: String,
}

/// The content type of the part at a given path.
#[derive(Debug)]
pub struct CtOverride {
    pub part_name: String,
    pub content_type: String,
}

/// The manifest: the defaults by extension, then one override per part.
#[derive(Debug)]
pub struct ContentTypes {
    pub defaults: Vec<CtDefault>,
    pub overides: Vec<CtOverride>,
}

impl View for CtDefault {
    type V = (Seq<char>, Seq<char>);

    open spec fn view(&self) -> (Seq<char>, Seq<char>) {
        (self.extension@, self.content_type@)
    }
}

impl View for CtOverride {
    type V = (Seq<char>, Seq<char>);

    open spec fn view(&self) -> (Seq<char>, Seq<char>) {
        (self.part_name@, self.content_type@)
    }
}

/// The defaults of every manifest: extension and content type, in the order
/// in which they are written.
pub open spec fn default_table() -> Seq<(Seq<char>, Seq<char>)> {
    seq![
        ("bin"@, "application/vnd.ms-office.activeX"@),
        ("emf"@, "image/x-emf"@),
        ("jpeg"@, "image/jpeg"@),
        ("png"@, "image/png"@),
        ("rels"@, "application/vnd.openxmlformats-package.relationships+xml"@),
        ("vml"@, "application/vnd.openxmlformats-officedocument.vmlDrawing"@),
        ("wmf"@, "image/x-wmf"@),
        ("xml"@, "application/xml"@),
    ]
}

/// The overrides that a list of receipts asks for: for each receipt, in
/// order, its path with the content type of its kind.
pub open spec fn overrides_of(receipts: Seq<(Seq<char>, RType)>) -> Seq<(Seq<char>, Seq<char>)> {
    Seq::new(receipts.len(), |i: int| (receipts[i].0, content_type(receipts[i].1)))
}

/// The element of one default.
pub open spec fn default_element(d: (Seq<char>, Seq<char>)) -> Seq<char> {
    "<Default"@ + attribute("Extension"@, d.0) + attribute("ContentType"@, d.1) + "/>"@
}

/// The element of one override.
pub open spec fn override_element(o: (Seq<char>, Seq<char>)) -> Seq<char> {
    "<Override"@ + attribute("PartName"@, o.0) + attribute("ContentType"@, o.1) + "/>"@
}

/// The elements of all defaults, in order.
pub open spec fn default_elements(ds: Seq<(Seq<char>, Seq<char>)>) -> Seq<char>
    decreases ds.len(),
{
    if ds.len() == 0 {
        Seq::<char>::empty()
    } else {
        default_elements(ds.drop_last()) + default_element(ds.last())
    }
}

/// The elements of all overrides, in order.
pub open spec fn override_elements(os: Seq<(Seq<char>, Seq<char>)>) -> Seq<char>
    decreases os.len(),
{
    if os.len() == 0 {
        Seq::<char>::empty()
    } else {
        override_elements(os.drop_last()) + override_element(os.last())
    }
}

/// The text of the manifest part.
pub open spec fn content_types_text(
    defaults: Seq<(Seq<char>, Seq<char>)>,
    overrides: Seq<(Seq<char>, Seq<char>)>,
) -> Seq<char> {
    declaration() + "<Types xmlns=\"http://schemas.openxmlformats.org/package/2006/content-types\">"@
        + default_elements(defaults) + override_elements(overrides) + "</Types>"@
}

/// One default of the fixed table.
fn make_default(extension: &'static str, content_type: &'static str) -> (d: CtDefault)
    ensures
        d@ == (extension@, content_type@),
{
    CtDefault {
        extension: String::from_str(extension),
        content_type: String::from_str(content_type),
    }
}

/// The defaults of every manifest.
pub fn default_content_types() -> (v: Vec<CtDefault>)
    ensures
        v@.len() == default_table().len(),
        forall|i: int| 0 <= i < v@.len() ==> (#[trigger] v@[i])@ == default_table()[i],
{
    let mut v: Vec<CtDefault> = Vec::new();
    v.push(make_default("bin", "application/vnd.ms-office.activeX"));
    v.push(make_default("emf", "image/x-emf"));
    v.push(make_default("jpeg", "image/jpeg"));
    v.push(make_default("png", "image/png"));
    v.push(make_default("rels", "application/vnd.openxmlformats-package.relationships+xml"));
    v.push(make_default("vml", "application/vnd.openxmlformats-officedocument.vmlDrawing"));
    v.push(make_default("wmf", "image/x-wmf"));
    v.push(make_default("xml", "application/xml"));
    v
}

/// Appends the element of one default.
fn push_default(out: &mut String, d: &CtDefault)
    ensures
        final(out)@ == old(out)@ + default_element(d@),
{
    let ghost before = out@;
    out.append("<Default");
    push_attribute(out, "Extension", d.extension.as_str());
    push_attribute(out, "ContentType", d.content_type.as_str());
    out.append("/>");
    assert(out@ =~= before + default_element(d@));
}

/// Appends the element of one override.
fn push_override(out: &mut String, o: &CtOverride)
    ensures
        final(out)@ == old(out)@ + override_element(o@),
{
    let ghost before = out@;
    out.append("<Override");
    push_attribute(out, "PartName", o.part_name.as_str());
    push_attribute(out, "ContentType", o.content_type.as_str());
    out.append("/>");
    assert(out@ =~= before + override_element(o@));
}

impl ContentTypes {
    /// The defaults as contracts see them.
    pub open spec fn defaults_view(&self) -> Seq<(Seq<char>, Seq<char>)> {
        Seq::new(self.defaults@.len(), |i: int| self.defaults@[i]@)
    }

    /// The overrides as contracts see them.
    pub open spec fn overrides_view(&self) -> Seq<(Seq<char>, Seq<char>)> {
        Seq::new(self.overides@.len(), |i: int| self.overides@[i]@)
    }

    /// The manifest of a build: the fixed defaults, and for each receipt, in
    /// order, one override of its exact path with the content type of its
    /// kind.
    pub fn from_receipts(prooves: Vec<WriteProof>) -> (m: ContentTypes)
        ensures
            m.defaults_view() == default_table(),
            m.overrides_view() == overrides_of(receipts_view(prooves@)),
    {
        let defaults = default_content_types();
        let ghost receipts = receipts_view(prooves@);
        let mut overides: Vec<CtOverride> = Vec::new();
        let n: usize = prooves.len();
        let mut i: usize = 0;
        while i < n
            invariant
                i <= n,
                n == prooves@.len(),
                receipts == receipts_view(prooves@),
                overides@.len() == i,
                forall|k: int|
                    0 <= k < i ==> (#[trigger] overides@[k])@ == overrides_of(receipts)[k],
            decreases n - i,
        {
            let p = &prooves[i];
            let content_type = String::from_str(get_content_type(p.rtype));
            let part_name = location_text(p.path.duplicate());
            overides.push(CtOverride { part_name, content_type });
            i += 1;
        }
        let m = ContentTypes { defaults, overides };
        assert(m.defaults_view() =~= default_table());
        assert(m.overrides_view() =~= overrides_of(receipts));
        m
    }

    /// Renders the manifest part.
    pub fn to_xml(&self) -> (s: String)
        ensures
            s@ == content_types_text(self.defaults_view(), self.overrides_view()),
    {
        let mut out = String::from_str("<?xml version=\"1.0\" encoding=\"UTF-8\" standalone=\"yes\"?>");
        out.append("<Types xmlns=\"http://schemas.openxmlformats.org/package/2006/content-types\">");
        let ghost head = out@;
        let n: usize = self.defaults.len();
        let mut i: usize = 0;
        while i < n
            invariant
                i <= n,
                n == self.defaults@.len(),
                out@ == head + default_elements(self.defaults_view().take(i as int)),
            decreases n - i,
        {
            push_default(&mut out, &self.defaults[i]);
            proof {
                let next = self.defaults_view().take(i as int + 1);
                assert(next.drop_last() =~= self.defaults_view().take(i as int));
                assert(next.last() == self.defaults@[i as int]@);
                assert(out@ =~= head + default_elements(next));
            }
            i += 1;
        }
        assert(self.defaults_view().take(n as int) =~= self.defaults_view());
        let ghost middle = out@;
        let m: usize = self.overides.len();
        let mut j: usize = 0;
        while j < m
            invariant
                j <= m,
                m == self.overides@.len(),
                out@ == middle + override_elements(self.overrides_view().take(j as int)),
            decreases m - j,
        {
            push_override(&mut out, &self.overides[j]);
            proof {
                let next = self.overrides_view().take(j as int + 1);
                assert(next.drop_last() =~= self.overrides_view().take(j as int));
                assert(next.last() == self.overides@[j as int]@);
                assert(out@ =~= middle + override_elements(next));
            }
            j += 1;
        }
        assert(self.overrides_view().take(m as int) =~= self.overrides_view());
        out.append("</Types>");
        assert(out@ =~= content_types_text(self.defaults_view(), self.overrides_view()));
        out
    }
}

} // verus!
