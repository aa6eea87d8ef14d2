//! The pieces of XML text that the package's own parts are made of.

use vstd::prelude::*;
use vstd::string::*;

verus! {

/// What stands for one character inside an attribute value: the five special
/// characters give their entities, every other character itself.
pub open spec fn escaped_char(c: char) -> Seq<char> {
    if c == '<' {
        seq!['&', 'l', 't', ';']
    } else if c == '>' {
        seq!['&', 'g', 't', ';']
    } else if c == '&' {
        seq!['&', 'a', 'm', 'p', ';']
    } else if c == '\'' {
        seq!['&', 'a', 'p', 'o', 's', ';']
    } else if c == '"' {
        seq!['&', 'q', 'u', 'o', 't', ';']
    } else {
        seq![c]
    }
}

/// The text `raw` with each character escaped, in order.
pub open spec fn escaped(raw: Seq<char>) -> Seq<char>
    decreases raw.len(),
{
    if raw.len() == 0 {
        Seq::<char>::empty()
    } else {
        escaped(raw.drop_last()) + escaped_char(raw.last())
    }
}

/// The declaration that opens every part.
pub open spec fn declaration() -> Seq<char> {
    "<?xml version=\"1.0\" encoding=\"UTF-8\" standalone=\"yes\"?>"@
}

/// One attribute as it stands inside a tag: a space, the name, and the
/// escaped value between double quotes.
pub open spec fn attribute(name: Seq<char>, value: Seq<char>) -> Seq<char> {
    " "@ + name + "=\""@ + escaped(value) + "\""@
}

/// Calls `xmlserde::escape_attr_value`, which replaces `<`, `>`, `&`, `'` and
/// `"` by their entities and keeps every other character.
#[verifier::external_body]
pub(crate) fn escape_attr_value(raw: &str) -> (r: String)
    ensures
        r@ == escaped(raw@),
{
    xmlserde::escape_attr_value(raw).into_owned()
}

/// Appends one attribute to the tag that `out` ends in.
pub fn push_attribute(out: &mut String, name: &str, value: &str)
    ensures
        final(out)@ == old(out)@ + attribute(name@, value@),
{
    let ghost before = out@;
    let safe = escape_attr_value(value);
    out.append(" ");
    out.append(name);
    out.append("=\"");
    out.append(safe.as_str());
    out.append("\"");
    assert(out@ =~= before + attribute(name@, value@));
}

} // verus!
