//! The kinds of part that a package holds, with the content type and the
//! relationship type that belong to each.

use vstd::prelude::*;

verus! {

/// The kind of a part. The set is closed: both lookups below are total.
#[derive(Clone, Copy, Debug, PartialEq, Eq, Structural)]
pub enum RType {
    /// The shared-string table.
    Sst,
    /// The comments of one worksheet.
    Comments,
    /// A worksheet.
    Worksheet,
    /// The workbook descriptor.
    Workbook,
    /// Extended ("app") document properties.
    DocPropApp,
    /// Core document properties.
    DocPropCore,
    /// Custom document properties.
    DocPropCustom,
    /// The style sheet.
    Style,
    /// A link to another workbook.
    ExtLink,
    /// The theme.
    Theme,
}

/// The content type that the manifest declares for a part of kind `rtype`.
pub open spec fn content_type(rtype: RType) -> Seq<char> {
    match rtype {
        RType::Sst => "application/vnd.openxmlformats-officedocument.spreadsheetml.sharedStrings+xml"@,
        RType::Comments => "application/vnd.openxmlformats-officedocument.spreadsheetml.comments+xml"@,
        RType::Worksheet => "application/vnd.openxmlformats-officedocument.spreadsheetml.worksheet+xml"@,
        RType::Workbook => "application/vnd.openxmlformats-officedocument.spreadsheetml.sheet.main+xml"@,
        RType::DocPropApp => "application/vnd.openxmlformats-officedocument.extended-properties+xml"@,
        RType::DocPropCore => "application/vnd.openxmlformats-package.core-properties+xml"@,
        RType::DocPropCustom => "application/vnd.openxmlformats-officedocument.custom-properties+xml"@,
        RType::Style => "application/vnd.openxmlformats-officedocument.spreadsheetml.styles+xml"@,
        RType::ExtLink => "application/vnd.openxmlformats-officedocument.spreadsheetml.externalLink+xml"@,
        RType::Theme => "application/vnd.openxmlformats-officedocument.theme+xml"@,
    }
}

/// The type that a relationship to a part of kind `rtype` carries.
pub open spec fn relationship_type(rtype: RType) -> Seq<char> {
    match rtype {
        RType::Sst => "http://schemas.openxmlformats.org/officeDocument/2006/relationships/sharedStrings"@,
        RType::Comments => "http://schemas.openxmlformats.org/officeDocument/2006/relationships/comments"@,
        RType::Worksheet => "http://schemas.openxmlformats.org/officeDocument/2006/relationships/worksheet"@,
        RType::Workbook => "http://schemas.openxmlformats.org/officeDocument/2006/relationships/officeDocument"@,
        RType::DocPropApp => "http://schemas.openxmlformats.org/officeDocument/2006/relationships/extended-properties"@,
        RType::DocPropCore => "http://schemas.openxmlformats.org/package/2006/relationships/metadata/core-properties"@,
        RType::DocPropCustom => "http://schemas.openxmlformats.org/officeDocument/2006/relationships/custom-properties"@,
        RType::Style => "http://schemas.openxmlformats.org/officeDocument/2006/relationships/styles"@,
        RType::ExtLink => "http://schemas.openxmlformats.org/officeDocument/2006/relationships/externalLink"@,
        RType::Theme => "http://schemas.openxmlformats.org/officeDocument/2006/relationships/theme"@,
    }
}

/// Looks up the content type of a part kind.
pub fn get_content_type(rtype: RType) -> (s: &'static str)
    ensures
        s@ == content_type(rtype),
{
    match rtype {
        RType::Sst => "application/vnd.openxmlformats-officedocument.spreadsheetml.sharedStrings+xml",
        RType::Comments => "application/vnd.openxmlformats-officedocument.spreadsheetml.comments+xml",
        RType::Worksheet => "application/vnd.openxmlformats-officedocument.spreadsheetml.worksheet+xml",
        RType::Workbook => "application/vnd.openxmlformats-officedocument.spreadsheetml.sheet.main+xml",
        RType::DocPropApp => "application/vnd.openxmlformats-officedocument.extended-properties+xml",
        RType::DocPropCore => "application/vnd.openxmlformats-package.core-properties+xml",
        RType::DocPropCustom => "application/vnd.openxmlformats-officedocument.custom-properties+xml",
        RType::Style => "application/vnd.openxmlformats-officedocument.spreadsheetml.styles+xml",
        RType::ExtLink => "application/vnd.openxmlformats-officedocument.spreadsheetml.externalLink+xml",
        RType::Theme => "application/vnd.openxmlformats-officedocument.theme+xml",
    }
}

/// Looks up the relationship type of a part kind.
pub fn get_relationship_type(rtype: RType) -> (s: &'static str)
    ensures
        s@ == relationship_type(rtype),
{
    match rtype {
        RType::Sst => "http://schemas.openxmlformats.org/officeDocument/2006/relationships/sharedStrings",
        RType::Comments => "http://schemas.openxmlformats.org/officeDocument/2006/relationships/comments",
        RType::Worksheet => "http://schemas.openxmlformats.org/officeDocument/2006/relationships/worksheet",
        RType::Workbook => "http://schemas.openxmlformats.org/officeDocument/2006/relationships/officeDocument",
        RType::DocPropApp => "http://schemas.openxmlformats.org/officeDocument/2006/relationships/extended-properties",
        RType::DocPropCore => "http://schemas.openxmlformats.org/package/2006/relationships/metadata/core-properties",
        RType::DocPropCustom => "http://schemas.openxmlformats.org/officeDocument/2006/relationships/custom-properties",
        RType::Style => "http://schemas.openxmlformats.org/officeDocument/2006/relationships/styles",
        RType::ExtLink => "http://schemas.openxmlformats.org/officeDocument/2006/relationships/externalLink",
        RType::Theme => "http://schemas.openxmlformats.org/officeDocument/2006/relationships/theme",
    }
}

} // verus!
