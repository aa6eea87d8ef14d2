//! What a package holds, stated over the document: the entries of the
//! archive, the receipts, and the relationships of each scope.

use crate::archive::directory_name;
use crate::content_types::{content_types_text, default_table, overrides_of};
use crate::decimal::decimal;
use crate::model::{emitted, ids_view, DocProps, SheetEntry, Workbook, Worksheet, Xl};
use crate::relationships::{internal_relationship, relationships_text, Relationship};
use crate::rtype::RType;
use crate::xml::declaration;
use vstd::prelude::*;
use vstd::utf8::encode_utf8;

verus! {

/// The entry of a file at `path` that holds `text` in UTF-8.
pub open spec fn file_entry(path: Seq<char>, text: Seq<char>) -> (Seq<char>, Option<Seq<u8>>) {
    (path, Some(encode_utf8(text)))
}

/// The entry of a part at `path` whose body is `body`: a file that holds the
/// declaration and then the body, in UTF-8.
pub open spec fn part_entry(path: Seq<char>, body: Seq<char>) -> (Seq<char>, Option<Seq<u8>>) {
    file_entry(path, declaration() + body)
}

/// The entry of the directory `path`.
pub open spec fn dir_entry(path: Seq<char>) -> (Seq<char>, Option<Seq<u8>>) {
    (directory_name(path), None)
}

/// The entry of an optional part: one file where the part is there, nothing
/// where it is not.
pub open spec fn optional_file(path: Seq<char>, part: Option<String>) -> Seq<
    (Seq<char>, Option<Seq<u8>>),
> {
    match part {
        Some(text) => seq![part_entry(path, text@)],
        None => Seq::empty(),
    }
}

/// The receipt of an optional part.
pub open spec fn optional_receipt(path: Seq<char>, rtype: RType, part: Option<String>) -> Seq<
    (Seq<char>, RType),
> {
    match part {
        Some(_) => seq![(path, rtype)],
        None => Seq::empty(),
    }
}

/// The entries of the document properties: nothing at all where the document
/// has none, else the directory and one file for each that is there.
pub open spec fn doc_props_entries(d: DocProps) -> Seq<(Seq<char>, Option<Seq<u8>>)> {
    if d.spec_is_empty() {
        Seq::empty()
    } else {
        seq![dir_entry("docProps"@)] + optional_file("docProps/app.xml"@, d.app) + optional_file(
            "docProps/core.xml"@,
            d.core,
        ) + optional_file("docProps/custom.xml"@, d.custom)
    }
}

/// The receipts of the document properties.
pub open spec fn doc_props_receipts(d: DocProps) -> Seq<(Seq<char>, RType)> {
    optional_receipt("docProps/app.xml"@, RType::DocPropApp, d.app) + optional_receipt(
        "docProps/core.xml"@,
        RType::DocPropCore,
        d.core,
    ) + optional_receipt("docProps/custom.xml"@, RType::DocPropCustom, d.custom)
}

/// Where the comments of the worksheet at position `idx` lie.
pub open spec fn comments_path(idx: nat) -> Seq<char> {
    "xl/comments"@ + decimal(idx) + ".xml"@
}

/// How the worksheet at position `idx` refers to its comments.
pub open spec fn comments_target(idx: nat) -> Seq<char> {
    "../comments"@ + decimal(idx) + ".xml"@
}

/// Where the worksheet at position `idx` lies.
pub open spec fn sheet_path(idx: nat) -> Seq<char> {
    "xl/worksheets/sheet"@ + decimal(idx) + ".xml"@
}

/// How the workbook refers to the worksheet at position `idx`.
pub open spec fn sheet_target(idx: nat) -> Seq<char> {
    "worksheets/sheet"@ + decimal(idx) + ".xml"@
}

/// Where the relationships of the worksheet at position `idx` lie.
pub open spec fn sheet_rels_path(idx: nat) -> Seq<char> {
    "xl/worksheets/_rels/sheet"@ + decimal(idx) + ".xml.rels"@
}

/// The relationships of the worksheet at position `idx`: one to its comments
/// where it has any. Every worksheet counts its ids from one.
pub open spec fn worksheet_relationships(ws: Worksheet, idx: nat) -> Seq<Relationship> {
    match ws.comments {
        Some(_) => seq![internal_relationship(1, RType::Comments, comments_target(idx))],
        None => Seq::empty(),
    }
}

/// The entries of the worksheet at position `idx`: its comments where it has
/// any, its body, and its relationships, which are written even where there
/// are none.
pub open spec fn worksheet_entries(ws: Worksheet, idx: nat) -> Seq<(Seq<char>, Option<Seq<u8>>)> {
    optional_file(comments_path(idx), ws.comments) + seq![
        part_entry(sheet_path(idx), ws.worksheet_part@),
        file_entry(sheet_rels_path(idx), relationships_text(worksheet_relationships(ws, idx))),
    ]
}

/// The receipts of the worksheet at position `idx`.
pub open spec fn worksheet_receipts(ws: Worksheet, idx: nat) -> Seq<(Seq<char>, RType)> {
    optional_receipt(comments_path(idx), RType::Comments, ws.comments) + seq![
        (sheet_path(idx), RType::Worksheet),
    ]
}

/// The entries of the worksheets that `order` names by their positions in
/// `sheets`. The first is written as sheet 1, the next as sheet 2, and so on.
pub open spec fn sheets_entries(sheets: Seq<SheetEntry>, order: Seq<int>) -> Seq<
    (Seq<char>, Option<Seq<u8>>),
>
    decreases order.len(),
{
    if order.len() == 0 {
        Seq::empty()
    } else {
        sheets_entries(sheets, order.drop_last()) + worksheet_entries(
            sheets[order.last()].sheet,
            order.len(),
        )
    }
}

/// The receipts of the worksheets that `order` names.
pub open spec fn sheets_receipts(sheets: Seq<SheetEntry>, order: Seq<int>) -> Seq<
    (Seq<char>, RType),
>
    decreases order.len(),
{
    if order.len() == 0 {
        Seq::empty()
    } else {
        sheets_receipts(sheets, order.drop_last()) + worksheet_receipts(
            sheets[order.last()].sheet,
            order.len(),
        )
    }
}

/// The parts that the workbook refers to before its worksheets, as kind and
/// target: the shared strings where there are any, the style sheet, the theme
/// where there is one.
pub open spec fn leading_targets(xl: Xl) -> Seq<(RType, Seq<char>)> {
    (match xl.sst {
        Some(_) => seq![(RType::Sst, "sharedStrings.xml"@)],
        None => Seq::empty(),
    }) + seq![(RType::Style, "styles.xml"@)] + (match xl.theme {
        Some(_) => seq![(RType::Theme, "theme/theme1.xml"@)],
        None => Seq::empty(),
    })
}

/// How the workbook refers to its first `count` worksheets.
pub open spec fn sheet_targets(count: nat) -> Seq<(RType, Seq<char>)> {
    Seq::new(count, |k: int| (RType::Worksheet, sheet_target((k + 1) as nat)))
}

/// The parts that the workbook refers to, in the order in which they are
/// written: the leading ones, then `count` worksheets.
pub open spec fn workbook_targets(xl: Xl, count: nat) -> Seq<(RType, Seq<char>)> {
    leading_targets(xl) + sheet_targets(count)
}

/// The relationships that the workbook gains with its first `count`
/// worksheets, where it held `base` relationships before them.
pub open spec fn sheet_relationships(base: nat, count: nat) -> Seq<Relationship> {
    Seq::new(
        count,
        |k: int|
            internal_relationship(
                (base + k + 1) as nat,
                RType::Worksheet,
                sheet_target((k + 1) as nat),
            ),
    )
}

/// The relationships of the workbook scope: one per target, each under the
/// id of its position.
pub open spec fn relationships_of(targets: Seq<(RType, Seq<char>)>) -> Seq<Relationship> {
    Seq::new(
        targets.len(),
        |i: int| internal_relationship((i + 1) as nat, targets[i].0, targets[i].1),
    )
}

/// The worksheets of a workbook section, in the order of writing.
pub open spec fn sheet_order(xl: Xl) -> Seq<int>
    recommends
        xl.workbook_part is Some,
{
    emitted(ids_view(xl.workbook_part->0.sheet_ids@), xl.worksheets@)
}

/// The relationships of a workbook section.
pub open spec fn xl_relationships(xl: Xl) -> Seq<Relationship> {
    relationships_of(workbook_targets(xl, sheet_order(xl).len()))
}

/// The entries that open a workbook section: its directory, the shared
/// strings where there are any, the style sheet, the theme where there is
/// one, and the directories of the worksheets.
pub open spec fn leading_entries(xl: Xl) -> Seq<(Seq<char>, Option<Seq<u8>>)>
    recommends
        xl.styles is Some,
{
    seq![dir_entry("xl"@)] + optional_file("xl/sharedStrings.xml"@, xl.sst) + seq![
        part_entry("xl/styles.xml"@, xl.styles->0@),
    ] + (match xl.theme {
        Some(text) => seq![dir_entry("xl/theme"@), part_entry("xl/theme/theme1.xml"@, text@)],
        None => Seq::empty(),
    }) + seq![dir_entry("xl/worksheets"@), dir_entry("xl/worksheets/_rels"@)]
}

/// The receipts of the parts that open a workbook section.
pub open spec fn leading_receipts(xl: Xl) -> Seq<(Seq<char>, RType)> {
    optional_receipt("xl/sharedStrings.xml"@, RType::Sst, xl.sst) + seq![
        ("xl/styles.xml"@, RType::Style),
    ] + optional_receipt("xl/theme/theme1.xml"@, RType::Theme, xl.theme)
}

/// The entries of a workbook section that holds its mandatory parts.
pub open spec fn xl_entries(xl: Xl) -> Seq<(Seq<char>, Option<Seq<u8>>)>
    recommends
        xl.styles is Some,
        xl.workbook_part is Some,
{
    leading_entries(xl) + sheets_entries(xl.worksheets@, sheet_order(xl)) + seq![
        part_entry("xl/workbook.xml"@, xl.workbook_part->0.xml@),
        dir_entry("xl/_rels"@),
        file_entry("xl/_rels/workbook.xml.rels"@, relationships_text(xl_relationships(xl))),
    ]
}

/// The receipts of a workbook section that holds its mandatory parts.
pub open spec fn xl_receipts(xl: Xl) -> Seq<(Seq<char>, RType)>
    recommends
        xl.styles is Some,
        xl.workbook_part is Some,
{
    leading_receipts(xl) + sheets_receipts(xl.worksheets@, sheet_order(xl)) + seq![
        ("xl/workbook.xml"@, RType::Workbook),
    ]
}

/// The receipts of a whole package.
pub open spec fn package_receipts(wb: Workbook) -> Seq<(Seq<char>, RType)> {
    doc_props_receipts(wb.doc_props) + xl_receipts(wb.xl)
}

/// The entry of the manifest that a list of receipts asks for.
pub open spec fn manifest_entry(receipts: Seq<(Seq<char>, RType)>) -> (
    Seq<char>,
    Option<Seq<u8>>,
) {
    file_entry("[Content_Types].xml"@, content_types_text(default_table(), overrides_of(receipts)))
}

/// The entries of a whole package, in the order of staging: the document
/// properties, the workbook section, and the manifest last.
pub open spec fn package_entries(wb: Workbook) -> Seq<(Seq<char>, Option<Seq<u8>>)> {
    doc_props_entries(wb.doc_props) + xl_entries(wb.xl) + seq![
        manifest_entry(package_receipts(wb)),
    ]
}

/// The part that a workbook section lacks, if it lacks one: the style sheet
/// is looked for first.
pub open spec fn missing_part(xl: Xl) -> Option<RType> {
    if xl.styles is None {
        Some(RType::Style)
    } else if xl.workbook_part is None {
        Some(RType::Workbook)
    } else {
        None
    }
}

} // verus!
