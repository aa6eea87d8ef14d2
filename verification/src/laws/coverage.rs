//! The receipts of a package and its files match: every receipt names a file
//! of the package, and every file but the relationship parts and the
//! manifest has a receipt.

use crate::layout::{
    comments_path, dir_entry, doc_props_entries, doc_props_receipts, file_entry,
    leading_entries, leading_receipts, manifest_entry, optional_file, optional_receipt,
    package_entries, package_receipts, part_entry, sheet_order, sheet_path, sheet_rels_path,
    sheets_entries, sheets_receipts, worksheet_entries, worksheet_receipts,
    worksheet_relationships, xl_entries, xl_receipts, xl_relationships,
};
use crate::model::{SheetEntry, Workbook, Worksheet, Xl};
use crate::relationships::relationships_text;
use crate::rtype::RType;
use vstd::prelude::*;

verus! {

/// Whether `name` is that of a relationship part or of the manifest: the
/// files of a package that no receipt is made for.
pub open spec fn is_bookkeeping(name: Seq<char>) -> bool {
    ||| name == "xl/_rels/workbook.xml.rels"@
    ||| name == "[Content_Types].xml"@
    ||| exists|k: nat| name == #[trigger] sheet_rels_path(k)
}

/// Whether `receipts` hold a receipt for `name`.
pub open spec fn has_receipt(receipts: Seq<(Seq<char>, RType)>, name: Seq<char>) -> bool {
    exists|i: int| 0 <= i < receipts.len() && (#[trigger] receipts[i]).0 == name
}

/// Whether `entries` hold a file at `name`.
pub open spec fn has_file(entries: Seq<(Seq<char>, Option<Seq<u8>>)>, name: Seq<char>) -> bool {
    exists|j: int| 0 <= j < entries.len() && (#[trigger] entries[j]).0 == name && entries[j].1 is Some
}

/// Whether receipts and files match: every receipt names a file, and every
/// file that is not bookkeeping has a receipt.
pub open spec fn matched(
    entries: Seq<(Seq<char>, Option<Seq<u8>>)>,
    receipts: Seq<(Seq<char>, RType)>,
) -> bool {
    &&& forall|i: int| 0 <= i < receipts.len() ==> has_file(entries, (#[trigger] receipts[i]).0)
    &&& forall|j: int|
        0 <= j < entries.len() && (#[trigger] entries[j]).1 is Some ==> has_receipt(
            receipts,
            entries[j].0,
        ) || is_bookkeeping(entries[j].0)
}

/// What matches in two pieces matches as a whole.
proof fn lemma_matched_concat(
    e1: Seq<(Seq<char>, Option<Seq<u8>>)>,
    r1: Seq<(Seq<char>, RType)>,
    e2: Seq<(Seq<char>, Option<Seq<u8>>)>,
    r2: Seq<(Seq<char>, RType)>,
)
    requires
        matched(e1, r1),
        matched(e2, r2),
    ensures
        matched(e1 + e2, r1 + r2),
{
    let e = e1 + e2;
    let r = r1 + r2;
    assert forall|i: int| 0 <= i < r.len() implies has_file(e, (#[trigger] r[i]).0) by {
        if i < r1.len() {
            assert(r[i] == r1[i]);
            let j = choose|j: int|
                0 <= j < e1.len() && (#[trigger] e1[j]).0 == r1[i].0 && e1[j].1 is Some;
            assert(e[j] == e1[j]);
        } else {
            assert(r[i] == r2[i - r1.len()]);
            let j = choose|j: int|
                0 <= j < e2.len() && (#[trigger] e2[j]).0 == r2[i - r1.len()].0 && e2[j].1 is Some;
            assert(e[e1.len() + j] == e2[j]);
        }
    }
    assert forall|j: int| 0 <= j < e.len() && (#[trigger] e[j]).1 is Some implies has_receipt(
        r,
        e[j].0,
    ) || is_bookkeeping(e[j].0) by {
        if j < e1.len() {
            assert(e[j] == e1[j]);
            if has_receipt(r1, e1[j].0) {
                let i = choose|i: int| 0 <= i < r1.len() && (#[trigger] r1[i]).0 == e1[j].0;
                assert(r[i] == r1[i]);
            }
        } else {
            let m = j - e1.len();
            assert(e[j] == e2[m]);
            if has_receipt(r2, e2[m].0) {
                let i = choose|i: int| 0 <= i < r2.len() && (#[trigger] r2[i]).0 == e2[m].0;
                assert(r[r1.len() + i] == r2[i]);
            }
        }
    }
}

/// An optional part and its receipt match.
proof fn lemma_optional_matched(path: Seq<char>, rtype: RType, part: Option<String>)
    ensures
        matched(optional_file(path, part), optional_receipt(path, rtype, part)),
{
    let e = optional_file(path, part);
    let r = optional_receipt(path, rtype, part);
    if part is Some {
        assert(e[0].0 == path && e[0].1 is Some);
        assert(r[0].0 == path);
    }
}

/// A part and its receipt match.
proof fn lemma_part_matched(path: Seq<char>, rtype: RType, body: Seq<char>)
    ensures
        matched(seq![part_entry(path, body)], seq![(path, rtype)]),
{
    let e = seq![part_entry(path, body)];
    let r = seq![(path, rtype)];
    assert(e[0].0 == path && e[0].1 is Some);
    assert(r[0].0 == path);
}

/// A directory matches no receipt, and needs none.
proof fn lemma_directory_matched(path: Seq<char>)
    ensures
        matched(seq![dir_entry(path)], Seq::empty()),
{
    assert(seq![dir_entry(path)][0].1 is None);
}

/// The entries and the receipts of the document properties match.
proof fn lemma_doc_props_matched(wb: Workbook)
    ensures
        matched(doc_props_entries(wb.doc_props), doc_props_receipts(wb.doc_props)),
{
    let d = wb.doc_props;
    let none = Seq::<(Seq<char>, RType)>::empty();
    let e1 = optional_file("docProps/app.xml"@, d.app);
    let e2 = optional_file("docProps/core.xml"@, d.core);
    let e3 = optional_file("docProps/custom.xml"@, d.custom);
    let r1 = optional_receipt("docProps/app.xml"@, RType::DocPropApp, d.app);
    let r2 = optional_receipt("docProps/core.xml"@, RType::DocPropCore, d.core);
    let r3 = optional_receipt("docProps/custom.xml"@, RType::DocPropCustom, d.custom);
    if d.spec_is_empty() {
        assert(doc_props_receipts(d) =~= none);
    } else {
        let e0 = seq![dir_entry("docProps"@)];
        lemma_directory_matched("docProps"@);
        lemma_optional_matched("docProps/app.xml"@, RType::DocPropApp, d.app);
        lemma_optional_matched("docProps/core.xml"@, RType::DocPropCore, d.core);
        lemma_optional_matched("docProps/custom.xml"@, RType::DocPropCustom, d.custom);
        lemma_matched_concat(e0, none, e1, r1);
        lemma_matched_concat(e0 + e1, none + r1, e2, r2);
        lemma_matched_concat(e0 + e1 + e2, none + r1 + r2, e3, r3);
        assert(none + r1 + r2 + r3 =~= doc_props_receipts(d));
    }
}

/// The entries and the receipts that open a workbook section match.
proof fn lemma_leading_matched(xl: Xl)
    ensures
        matched(leading_entries(xl), leading_receipts(xl)),
{
    let none = Seq::<(Seq<char>, RType)>::empty();
    let e0 = seq![dir_entry("xl"@)];
    let e1 = optional_file("xl/sharedStrings.xml"@, xl.sst);
    let r1 = optional_receipt("xl/sharedStrings.xml"@, RType::Sst, xl.sst);
    let e2 = seq![part_entry("xl/styles.xml"@, xl.styles->0@)];
    let r2 = seq![("xl/styles.xml"@, RType::Style)];
    let e3 = if xl.theme is Some {
        seq![dir_entry("xl/theme"@)]
    } else {
        Seq::empty()
    };
    let e4 = optional_file("xl/theme/theme1.xml"@, xl.theme);
    let r4 = optional_receipt("xl/theme/theme1.xml"@, RType::Theme, xl.theme);
    let e5 = seq![dir_entry("xl/worksheets"@)];
    let e6 = seq![dir_entry("xl/worksheets/_rels"@)];
    lemma_directory_matched("xl"@);
    lemma_optional_matched("xl/sharedStrings.xml"@, RType::Sst, xl.sst);
    lemma_part_matched("xl/styles.xml"@, RType::Style, xl.styles->0@);
    lemma_directory_matched("xl/theme"@);
    assert(matched(e3, none));
    lemma_optional_matched("xl/theme/theme1.xml"@, RType::Theme, xl.theme);
    lemma_directory_matched("xl/worksheets"@);
    lemma_directory_matched("xl/worksheets/_rels"@);
    lemma_matched_concat(e0, none, e1, r1);
    lemma_matched_concat(e0 + e1, none + r1, e2, r2);
    lemma_matched_concat(e0 + e1 + e2, none + r1 + r2, e3, none);
    lemma_matched_concat(e0 + e1 + e2 + e3, none + r1 + r2 + none, e4, r4);
    lemma_matched_concat(e0 + e1 + e2 + e3 + e4, none + r1 + r2 + none + r4, e5, none);
    lemma_matched_concat(
        e0 + e1 + e2 + e3 + e4 + e5,
        none + r1 + r2 + none + r4 + none,
        e6,
        none,
    );
    assert(e0 + e1 + e2 + e3 + e4 + e5 + e6 =~= leading_entries(xl));
    assert(none + r1 + r2 + none + r4 + none + none =~= leading_receipts(xl));
}

/// The entries and the receipts of one worksheet match.
proof fn lemma_worksheet_matched(ws: Worksheet, idx: nat)
    ensures
        matched(worksheet_entries(ws, idx), worksheet_receipts(ws, idx)),
{
    let none = Seq::<(Seq<char>, RType)>::empty();
    let e1 = optional_file(comments_path(idx), ws.comments);
    let r1 = optional_receipt(comments_path(idx), RType::Comments, ws.comments);
    let e2 = seq![part_entry(sheet_path(idx), ws.worksheet_part@)];
    let r2 = seq![(sheet_path(idx), RType::Worksheet)];
    let e3 = seq![
        file_entry(sheet_rels_path(idx), relationships_text(worksheet_relationships(ws, idx))),
    ];
    lemma_optional_matched(comments_path(idx), RType::Comments, ws.comments);
    lemma_part_matched(sheet_path(idx), RType::Worksheet, ws.worksheet_part@);
    assert(matched(e3, none)) by {
        assert(e3[0].0 == sheet_rels_path(idx));
        assert(is_bookkeeping(e3[0].0));
    }
    lemma_matched_concat(e1, r1, e2, r2);
    lemma_matched_concat(e1 + e2, r1 + r2, e3, none);
    assert(e1 + e2 + e3 =~= worksheet_entries(ws, idx));
    assert(r1 + r2 + none =~= worksheet_receipts(ws, idx));
}

/// The entries and the receipts of the worksheets match.
proof fn lemma_sheets_matched(sheets: Seq<SheetEntry>, order: Seq<int>)
    ensures
        matched(sheets_entries(sheets, order), sheets_receipts(sheets, order)),
    decreases order.len(),
{
    if order.len() > 0 {
        let ws = sheets[order.last()].sheet;
        lemma_sheets_matched(sheets, order.drop_last());
        lemma_worksheet_matched(ws, order.len());
        lemma_matched_concat(
            sheets_entries(sheets, order.drop_last()),
            sheets_receipts(sheets, order.drop_last()),
            worksheet_entries(ws, order.len()),
            worksheet_receipts(ws, order.len()),
        );
    }
}

/// The receipts of a package and its files match: every receipt, and so
/// every override of the manifest, names a file that the package holds, and
/// every file of the package but its relationship parts and the manifest
/// itself has a receipt.
pub proof fn lemma_receipts_match_files(wb: Workbook)
    ensures
        matched(package_entries(wb), package_receipts(wb)),
{
    let xl = wb.xl;
    let none = Seq::<(Seq<char>, RType)>::empty();
    let order = sheet_order(xl);
    let e0 = doc_props_entries(wb.doc_props);
    let r0 = doc_props_receipts(wb.doc_props);
    let e1 = leading_entries(xl);
    let r1 = leading_receipts(xl);
    let e2 = sheets_entries(xl.worksheets@, order);
    let r2 = sheets_receipts(xl.worksheets@, order);
    let e3 = seq![part_entry("xl/workbook.xml"@, xl.workbook_part->0.xml@)];
    let r3 = seq![("xl/workbook.xml"@, RType::Workbook)];
    let e4 = seq![dir_entry("xl/_rels"@)];
    let e5 = seq![
        file_entry("xl/_rels/workbook.xml.rels"@, relationships_text(xl_relationships(xl))),
    ];
    let e6 = seq![manifest_entry(package_receipts(wb))];
    lemma_doc_props_matched(wb);
    lemma_leading_matched(xl);
    lemma_sheets_matched(xl.worksheets@, order);
    lemma_part_matched("xl/workbook.xml"@, RType::Workbook, xl.workbook_part->0.xml@);
    lemma_directory_matched("xl/_rels"@);
    assert(matched(e5, none)) by {
        assert(is_bookkeeping(e5[0].0));
    }
    assert(matched(e6, none)) by {
        assert(is_bookkeeping(e6[0].0));
    }
    lemma_matched_concat(e0, r0, e1, r1);
    lemma_matched_concat(e0 + e1, r0 + r1, e2, r2);
    lemma_matched_concat(e0 + e1 + e2, r0 + r1 + r2, e3, r3);
    lemma_matched_concat(e0 + e1 + e2 + e3, r0 + r1 + r2 + r3, e4, none);
    lemma_matched_concat(e0 + e1 + e2 + e3 + e4, r0 + r1 + r2 + r3 + none, e5, none);
    lemma_matched_concat(
        e0 + e1 + e2 + e3 + e4 + e5,
        r0 + r1 + r2 + r3 + none + none,
        e6,
        none,
    );
    assert(e0 + e1 + e2 + e3 + e4 + e5 + e6 =~= package_entries(wb));
    assert(r0 + r1 + r2 + r3 + none + none + none =~= package_receipts(wb));
}

} // verus!
