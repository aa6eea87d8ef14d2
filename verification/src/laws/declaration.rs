//! Every file of a package begins with the declaration.

use crate::content_types::content_types_text;
use crate::layout::{
    comments_path, dir_entry, doc_props_entries, file_entry, leading_entries, manifest_entry,
    optional_file, package_entries, package_receipts, part_entry, sheet_order, sheet_path,
    sheet_rels_path, sheets_entries, worksheet_entries, worksheet_relationships,
    xl_relationships,
};
use crate::model::{SheetEntry, Workbook, Worksheet, Xl};
use crate::relationships::{relationships_text, Relationship};
use crate::xml::declaration;
use vstd::prelude::*;
use vstd::utf8::encode_utf8;

verus! {

/// Whether `bytes` hold `text` in UTF-8, and `text` begins with the
/// declaration.
pub open spec fn holds_declared(bytes: Seq<u8>, text: Seq<char>) -> bool {
    bytes == encode_utf8(text) && declaration().is_prefix_of(text)
}

/// Whether an entry, where it is a file, holds a text in UTF-8 that begins
/// with the declaration.
pub open spec fn is_declared(entry: (Seq<char>, Option<Seq<u8>>)) -> bool {
    entry.1 matches Some(bytes) ==> exists|text: Seq<char>| holds_declared(bytes, text)
}

/// Whether every file among `entries` begins with the declaration.
pub open spec fn all_declared(entries: Seq<(Seq<char>, Option<Seq<u8>>)>) -> bool {
    forall|i: int| 0 <= i < entries.len() ==> is_declared(#[trigger] entries[i])
}

/// What holds of two lists holds of both together.
proof fn lemma_declared_concat(
    a: Seq<(Seq<char>, Option<Seq<u8>>)>,
    b: Seq<(Seq<char>, Option<Seq<u8>>)>,
)
    requires
        all_declared(a),
        all_declared(b),
    ensures
        all_declared(a + b),
{
    assert forall|i: int| 0 <= i < (a + b).len() implies is_declared(#[trigger] (a + b)[i]) by {
        if i < a.len() {
            assert((a + b)[i] == a[i]);
        } else {
            assert((a + b)[i] == b[i - a.len()]);
        }
    }
}

/// A file that holds a text behind the declaration begins with the
/// declaration.
proof fn lemma_file_declared(path: Seq<char>, rest: Seq<char>)
    ensures
        is_declared(file_entry(path, declaration() + rest)),
        all_declared(seq![file_entry(path, declaration() + rest)]),
{
    let text = declaration() + rest;
    let entry = file_entry(path, text);
    assert(text.subrange(0, declaration().len() as int) =~= declaration());
    assert(declaration().is_prefix_of(text));
    assert(entry.1 == Some(encode_utf8(text)));
    assert(holds_declared(entry.1->0, text));
    assert(is_declared(entry));
    assert(seq![entry][0] == entry);
}

/// An optional part, where it is there, begins with the declaration.
proof fn lemma_optional_declared(path: Seq<char>, part: Option<String>)
    ensures
        all_declared(optional_file(path, part)),
{
    if part is Some {
        lemma_file_declared(path, part->0@);
    }
}

/// A relationship part begins with the declaration.
proof fn lemma_relationships_declared(path: Seq<char>, rels: Seq<Relationship>)
    ensures
        all_declared(seq![file_entry(path, relationships_text(rels))]),
{
    let rest = relationships_text(rels).skip(declaration().len() as int);
    assert(relationships_text(rels) =~= declaration() + rest);
    lemma_file_declared(path, rest);
}

/// The files of one worksheet begin with the declaration.
proof fn lemma_worksheet_declared(ws: Worksheet, idx: nat)
    ensures
        all_declared(worksheet_entries(ws, idx)),
{
    let e1 = optional_file(comments_path(idx), ws.comments);
    let e2 = seq![part_entry(sheet_path(idx), ws.worksheet_part@)];
    let e3 = seq![
        file_entry(sheet_rels_path(idx), relationships_text(worksheet_relationships(ws, idx))),
    ];
    lemma_optional_declared(comments_path(idx), ws.comments);
    lemma_file_declared(sheet_path(idx), ws.worksheet_part@);
    lemma_relationships_declared(sheet_rels_path(idx), worksheet_relationships(ws, idx));
    lemma_declared_concat(e1, e2);
    lemma_declared_concat(e1 + e2, e3);
    assert(e1 + e2 + e3 =~= worksheet_entries(ws, idx));
}

/// The files of the worksheets begin with the declaration.
proof fn lemma_sheets_declared(sheets: Seq<SheetEntry>, order: Seq<int>)
    ensures
        all_declared(sheets_entries(sheets, order)),
    decreases order.len(),
{
    if order.len() > 0 {
        lemma_sheets_declared(sheets, order.drop_last());
        lemma_worksheet_declared(sheets[order.last()].sheet, order.len());
        lemma_declared_concat(
            sheets_entries(sheets, order.drop_last()),
            worksheet_entries(sheets[order.last()].sheet, order.len()),
        );
    }
}

/// The files that open a workbook section begin with the declaration.
proof fn lemma_leading_declared(xl: Xl)
    ensures
        all_declared(leading_entries(xl)),
{
    let e0 = seq![dir_entry("xl"@)];
    let e1 = optional_file("xl/sharedStrings.xml"@, xl.sst);
    let e2 = seq![part_entry("xl/styles.xml"@, xl.styles->0@)];
    let e3 = if xl.theme is Some {
        seq![dir_entry("xl/theme"@)]
    } else {
        Seq::empty()
    };
    let e4 = optional_file("xl/theme/theme1.xml"@, xl.theme);
    let e5 = seq![dir_entry("xl/worksheets"@), dir_entry("xl/worksheets/_rels"@)];
    lemma_optional_declared("xl/sharedStrings.xml"@, xl.sst);
    lemma_file_declared("xl/styles.xml"@, xl.styles->0@);
    lemma_optional_declared("xl/theme/theme1.xml"@, xl.theme);
    assert(all_declared(e0));
    assert(all_declared(e3));
    assert(all_declared(e5));
    lemma_declared_concat(e0, e1);
    lemma_declared_concat(e0 + e1, e2);
    lemma_declared_concat(e0 + e1 + e2, e3);
    lemma_declared_concat(e0 + e1 + e2 + e3, e4);
    lemma_declared_concat(e0 + e1 + e2 + e3 + e4, e5);
    assert(e0 + e1 + e2 + e3 + e4 + e5 =~= leading_entries(xl));
}

/// The files of the document properties begin with the declaration.
proof fn lemma_doc_props_declared(wb: Workbook)
    ensures
        all_declared(doc_props_entries(wb.doc_props)),
{
    let d = wb.doc_props;
    if !d.spec_is_empty() {
        let e0 = seq![dir_entry("docProps"@)];
        let e1 = optional_file("docProps/app.xml"@, d.app);
        let e2 = optional_file("docProps/core.xml"@, d.core);
        let e3 = optional_file("docProps/custom.xml"@, d.custom);
        lemma_optional_declared("docProps/app.xml"@, d.app);
        lemma_optional_declared("docProps/core.xml"@, d.core);
        lemma_optional_declared("docProps/custom.xml"@, d.custom);
        assert(all_declared(e0));
        lemma_declared_concat(e0, e1);
        lemma_declared_concat(e0 + e1, e2);
        lemma_declared_concat(e0 + e1 + e2, e3);
    }
}

/// Every file of a package holds a text in UTF-8 that begins with the
/// declaration: the parts of the document, whose bodies are put behind it,
/// as well as the relationship parts and the manifest.
pub proof fn lemma_files_begin_with_declaration(wb: Workbook)
    ensures
        all_declared(package_entries(wb)),
{
    let xl = wb.xl;
    let order = sheet_order(xl);
    let e0 = doc_props_entries(wb.doc_props);
    let e1 = leading_entries(xl);
    let e2 = sheets_entries(xl.worksheets@, order);
    let e3 = seq![part_entry("xl/workbook.xml"@, xl.workbook_part->0.xml@)];
    let e4 = seq![dir_entry("xl/_rels"@)];
    let e5 = seq![
        file_entry("xl/_rels/workbook.xml.rels"@, relationships_text(xl_relationships(xl))),
    ];
    let e6 = seq![manifest_entry(package_receipts(wb))];
    lemma_doc_props_declared(wb);
    lemma_leading_declared(xl);
    lemma_sheets_declared(xl.worksheets@, order);
    lemma_file_declared("xl/workbook.xml"@, xl.workbook_part->0.xml@);
    lemma_relationships_declared("xl/_rels/workbook.xml.rels"@, xl_relationships(xl));
    assert(all_declared(e4));
    assert(all_declared(e6)) by {
        let text = manifest_text(wb);
        let rest = text.skip(declaration().len() as int);
        assert(text =~= declaration() + rest);
        lemma_file_declared("[Content_Types].xml"@, rest);
    }
    lemma_declared_concat(e0, e1);
    lemma_declared_concat(e0 + e1, e2);
    lemma_declared_concat(e0 + e1 + e2, e3);
    lemma_declared_concat(e0 + e1 + e2 + e3, e4);
    lemma_declared_concat(e0 + e1 + e2 + e3 + e4, e5);
    lemma_declared_concat(e0 + e1 + e2 + e3 + e4 + e5, e6);
    assert(e0 + e1 + e2 + e3 + e4 + e5 + e6 =~= package_entries(wb));
}

/// The text of the manifest of a package.
spec fn manifest_text(wb: Workbook) -> Seq<char> {
    content_types_text(
        crate::content_types::default_table(),
        crate::content_types::overrides_of(package_receipts(wb)),
    )
}

} // verus!
